//! The declaration of one container before it is created: its image, name,
//! environment, command, volumes, start policy and readiness strategy.

use vstd::prelude::*;

use crate::env::{is_assignment_in, EnvVars};
use crate::error::DockerTestError;
use crate::logs::LogOptions;
use crate::text::{copy_strings, dashed, join_dashed, replace_char, replaced};

verus! {

/// How a container is started relative to the others of its run.
///
/// `Strict` containers start one after the other, in the order in which they
/// were declared, and the first failure stops the rest. `Relaxed` containers
/// start concurrently with everything else.
#[derive(Clone, Copy, Debug, PartialEq, Eq, Structural)]
pub enum StartPolicy {
    /// Start concurrently with the other relaxed containers.
    Relaxed,
    /// Start in declaration order, one at a time.
    Strict,
}

/// How the run decides that a started container is ready.
#[derive(Clone, Copy, Debug, PartialEq, Eq, Structural)]
pub enum WaitFor {
    /// Ready as soon as it was started.
    NoWait,
    /// Ready once the engine reports it running.
    RunningWait,
    /// Ready once it has exited.
    ExitedWait,
    /// A strategy that the embedding program registered under this key.
    Custom(u64),
}

/// An image by repository and tag, with the identifier that the engine gave
/// it once it was present locally (empty until then).
#[derive(Clone, Debug, PartialEq)]
pub struct Image {
    pub repository: String,
    pub tag: String,
    pub retrieved_id: String,
}

impl Image {
    /// The image `repository:latest`, not yet retrieved.
    pub fn with_repository(repository: &str) -> (r: Image)
        ensures
            r.repository@ == repository@,
            r.tag@ == seq!['l', 'a', 't', 'e', 's', 't'],
            r.retrieved_id@.len() == 0,
    {
        let tag = String::from_str("latest");
        proof {
            reveal_strlit("latest");
        }
        Image { repository: String::from_str(repository), tag, retrieved_id: String::new() }
    }

    /// The repository name.
    pub fn repository(&self) -> (r: &str)
        ensures
            r@ == self.repository@,
    {
        self.repository.as_str()
    }

    /// The engine's identifier of the image, empty while it is not retrieved.
    pub fn retrieved_id(&self) -> (r: &str)
        ensures
            r@ == self.retrieved_id@,
    {
        self.retrieved_id.as_str()
    }

    /// Records the engine's identifier of the image.
    pub fn set_retrieved_id(&mut self, id: &str)
        ensures
            final(self).retrieved_id@ == id@,
            final(self).repository == old(self).repository,
            final(self).tag == old(self).tag,
    {
        self.retrieved_id = String::from_str(id);
    }
}

/// What the engine is asked to create for one composition.
#[derive(Clone, Debug)]
pub struct CreateRequest {
    /// The container name.
    pub name: String,
    /// The engine's identifier of the image.
    pub image_id: String,
    /// The environment, as `NAME=VALUE` assignments.
    pub env: Vec<String>,
    /// The command.
    pub cmd: Vec<String>,
    /// The volume mounts.
    pub volumes: Vec<String>,
    /// The network to attach the container to, if any.
    pub network_mode: Option<String>,
}

/// One container as declared by the user.
#[derive(Clone, Debug)]
pub struct Composition {
    /// The name the user gave; it sets the handle and part of the final name.
    pub user_provided_container_name: Option<String>,
    /// The name of the container; final once the run has resolved it.
    pub container_name: String,
    /// The readiness strategy.
    pub wait: WaitFor,
    /// The environment variables.
    pub env: EnvVars,
    /// The command.
    pub cmd: Vec<String>,
    /// The start policy.
    pub start_policy: StartPolicy,
    /// The image.
    pub image: Image,
    /// Named volumes as (bare volume name, path in the container).
    pub named_volumes: Vec<(String, String)>,
    /// The resolved named volumes, `suffixed_name:path`, one per named volume.
    pub final_named_volume_names: Vec<String>,
    /// Requests (handle, variable) to set the variable to the final name of
    /// the container with that handle.
    pub inject_container_name_env: Vec<(String, String)>,
    /// The log handling.
    pub log_options: Option<LogOptions>,
}

/// The handle of a composition: the name the user gave, else the repository.
pub open spec fn handle_of(c: Composition) -> Seq<char> {
    match c.user_provided_container_name {
        Some(n) => n@,
        None => c.image.repository@,
    }
}

/// The final container name of a composition in a run: namespace, handle with
/// every `/` made `_`, and suffix, joined by dashes.
pub open spec fn final_container_name(
    c: Composition,
    namespace: Seq<char>,
    suffix: Seq<char>,
) -> Seq<char> {
    dashed(namespace, replace_char(handle_of(c), '/', '_'), suffix)
}

impl Composition {
    /// The composition of `image`, as `with_repository` describes it.
    pub fn with_image(image: Image) -> (r: Composition)
        ensures
            r.image == image,
            r.user_provided_container_name is None,
            r.container_name@ == replace_char(image.repository@, '/', '-'),
            r.wait == WaitFor::NoWait,
            r.env@ == Map::<Seq<char>, Seq<char>>::empty(),
            r.cmd@.len() == 0,
            r.start_policy == StartPolicy::Relaxed,
            r.named_volumes@.len() == 0,
            r.final_named_volume_names@.len() == 0,
            r.inject_container_name_env@.len() == 0,
            r.log_options is None,
    {
        let container_name = replaced(image.repository.as_str(), '/', '-');
        Composition {
            user_provided_container_name: None,
            container_name,
            image,
            wait: WaitFor::NoWait,
            env: EnvVars::new(),
            cmd: Vec::new(),
            start_policy: StartPolicy::Relaxed,
            named_volumes: Vec::new(),
            final_named_volume_names: Vec::new(),
            inject_container_name_env: Vec::new(),
            log_options: None,
        }
    }

    /// The composition of `repository:latest`: no user name, container name
    /// the repository with `/` made `-`, no variables, no command, relaxed,
    /// ready without waiting.
    pub fn with_repository(repository: &str) -> (r: Composition)
        ensures
            r.image.repository@ == repository@,
            r.image.tag@ == seq!['l', 'a', 't', 'e', 's', 't'],
            r.image.retrieved_id@.len() == 0,
            r.user_provided_container_name is None,
            r.container_name@ == replace_char(repository@, '/', '-'),
            r.wait == WaitFor::NoWait,
            r.env@ == Map::<Seq<char>, Seq<char>>::empty(),
            r.cmd@.len() == 0,
            r.start_policy == StartPolicy::Relaxed,
            r.named_volumes@.len() == 0,
            r.final_named_volume_names@.len() == 0,
            r.inject_container_name_env@.len() == 0,
            r.log_options is None,
    {
        Composition::with_image(Image::with_repository(repository))
    }

    /// The same composition with another start policy.
    pub fn with_start_policy(self, start_policy: StartPolicy) -> (r: Composition)
        ensures
            r == (Composition { start_policy, ..self }),
    {
        Composition { start_policy, ..self }
    }

    /// The same composition with its whole environment replaced.
    pub fn with_env(self, env: EnvVars) -> (r: Composition)
        ensures
            r == (Composition { env, ..self }),
    {
        Composition { env, ..self }
    }

    /// The same composition with its whole command replaced.
    pub fn with_cmd(self, cmd: Vec<String>) -> (r: Composition)
        ensures
            r == (Composition { cmd, ..self }),
    {
        Composition { cmd, ..self }
    }

    /// The same composition under a name of the user's; the name becomes
    /// its handle.
    pub fn with_container_name(self, container_name: &str) -> (r: Composition)
        ensures
            r.user_provided_container_name matches Some(n) && n@ == container_name@,
            r == (Composition {
                user_provided_container_name: r.user_provided_container_name,
                ..self
            }),
    {
        Composition {
            user_provided_container_name: Some(String::from_str(container_name)),
            ..self
        }
    }

    /// The same composition with another readiness strategy.
    pub fn with_wait_for(self, wait: WaitFor) -> (r: Composition)
        ensures
            r == (Composition { wait, ..self }),
    {
        Composition { wait, ..self }
    }

    /// The same composition with other log handling.
    pub fn with_log_options(self, log_options: Option<LogOptions>) -> (r: Composition)
        ensures
            r == (Composition { log_options, ..self }),
    {
        Composition { log_options, ..self }
    }

    /// Sets one environment variable.
    pub fn env(&mut self, name: &str, value: &str) -> (r: &mut Composition)
        ensures
            r.env@ == old(self).env@.insert(name@, value@),
            *r == (Composition { env: r.env, ..*old(self) }),
            *final(self) == *final(r),
    {
        self.env.insert(name, value);
        self
    }

    /// Appends one argument to the command.
    pub fn cmd(&mut self, cmd: &str) -> (r: &mut Composition)
        ensures
            r.cmd@.len() == old(self).cmd@.len() + 1,
            r.cmd@.drop_last() == old(self).cmd@,
            r.cmd@.last()@ == cmd@,
            *r == (Composition { cmd: r.cmd, ..*old(self) }),
            *final(self) == *final(r),
    {
        self.cmd.push(String::from_str(cmd));
        self
    }

    /// Mounts the named volume `volume_name` at `path_in_container`.
    pub fn named_volume(&mut self, volume_name: &str, path_in_container: &str) -> (r:
        &mut Composition)
        ensures
            r.named_volumes@.len() == old(self).named_volumes@.len() + 1,
            r.named_volumes@.drop_last() == old(self).named_volumes@,
            r.named_volumes@.last().0@ == volume_name@,
            r.named_volumes@.last().1@ == path_in_container@,
            *r == (Composition { named_volumes: r.named_volumes, ..*old(self) }),
            *final(self) == *final(r),
    {
        self.named_volumes.push((String::from_str(volume_name), String::from_str(path_in_container)));
        self
    }

    /// Asks that the variable `env` be set to the final name of the container
    /// with handle `handle`.
    pub fn inject_container_name(&mut self, handle: &str, env: &str) -> (r: &mut Composition)
        ensures
            r.inject_container_name_env@.len() == old(self).inject_container_name_env@.len() + 1,
            r.inject_container_name_env@.drop_last() == old(self).inject_container_name_env@,
            r.inject_container_name_env@.last().0@ == handle@,
            r.inject_container_name_env@.last().1@ == env@,
            *r == (Composition {
                inject_container_name_env: r.inject_container_name_env,
                ..*old(self)
            }),
            *final(self) == *final(r),
    {
        self.inject_container_name_env.push((String::from_str(handle), String::from_str(env)));
        self
    }

    /// Sets the final container name for a run with this namespace and suffix.
    pub fn configure_container_name(&mut self, namespace: &str, suffix: &str)
        ensures
            final(self).container_name@ == final_container_name(*old(self), namespace@, suffix@),
            *final(self) == (Composition {
                container_name: final(self).container_name,
                ..*old(self)
            }),
    {
        let name = match &self.user_provided_container_name {
            None => self.image.repository.as_str(),
            Some(n) => n.as_str(),
        };
        let stripped = replaced(name, '/', '_');
        self.container_name = join_dashed(namespace, stripped.as_str(), suffix);
    }

    /// What to ask the engine to create for this composition, attached to
    /// `network` if given. Fails while the image was not retrieved, since
    /// the engine needs its identifier.
    pub fn create_request(&self, network: Option<&str>) -> (r: Result<CreateRequest, DockerTestError>)
        ensures
            r is Err <==> self.image.retrieved_id@.len() == 0,
            r matches Err(e) ==> e is Processing,
            r matches Ok(q) ==> {
                &&& q.name@ == self.container_name@
                &&& q.image_id@ == self.image.retrieved_id@
                &&& q.env@.len() == self.env@.len()
                &&& forall|i: int| 0 <= i < q.env@.len() ==> is_assignment_in(self.env@, (#[trigger] q.env@[i])@)
                &&& forall|k: Seq<char>| #[trigger] self.env@.dom().contains(k) ==> exists|i: int|
                    0 <= i < q.env@.len() && (#[trigger] q.env@[i])@ == k + seq!['='] + self.env@[k]
                &&& q.cmd@ == self.cmd@
                &&& q.volumes@ == self.final_named_volume_names@
                &&& (network is None ==> q.network_mode is None)
                &&& (network matches Some(n) ==> q.network_mode matches Some(m) && m@ == n@)
            },
    {
        if self.image.retrieved_id.unicode_len() == 0 {
            return Err(
                DockerTestError::Processing(
                    String::from_str("a container was to be created before its image was retrieved"),
                ),
            );
        }
        let network_mode = match network {
            Some(n) => Some(String::from_str(n)),
            None => None,
        };
        Ok(
            CreateRequest {
                name: self.container_name.clone(),
                image_id: self.image.retrieved_id.clone(),
                env: self.env.assignments(),
                cmd: copy_strings(&self.cmd),
                volumes: copy_strings(&self.final_named_volume_names),
                network_mode,
            },
        )
    }

    /// The image.
    pub fn image(&self) -> (r: &Image)
        ensures
            *r == self.image,
    {
        &self.image
    }

    /// The handle: the name the user gave, else the repository.
    pub fn handle(&self) -> (r: String)
        ensures
            r@ == handle_of(*self),
    {
        match &self.user_provided_container_name {
            None => self.image.repository.clone(),
            Some(n) => n.clone(),
        }
    }
}

} // verus!
