//! What the test body sees of its environment.

use vstd::prelude::*;

use crate::container::RunningContainer;
use crate::error::DockerTestError;
use crate::keeper::{resolution, Keeper, ResolveError};

verus! {

/// The text of the error for resolving `h` in the test body.
pub open spec fn handle_error(h: Seq<char>, e: ResolveError) -> Seq<char> {
    match e {
        ResolveError::Collision => "handle '"@ + h + "' defined multiple times"@,
        ResolveError::NotFound => "container with handle '"@ + h + "' not found"@,
    }
}

/// The running containers of a run, by handle.
#[derive(Clone, Debug)]
pub struct DockerOperations {
    pub containers: Keeper<RunningContainer>,
}

impl DockerOperations {
    /// The view of these running containers.
    pub fn new(containers: Keeper<RunningContainer>) -> (r: DockerOperations)
        ensures
            r.containers == containers,
    {
        DockerOperations { containers }
    }

    /// The running container that `handle` resolves to, or why it resolves
    /// to none.
    pub fn try_handle(&self, handle: &str) -> (r: Result<&RunningContainer, DockerTestError>)
        requires
            self.containers.wf(),
        ensures
            resolution(self.containers.handles@, handle@) matches Ok(i) ==> r == Ok::<
                &RunningContainer,
                DockerTestError,
            >(&self.containers.kept@[i]),
            resolution(self.containers.handles@, handle@) matches Err(e) ==> r is Err && r->Err_0
                is TestBody && r->Err_0->TestBody_0@ == handle_error(handle@, e),
    {
        match self.containers.resolve(handle) {
            Ok(i) => Ok(&self.containers.kept[i]),
            Err(e) => {
                let mut m = match e {
                    ResolveError::Collision => String::from_str("handle '"),
                    ResolveError::NotFound => String::from_str("container with handle '"),
                };
                m.append(handle);
                match e {
                    ResolveError::Collision => m.append("' defined multiple times"),
                    ResolveError::NotFound => m.append("' not found"),
                }
                Err(DockerTestError::TestBody(m))
            },
        }
    }

    /// The running container that `handle` resolves to. The handle must
    /// resolve: asking for an unknown or shared handle is a fault of the test
    /// body, not an outcome to handle.
    pub fn handle(&self, handle: &str) -> (r: &RunningContainer)
        requires
            self.containers.wf(),
            resolution(self.containers.handles@, handle@) is Ok,
        ensures
            *r == self.containers.kept@[resolution(self.containers.handles@, handle@)->Ok_0],
    {
        let found = self.containers.resolve(handle);
        &self.containers.kept[found.unwrap()]
    }

    /// The error by which the test body reports that it failed with `msg`.
    pub fn failure(&self, msg: &str) -> (r: DockerTestError)
        ensures
            r is TestBody && r->TestBody_0@ == "test failure: "@ + msg@,
    {
        let mut m = String::from_str("test failure: ");
        m.append(msg);
        DockerTestError::TestBody(m)
    }
}

} // verus!
