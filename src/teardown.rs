//! The teardown of a run: what to stop or remove, in which order, by prune
//! strategy and outcome.
//!
//! Containers go before the network, since the engine refuses to remove a
//! network that containers are attached to, and before the volumes, since it
//! refuses to remove a volume in use. Containers shared between runs are left
//! out of this decision and released through the shared pool.

use vstd::prelude::*;

use crate::container::CleanupContainer;
use crate::text::same_text;

verus! {

/// What is left of a run once its test body returned.
#[derive(Clone, Copy, Debug, PartialEq, Eq, Structural)]
pub enum PruneStrategy {
    /// Leave everything running.
    RunningRegardless,
    /// Leave everything running after a failure; remove everything after a
    /// success.
    RunningOnFailure,
    /// After a failure stop the containers and remove the network; remove
    /// everything after a success.
    StopOnFailure,
    /// Remove everything.
    RemoveRegardless,
}

/// The strategy that a lowercased setting names; an unknown one removes
/// everything.
pub open spec fn strategy_of_lowered(s: Seq<char>) -> PruneStrategy {
    if s == "stop_on_failure"@ {
        PruneStrategy::StopOnFailure
    } else if s == "never"@ {
        PruneStrategy::RunningRegardless
    } else if s == "running_on_failure"@ {
        PruneStrategy::RunningOnFailure
    } else {
        PruneStrategy::RemoveRegardless
    }
}

/// The lowercase form of `s`, as `str::to_lowercase` computes it.
pub uninterp spec fn lower_of(s: Seq<char>) -> Seq<char>;

/// Relies on `str::to_lowercase`: the lowercase form depends on the
/// characters alone.
#[verifier::external_body]
fn lowercase(s: &str) -> (r: String)
    ensures
        r@ == lower_of(s@),
{
    s.to_lowercase()
}

/// The strategy that the lowercased setting `s` names.
pub fn prune_strategy_of_lowered(s: &str) -> (r: PruneStrategy)
    ensures
        r == strategy_of_lowered(s@),
{
    if same_text(s, "stop_on_failure") {
        PruneStrategy::StopOnFailure
    } else if same_text(s, "never") {
        PruneStrategy::RunningRegardless
    } else if same_text(s, "running_on_failure") {
        PruneStrategy::RunningOnFailure
    } else {
        PruneStrategy::RemoveRegardless
    }
}

/// The strategy of a setting, whatever its case; none set removes everything.
pub fn prune_strategy_from(setting: Option<&str>) -> (r: PruneStrategy)
    ensures
        setting is None ==> r == PruneStrategy::RemoveRegardless,
        setting matches Some(s) ==> r == strategy_of_lowered(lower_of(s@)),
{
    match setting {
        None => PruneStrategy::RemoveRegardless,
        Some(s) => {
            let lowered = lowercase(s);
            prune_strategy_of_lowered(lowered.as_str())
        },
    }
}

/// Whether the strategy removes the run's containers, network and volumes
/// after this outcome.
pub open spec fn removes_everything(strategy: PruneStrategy, test_failed: bool) -> bool {
    match strategy {
        PruneStrategy::RunningRegardless => false,
        PruneStrategy::RunningOnFailure => !test_failed,
        PruneStrategy::StopOnFailure => !test_failed,
        PruneStrategy::RemoveRegardless => true,
    }
}

/// Whether the strategy only stops the containers after this outcome.
pub open spec fn stops_only(strategy: PruneStrategy, test_failed: bool) -> bool {
    strategy == PruneStrategy::StopOnFailure && test_failed
}

/// What one step of teardown does.
#[derive(Clone, Copy, Debug, PartialEq, Eq, Structural)]
pub enum StepKind {
    /// Stop the container `target`.
    StopContainer,
    /// Remove the container `target` with its anonymous volumes, by force.
    RemoveContainer,
    /// Take the container `container` off the network `target`, by force.
    DisconnectFromNetwork,
    /// Remove the network `target`.
    RemoveNetwork,
    /// Remove the volume `target`, by force.
    RemoveVolume,
}

/// One step of teardown. Each step stands alone: its failure does not keep
/// the later ones from being tried.
#[derive(Clone, Debug, PartialEq)]
pub struct TeardownStep {
    pub kind: StepKind,
    pub target: String,
    /// The container to disconnect; empty for other kinds.
    pub container: String,
}

/// What a step does, as plain values.
pub open spec fn step_view(s: TeardownStep) -> (StepKind, Seq<char>, Seq<char>) {
    (s.kind, s.target@, s.container@)
}

/// The steps of kind `kind` on the containers of `cs` that are not shared,
/// in order.
pub open spec fn container_steps(cs: Seq<CleanupContainer>, kind: StepKind) -> Seq<
    (StepKind, Seq<char>, Seq<char>),
>
    decreases cs.len(),
{
    if cs.len() == 0 {
        Seq::empty()
    } else {
        let rest = container_steps(cs.drop_last(), kind);
        if cs.last().is_static {
            rest
        } else {
            rest.push((kind, cs.last().id@, Seq::empty()))
        }
    }
}

/// The steps that take down the run's network: none for a network of
/// someone else's; else taking off the container the run itself lives in,
/// if it does, then removing the network.
pub open spec fn network_steps(network: Seq<char>, external: bool, own_container: Option<Seq<char>>) -> Seq<
    (StepKind, Seq<char>, Seq<char>),
> {
    if external {
        Seq::empty()
    } else {
        match own_container {
            Some(c) => seq![
                (StepKind::DisconnectFromNetwork, network, c),
                (StepKind::RemoveNetwork, network, Seq::empty()),
            ],
            None => seq![(StepKind::RemoveNetwork, network, Seq::empty())],
        }
    }
}

/// The steps that remove the named volumes `volumes`, in order.
pub open spec fn volume_steps(volumes: Seq<String>) -> Seq<(StepKind, Seq<char>, Seq<char>)> {
    volumes.map_values(|v: String| (StepKind::RemoveVolume, v@, Seq::<char>::empty()))
}

/// The steps of the teardown of a run.
pub open spec fn planned_steps(
    cs: Seq<CleanupContainer>,
    strategy: PruneStrategy,
    test_failed: bool,
    network: Seq<char>,
    external: bool,
    own_container: Option<Seq<char>>,
    volumes: Seq<String>,
) -> Seq<(StepKind, Seq<char>, Seq<char>)> {
    if removes_everything(strategy, test_failed) {
        container_steps(cs, StepKind::RemoveContainer) + network_steps(network, external, own_container)
            + volume_steps(volumes)
    } else if stops_only(strategy, test_failed) {
        container_steps(cs, StepKind::StopContainer) + network_steps(network, external, own_container)
    } else {
        Seq::empty()
    }
}

/// The identifiers of the shared containers of `cs`, in order.
pub open spec fn static_ids(cs: Seq<CleanupContainer>) -> Seq<Seq<char>>
    decreases cs.len(),
{
    if cs.len() == 0 {
        Seq::empty()
    } else {
        let rest = static_ids(cs.drop_last());
        if cs.last().is_static {
            rest.push(cs.last().id@)
        } else {
            rest
        }
    }
}

/// The teardown of a run: the shared containers to release through the
/// shared pool, and the steps for the rest, in the order to take them.
#[derive(Clone, Debug)]
pub struct TeardownPlan {
    pub static_ids: Vec<String>,
    pub steps: Vec<TeardownStep>,
}

fn step(kind: StepKind, target: &str, container: Option<&str>) -> (r: TeardownStep)
    ensures
        step_view(r) == (kind, target@, match container {
            Some(c) => c@,
            None => Seq::<char>::empty(),
        }),
{
    let container = match container {
        Some(c) => String::from_str(c),
        None => String::new(),
    };
    TeardownStep { kind, target: String::from_str(target), container }
}

fn push_container_steps(cs: &Vec<CleanupContainer>, kind: StepKind, steps: &mut Vec<TeardownStep>)
    ensures
        final(steps)@.map_values(|s: TeardownStep| step_view(s)) == old(steps)@.map_values(
            |s: TeardownStep| step_view(s),
        ) + container_steps(cs@, kind),
{
    let ghost start = old(steps)@.map_values(|s: TeardownStep| step_view(s));
    let mut i: usize = 0;
    while i < cs.len()
        invariant
            i <= cs@.len(),
            start == old(steps)@.map_values(|s: TeardownStep| step_view(s)),
            steps@.map_values(|s: TeardownStep| step_view(s)) == start + container_steps(
                cs@.subrange(0, i as int),
                kind,
            ),
        decreases cs@.len() - i,
    {
        assert(cs@.subrange(0, i + 1).drop_last() == cs@.subrange(0, i as int));
        if !cs[i].is_static {
            let ghost before = steps@;
            steps.push(step(kind, cs[i].id.as_str(), None));
            assert(steps@.map_values(|s: TeardownStep| step_view(s)) == before.map_values(
                |s: TeardownStep| step_view(s),
            ).push(step_view(steps@.last())));
        }
        i += 1;
    }
    assert(cs@.subrange(0, cs@.len() as int) == cs@);
}

/// Plans the teardown of a run from its containers `cleanup`, the prune
/// strategy and the outcome of the test body. The network `network` is
/// taken down unless it is `external`; `own_container` is the container the
/// run itself lives in, if any; `volumes` are the run's named volumes.
pub fn teardown_plan(
    cleanup: &Vec<CleanupContainer>,
    strategy: PruneStrategy,
    test_failed: bool,
    network: &str,
    external: bool,
    own_container: Option<&str>,
    volumes: &Vec<String>,
) -> (r: TeardownPlan)
    ensures
        r.static_ids@.map_values(|s: String| s@) == static_ids(cleanup@),
        r.steps@.map_values(|s: TeardownStep| step_view(s)) == planned_steps(
            cleanup@,
            strategy,
            test_failed,
            network@,
            external,
            match own_container {
                Some(c) => Some(c@),
                None => None,
            },
            volumes@,
        ),
{
    let mut ids: Vec<String> = Vec::new();
    let mut i: usize = 0;
    while i < cleanup.len()
        invariant
            i <= cleanup@.len(),
            ids@.map_values(|s: String| s@) == static_ids(cleanup@.subrange(0, i as int)),
        decreases cleanup@.len() - i,
    {
        assert(cleanup@.subrange(0, i + 1).drop_last() == cleanup@.subrange(0, i as int));
        if cleanup[i].is_static {
            let ghost before = ids@;
            ids.push(cleanup[i].id.clone());
            assert(ids@.map_values(|s: String| s@) == before.map_values(|s: String| s@).push(
                ids@.last()@,
            ));
        }
        i += 1;
    }
    assert(cleanup@.subrange(0, cleanup@.len() as int) == cleanup@);
    let ghost own = match own_container {
        Some(c) => Some(c@),
        None => None,
    };
    let removes = match strategy {
        PruneStrategy::RunningRegardless => false,
        PruneStrategy::RunningOnFailure => !test_failed,
        PruneStrategy::StopOnFailure => !test_failed,
        PruneStrategy::RemoveRegardless => true,
    };
    let stops = !removes && strategy == PruneStrategy::StopOnFailure && test_failed;
    let mut steps: Vec<TeardownStep> = Vec::new();
    if removes || stops {
        let kind = if removes {
            StepKind::RemoveContainer
        } else {
            StepKind::StopContainer
        };
        assert(steps@.map_values(|s: TeardownStep| step_view(s)) == Seq::<
            (StepKind, Seq<char>, Seq<char>),
        >::empty());
        push_container_steps(cleanup, kind, &mut steps);
        let ghost after_containers = steps@.map_values(|s: TeardownStep| step_view(s));
        if !external {
            if let Some(c) = own_container {
                steps.push(step(StepKind::DisconnectFromNetwork, network, Some(c)));
            }
            steps.push(step(StepKind::RemoveNetwork, network, None));
        }
        assert(steps@.map_values(|s: TeardownStep| step_view(s)) == after_containers + network_steps(
            network@,
            external,
            own,
        ));
        if removes {
            let ghost after_network = steps@.map_values(|s: TeardownStep| step_view(s));
            let mut j: usize = 0;
            while j < volumes.len()
                invariant
                    j <= volumes@.len(),
                    steps@.map_values(|s: TeardownStep| step_view(s)) == after_network
                        + volume_steps(volumes@.subrange(0, j as int)),
                decreases volumes@.len() - j,
            {
                let ghost before = steps@;
                steps.push(step(StepKind::RemoveVolume, volumes[j].as_str(), None));
                assert(steps@.map_values(|s: TeardownStep| step_view(s)) == before.map_values(
                    |s: TeardownStep| step_view(s),
                ).push(step_view(steps@.last())));
                assert(volumes@.subrange(0, j + 1) == volumes@.subrange(0, j as int).push(
                    volumes@[j as int],
                ));
                assert(volume_steps(volumes@.subrange(0, j + 1)) =~= volume_steps(
                    volumes@.subrange(0, j as int),
                ).push(step_view(steps@.last())));
                j += 1;
            }
            assert(volumes@.subrange(0, volumes@.len() as int) == volumes@);
        }
    } else {
        assert(steps@.map_values(|s: TeardownStep| step_view(s)) == Seq::<
            (StepKind, Seq<char>, Seq<char>),
        >::empty());
    }
    TeardownPlan { static_ids: ids, steps }
}

proof fn lemma_container_steps_kind(cs: Seq<CleanupContainer>, kind: StepKind, q: int)
    requires
        0 <= q < container_steps(cs, kind).len(),
    ensures
        container_steps(cs, kind)[q].0 == kind,
    decreases cs.len(),
{
    if cs.len() > 0 {
        let rest = container_steps(cs.drop_last(), kind);
        if q < rest.len() {
            lemma_container_steps_kind(cs.drop_last(), kind, q);
        }
    }
}

proof fn lemma_container_steps_cover(cs: Seq<CleanupContainer>, kind: StepKind, j: int)
    requires
        0 <= j < cs.len(),
        !cs[j].is_static,
    ensures
        exists|q: int|
            0 <= q < container_steps(cs, kind).len() && #[trigger] container_steps(cs, kind)[q] == (
                kind,
                cs[j].id@,
                Seq::<char>::empty(),
            ),
    decreases cs.len(),
{
    let rest = container_steps(cs.drop_last(), kind);
    if j < cs.len() - 1 {
        lemma_container_steps_cover(cs.drop_last(), kind, j);
        let q = choose|q: int|
            0 <= q < rest.len() && #[trigger] rest[q] == (kind, cs.drop_last()[j].id@, Seq::<char>::empty());
        assert(container_steps(cs, kind)[q] == rest[q]);
    } else {
        assert(container_steps(cs, kind)[rest.len() as int] == (kind, cs[j].id@, Seq::<char>::empty()));
    }
}

/// Under every strategy that removes containers, a step that removes the
/// network comes after the removal of every container of the run that is
/// not shared.
pub proof fn lemma_network_removed_after_containers(
    cs: Seq<CleanupContainer>,
    strategy: PruneStrategy,
    test_failed: bool,
    network: Seq<char>,
    external: bool,
    own_container: Option<Seq<char>>,
    volumes: Seq<String>,
    p: int,
    j: int,
)
    requires
        removes_everything(strategy, test_failed),
        0 <= p < planned_steps(cs, strategy, test_failed, network, external, own_container, volumes).len(),
        planned_steps(cs, strategy, test_failed, network, external, own_container, volumes)[p].0
            == StepKind::RemoveNetwork,
        0 <= j < cs.len(),
        !cs[j].is_static,
    ensures
        exists|q: int|
            0 <= q < p && #[trigger] planned_steps(
                cs,
                strategy,
                test_failed,
                network,
                external,
                own_container,
                volumes,
            )[q] == (StepKind::RemoveContainer, cs[j].id@, Seq::<char>::empty()),
{
    let steps = planned_steps(cs, strategy, test_failed, network, external, own_container, volumes);
    let removals = container_steps(cs, StepKind::RemoveContainer);
    if p < removals.len() {
        lemma_container_steps_kind(cs, StepKind::RemoveContainer, p);
        assert(steps[p] == removals[p]);
    }
    lemma_container_steps_cover(cs, StepKind::RemoveContainer, j);
    let q = choose|q: int|
        0 <= q < removals.len() && #[trigger] removals[q] == (
            StepKind::RemoveContainer,
            cs[j].id@,
            Seq::<char>::empty(),
        );
    assert(steps[q] == removals[q]);
}

/// The prune matrix: running-on-failure after a failure neither stops nor
/// removes anything; stop-on-failure after a failure stops every container
/// that is not shared and removes none; remove-regardless removes every
/// container that is not shared, whatever the outcome.
pub proof fn lemma_prune_matrix(
    cs: Seq<CleanupContainer>,
    test_failed: bool,
    network: Seq<char>,
    external: bool,
    own_container: Option<Seq<char>>,
    volumes: Seq<String>,
)
    ensures
        planned_steps(cs, PruneStrategy::RunningOnFailure, true, network, external, own_container, volumes).len() == 0,
        forall|j: int|
            0 <= j < cs.len() && !(#[trigger] cs[j]).is_static ==> exists|q: int|
                0 <= q < planned_steps(cs, PruneStrategy::StopOnFailure, true, network, external, own_container, volumes).len()
                    && #[trigger] planned_steps(cs, PruneStrategy::StopOnFailure, true, network, external, own_container, volumes)[q]
                    == (StepKind::StopContainer, cs[j].id@, Seq::<char>::empty()),
        forall|q: int|
            0 <= q < planned_steps(cs, PruneStrategy::StopOnFailure, true, network, external, own_container, volumes).len()
                ==> (#[trigger] planned_steps(cs, PruneStrategy::StopOnFailure, true, network, external, own_container, volumes)[q]).0
                != StepKind::RemoveContainer,
        forall|j: int|
            0 <= j < cs.len() && !(#[trigger] cs[j]).is_static ==> exists|q: int|
                0 <= q < planned_steps(cs, PruneStrategy::RemoveRegardless, test_failed, network, external, own_container, volumes).len()
                    && #[trigger] planned_steps(cs, PruneStrategy::RemoveRegardless, test_failed, network, external, own_container, volumes)[q]
                    == (StepKind::RemoveContainer, cs[j].id@, Seq::<char>::empty()),
{
    let stop = planned_steps(cs, PruneStrategy::StopOnFailure, true, network, external, own_container, volumes);
    let stops = container_steps(cs, StepKind::StopContainer);
    let remove = planned_steps(cs, PruneStrategy::RemoveRegardless, test_failed, network, external, own_container, volumes);
    let removals = container_steps(cs, StepKind::RemoveContainer);
    assert forall|j: int| 0 <= j < cs.len() && !(#[trigger] cs[j]).is_static implies exists|q: int|
        0 <= q < stop.len() && #[trigger] stop[q] == (StepKind::StopContainer, cs[j].id@, Seq::<char>::empty()) by {
        lemma_container_steps_cover(cs, StepKind::StopContainer, j);
        let q = choose|q: int|
            0 <= q < stops.len() && #[trigger] stops[q] == (StepKind::StopContainer, cs[j].id@, Seq::<char>::empty());
        assert(stop[q] == stops[q]);
    }
    assert forall|q: int| 0 <= q < stop.len() implies (#[trigger] stop[q]).0 != StepKind::RemoveContainer by {
        if q < stops.len() {
            lemma_container_steps_kind(cs, StepKind::StopContainer, q);
            assert(stop[q] == stops[q]);
        }
    }
    assert forall|j: int| 0 <= j < cs.len() && !(#[trigger] cs[j]).is_static implies exists|q: int|
        0 <= q < remove.len() && #[trigger] remove[q] == (StepKind::RemoveContainer, cs[j].id@, Seq::<char>::empty()) by {
        lemma_container_steps_cover(cs, StepKind::RemoveContainer, j);
        let q = choose|q: int|
            0 <= q < removals.len() && #[trigger] removals[q] == (StepKind::RemoveContainer, cs[j].id@, Seq::<char>::empty());
        assert(remove[q] == removals[q]);
    }
}

} // verus!
