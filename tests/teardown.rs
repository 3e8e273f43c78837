use dockertest::container::CleanupContainer;
use dockertest::teardown::{prune_strategy_from, prune_strategy_of_lowered, teardown_plan, PruneStrategy, StepKind, TeardownPlan};

fn c(id: &str, is_static: bool) -> CleanupContainer {
    CleanupContainer { id: id.to_string(), name: format!("n-{}", id), is_static, log_options: None }
}

fn plan(strategy: PruneStrategy, failed: bool) -> TeardownPlan {
    teardown_plan(
        &vec![c("a", false), c("s", true), c("b", false)],
        strategy,
        failed,
        "net",
        false,
        None,
        &vec!["vol-1".to_string()],
    )
}

fn kinds(p: &TeardownPlan) -> Vec<(StepKind, String)> {
    p.steps.iter().map(|s| (s.kind, s.target.clone())).collect()
}

#[test]
fn remove_regardless_removes_containers_then_network_then_volumes() {
    for failed in [false, true] {
        let p = plan(PruneStrategy::RemoveRegardless, failed);
        assert_eq!(
            kinds(&p),
            vec![
                (StepKind::RemoveContainer, "a".to_string()),
                (StepKind::RemoveContainer, "b".to_string()),
                (StepKind::RemoveNetwork, "net".to_string()),
                (StepKind::RemoveVolume, "vol-1".to_string()),
            ]
        );
        assert_eq!(p.static_ids, vec!["s".to_string()]);
    }
}

#[test]
fn running_on_failure_after_failure_touches_nothing() {
    assert!(plan(PruneStrategy::RunningOnFailure, true).steps.is_empty());
    assert_eq!(plan(PruneStrategy::RunningOnFailure, false).steps.len(), 4);
}

#[test]
fn stop_on_failure_after_failure_stops_and_removes_network() {
    let p = plan(PruneStrategy::StopOnFailure, true);
    assert_eq!(
        kinds(&p),
        vec![
            (StepKind::StopContainer, "a".to_string()),
            (StepKind::StopContainer, "b".to_string()),
            (StepKind::RemoveNetwork, "net".to_string()),
        ]
    );
}

#[test]
fn running_regardless_touches_nothing() {
    assert!(plan(PruneStrategy::RunningRegardless, false).steps.is_empty());
    assert!(plan(PruneStrategy::RunningRegardless, true).steps.is_empty());
}

#[test]
fn external_network_is_kept_and_own_container_disconnected() {
    let p = teardown_plan(&vec![c("a", false)], PruneStrategy::RemoveRegardless, false, "ext", true, Some("me"), &vec![]);
    assert_eq!(kinds(&p), vec![(StepKind::RemoveContainer, "a".to_string())]);
    let p = teardown_plan(&vec![c("a", false)], PruneStrategy::RemoveRegardless, false, "net", false, Some("me"), &vec![]);
    assert_eq!(p.steps[1].kind, StepKind::DisconnectFromNetwork);
    assert_eq!(p.steps[1].container, "me");
    assert_eq!(p.steps[2].kind, StepKind::RemoveNetwork);
}

#[test]
fn prune_setting_is_case_insensitive() {
    assert_eq!(prune_strategy_from(Some("NEVER")), PruneStrategy::RunningRegardless);
    assert_eq!(prune_strategy_from(Some("Stop_On_Failure")), PruneStrategy::StopOnFailure);
    assert_eq!(prune_strategy_from(Some("running_on_failure")), PruneStrategy::RunningOnFailure);
    assert_eq!(prune_strategy_from(Some("always")), PruneStrategy::RemoveRegardless);
    assert_eq!(prune_strategy_from(Some("bogus")), PruneStrategy::RemoveRegardless);
    assert_eq!(prune_strategy_from(None), PruneStrategy::RemoveRegardless);
    assert_eq!(prune_strategy_of_lowered("NEVER"), PruneStrategy::RemoveRegardless);
}
