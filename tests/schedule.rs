use dockertest::composition::{StartPolicy, WaitFor};
use dockertest::container::{cleanup_of_pending, CleanupContainer, PendingContainer, RunningContainer};
use dockertest::error::DockerTestError;
use dockertest::keeper::Keeper;
use dockertest::operations::DockerOperations;
use dockertest::schedule::{Slot, StartSchedule};

fn pending(name: &str, policy: StartPolicy) -> PendingContainer {
    PendingContainer::new(name, &format!("id-{}", name), name, policy, WaitFor::NoWait, false, None)
}

fn keeper(ps: Vec<PendingContainer>) -> Keeper<PendingContainer> {
    Keeper { handles: ps.iter().map(|p| p.handle.clone()).collect(), kept: ps }
}

fn abcd() -> StartSchedule {
    StartSchedule::new(keeper(vec![
        pending("a", StartPolicy::Strict),
        pending("b", StartPolicy::Relaxed),
        pending("c", StartPolicy::Strict),
        pending("d", StartPolicy::Relaxed),
    ]))
}

fn run(s: &StartSchedule, i: usize) -> RunningContainer {
    RunningContainer::from_pending(s.pending_at(i).clone())
}

#[test]
fn declaration_order_restored_whatever_completion_order() {
    let mut s = abcd();
    assert_eq!(s.relaxed_slots(), &vec![1, 3]);
    // d completes before b
    let d = run(&s, 3);
    s.relaxed_finished(3, Ok(d));
    assert_eq!(s.next_strict(), Some(0));
    let a = run(&s, 0);
    s.strict_started(Ok(a));
    assert_eq!(s.next_strict(), Some(2));
    let c = run(&s, 2);
    s.strict_started(Ok(c));
    assert_eq!(s.next_strict(), None);
    let b = run(&s, 1);
    s.relaxed_finished(1, Ok(b));
    let k = s.finish().unwrap();
    let ids: Vec<&str> = k.kept.iter().map(|c| c.id()).collect();
    assert_eq!(ids, vec!["id-a", "id-b", "id-c", "id-d"]);
    assert_eq!(k.handles, vec!["a", "b", "c", "d"]);
}

#[test]
fn strict_failure_stops_later_strict_but_not_relaxed() {
    let mut s = StartSchedule::new(keeper(vec![
        pending("a", StartPolicy::Strict),
        pending("b", StartPolicy::Relaxed),
        pending("c", StartPolicy::Strict),
        pending("d", StartPolicy::Relaxed),
        pending("e", StartPolicy::Strict),
    ]));
    let a = run(&s, 0);
    s.strict_started(Ok(a));
    assert_eq!(s.next_strict(), Some(2));
    s.strict_started(Err(DockerTestError::Startup("c failed".to_string())));
    assert_eq!(s.next_strict(), None);
    assert!(matches!(s.slots[4], Slot::Waiting));
    let b = run(&s, 1);
    s.relaxed_finished(1, Ok(b));
    s.relaxed_finished(3, Err(DockerTestError::Daemon("d failed".to_string())));
    let (e, cleanup) = s.finish().unwrap_err();
    assert_eq!(e, DockerTestError::Startup("c failed".to_string()));
    let ids: Vec<&str> = cleanup.iter().map(|c| c.id.as_str()).collect();
    assert_eq!(ids, vec!["id-a", "id-b", "id-c", "id-d", "id-e"]);
}

#[test]
fn first_relaxed_failure_by_declaration_order() {
    let mut s = StartSchedule::new(keeper(vec![
        pending("a", StartPolicy::Relaxed),
        pending("b", StartPolicy::Relaxed),
        pending("c", StartPolicy::Relaxed),
    ]));
    s.relaxed_finished(2, Err(DockerTestError::Daemon("c".to_string())));
    s.relaxed_finished(1, Err(DockerTestError::Daemon("b".to_string())));
    let a = run(&s, 0);
    s.relaxed_finished(0, Ok(a));
    let (e, cleanup) = s.finish().unwrap_err();
    assert_eq!(e, DockerTestError::Daemon("b".to_string()));
    assert_eq!(cleanup.len(), 3);
}

#[test]
fn empty_schedule_finishes_with_nothing() {
    let s = StartSchedule::new(keeper(vec![]));
    assert_eq!(s.next_strict(), None);
    let k = s.finish().unwrap();
    assert!(k.kept.is_empty());
}

#[test]
fn running_from_pending_keeps_identity() {
    let p = PendingContainer::new("n", "i", "h", StartPolicy::Strict, WaitFor::RunningWait, true, None);
    let r = RunningContainer::from_pending(p.clone());
    assert_eq!(r.name(), "n");
    assert_eq!(r.id(), "i");
    assert_eq!(r.handle, "h");
    assert_eq!((r.ip().a, r.ip().b, r.ip().c, r.ip().d), (0, 0, 0, 0));
    assert!(r.ports().is_empty());
    let c = CleanupContainer::from_running(&r);
    assert!(c.is_static());
    let cs = cleanup_of_pending(&vec![p]);
    assert_eq!(cs[0].name, "n");
}

fn ops() -> DockerOperations {
    let s = abcd();
    let kept: Vec<RunningContainer> = (0..4).map(|i| run(&s, i)).collect();
    let mut handles: Vec<String> = vec!["a".into(), "b".into(), "b".into(), "d".into()];
    handles.truncate(4);
    DockerOperations::new(Keeper { handles, kept })
}

#[test]
fn handle_resolves_running_container() {
    let o = ops();
    assert_eq!(o.handle("a").id(), "id-a");
    assert_eq!(o.try_handle("d").unwrap().id(), "id-d");
}

#[test]
fn try_handle_reports_collision_and_absence() {
    let o = ops();
    assert_eq!(
        o.try_handle("b").unwrap_err(),
        DockerTestError::TestBody("handle 'b' defined multiple times".to_string())
    );
    assert_eq!(
        o.try_handle("zz").unwrap_err(),
        DockerTestError::TestBody("container with handle 'zz' not found".to_string())
    );
}

#[test]
fn failure_is_a_test_body_error() {
    let o = ops();
    assert_eq!(
        o.failure("boom"),
        DockerTestError::TestBody("test failure: boom".to_string())
    );
}
