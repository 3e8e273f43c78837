use dockertest::daemon::{start_failure, start_failure_of};
use dockertest::error::DockerTestError;
use dockertest::logs::{log_file_path, log_request, route_log_output, LogAction, LogDestination, LogOptions, LogOutputKind, LogPolicy, LogSource};
use dockertest::pool::StaticPool;
use dockertest::text::{replaced, same_text};

#[test]
fn start_failure_reads_daemon_message() {
    assert_eq!(
        start_failure("{\"message\":\"no such image\"}"),
        DockerTestError::Startup("failed to start container due to `no such image`".to_string())
    );
    match start_failure("not json") {
        DockerTestError::Daemon(m) => assert!(m.starts_with("daemon json response decode failure: ")),
        other => panic!("unexpected {:?}", other),
    }
    assert_eq!(
        start_failure("{\"other\":1}"),
        DockerTestError::Daemon("daemon response without a message".to_string())
    );
    assert_eq!(
        start_failure_of(Err("bad".to_string())),
        DockerTestError::Daemon("daemon json response decode failure: bad".to_string())
    );
}

#[test]
fn log_request_by_policy_and_source() {
    let always = Some(LogOptions { action: LogAction::Forward, policy: LogPolicy::Always, source: LogSource::StdErr });
    let on_error = Some(LogOptions { action: LogAction::Forward, policy: LogPolicy::OnError, source: LogSource::Both });
    assert_eq!(log_request(&always, false), Some((true, false)));
    assert_eq!(log_request(&on_error, false), None);
    assert_eq!(log_request(&on_error, true), Some((true, true)));
    assert_eq!(log_request(&None, true), None);
}

#[test]
fn log_lines_are_routed_by_action() {
    assert_eq!(route_log_output(&LogAction::Forward, LogOutputKind::StdOut), LogDestination::StdOut);
    assert_eq!(route_log_output(&LogAction::Forward, LogOutputKind::StdErr), LogDestination::StdErr);
    assert_eq!(route_log_output(&LogAction::ForwardToStdErr, LogOutputKind::StdOut), LogDestination::StdErr);
    assert_eq!(route_log_output(&LogAction::ForwardToStdOut, LogOutputKind::StdErr), LogDestination::StdOut);
    let file = LogAction::ForwardToFile { path: "/tmp".to_string() };
    assert_eq!(route_log_output(&file, LogOutputKind::StdOut), LogDestination::File);
    assert_eq!(route_log_output(&file, LogOutputKind::Console), LogDestination::Dropped);
    assert_eq!(route_log_output(&LogAction::Forward, LogOutputKind::StdIn), LogDestination::Dropped);
    assert_eq!(log_file_path("/tmp/logs", "c1"), "/tmp/logs/c1");
}

#[test]
fn pool_last_release_removes() {
    let mut p = StaticPool::new();
    assert!(p.acquire("x"));
    assert!(!p.acquire("x"));
    assert_eq!(p.holders("x"), 2);
    assert!(!p.release("x"));
    assert!(p.release("x"));
    assert_eq!(p.holders("x"), 0);
    assert!(!p.release("x"));
}

#[test]
fn text_helpers() {
    assert_eq!(replaced("a/b/c", '/', '_'), "a_b_c");
    assert_eq!(replaced("", '/', '_'), "");
    assert!(same_text("abc", "abc"));
    assert!(!same_text("abc", "abd"));
    assert!(!same_text("ab", "abc"));
}
