//! What happens to a container's log output once its test body has run.

use vstd::prelude::*;

use crate::text::push_char;

verus! {

/// Where the captured lines go.
#[derive(Clone, Debug, PartialEq)]
pub enum LogAction {
    /// Standard output to standard output, standard error to standard error.
    Forward,
    /// Everything to standard error.
    ForwardToStdErr,
    /// Everything to standard output.
    ForwardToStdOut,
    /// Everything to a file named after the container, in the directory `path`.
    ForwardToFile { path: String },
}

/// When the lines are captured.
#[derive(Clone, Copy, Debug, PartialEq, Eq, Structural)]
pub enum LogPolicy {
    /// After every run.
    Always,
    /// Only after a failed run.
    OnError,
}

/// Which streams are captured.
#[derive(Clone, Copy, Debug, PartialEq, Eq, Structural)]
pub enum LogSource {
    /// Standard error only.
    StdErr,
    /// Standard output only.
    StdOut,
    /// Both streams.
    Both,
}

/// The log handling of one container.
#[derive(Clone, Debug, PartialEq)]
pub struct LogOptions {
    pub action: LogAction,
    pub policy: LogPolicy,
    pub source: LogSource,
}

/// Which streams a container's log output arrives on.
#[derive(Clone, Copy, Debug, PartialEq, Eq, Structural)]
pub enum LogOutputKind {
    StdOut,
    StdErr,
    StdIn,
    Console,
}

/// Where one line of captured output goes.
#[derive(Clone, Copy, Debug, PartialEq, Eq, Structural)]
pub enum LogDestination {
    /// The standard output of this process.
    StdOut,
    /// The standard error of this process.
    StdErr,
    /// The container's log file.
    File,
    /// Nowhere: the line is dropped.
    Dropped,
}

/// Whether a source captures (standard error, standard output).
pub open spec fn streams_spec(source: LogSource) -> (bool, bool) {
    match source {
        LogSource::StdErr => (true, false),
        LogSource::StdOut => (false, true),
        LogSource::Both => (true, true),
    }
}

/// Which streams `source` captures, as (standard error, standard output).
pub fn streams_of(source: LogSource) -> (r: (bool, bool))
    ensures
        r == streams_spec(source),
{
    match source {
        LogSource::StdErr => (true, false),
        LogSource::StdOut => (false, true),
        LogSource::Both => (true, true),
    }
}

/// Whether the logs of a container with `options` are captured after a run
/// with this outcome, and then which streams, as (standard error, standard
/// output).
pub fn log_request(options: &Option<LogOptions>, test_failed: bool) -> (r: Option<(bool, bool)>)
    ensures
        options is None ==> r is None,
        options matches Some(o) ==> (r is Some <==> (o.policy == LogPolicy::Always || test_failed)),
        options matches Some(o) ==> (r matches Some(st) ==> st == streams_spec(o.source)),
{
    match options {
        None => None,
        Some(o) => match o.policy {
            LogPolicy::Always => Some(streams_of(o.source)),
            LogPolicy::OnError => if test_failed {
                Some(streams_of(o.source))
            } else {
                None
            },
        },
    }
}

/// Where `action` sends a line that arrived on `kind`.
pub open spec fn route_spec(action: LogAction, kind: LogOutputKind) -> LogDestination {
    match kind {
        LogOutputKind::StdIn | LogOutputKind::Console => LogDestination::Dropped,
        _ => match action {
            LogAction::Forward => if kind == LogOutputKind::StdOut {
                LogDestination::StdOut
            } else {
                LogDestination::StdErr
            },
            LogAction::ForwardToStdErr => LogDestination::StdErr,
            LogAction::ForwardToStdOut => LogDestination::StdOut,
            LogAction::ForwardToFile { .. } => LogDestination::File,
        },
    }
}

/// Where `action` sends a line that arrived on `kind`: input and console
/// lines are dropped.
pub fn route_log_output(action: &LogAction, kind: LogOutputKind) -> (r: LogDestination)
    ensures
        r == route_spec(*action, kind),
{
    match kind {
        LogOutputKind::StdIn | LogOutputKind::Console => LogDestination::Dropped,
        _ => match action {
            LogAction::Forward => if kind == LogOutputKind::StdOut {
                LogDestination::StdOut
            } else {
                LogDestination::StdErr
            },
            LogAction::ForwardToStdErr => LogDestination::StdErr,
            LogAction::ForwardToStdOut => LogDestination::StdOut,
            LogAction::ForwardToFile { .. } => LogDestination::File,
        },
    }
}

/// The log file of the container `name` in the directory `dir`.
pub fn log_file_path(dir: &str, name: &str) -> (r: String)
    ensures
        r@ == dir@ + seq!['/'] + name@,
{
    let mut p = String::from_str(dir);
    push_char(&mut p, '/');
    p.append(name);
    p
}

impl LogOptions {
    /// An equal copy.
    pub fn duplicate(&self) -> (r: LogOptions)
        ensures
            r == *self,
    {
        let action = match &self.action {
            LogAction::Forward => LogAction::Forward,
            LogAction::ForwardToStdErr => LogAction::ForwardToStdErr,
            LogAction::ForwardToStdOut => LogAction::ForwardToStdOut,
            LogAction::ForwardToFile { path } => LogAction::ForwardToFile { path: path.clone() },
        };
        LogOptions { action, policy: self.policy, source: self.source }
    }
}

/// An equal copy of optional log handling.
pub fn duplicate_log_options(o: &Option<LogOptions>) -> (r: Option<LogOptions>)
    ensures
        r == *o,
{
    match o {
        Some(l) => Some(l.duplicate()),
        None => None,
    }
}

} // verus!
