//! Errors of a run.

use vstd::prelude::*;

verus! {

/// What went wrong, by where it happened.
#[derive(Clone, Debug, PartialEq)]
pub enum DockerTestError {
    /// Expected along the way and handled by the caller that expects it, such
    /// as a container that was not there to be removed.
    Recoverable(String),
    /// The engine refused or failed a call.
    Daemon(String),
    /// The run could not be set up.
    Startup(String),
    /// An internal step could not go on.
    Processing(String),
    /// The test body asked for something that the run cannot give.
    TestBody(String),
    /// The published ports of a container could not be read.
    HostPort(String),
    /// Captured log lines could not be written.
    LogWriteError(String),
}

impl DockerTestError {
    /// The text of the error, whatever its kind.
    pub fn message(&self) -> (r: &String)
        ensures
            r == match self {
                DockerTestError::Recoverable(m) => m,
                DockerTestError::Daemon(m) => m,
                DockerTestError::Startup(m) => m,
                DockerTestError::Processing(m) => m,
                DockerTestError::TestBody(m) => m,
                DockerTestError::HostPort(m) => m,
                DockerTestError::LogWriteError(m) => m,
            },
    {
        match self {
            DockerTestError::Recoverable(m) => m,
            DockerTestError::Daemon(m) => m,
            DockerTestError::Startup(m) => m,
            DockerTestError::Processing(m) => m,
            DockerTestError::TestBody(m) => m,
            DockerTestError::HostPort(m) => m,
            DockerTestError::LogWriteError(m) => m,
        }
    }
}

} // verus!
