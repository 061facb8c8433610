//! Error type of the library.

use vstd::prelude::*;

verus! {

/// `std::io::Error` is carried through the library as an opaque value.
#[verifier::external_type_specification]
#[verifier::external_body]
pub struct ExIoError(std::io::Error);

/// Errors returned by the supervisor and its helpers.
#[non_exhaustive]
#[derive(Debug)]
pub enum AutosshError {
    /// No `ssh` binary was found; `searched` lists the directories probed,
    /// in walk order.
    SshNotFound {
        /// Directories probed during the search-path walk.
        searched: Vec<String>,
    },
    /// Binding a monitor-port listener on `127.0.0.1:<port>` failed.
    MonitorBindFailed {
        /// The port that failed to bind.
        port: u16,
        /// Underlying OS error.
        source: std::io::Error,
    },
    /// The consecutive-retry counter reached the retry cap.
    MaxStartReached {
        /// Number of consecutive attempts when the cap was hit.
        attempts: u32,
    },
    /// The total-runtime cap elapsed.
    MaxLifetimeReached,
    /// Writing the pidfile failed.
    PidfileWrite {
        /// Pidfile path.
        path: String,
        /// Underlying OS error.
        source: std::io::Error,
    },
    /// Opening or appending to the logfile failed.
    LogfileWrite {
        /// Logfile path.
        path: String,
        /// Underlying OS error.
        source: std::io::Error,
    },
    /// Generic I/O error.
    Io(std::io::Error),
    /// Background-mode setup failed.
    Daemonize {
        /// Human-readable reason.
        reason: String,
    },
    /// An internal invariant was violated.
    Internal(&'static str),
}

impl AutosshError {
    /// Process exit status for this error: 1 for operational failures (no
    /// ssh binary, retry cap reached), 2 for everything else.
    pub open spec fn spec_exit_code(&self) -> u8 {
        match self {
            AutosshError::SshNotFound { .. } => 1,
            AutosshError::MaxStartReached { .. } => 1,
            _ => 2,
        }
    }

    /// Process exit status for this error (see [`Self::spec_exit_code`]).
    pub fn exit_code(&self) -> (c: u8)
        ensures
            c == self.spec_exit_code(),
    {
        match self {
            AutosshError::SshNotFound { .. } => 1,
            AutosshError::MaxStartReached { .. } => 1,
            _ => 2,
        }
    }
}


impl From<std::io::Error> for AutosshError {
    fn from(e: std::io::Error) -> (r: AutosshError)
        ensures
            r == AutosshError::Io(e),
    {
        AutosshError::Io(e)
    }
}

impl vstd::std_specs::convert::FromSpecImpl<std::io::Error> for AutosshError {
    open spec fn obeys_from_spec() -> bool {
        true
    }

    open spec fn from_spec(v: std::io::Error) -> AutosshError {
        AutosshError::Io(v)
    }
}

} // verus!
