//! Error taxonomy of the supervisor.
//!
//! Transport-level failures (bad lines, orphan responses) are absorbed where
//! they occur and never appear here; these are the failures surfaced to
//! callers and to the status feed.

use vstd::prelude::*;

verus! {

/// Everything that a lifecycle or request operation can fail with.
#[derive(Debug, Clone)]
pub enum EngineError {
    /// Spawning the worker process failed; the restart loop may retry.
    ProcessSpawnError(String),
    /// The worker process was found dead; triggers the restart policy.
    ProcessCrashed,
    /// A stream write or a registration failed; fatal to the current
    /// channel instance.
    CommunicationError(String),
    /// A request or probe ran out of time; the caller decides what to do.
    TimeoutError(String),
    /// The spawn specification is invalid; surfaced at once, never retried.
    ConfigurationError(String),
    /// The worker answered with an application-level error, passed through.
    JsonRpcError(String),
    /// A health probe failed.
    HealthCheckFailed(String),
    /// The worker did not become ready within the startup timeout.
    StartupFailed(String),
}

impl EngineError {
    /// The descriptive text of this error.
    pub open spec fn message_spec(self) -> Seq<char> {
        match self {
            EngineError::ProcessSpawnError(s) => "Process spawn failed: "@ + s@,
            EngineError::ProcessCrashed => "Process crashed"@,
            EngineError::CommunicationError(s) => "Communication error: "@ + s@,
            EngineError::TimeoutError(s) => "Timeout: "@ + s@,
            EngineError::ConfigurationError(s) => "Configuration error: "@ + s@,
            EngineError::JsonRpcError(s) => "JSON-RPC error: "@ + s@,
            EngineError::HealthCheckFailed(s) => "Health check failed: "@ + s@,
            EngineError::StartupFailed(s) => "Startup failed: "@ + s@,
        }
    }

    /// Render the descriptive text of this error.
    pub fn message(&self) -> (r: String)
        ensures
            r@ == self.message_spec(),
    {
        match self {
            EngineError::ProcessSpawnError(s) => {
                let mut m = String::from_str("Process spawn failed: ");
                m.append(s.as_str());
                m
            },
            EngineError::ProcessCrashed => String::from_str("Process crashed"),
            EngineError::CommunicationError(s) => {
                let mut m = String::from_str("Communication error: ");
                m.append(s.as_str());
                m
            },
            EngineError::TimeoutError(s) => {
                let mut m = String::from_str("Timeout: ");
                m.append(s.as_str());
                m
            },
            EngineError::ConfigurationError(s) => {
                let mut m = String::from_str("Configuration error: ");
                m.append(s.as_str());
                m
            },
            EngineError::JsonRpcError(s) => {
                let mut m = String::from_str("JSON-RPC error: ");
                m.append(s.as_str());
                m
            },
            EngineError::HealthCheckFailed(s) => {
                let mut m = String::from_str("Health check failed: ");
                m.append(s.as_str());
                m
            },
            EngineError::StartupFailed(s) => {
                let mut m = String::from_str("Startup failed: ");
                m.append(s.as_str());
                m
            },
        }
    }
}

} // verus!
