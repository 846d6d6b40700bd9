//! Errors of the agent daemon.
use crate::text::opt_text;
use vstd::prelude::*;

verus! {

/// Why an operation of the daemon failed.
#[derive(Debug, Clone, Copy, PartialEq, Eq, Structural)]
pub enum AgentdReason {
    /// The command line could not be understood.
    InvalidArgs,
    /// A call of the operating system failed.
    SystemError,
    /// No place for a service could be determined, or it cannot be written down.
    ServicePathUnresolved,
    /// A service definition exists and may not be overwritten.
    ServiceAlreadyInstalled,
    /// A command of the service manager failed.
    ServiceCommandFailed,
    /// Another instance holds the lock of the state directory.
    AlreadyRunning,
    /// The executor binary cannot be used.
    ExecBinUnavailable,
    /// Enrollment was asked for and is not possible.
    Enrollment,
}

/// A reason with what is known beyond it.
#[derive(Debug, PartialEq, Eq)]
pub struct AgentdError {
    pub reason: AgentdReason,
    pub detail: Option<String>,
}

/// What an error says.
#[verifier::ext_equal]
pub struct AgentdErrorView {
    pub reason: AgentdReason,
    pub detail: Option<Seq<char>>,
}

impl View for AgentdError {
    type V = AgentdErrorView;

    open spec fn view(&self) -> AgentdErrorView {
        AgentdErrorView { reason: self.reason, detail: opt_text(self.detail) }
    }
}

/// An error with a detail.
pub open spec fn error_with(reason: AgentdReason, detail: Seq<char>) -> AgentdErrorView {
    AgentdErrorView { reason, detail: Some(detail) }
}

impl AgentdError {
    /// The error with a detail.
    pub fn with_detail(reason: AgentdReason, detail: String) -> (err: AgentdError)
        ensures
            err@ == error_with(reason, detail@),
    {
        AgentdError { reason, detail: Some(detail) }
    }
}

} // verus!
