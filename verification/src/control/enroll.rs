//! Enrollment with a control plane, as far as the command line is concerned.
use crate::control::args::{EnrollRequest, EnrollRequestView};
use crate::error::{error_with, AgentdError, AgentdErrorView, AgentdReason};
use crate::os_text::{display_text, OsText};
use crate::text::{opt_text, or_dash, texts, trim, trimmed};
use vstd::prelude::*;
use vstd::string::*;

verus! {

/// What an enrollment came to.
#[derive(Debug, Clone, Copy, PartialEq, Eq, Structural)]
pub enum EnrollmentDecision {
    /// The agent was enrolled.
    Enrolled,
    /// The state holds an identity already.
    ExistingStateIdentity,
    /// The configuration holds an identity already.
    ExistingConfigIdentity,
    /// The control plane is turned off.
    Disabled,
}

/// The token in what standard input gave: the text without surrounding white space,
/// which is not empty.
pub fn read_token_from_stdin(buffer: &str) -> (out: Result<String, AgentdError>)
    ensures
        match out {
            Ok(token) => token@ == trimmed(buffer@) && trimmed(buffer@).len() > 0,
            Err(e) => trimmed(buffer@).len() == 0 && e@ == error_with(
                AgentdReason::InvalidArgs,
                "--token-stdin received an empty token"@,
            ),
        },
{
    let token = trim(buffer);
    if token.as_str().is_empty() {
        return Err(
            AgentdError::with_detail(
                AgentdReason::InvalidArgs,
                "--token-stdin received an empty token".to_string(),
            ),
        );
    }
    Ok(token)
}

/// The error where enrollment was asked for and the control plane is turned off.
pub open spec fn enrollment_disabled(config_root: Seq<u8>) -> AgentdErrorView {
    error_with(
        AgentdReason::Enrollment,
        "control_plane.enabled is false in "@ + display_text(config_root)
            + "/agentd.toml; enable it (with endpoint) before enrolling"@,
    )
}

/// Refuses an enrollment that did not take place because the control plane is turned
/// off: the operator has asked for it.
pub fn reject_disabled(config_root: &OsText, decision: EnrollmentDecision) -> (out: Result<
    EnrollmentDecision,
    AgentdError,
>)
    ensures
        match out {
            Ok(kept) => kept == decision && decision != EnrollmentDecision::Disabled,
            Err(e) => decision == EnrollmentDecision::Disabled && e@ == enrollment_disabled(
                config_root@,
            ),
        },
{
    match decision {
        EnrollmentDecision::Disabled => {
            let mut detail = "control_plane.enabled is false in ".to_string();
            detail.append(config_root.display().as_str());
            detail.append("/agentd.toml; enable it (with endpoint) before enrolling");
            Err(AgentdError::with_detail(AgentdReason::Enrollment, detail))
        },
        other => Ok(other),
    }
}

/// What is known of the agent after an enrollment.
#[derive(Debug, PartialEq, Eq)]
pub struct EnrolledAgent {
    pub agent_id: Option<String>,
    pub credential_file: OsText,
}

/// What is said of a decision.
pub open spec fn decision_text(decision: EnrollmentDecision) -> Seq<char> {
    match decision {
        EnrollmentDecision::Enrolled => "enrolled"@,
        EnrollmentDecision::ExistingStateIdentity => "already enrolled (state identity, no request sent)"@,
        EnrollmentDecision::ExistingConfigIdentity => "already enrolled (config identity, no request sent)"@,
        EnrollmentDecision::Disabled => "enrollment disabled"@,
    }
}

/// The lines that report an enrollment: its result and where the credentials are, but
/// no secret. The agent is told of where its configuration could be loaded.
pub open spec fn enrollment_report(
    decision: EnrollmentDecision,
    agent: Option<EnrolledAgent>,
) -> Seq<Seq<char>> {
    seq![decision_text(decision)] + (match agent {
        Some(known) => seq![
            "agent_id="@ + or_dash(opt_text(known.agent_id)),
            "credential_file="@ + display_text(known.credential_file@),
        ],
        None => Seq::empty(),
    }) + seq!["token_persisted=false"@]
}

/// The lines that report an enrollment.
pub fn report_enrollment(decision: EnrollmentDecision, agent: &Option<EnrolledAgent>) -> (lines: Vec<
    String,
>)
    ensures
        texts(lines@) == enrollment_report(decision, *agent),
{
    let label = match decision {
        EnrollmentDecision::Enrolled => "enrolled",
        EnrollmentDecision::ExistingStateIdentity => {
            "already enrolled (state identity, no request sent)"
        },
        EnrollmentDecision::ExistingConfigIdentity => {
            "already enrolled (config identity, no request sent)"
        },
        EnrollmentDecision::Disabled => "enrollment disabled",
    };
    let mut lines: Vec<String> = vec![label.to_string()];
    if let Some(known) = agent {
        let mut id = "agent_id=".to_string();
        match &known.agent_id {
            Some(text) => {
                id.append(text.as_str());
            },
            None => {
                id.append("-");
            },
        }
        lines.push(id);
        let mut file = "credential_file=".to_string();
        file.append(known.credential_file.display().as_str());
        lines.push(file);
    }
    lines.push("token_persisted=false".to_string());
    proof {
        assert(texts(lines@) =~= enrollment_report(decision, *agent));
    }
    lines
}

/// What happened last in an enrollment.
#[derive(Debug, PartialEq, Eq)]
pub enum EnrollEvent {
    /// It begins.
    Begin,
    /// Standard input was read to its end, or could not be read.
    StdinRead(Option<String>),
    /// The enrollment ended.
    Ended(Result<(EnrollmentDecision, Option<EnrolledAgent>), AgentdError>),
}

/// What is to be done next in an enrollment.
#[derive(Debug, PartialEq, Eq)]
pub enum EnrollNext {
    /// Read standard input.
    ReadStdin,
    /// Enroll with this token.
    WithToken(String),
    /// Enroll with what the configuration or the environment holds.
    FromConfiguration,
    /// Print these lines: the enrollment is done.
    Report(Vec<String>),
}

/// What is to be done next in an enrollment.
#[verifier::ext_equal]
pub enum EnrollNextView {
    ReadStdin,
    WithToken(Seq<char>),
    FromConfiguration,
    Report(Seq<Seq<char>>),
}

impl View for EnrollNext {
    type V = EnrollNextView;

    open spec fn view(&self) -> EnrollNextView {
        match self {
            EnrollNext::ReadStdin => EnrollNextView::ReadStdin,
            EnrollNext::WithToken(token) => EnrollNextView::WithToken(token@),
            EnrollNext::FromConfiguration => EnrollNextView::FromConfiguration,
            EnrollNext::Report(lines) => EnrollNextView::Report(texts(lines@)),
        }
    }
}

/// The token in what standard input gave.
pub open spec fn stdin_token(text: Option<Seq<char>>) -> Result<Seq<char>, AgentdErrorView> {
    match text {
        None => Err(
            error_with(AgentdReason::SystemError, "read enrollment token from stdin"@),
        ),
        Some(buffer) => if trimmed(buffer).len() == 0 {
            Err(error_with(AgentdReason::InvalidArgs, "--token-stdin received an empty token"@))
        } else {
            Ok(trimmed(buffer))
        },
    }
}

/// What follows an event of an enrollment.
pub open spec fn enroll_turn(
    config_root: Seq<u8>,
    request: EnrollRequestView,
    event: EnrollEvent,
) -> Result<EnrollNextView, AgentdErrorView> {
    match event {
        EnrollEvent::Begin => if request.token_stdin {
            Ok(EnrollNextView::ReadStdin)
        } else {
            match request.token {
                Some(token) => Ok(EnrollNextView::WithToken(token)),
                None => Ok(EnrollNextView::FromConfiguration),
            }
        },
        EnrollEvent::StdinRead(text) => match stdin_token(opt_text(text)) {
            Ok(token) => Ok(EnrollNextView::WithToken(token)),
            Err(e) => Err(e),
        },
        EnrollEvent::Ended(Err(e)) => Err(e@),
        EnrollEvent::Ended(Ok((decision, agent))) => if decision == EnrollmentDecision::Disabled {
            Err(enrollment_disabled(config_root))
        } else {
            Ok(EnrollNextView::Report(enrollment_report(decision, agent)))
        },
    }
}

/// Decides what follows an event of an enrollment.
pub fn run_enroll(config_root: &OsText, request: &EnrollRequest, event: EnrollEvent) -> (out: Result<
    EnrollNext,
    AgentdError,
>)
    ensures
        match out {
            Ok(next) => enroll_turn(config_root@, request@, event) == Ok::<_, AgentdErrorView>(
                next@,
            ),
            Err(e) => enroll_turn(config_root@, request@, event) == Err::<EnrollNextView, _>(e@),
        },
{
    match event {
        EnrollEvent::Begin => {
            if request.token_stdin {
                return Ok(EnrollNext::ReadStdin);
            }
            match &request.token {
                Some(token) => Ok(EnrollNext::WithToken(token.as_str().to_string())),
                None => Ok(EnrollNext::FromConfiguration),
            }
        },
        EnrollEvent::StdinRead(None) => Err(
            AgentdError::with_detail(
                AgentdReason::SystemError,
                "read enrollment token from stdin".to_string(),
            ),
        ),
        EnrollEvent::StdinRead(Some(text)) => match read_token_from_stdin(text.as_str()) {
            Ok(token) => Ok(EnrollNext::WithToken(token)),
            Err(e) => Err(e),
        },
        EnrollEvent::Ended(Err(e)) => Err(e),
        EnrollEvent::Ended(Ok((decision, agent))) => match reject_disabled(config_root, decision) {
            Ok(kept) => Ok(EnrollNext::Report(report_enrollment(kept, &agent))),
            Err(e) => Err(e),
        },
    }
}

/// What is printed of an enrollment does not depend on the token, wherever it came from.
pub proof fn law_enrollment_report_holds_no_token(
    config_root: Seq<u8>,
    request: EnrollRequestView,
    other: EnrollRequestView,
    event: EnrollEvent,
    lines: Seq<Seq<char>>,
)
    requires
        enroll_turn(config_root, request, event) == Ok::<_, AgentdErrorView>(
            EnrollNextView::Report(lines),
        ),
    ensures
        enroll_turn(config_root, other, event) == Ok::<_, AgentdErrorView>(
            EnrollNextView::Report(lines),
        ),
{
}

/// An enrollment that was asked for is never reported while the control plane is turned
/// off, and an error of the enrollment itself is handed on.
pub proof fn law_refused_enrollment_is_not_reported(
    config_root: Seq<u8>,
    request: EnrollRequestView,
    event: EnrollEvent,
)
    ensures
        enroll_turn(config_root, request, event) matches Ok(EnrollNextView::Report(_))
            ==> (event matches EnrollEvent::Ended(Ok((decision, _))) && decision
            != EnrollmentDecision::Disabled),
        event matches EnrollEvent::Ended(Err(e)) ==> enroll_turn(config_root, request, event)
            == Err::<EnrollNextView, _>(e@),
{
}

} // verus!
