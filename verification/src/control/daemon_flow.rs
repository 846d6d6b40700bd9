//! The start of the daemon: from a configuration to its first round.
use crate::config::model::{AgentConfig, AgentConfigView};
use crate::config::{config_file, resolve_config_path};
use crate::control::messages::{starting_line, starting_message};
use crate::error::{error_with, AgentdError, AgentdErrorView, AgentdReason};
use crate::os_text::OsText;
use crate::single_instance::{acquire, lock_error, LockAttempt};
use crate::text::texts;
use vstd::prelude::*;
use vstd::string::*;
use vstd::utf8::*;

verus! {

/// What the daemon says once it reports its health.
pub const REGISTERED: &'static str = "self-observability registered";

/// Where a daemon finds its configuration and keeps its data.
#[derive(Debug, PartialEq, Eq)]
pub struct DaemonPlan {
    pub config_path: OsText,
    pub root_dir: OsText,
    pub run_dir: OsText,
    pub state_dir: OsText,
    pub log_dir: OsText,
    /// Whether a control plane manages the daemon.
    pub managed: bool,
}

/// What such a plan says.
#[verifier::ext_equal]
pub struct DaemonPlanView {
    pub config_path: Seq<u8>,
    pub root_dir: Seq<u8>,
    pub run_dir: Seq<u8>,
    pub state_dir: Seq<u8>,
    pub log_dir: Seq<u8>,
    pub managed: bool,
}

impl View for DaemonPlan {
    type V = DaemonPlanView;

    open spec fn view(&self) -> DaemonPlanView {
        DaemonPlanView {
            config_path: self.config_path@,
            root_dir: self.root_dir@,
            run_dir: self.run_dir@,
            state_dir: self.state_dir@,
            log_dir: self.log_dir@,
            managed: self.managed,
        }
    }
}

/// The plan of a daemon with a configuration whose paths are resolved.
pub open spec fn planned_daemon(config_root: Seq<u8>, config: AgentConfigView) -> DaemonPlanView {
    DaemonPlanView {
        config_path: config_file(config_root),
        root_dir: encode_utf8(config.paths.root_dir),
        run_dir: encode_utf8(config.paths.run_dir),
        state_dir: encode_utf8(config.paths.state_dir),
        log_dir: encode_utf8(config.paths.log_dir),
        managed: config.control_plane.enabled,
    }
}

/// The plan of a daemon with a configuration whose paths are resolved.
pub fn daemon_plan(config_root: &OsText, config: &AgentConfig) -> (plan: DaemonPlan)
    ensures
        plan@ == planned_daemon(config_root@, config@),
{
    DaemonPlan {
        config_path: resolve_config_path(config_root),
        root_dir: OsText::from_text(config.paths.root_dir.as_str()),
        run_dir: OsText::from_text(config.paths.run_dir.as_str()),
        state_dir: OsText::from_text(config.paths.state_dir.as_str()),
        log_dir: OsText::from_text(config.paths.log_dir.as_str()),
        managed: config.control_plane.enabled,
    }
}

/// What happened last in the start of a daemon.
#[derive(Debug, PartialEq, Eq)]
pub enum DaemonEvent {
    /// It begins.
    Begin,
    /// The instance lock was tried.
    LockTried(LockAttempt),
    /// The directories were made, or could not be.
    DirectoriesMade(bool),
    /// The enrollment ended.
    EnrollmentEnded(Result<(), AgentdError>),
    /// The runtime state was brought up to date, or could not be.
    StateInitialized(bool),
    /// The executor binary was looked for.
    ExecBinResolved(Option<OsText>),
}

/// What is to be done next in the start of a daemon.
#[derive(Debug, PartialEq, Eq)]
pub enum DaemonNext {
    /// Try the instance lock of the state directory.
    TakeLock,
    /// Make the root, run, state and log directories.
    MakeDirectories,
    /// Enroll as the configuration asks for.
    Enroll,
    /// Bring the runtime state up to date.
    InitializeState,
    /// Look for the executor binary.
    ResolveExecBin,
    /// Do one round with this executor, print its health and end.
    RunOnce(OsText),
    /// Do rounds with this executor for ever.
    RunForever(OsText),
}

/// What is to be done next in the start of a daemon.
#[verifier::ext_equal]
pub enum DaemonNextView {
    TakeLock,
    MakeDirectories,
    Enroll,
    InitializeState,
    ResolveExecBin,
    RunOnce(Seq<u8>),
    RunForever(Seq<u8>),
}

impl View for DaemonNext {
    type V = DaemonNextView;

    open spec fn view(&self) -> DaemonNextView {
        match self {
            DaemonNext::TakeLock => DaemonNextView::TakeLock,
            DaemonNext::MakeDirectories => DaemonNextView::MakeDirectories,
            DaemonNext::Enroll => DaemonNextView::Enroll,
            DaemonNext::InitializeState => DaemonNextView::InitializeState,
            DaemonNext::ResolveExecBin => DaemonNextView::ResolveExecBin,
            DaemonNext::RunOnce(path) => DaemonNextView::RunOnce(path@),
            DaemonNext::RunForever(path) => DaemonNextView::RunForever(path@),
        }
    }
}

/// What is said on standard error and what is to be done after an event, or why the start
/// ends there.
#[derive(Debug, PartialEq, Eq)]
pub struct DaemonTurn {
    pub lines: Vec<String>,
    pub next: Result<DaemonNext, AgentdError>,
}

/// What a turn of the start says.
#[verifier::ext_equal]
pub struct DaemonTurnView {
    pub lines: Seq<Seq<char>>,
    pub next: Result<DaemonNextView, AgentdErrorView>,
}

impl View for DaemonTurn {
    type V = DaemonTurnView;

    open spec fn view(&self) -> DaemonTurnView {
        DaemonTurnView {
            lines: texts(self.lines@),
            next: match self.next {
                Ok(next) => Ok(next@),
                Err(e) => Err(e@),
            },
        }
    }
}

/// What is to be done after an event of the start, or why it ends there.
pub open spec fn daemon_next(plan: DaemonPlanView, once: bool, event: DaemonEvent) -> Result<
    DaemonNextView,
    AgentdErrorView,
> {
    match event {
        DaemonEvent::Begin => Ok(DaemonNextView::TakeLock),
        DaemonEvent::LockTried(attempt) => match lock_error(plan.state_dir, attempt) {
            None => Ok(DaemonNextView::MakeDirectories),
            Some(e) => Err(e),
        },
        DaemonEvent::DirectoriesMade(true) => Ok(DaemonNextView::Enroll),
        DaemonEvent::DirectoriesMade(false) => Err(
            error_with(AgentdReason::SystemError, "initialize runtime directories"@),
        ),
        DaemonEvent::EnrollmentEnded(Ok(_)) => Ok(DaemonNextView::InitializeState),
        DaemonEvent::EnrollmentEnded(Err(e)) => Err(e@),
        DaemonEvent::StateInitialized(true) => Ok(DaemonNextView::ResolveExecBin),
        DaemonEvent::StateInitialized(false) => Err(
            error_with(AgentdReason::SystemError, "initialize runtime state"@),
        ),
        DaemonEvent::ExecBinResolved(Some(path)) => if once {
            Ok(DaemonNextView::RunOnce(path@))
        } else {
            Ok(DaemonNextView::RunForever(path@))
        },
        DaemonEvent::ExecBinResolved(None) => Err(
            error_with(AgentdReason::ExecBinUnavailable, "resolve wist-exec"@),
        ),
    }
}

/// What is said after an event of the start: once the runtime state is up to date, first
/// where the daemon works, then that it reports its health.
pub open spec fn daemon_lines(
    plan: DaemonPlanView,
    version: Seq<char>,
    event: DaemonEvent,
) -> Seq<Seq<char>> {
    if event == DaemonEvent::StateInitialized(true) {
        seq![
            starting_line(
                version,
                plan.config_path,
                plan.managed,
                plan.run_dir,
                plan.state_dir,
                plan.log_dir,
            ),
            REGISTERED@,
        ]
    } else {
        Seq::empty()
    }
}

fn silent(next: Result<DaemonNext, AgentdError>) -> (turn: DaemonTurn)
    ensures
        turn@.lines == Seq::<Seq<char>>::empty(),
        turn.next == next,
{
    let lines: Vec<String> = Vec::new();
    assert(texts(lines@) =~= Seq::<Seq<char>>::empty());
    DaemonTurn { lines, next }
}

fn system_failure(detail: &str) -> (turn: DaemonTurn)
    ensures
        turn@.lines == Seq::<Seq<char>>::empty(),
        turn@.next == Err::<DaemonNextView, _>(error_with(AgentdReason::SystemError, detail@)),
{
    silent(Err(AgentdError::with_detail(AgentdReason::SystemError, detail.to_string())))
}

/// Decides what follows an event of the start of a daemon.
pub fn run_daemon(plan: &DaemonPlan, version: &str, once: bool, event: DaemonEvent) -> (turn:
    DaemonTurn)
    ensures
        turn@.lines == daemon_lines(plan@, version@, event),
        turn@.next == daemon_next(plan@, once, event),
{
    match event {
        DaemonEvent::Begin => silent(Ok(DaemonNext::TakeLock)),
        DaemonEvent::LockTried(attempt) => match acquire(&plan.state_dir, attempt) {
            Ok(_) => silent(Ok(DaemonNext::MakeDirectories)),
            Err(e) => silent(Err(e)),
        },
        DaemonEvent::DirectoriesMade(true) => silent(Ok(DaemonNext::Enroll)),
        DaemonEvent::DirectoriesMade(false) => system_failure("initialize runtime directories"),
        DaemonEvent::EnrollmentEnded(Ok(_)) => silent(Ok(DaemonNext::InitializeState)),
        DaemonEvent::EnrollmentEnded(Err(e)) => silent(Err(e)),
        DaemonEvent::StateInitialized(true) => {
            let lines: Vec<String> = vec![
                starting_message(
                    version,
                    &plan.config_path,
                    plan.managed,
                    &plan.run_dir,
                    &plan.state_dir,
                    &plan.log_dir,
                ),
                REGISTERED.to_string(),
            ];
            proof {
                assert(texts(lines@) =~= daemon_lines(plan@, version@, event));
            }
            DaemonTurn { lines, next: Ok(DaemonNext::ResolveExecBin) }
        },
        DaemonEvent::StateInitialized(false) => system_failure("initialize runtime state"),
        DaemonEvent::ExecBinResolved(Some(path)) => {
            if once {
                silent(Ok(DaemonNext::RunOnce(path)))
            } else {
                silent(Ok(DaemonNext::RunForever(path)))
            }
        },
        DaemonEvent::ExecBinResolved(None) => silent(
            Err(
                AgentdError::with_detail(
                    AgentdReason::ExecBinUnavailable,
                    "resolve wist-exec".to_string(),
                ),
            ),
        ),
    }
}

/// Whether an event is an answer to what was to be done.
pub open spec fn answers(event: DaemonEvent, next: DaemonNextView) -> bool {
    match next {
        DaemonNextView::TakeLock => event is LockTried,
        DaemonNextView::MakeDirectories => event is DirectoriesMade,
        DaemonNextView::Enroll => event is EnrollmentEnded,
        DaemonNextView::InitializeState => event is StateInitialized,
        DaemonNextView::ResolveExecBin => event is ExecBinResolved,
        DaemonNextView::RunOnce(_) | DaemonNextView::RunForever(_) => false,
    }
}

/// Whether an event is an answer to what was to be done after the one before it.
pub open spec fn follows(
    plan: DaemonPlanView,
    once: bool,
    events: Seq<DaemonEvent>,
    at: int,
) -> bool {
    daemon_next(plan, once, events[at - 1]) matches Ok(next) && answers(events[at], next)
}

/// Whether events are those of a start, as far as it has come.
pub open spec fn is_start(plan: DaemonPlanView, once: bool, events: Seq<DaemonEvent>) -> bool {
    &&& events.len() > 0
    &&& events[0] is Begin
    &&& forall|i: int| 0 < i < events.len() ==> #[trigger] follows(plan, once, events, i)
}

/// The event of a start at each place.
proof fn lemma_start_steps(plan: DaemonPlanView, once: bool, events: Seq<DaemonEvent>)
    requires
        is_start(plan, once, events),
    ensures
        events.len() <= 6,
        events.len() > 1 ==> events[1] is LockTried,
        events.len() > 2 ==> events[2] is DirectoriesMade && events[1] == DaemonEvent::LockTried(
            LockAttempt::Taken,
        ),
        events.len() > 3 ==> events[3] is EnrollmentEnded && events[2]
            == DaemonEvent::DirectoriesMade(true),
        events.len() > 4 ==> events[4] is StateInitialized && events[3]->EnrollmentEnded_0 is Ok,
        events.len() > 5 ==> events[5] is ExecBinResolved && events[4]
            == DaemonEvent::StateInitialized(true),
{
    assert(events.len() > 1 ==> follows(plan, once, events, 1));
    assert(events.len() > 2 ==> follows(plan, once, events, 2));
    assert(events.len() > 3 ==> follows(plan, once, events, 3));
    assert(events.len() > 4 ==> follows(plan, once, events, 4));
    assert(events.len() > 5 ==> follows(plan, once, events, 5));
    assert(events.len() > 6 ==> follows(plan, once, events, 6));
}

/// The lock is tried before anything else, and nothing else is done unless it was taken:
/// two daemons never work on one state directory.
pub proof fn law_lock_comes_first(plan: DaemonPlanView, once: bool, events: Seq<DaemonEvent>)
    requires
        is_start(plan, once, events),
    ensures
        events.len() >= 2 ==> events[1] is LockTried,
        events.len() >= 3 || (events.len() == 2 && daemon_next(plan, once, events[1]) is Ok)
            ==> events[1] == DaemonEvent::LockTried(LockAttempt::Taken),
{
    lemma_start_steps(plan, once, events);
}

/// A daemon runs only where it holds the lock, its directories are made, its enrollment
/// and its runtime state are in order and its executor was found; it runs with that
/// executor, and once exactly where that was asked for.
pub proof fn law_daemon_runs_after_every_step(
    plan: DaemonPlanView,
    once: bool,
    events: Seq<DaemonEvent>,
    exec_bin: Seq<u8>,
)
    requires
        is_start(plan, once, events),
        daemon_next(plan, once, events.last()) == Ok::<_, AgentdErrorView>(
            DaemonNextView::RunOnce(exec_bin),
        ) || daemon_next(plan, once, events.last()) == Ok::<_, AgentdErrorView>(
            DaemonNextView::RunForever(exec_bin),
        ),
    ensures
        events.len() == 6,
        events[1] == DaemonEvent::LockTried(LockAttempt::Taken),
        events[2] == DaemonEvent::DirectoriesMade(true),
        events[3] is EnrollmentEnded && events[3]->EnrollmentEnded_0 is Ok,
        events[4] == DaemonEvent::StateInitialized(true),
        events[5] is ExecBinResolved && events[5]->ExecBinResolved_0 is Some
            && events[5]->ExecBinResolved_0->0@ == exec_bin,
        once <==> daemon_next(plan, once, events.last()) == Ok::<_, AgentdErrorView>(
            DaemonNextView::RunOnce(exec_bin),
        ),
{
    lemma_start_steps(plan, once, events);
}

} // verus!
