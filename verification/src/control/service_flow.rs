//! The `service` command: from a request to what is done and said.
use crate::control::args::{ServiceRequest, ServiceRequestView};
use crate::control::enroll::{
    enrollment_disabled, enrollment_report, reject_disabled, report_enrollment, EnrolledAgent,
    EnrollmentDecision,
};
use crate::control::messages::resolve_config_dir_arg;
use crate::error::{error_with, AgentdError, AgentdErrorView, AgentdReason};
use crate::os_text::{display_text, opt_bytes, opt_ref_bytes, OsText};
use crate::paths::joined_path;
use crate::service::commands::{
    activate_commands, activation, command_line_text, command_views, deactivate_commands,
    deactivation, inspect_commands, inspection, ServiceCommand, ServiceCommandView,
};
use crate::service::install::{
    remove, removal_answer, FileRemoval, InstallReport, InstallReportView,
};
use crate::service::status::{
    log_hint, log_hint_text, path_state, path_state_text, ServiceStatus, ServiceStatusView,
};
use crate::service::{
    default_bin, default_bin_path, default_config_dir, default_config_path, standard_layout,
    ServiceLayout, ServiceLayoutView, ServicePlatform, ServiceSpec, ServiceSpecView,
};
use crate::text::{bool_text, bool_word, opt_text, texts};
use vstd::prelude::*;
use vstd::string::*;

verus! {

/// What a service depends on outside its request.
#[derive(Debug, PartialEq, Eq)]
pub struct HostFacts {
    /// The operating system that the daemon was built for.
    pub target_os: String,
    /// The value of `HOME`.
    pub home: Option<OsText>,
    /// The running executable.
    pub exe: Option<OsText>,
    /// The running executable in its canonical form.
    pub canonical_exe: Option<OsText>,
}

/// What such facts say.
#[verifier::ext_equal]
pub struct HostFactsView {
    pub target_os: Seq<char>,
    pub home: Option<Seq<u8>>,
    pub exe: Option<Seq<u8>>,
    pub canonical_exe: Option<Seq<u8>>,
}

impl View for HostFacts {
    type V = HostFactsView;

    open spec fn view(&self) -> HostFactsView {
        HostFactsView {
            target_os: self.target_os@,
            home: opt_bytes(self.home),
            exe: opt_bytes(self.exe),
            canonical_exe: opt_bytes(self.canonical_exe),
        }
    }
}

/// A service request, made out.
#[derive(Debug, PartialEq, Eq)]
pub struct ServicePlan {
    pub layout: ServiceLayout,
    pub spec: ServiceSpec,
}

/// What a plan says.
#[verifier::ext_equal]
pub struct ServicePlanView {
    pub layout: ServiceLayoutView,
    pub spec: ServiceSpecView,
}

impl View for ServicePlan {
    type V = ServicePlanView;

    open spec fn view(&self) -> ServicePlanView {
        ServicePlanView { layout: self.layout@, spec: self.spec@ }
    }
}

/// The platform of a request: the given one, or that of the host.
pub open spec fn requested_platform(request: ServiceRequestView, host: HostFactsView) -> Option<
    ServicePlatform,
> {
    match request.platform {
        Some(platform) => Some(platform),
        None => ServicePlatform::for_os(host.target_os),
    }
}

/// The configuration directory of a request: the given one, or that of the scope.
pub open spec fn requested_config_dir(
    root: Seq<u8>,
    config_dir: Option<Seq<u8>>,
    request: ServiceRequestView,
    host: HostFactsView,
) -> Result<Seq<u8>, AgentdErrorView> {
    match config_dir {
        Some(path) => Ok(joined_path(root, path)),
        None => default_config_path(request.scope, host.home),
    }
}

/// The binary of a request: the given one, or the running executable.
pub open spec fn requested_bin(request: ServiceRequestView, host: HostFactsView) -> Result<
    Seq<u8>,
    AgentdErrorView,
> {
    match request.bin {
        Some(path) => Ok(path),
        None => default_bin_path(host.exe, host.canonical_exe),
    }
}

/// A request, made out, or the first thing that is missing: a service manager, a
/// configuration directory, a binary, a place for the definition.
pub open spec fn planned_service(
    root: Seq<u8>,
    config_dir: Option<Seq<u8>>,
    request: ServiceRequestView,
    host: HostFactsView,
) -> Result<ServicePlanView, AgentdErrorView> {
    match requested_platform(request, host) {
        None => Err(
            error_with(
                AgentdReason::ServicePathUnresolved,
                "service management is supported on Linux (systemd) and macOS (launchd) only"@,
            ),
        ),
        Some(platform) => match requested_config_dir(root, config_dir, request, host) {
            Err(e) => Err(e),
            Ok(dir) => match requested_bin(request, host) {
                Err(e) => Err(e),
                Ok(bin) => match standard_layout(platform, request.scope, host.home) {
                    Err(e) => Err(e),
                    Ok(layout) => Ok(
                        ServicePlanView {
                            layout,
                            spec: ServiceSpecView { scope: request.scope, bin, config_dir: dir },
                        },
                    ),
                },
            },
        },
    }
}

/// Makes out a request.
pub fn run_service(
    root: &OsText,
    config_dir: Option<&OsText>,
    request: &ServiceRequest,
    host: &HostFacts,
) -> (out: Result<ServicePlan, AgentdError>)
    ensures
        match out {
            Ok(plan) => planned_service(root@, opt_ref_bytes(config_dir), request@, host@) == Ok::<
                _,
                AgentdErrorView,
            >(plan@),
            Err(e) => planned_service(root@, opt_ref_bytes(config_dir), request@, host@) == Err::<
                ServicePlanView,
                _,
            >(e@),
        },
{
    let platform = match request.platform {
        Some(platform) => platform,
        None => match ServicePlatform::current(host.target_os.as_str()) {
            Some(platform) => platform,
            None => {
                return Err(
                    AgentdError::with_detail(
                        AgentdReason::ServicePathUnresolved,
                        "service management is supported on Linux (systemd) and macOS (launchd) only".to_string(),
                    ),
                );
            },
        },
    };
    let dir = match config_dir {
        Some(path) => resolve_config_dir_arg(root, path),
        None => match default_config_dir(request.scope, host.home.as_ref()) {
            Ok(dir) => dir,
            Err(e) => return Err(e),
        },
    };
    let bin = match &request.bin {
        Some(path) => path.clone(),
        None => match default_bin(host.exe.as_ref(), host.canonical_exe.as_ref()) {
            Ok(path) => path,
            Err(e) => return Err(e),
        },
    };
    let spec = ServiceSpec::new(request.scope, bin, dir);
    match ServiceLayout::resolve(platform, request.scope, host.home.as_ref()) {
        Ok(layout) => Ok(ServicePlan { layout, spec }),
        Err(e) => Err(e),
    }
}

/// A line of output.
#[derive(Debug, PartialEq, Eq)]
pub enum OutputLine {
    /// For standard output.
    Out(String),
    /// For standard error.
    Warn(String),
}

/// What a line of output says.
#[verifier::ext_equal]
pub enum LineView {
    Out(Seq<char>),
    Warn(Seq<char>),
}

impl View for OutputLine {
    type V = LineView;

    open spec fn view(&self) -> LineView {
        match self {
            OutputLine::Out(text) => LineView::Out(text@),
            OutputLine::Warn(text) => LineView::Warn(text@),
        }
    }
}

/// The views of a list of lines.
pub open spec fn line_views(list: Seq<OutputLine>) -> Seq<LineView> {
    list.map_values(|l: OutputLine| l@)
}

/// A list of texts as lines for standard output.
pub open spec fn out_lines(list: Seq<Seq<char>>) -> Seq<LineView> {
    list.map_values(|s: Seq<char>| LineView::Out(s))
}

/// Commands as lines, each behind a label.
pub open spec fn command_lines(
    label: Seq<char>,
    commands: Seq<ServiceCommandView>,
) -> Seq<LineView> {
    commands.map_values(|c: ServiceCommandView| LineView::Out(label + command_line_text(c)))
}

fn push_line(lines: &mut Vec<OutputLine>, line: OutputLine)
    ensures
        line_views(final(lines)@) == line_views(old(lines)@).push(line@),
{
    let ghost before = line_views(lines@);
    lines.push(line);
    proof {
        assert(line_views(lines@) =~= before.push(line@));
    }
}

fn push_texts(lines: &mut Vec<OutputLine>, list: &Vec<String>)
    ensures
        line_views(final(lines)@) == line_views(old(lines)@) + out_lines(texts(list@)),
{
    let ghost start = line_views(lines@);
    let ghost all = out_lines(texts(list@));
    assert(line_views(lines@) =~= start + all.take(0));
    for i in 0..list.len()
        invariant
            all == out_lines(texts(list@)),
            line_views(lines@) == start + all.take(i as int),
    {
        push_line(lines, OutputLine::Out(list[i].as_str().to_string()));
        proof {
            assert(all[i as int] == LineView::Out(list@[i as int]@));
            assert(line_views(lines@) =~= start + all.take(i + 1));
        }
    }
    proof {
        assert(all.take(all.len() as int) =~= all);
    }
}

fn push_commands(lines: &mut Vec<OutputLine>, label: &str, commands: &Vec<ServiceCommand>)
    ensures
        line_views(final(lines)@) == line_views(old(lines)@) + command_lines(
            label@,
            command_views(commands@),
        ),
{
    let ghost start = line_views(lines@);
    let ghost all = command_lines(label@, command_views(commands@));
    assert(line_views(lines@) =~= start + all.take(0));
    for i in 0..commands.len()
        invariant
            all == command_lines(label@, command_views(commands@)),
            line_views(lines@) == start + all.take(i as int),
    {
        let mut text = label.to_string();
        text.append(commands[i].display_line().as_str());
        push_line(lines, OutputLine::Out(text));
        proof {
            assert(command_views(commands@)[i as int] == commands@[i as int]@);
            assert(line_views(lines@) =~= start + all.take(i + 1));
        }
    }
    proof {
        assert(all.take(all.len() as int) =~= all);
    }
}

/// The lines that report an installation: the definition, and a warning for each thing
/// that is missing to run it.
pub open spec fn install_lines(
    report: InstallReportView,
    spec: ServiceSpecView,
    config_dir_present: bool,
) -> Seq<LineView> {
    seq![
        LineView::Out("service definition written: "@ + display_text(report.definition_path)),
    ] + (if report.overwritten {
        seq![LineView::Out("previous definition overwritten (--force)"@)]
    } else {
        Seq::empty()
    }) + (if !report.bin_present {
        seq![
            LineView::Warn(
                "warning: wist-agentd binary not found: "@ + display_text(spec.bin)
                    + " (install it before starting the service)"@,
            ),
        ]
    } else {
        Seq::empty()
    }) + (if !report.exec_bin_present {
        seq![
            LineView::Warn(
                "warning: wist-exec not found next to wist-agentd: "@ + display_text(
                    spec.exec_path(),
                )
                    + " (the daemon resolves it as a sibling binary; set WARP_INSIGHT_EXEC_BIN or place it there)"@,
            ),
        ]
    } else {
        Seq::empty()
    }) + (match report.log_dir {
        Some(dir) => seq![LineView::Out("launchd logs: "@ + display_text(dir))],
        None => Seq::empty(),
    }) + (if !config_dir_present {
        seq![
            LineView::Warn(
                "warning: config dir "@ + display_text(spec.config_dir)
                    + " does not exist; the daemon writes the default agentd.toml on first start (run `wist-agentd init-config --config-dir "@
                    + display_text(spec.config_dir)
                    + "` to create and review it before starting)"@,
            ),
        ]
    } else {
        Seq::empty()
    })
}

fn install_report_lines(
    report: &InstallReport,
    spec: &ServiceSpec,
    config_dir_present: bool,
) -> (lines: Vec<OutputLine>)
    ensures
        line_views(lines@) == install_lines(report@, spec@, config_dir_present),
{
    let mut lines: Vec<OutputLine> = Vec::new();
    let mut written = "service definition written: ".to_string();
    written.append(report.definition_path.display().as_str());
    push_line(&mut lines, OutputLine::Out(written));
    if report.overwritten {
        push_line(
            &mut lines,
            OutputLine::Out("previous definition overwritten (--force)".to_string()),
        );
    }
    if !report.bin_present {
        let mut text = "warning: wist-agentd binary not found: ".to_string();
        text.append(spec.bin.display().as_str());
        text.append(" (install it before starting the service)");
        push_line(&mut lines, OutputLine::Warn(text));
    }
    if !report.exec_bin_present {
        let mut text = "warning: wist-exec not found next to wist-agentd: ".to_string();
        text.append(spec.exec_bin().display().as_str());
        text.append(
            " (the daemon resolves it as a sibling binary; set WARP_INSIGHT_EXEC_BIN or place it there)",
        );
        push_line(&mut lines, OutputLine::Warn(text));
    }
    if let Some(dir) = &report.log_dir {
        let mut text = "launchd logs: ".to_string();
        text.append(dir.display().as_str());
        push_line(&mut lines, OutputLine::Out(text));
    }
    if !config_dir_present {
        let mut text = "warning: config dir ".to_string();
        text.append(spec.config_dir.display().as_str());
        text.append(
            " does not exist; the daemon writes the default agentd.toml on first start (run `wist-agentd init-config --config-dir ",
        );
        text.append(spec.config_dir.display().as_str());
        text.append("` to create and review it before starting)");
        push_line(&mut lines, OutputLine::Warn(text));
    }
    proof {
        assert(line_views(lines@) =~= install_lines(report@, spec@, config_dir_present));
    }
    lines
}

/// What happened last in an installation.
#[derive(Debug, PartialEq, Eq)]
pub enum InstallEvent {
    /// It begins.
    Begin,
    /// The enrollment ended.
    EnrollmentEnded(Result<(EnrollmentDecision, Option<EnrolledAgent>), AgentdError>),
    /// Writing the definition ended. On success it is said, too, whether the
    /// configuration directory is there.
    WritingEnded(Result<(InstallReport, bool), AgentdError>),
    /// The commands of the activation were run.
    ActivationEnded(Result<(), AgentdError>),
}

/// What is to be done next in an installation.
#[derive(Debug, PartialEq, Eq)]
pub enum InstallNext {
    /// Enroll with this token.
    Enroll(String),
    /// Write the definition.
    Write,
    /// Run these commands.
    Activate(Vec<ServiceCommand>),
    /// Nothing.
    Done,
}

/// What is to be done next in an installation.
#[verifier::ext_equal]
pub enum InstallNextView {
    Enroll(Seq<char>),
    Write,
    Activate(Seq<ServiceCommandView>),
    Done,
}

impl View for InstallNext {
    type V = InstallNextView;

    open spec fn view(&self) -> InstallNextView {
        match self {
            InstallNext::Enroll(token) => InstallNextView::Enroll(token@),
            InstallNext::Write => InstallNextView::Write,
            InstallNext::Activate(commands) => InstallNextView::Activate(command_views(commands@)),
            InstallNext::Done => InstallNextView::Done,
        }
    }
}

/// What is said and what is to be done after an event of an installation, or why it ends
/// there.
#[derive(Debug, PartialEq, Eq)]
pub struct InstallTurn {
    pub lines: Vec<OutputLine>,
    pub next: Result<InstallNext, AgentdError>,
}

/// What a turn of an installation says.
#[verifier::ext_equal]
pub struct InstallTurnView {
    pub lines: Seq<LineView>,
    pub next: Result<InstallNextView, AgentdErrorView>,
}

impl View for InstallTurn {
    type V = InstallTurnView;

    open spec fn view(&self) -> InstallTurnView {
        InstallTurnView {
            lines: line_views(self.lines@),
            next: match self.next {
                Ok(next) => Ok(next@),
                Err(e) => Err(e@),
            },
        }
    }
}

/// The end of an installation: where the logs are and how to look at the service.
pub open spec fn closing_turn(
    before: Seq<LineView>,
    layout: ServiceLayoutView,
    spec: ServiceSpecView,
    uid: u32,
) -> InstallTurnView {
    match log_hint_text(layout, spec) {
        Ok(hint) => InstallTurnView {
            lines: before.push(LineView::Out("logs: "@ + hint)) + command_lines(
                "check: "@,
                inspection(layout.platform, spec, uid),
            ),
            next: Ok(InstallNextView::Done),
        },
        Err(e) => InstallTurnView { lines: before, next: Err(e) },
    }
}

/// What follows an event of an installation. With a token the agent is enrolled first,
/// so that a refused token leaves no service behind that cannot start.
pub open spec fn install_turn(
    layout: ServiceLayoutView,
    spec: ServiceSpecView,
    request: ServiceRequestView,
    event: InstallEvent,
    uid: u32,
) -> InstallTurnView {
    match event {
        InstallEvent::Begin => InstallTurnView {
            lines: Seq::empty(),
            next: match request.enrollment_token {
                Some(token) => Ok(InstallNextView::Enroll(token)),
                None => Ok(InstallNextView::Write),
            },
        },
        InstallEvent::EnrollmentEnded(Err(e)) => InstallTurnView {
            lines: Seq::empty(),
            next: Err(e@),
        },
        InstallEvent::EnrollmentEnded(Ok((decision, agent))) => if decision
            == EnrollmentDecision::Disabled {
            InstallTurnView {
                lines: Seq::empty(),
                next: Err(enrollment_disabled(spec.config_dir)),
            }
        } else {
            InstallTurnView {
                lines: out_lines(enrollment_report(decision, agent)),
                next: Ok(InstallNextView::Write),
            }
        },
        InstallEvent::WritingEnded(Err(e)) => InstallTurnView {
            lines: Seq::empty(),
            next: Err(e@),
        },
        InstallEvent::WritingEnded(Ok((report, config_dir_present))) => {
            let lines = install_lines(report@, spec, config_dir_present);
            if request.activate {
                InstallTurnView {
                    lines,
                    next: Ok(InstallNextView::Activate(activation(layout, spec, uid))),
                }
            } else {
                closing_turn(
                    lines.push(
                        LineView::Out("definition only (--no-activate); activate manually:"@),
                    ) + command_lines("  "@, activation(layout, spec, uid)),
                    layout,
                    spec,
                    uid,
                )
            }
        },
        InstallEvent::ActivationEnded(Err(e)) => InstallTurnView {
            lines: Seq::empty(),
            next: Err(e@),
        },
        InstallEvent::ActivationEnded(Ok(_)) => closing_turn(
            seq![LineView::Out("service activated ("@ + layout.platform.word() + ")"@)],
            layout,
            spec,
            uid,
        ),
    }
}

fn close_install(
    lines: Vec<OutputLine>,
    layout: &ServiceLayout,
    spec: &ServiceSpec,
    uid: u32,
) -> (turn: InstallTurn)
    ensures
        turn@ == closing_turn(line_views(lines@), layout@, spec@, uid),
{
    let mut lines = lines;
    match log_hint(layout, spec) {
        Ok(hint) => {
            let mut text = "logs: ".to_string();
            text.append(hint.as_str());
            push_line(&mut lines, OutputLine::Out(text));
            push_commands(&mut lines, "check: ", &inspect_commands(layout.platform, spec, uid));
            InstallTurn { lines, next: Ok(InstallNext::Done) }
        },
        Err(e) => InstallTurn { lines, next: Err(e) },
    }
}

fn copy_token(token: &Option<String>) -> (copy: Option<String>)
    ensures
        opt_text(copy) == opt_text(*token),
{
    match token {
        Some(text) => Some(text.as_str().to_string()),
        None => None,
    }
}

fn silent(next: Result<InstallNext, AgentdError>) -> (turn: InstallTurn)
    ensures
        turn@.lines == Seq::<LineView>::empty(),
        turn.next == next,
{
    let lines: Vec<OutputLine> = Vec::new();
    assert(line_views(lines@) =~= Seq::<LineView>::empty());
    InstallTurn { lines, next }
}

/// Decides what follows an event of an installation.
pub fn run_service_install(
    layout: &ServiceLayout,
    spec: &ServiceSpec,
    request: &ServiceRequest,
    event: InstallEvent,
    uid: u32,
) -> (turn: InstallTurn)
    ensures
        turn@ == install_turn(layout@, spec@, request@, event, uid),
{
    match event {
        InstallEvent::Begin => match copy_token(&request.enrollment_token) {
            Some(token) => silent(Ok(InstallNext::Enroll(token))),
            None => silent(Ok(InstallNext::Write)),
        },
        InstallEvent::EnrollmentEnded(Err(e)) => silent(Err(e)),
        InstallEvent::EnrollmentEnded(Ok((decision, agent))) => {
            match reject_disabled(&spec.config_dir, decision) {
                Ok(kept) => {
                    let mut lines: Vec<OutputLine> = Vec::new();
                    push_texts(&mut lines, &report_enrollment(kept, &agent));
                    proof {
                        assert(line_views(lines@) =~= out_lines(
                            enrollment_report(decision, agent),
                        ));
                    }
                    InstallTurn { lines, next: Ok(InstallNext::Write) }
                },
                Err(e) => silent(Err(e)),
            }
        },
        InstallEvent::WritingEnded(Err(e)) => silent(Err(e)),
        InstallEvent::WritingEnded(Ok((report, config_dir_present))) => {
            let mut lines = install_report_lines(&report, spec, config_dir_present);
            let commands = match activate_commands(layout, spec, uid) {
                Ok(commands) => commands,
                Err(e) => return silent(Err(e)),
            };
            if request.activate {
                return InstallTurn { lines, next: Ok(InstallNext::Activate(commands)) };
            }
            push_line(
                &mut lines,
                OutputLine::Out(
                    "definition only (--no-activate); activate manually:".to_string(),
                ),
            );
            push_commands(&mut lines, "  ", &commands);
            close_install(lines, layout, spec, uid)
        },
        InstallEvent::ActivationEnded(Err(e)) => silent(Err(e)),
        InstallEvent::ActivationEnded(Ok(_)) => {
            let mut text = "service activated (".to_string();
            text.append(layout.platform.as_str());
            text.append(")");
            let mut lines: Vec<OutputLine> = Vec::new();
            push_line(&mut lines, OutputLine::Out(text));
            proof {
                assert(line_views(lines@) =~= seq![
                    LineView::Out("service activated ("@ + layout@.platform.word() + ")"@),
                ]);
            }
            close_install(lines, layout, spec, uid)
        },
    }
}

/// A definition is written only where no enrollment was asked for, or after one that
/// took place: a refused token leaves no service behind.
pub proof fn law_no_definition_without_enrollment(
    layout: ServiceLayoutView,
    spec: ServiceSpecView,
    request: ServiceRequestView,
    event: InstallEvent,
    uid: u32,
)
    requires
        install_turn(layout, spec, request, event, uid).next == Ok::<_, AgentdErrorView>(
            InstallNextView::Write,
        ),
    ensures
        match event {
            InstallEvent::Begin => request.enrollment_token is None,
            InstallEvent::EnrollmentEnded(Ok((decision, _))) => decision
                != EnrollmentDecision::Disabled,
            _ => false,
        },
{
}

/// Without activation no command is ever run, and what would have been run is shown.
pub proof fn law_no_activation_runs_nothing(
    layout: ServiceLayoutView,
    spec: ServiceSpecView,
    request: ServiceRequestView,
    event: InstallEvent,
    uid: u32,
)
    requires
        !request.activate,
    ensures
        !(install_turn(layout, spec, request, event, uid).next matches Ok(
            InstallNextView::Activate(_),
        )),
        event matches InstallEvent::WritingEnded(Ok(_)) ==> forall|i: int|
            0 <= i < activation(layout, spec, uid).len() ==> install_turn(
                layout,
                spec,
                request,
                event,
                uid,
            ).lines.contains(
                LineView::Out("  "@ + command_line_text(#[trigger] activation(layout, spec, uid)[i])),
            ),
{
    if let InstallEvent::WritingEnded(Ok((report, config_dir_present))) = event {
        let turn = install_turn(layout, spec, request, event, uid);
        let commands = activation(layout, spec, uid);
        let head = install_lines(report@, spec, config_dir_present).push(
            LineView::Out("definition only (--no-activate); activate manually:"@),
        );
        let shown = command_lines("  "@, commands);
        assert forall|i: int| 0 <= i < commands.len() implies turn.lines.contains(
            LineView::Out("  "@ + command_line_text(#[trigger] commands[i])),
        ) by {
            assert(shown[i] == LineView::Out("  "@ + command_line_text(commands[i])));
            assert((head + shown)[head.len() + i] == shown[i]);
            assert(turn.lines[head.len() + i] == shown[i]);
        }
    }
}

/// What is printed of an installation does not depend on the token that it enrolls with.
pub proof fn law_installation_says_no_token(
    layout: ServiceLayoutView,
    spec: ServiceSpecView,
    request: ServiceRequestView,
    token: Option<Seq<char>>,
    event: InstallEvent,
    uid: u32,
)
    ensures
        install_turn(
            layout,
            spec,
            ServiceRequestView { enrollment_token: token, ..request },
            event,
            uid,
        ).lines == install_turn(layout, spec, request, event, uid).lines,
{
}

/// The line that reports a removal.
pub open spec fn removal_line(definition_path: Seq<u8>, removed: bool) -> Seq<char> {
    "service definition "@ + display_text(definition_path) + ": "@ + (if removed {
        "removed"@
    } else {
        "not present"@
    })
}

fn removal_message(layout: &ServiceLayout, removed: bool) -> (out: String)
    ensures
        out@ == removal_line(layout@.definition_path, removed),
{
    let mut out = "service definition ".to_string();
    out.append(layout.definition_path.display().as_str());
    out.append(": ");
    out.append(
        if removed {
            "removed"
        } else {
            "not present"
        },
    );
    out
}

/// What happened last in an uninstallation.
#[derive(Debug, PartialEq, Eq)]
pub enum UninstallEvent {
    /// It begins.
    Begin,
    /// The commands that stop the service were run.
    StopEnded(Result<(), AgentdError>),
    /// Deleting the file of the definition ended.
    RemovalEnded(FileRemoval),
}

/// What is to be done next in an uninstallation.
#[derive(Debug, PartialEq, Eq)]
pub enum UninstallNext {
    /// Run these commands.
    Stop(Vec<ServiceCommand>),
    /// Delete the file of the definition.
    Remove,
    /// Print this line: the uninstallation is done.
    Report(String),
}

/// What is to be done next in an uninstallation.
#[verifier::ext_equal]
pub enum UninstallNextView {
    Stop(Seq<ServiceCommandView>),
    Remove,
    Report(Seq<char>),
}

impl View for UninstallNext {
    type V = UninstallNextView;

    open spec fn view(&self) -> UninstallNextView {
        match self {
            UninstallNext::Stop(commands) => UninstallNextView::Stop(command_views(commands@)),
            UninstallNext::Remove => UninstallNextView::Remove,
            UninstallNext::Report(line) => UninstallNextView::Report(line@),
        }
    }
}

/// What follows an event of an uninstallation: the service is stopped, then its
/// definition is removed.
pub open spec fn uninstall_turn(plan: ServicePlanView, event: UninstallEvent, uid: u32) -> Result<
    UninstallNextView,
    AgentdErrorView,
> {
    match event {
        UninstallEvent::Begin => Ok(
            UninstallNextView::Stop(deactivation(plan.layout.platform, plan.spec, uid)),
        ),
        UninstallEvent::StopEnded(Ok(_)) => Ok(UninstallNextView::Remove),
        UninstallEvent::StopEnded(Err(e)) => Err(e@),
        UninstallEvent::RemovalEnded(removal) => match removal_answer(
            plan.layout.definition_path,
            removal,
        ) {
            Ok(removed) => Ok(
                UninstallNextView::Report(removal_line(plan.layout.definition_path, removed)),
            ),
            Err(e) => Err(e),
        },
    }
}

/// Decides what follows an event of an uninstallation.
pub fn run_service_uninstall(plan: &ServicePlan, event: UninstallEvent, uid: u32) -> (out: Result<
    UninstallNext,
    AgentdError,
>)
    ensures
        match out {
            Ok(next) => uninstall_turn(plan@, event, uid) == Ok::<_, AgentdErrorView>(next@),
            Err(e) => uninstall_turn(plan@, event, uid) == Err::<UninstallNextView, _>(e@),
        },
{
    match event {
        UninstallEvent::Begin => Ok(
            UninstallNext::Stop(deactivate_commands(plan.layout.platform, &plan.spec, uid)),
        ),
        UninstallEvent::StopEnded(Ok(_)) => Ok(UninstallNext::Remove),
        UninstallEvent::StopEnded(Err(e)) => Err(e),
        UninstallEvent::RemovalEnded(removal) => match remove(&plan.layout, removal) {
            Ok(removed) => Ok(UninstallNext::Report(removal_message(&plan.layout, removed))),
            Err(e) => Err(e),
        },
    }
}

/// A definition is removed only after the service was stopped: no process is left that
/// nothing manages.
pub proof fn law_stop_comes_before_removal(
    plan: ServicePlanView,
    event: UninstallEvent,
    uid: u32,
)
    ensures
        uninstall_turn(plan, event, uid) == Ok::<_, AgentdErrorView>(UninstallNextView::Remove)
            <==> event is StopEnded && event->StopEnded_0 is Ok,
{
}

/// A directory of a status, or a dash where it is not known.
pub open spec fn shown_dir(key: Seq<char>, dir: Option<Seq<u8>>) -> Seq<char> {
    match dir {
        Some(path) => key + "="@ + display_text(path),
        None => key + "=-"@,
    }
}

/// Whether a daemon runs, as it is shown.
pub open spec fn shown_running(running: Option<bool>) -> Seq<char> {
    match running {
        Some(true) => "running=true"@,
        Some(false) => "running=false"@,
        None => "running=unknown (no readable config)"@,
    }
}

/// The lines of a status before the error of the configuration.
pub open spec fn status_head(status: ServiceStatusView) -> Seq<Seq<char>> {
    seq![
        "platform="@ + status.platform.word(),
        "scope="@ + status.scope.word(),
        "definition="@ + display_text(status.definition_path),
        "definition_present="@ + bool_word(status.definition_present),
        "bin="@ + path_state_text(status.bin, status.bin_present),
        "exec_bin="@ + path_state_text(status.exec_bin, status.exec_bin_present),
        "config="@ + path_state_text(status.config_path, status.config_present),
    ]
}

/// The lines of a status behind the error of the configuration.
pub open spec fn status_tail(status: ServiceStatusView) -> Seq<Seq<char>> {
    seq![
        shown_dir("root_dir"@, status.root_dir),
        shown_dir("run_dir"@, status.run_dir),
        shown_dir("state_dir"@, status.state_dir),
        shown_dir("log_dir"@, status.log_dir),
        shown_running(status.running),
        "logs="@ + status.log_hint,
    ]
}

/// The commands by which an operator looks at a service, as lines of a status.
pub open spec fn status_checks(commands: Seq<ServiceCommandView>) -> Seq<Seq<char>> {
    commands.map_values(|c: ServiceCommandView| "check="@ + command_line_text(c))
}

/// The lines of a status.
pub open spec fn status_report(
    status: ServiceStatusView,
    spec: ServiceSpecView,
    uid: u32,
) -> Seq<Seq<char>> {
    status_head(status) + (match status.config_error {
        Some(reason) => seq!["config_error="@ + reason],
        None => Seq::empty(),
    }) + status_tail(status) + status_checks(inspection(status.platform, spec, uid))
}

fn dir_line(key: &str, dir: &Option<OsText>) -> (out: String)
    ensures
        out@ == shown_dir(key@, opt_bytes(*dir)),
{
    let mut out = key.to_string();
    match dir {
        Some(path) => {
            out.append("=");
            out.append(path.display().as_str());
        },
        None => {
            out.append("=-");
        },
    }
    out
}

fn keyed(key: &str, value: &str) -> (out: String)
    ensures
        out@ == key@ + value@,
{
    let mut out = key.to_string();
    out.append(value);
    out
}

/// The lines of a status.
pub fn run_service_status(status: &ServiceStatus, spec: &ServiceSpec, uid: u32) -> (lines: Vec<
    String,
>)
    ensures
        texts(lines@) == status_report(status@, spec@, uid),
{
    let mut lines: Vec<String> = vec![
        keyed("platform=", status.platform.as_str()),
        keyed("scope=", status.scope.as_str()),
        keyed("definition=", status.definition_path.display().as_str()),
        keyed("definition_present=", bool_text(status.definition_present)),
        keyed("bin=", path_state(&status.bin, status.bin_present).as_str()),
        keyed("exec_bin=", path_state(&status.exec_bin, status.exec_bin_present).as_str()),
        keyed("config=", path_state(&status.config_path, status.config_present).as_str()),
    ];
    proof {
        assert(texts(lines@) =~= status_head(status@));
    }
    let ghost head = status_head(status@);
    let ghost middle = match status@.config_error {
        Some(reason) => seq!["config_error="@ + reason],
        None => Seq::empty(),
    };
    if let Some(reason) = &status.config_error {
        lines.push(keyed("config_error=", reason.as_str()));
    }
    proof {
        assert(texts(lines@) =~= head + middle);
    }
    lines.push(dir_line("root_dir", &status.root_dir));
    lines.push(dir_line("run_dir", &status.run_dir));
    lines.push(dir_line("state_dir", &status.state_dir));
    lines.push(dir_line("log_dir", &status.log_dir));
    lines.push(
        match status.running {
            Some(true) => "running=true".to_string(),
            Some(false) => "running=false".to_string(),
            None => "running=unknown (no readable config)".to_string(),
        },
    );
    lines.push(keyed("logs=", status.log_hint.as_str()));
    proof {
        assert(texts(lines@) =~= head + middle + status_tail(status@));
    }
    let ghost before = texts(lines@);
    let commands = inspect_commands(status.platform, spec, uid);
    let ghost checks = status_checks(command_views(commands@));
    assert(texts(lines@) =~= before + checks.take(0));
    for i in 0..commands.len()
        invariant
            checks == status_checks(command_views(commands@)),
            texts(lines@) == before + checks.take(i as int),
    {
        let ghost so_far = texts(lines@);
        lines.push(keyed("check=", commands[i].display_line().as_str()));
        proof {
            assert(command_views(commands@)[i as int] == commands@[i as int]@);
            assert(texts(lines@) =~= so_far.push(checks[i as int]));
            assert(texts(lines@) =~= before + checks.take(i + 1));
        }
    }
    proof {
        assert(checks.take(checks.len() as int) =~= checks);
    }
    lines
}

} // verus!
