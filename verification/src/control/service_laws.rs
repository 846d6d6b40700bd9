//! What holds of every service request, installation, removal and enrollment.
use crate::control::args::{EnrollRequestView, ServiceRequestView};
use crate::control::enroll::{
    enroll_turn, enrollment_report, EnrollEvent, EnrollNextView, EnrolledAgent, EnrollmentDecision,
};
use crate::control::service_flow::{
    install_lines, install_turn, planned_service, uninstall_turn, HostFactsView, InstallEvent,
    InstallNextView, LineView, ServicePlanView, UninstallEvent, UninstallNextView,
};
use crate::error::{AgentdErrorView, AgentdReason};
use crate::os_text::display_text;
use crate::paths::{is_rooted, joined_path};
use crate::service::commands::{activation, command_line_text, deactivation, inspection};
use crate::service::install::{FileRemoval, InstallReportView};
use crate::service::status::log_hint_text;
use crate::service::{
    default_bin_path, default_config_path, standard_layout, ServiceLayoutView, ServicePlatform,
    ServiceScope, ServiceSpecView,
};
use crate::text::opt_text;
use crate::text_laws::{
    has_solid_ends, holds_text, is_blank, law_trim_removes_white_space_only, lemma_holds_between,
};
use vstd::prelude::*;
use vstd::string::*;
use vstd::utf8::*;

verus! {

/// The service manager that a request means: the one it names, or that of the operating
/// system.
pub open spec fn is_manager_of(
    platform: ServicePlatform,
    request: ServiceRequestView,
    host: HostFactsView,
) -> bool {
    match request.platform {
        Some(named) => platform == named,
        None => platform == ServicePlatform::Systemd && host.target_os == "linux"@ || platform
            == ServicePlatform::Launchd && host.target_os == "macos"@,
    }
}

/// A service is planned as it was asked for: for the service manager that is named or that
/// of the host, for the scope of the request throughout, with the directory and the binary
/// that were given, or the defaults of the scope and of the host where they were not. Its
/// files lie where the service manager looks for those of the scope.
pub proof fn law_services_are_planned_as_asked_for(
    root: Seq<u8>,
    config_dir: Option<Seq<u8>>,
    request: ServiceRequestView,
    host: HostFactsView,
)
    ensures
        planned_service(root, config_dir, request, host) matches Ok(plan) ==> {
            &&& is_manager_of(plan.layout.platform, request, host)
            &&& plan.layout.scope == request.scope
            &&& plan.spec.scope == request.scope
            &&& config_dir matches Some(path) ==> plan.spec.config_dir == joined_path(root, path)
            &&& config_dir matches Some(path) ==> is_rooted(path) ==> plan.spec.config_dir == path
            &&& config_dir is None ==> default_config_path(request.scope, host.home) == Ok::<
                _,
                AgentdErrorView,
            >(plan.spec.config_dir)
            &&& request.bin matches Some(path) ==> plan.spec.bin == path
            &&& request.bin is None ==> default_bin_path(host.exe, host.canonical_exe) == Ok::<
                _,
                AgentdErrorView,
            >(plan.spec.bin)
            &&& standard_layout(plan.layout.platform, request.scope, host.home) == Ok::<
                _,
                AgentdErrorView,
            >(plan.layout)
        },
        planned_service(root, config_dir, request, host) matches Err(e) ==> e.reason
            == AgentdReason::ServicePathUnresolved,
{
    reveal_strlit("linux");
    reveal_strlit("macos");
    crate::service::definition_laws::law_units_lie_where_systemd_looks(host.home);
    crate::service::definition_laws::law_property_lists_lie_where_launchd_looks(host.home);
    crate::service::definition_laws::law_services_have_default_places(
        host.home,
        host.exe,
        host.canonical_exe,
    );
    if let Some(path) = config_dir {
        if is_rooted(path) {
            crate::path_step_laws::law_absolute_paths_stand_alone(root, path);
        }
    }
}

/// A service can be planned wherever a service manager is known, a directory and a binary
/// are given or known, and, for a user, the home directory is known.
pub proof fn law_services_can_be_planned(
    root: Seq<u8>,
    config_dir: Option<Seq<u8>>,
    request: ServiceRequestView,
    host: HostFactsView,
)
    ensures
        planned_service(root, config_dir, request, host) is Ok <==> {
            &&& request.platform is Some || host.target_os == "linux"@ || host.target_os == "macos"@
            &&& request.bin is Some || host.exe is Some
            &&& request.scope == ServiceScope::User ==> (host.home matches Some(dir) && dir.len()
                > 0)
        },
{
    crate::service::definition_laws::law_units_lie_where_systemd_looks(host.home);
    crate::service::definition_laws::law_property_lists_lie_where_launchd_looks(host.home);
    crate::service::definition_laws::law_services_have_default_places(
        host.home,
        host.exe,
        host.canonical_exe,
    );
}

/// The steps of an installation: it enrolls where a token was given, with that token, and
/// writes at once where none was; after an enrollment it writes; after writing it runs the
/// commands of the activation, all of them, unless it was told not to; and then it is done.
/// An error of a step ends it and is handed on as it is.
pub proof fn law_installations_go_step_by_step(
    layout: ServiceLayoutView,
    spec: ServiceSpecView,
    request: ServiceRequestView,
    event: InstallEvent,
    uid: u32,
)
    ensures
        ({
            let next = install_turn(layout, spec, request, event, uid).next;
            match event {
                InstallEvent::Begin => match request.enrollment_token {
                    Some(token) => next == Ok::<_, AgentdErrorView>(InstallNextView::Enroll(token)),
                    None => next == Ok::<_, AgentdErrorView>(InstallNextView::Write),
                },
                InstallEvent::EnrollmentEnded(Ok((decision, _))) => if decision
                    == EnrollmentDecision::Disabled {
                    next matches Err(e) && e.reason == AgentdReason::Enrollment
                } else {
                    next == Ok::<_, AgentdErrorView>(InstallNextView::Write)
                },
                InstallEvent::WritingEnded(Ok(_)) => if request.activate {
                    next == Ok::<_, AgentdErrorView>(
                        InstallNextView::Activate(activation(layout, spec, uid)),
                    )
                } else {
                    next is Ok <==> log_hint_text(layout, spec) is Ok
                },
                InstallEvent::ActivationEnded(Ok(_)) => next is Ok <==> log_hint_text(layout, spec)
                    is Ok,
                InstallEvent::EnrollmentEnded(Err(given))
                | InstallEvent::WritingEnded(Err(given))
                | InstallEvent::ActivationEnded(Err(given)) => next == Err::<InstallNextView, _>(
                    given@,
                ),
            }
        }),
        install_turn(layout, spec, request, event, uid).next == Ok::<_, AgentdErrorView>(
            InstallNextView::Done,
        ) ==> {
            let lines = install_turn(layout, spec, request, event, uid).lines;
            let checks = inspection(layout.platform, spec, uid);
            &&& lines.len() > checks.len()
            &&& log_hint_text(layout, spec) matches Ok(hint) && lines[lines.len() - checks.len()
                - 1] == LineView::Out("logs: "@ + hint)
            &&& forall|i: int|
                0 <= i < checks.len() ==> #[trigger] lines[lines.len() - checks.len() + i]
                    == LineView::Out("check: "@ + command_line_text(checks[i]))
        },
{
    let turn = install_turn(layout, spec, request, event, uid);
    if turn.next == Ok::<_, AgentdErrorView>(InstallNextView::Done) {
        let checks = inspection(layout.platform, spec, uid);
        let shown = crate::control::service_flow::command_lines("check: "@, checks);
        let lines = turn.lines;
        assert forall|i: int| 0 <= i < checks.len() implies #[trigger] lines[lines.len()
            - checks.len() + i] == LineView::Out("check: "@ + command_line_text(checks[i])) by {
            assert(lines[lines.len() - checks.len() + i] == shown[i]);
        }
    }
}

/// Whether some line is a warning that holds a text.
pub open spec fn warns_of(lines: Seq<LineView>, text: Seq<char>) -> bool {
    exists|i: int|
        0 <= i < lines.len() && (#[trigger] lines[i] matches LineView::Warn(said) && holds_text(
            said,
            text,
        ))
}

/// Whether some line tells a text.
pub open spec fn tells(lines: Seq<LineView>, text: Seq<char>) -> bool {
    exists|i: int|
        0 <= i < lines.len() && (#[trigger] lines[i] matches LineView::Out(said) && holds_text(
            said,
            text,
        ))
}

/// How many warnings some lines have.
pub open spec fn warnings(lines: Seq<LineView>) -> nat
    decreases lines.len(),
{
    if lines.len() == 0 {
        0
    } else {
        warnings(lines.drop_last()) + (if lines.last() is Warn {
            1nat
        } else {
            0nat
        })
    }
}

proof fn lemma_warnings_add(a: Seq<LineView>, b: Seq<LineView>)
    ensures
        warnings(a + b) == warnings(a) + warnings(b),
    decreases b.len(),
{
    if b.len() == 0 {
        assert(a + b =~= a);
    } else {
        assert((a + b).drop_last() =~= a + b.drop_last());
        assert((a + b).last() == b.last());
        lemma_warnings_add(a, b.drop_last());
    }
}

proof fn lemma_one_warning(line: LineView)
    ensures
        warnings(seq![line]) == (if line is Warn {
            1nat
        } else {
            0nat
        }),
        warnings(Seq::<LineView>::empty()) == 0,
{
    assert(seq![line].drop_last() =~= Seq::<LineView>::empty());
    assert(warnings(seq![line].drop_last()) == 0);
}

/// The report on an installation tells where the definition is, and warns of exactly what is
/// missing: of a binary and of an executor that are not there, by their paths, and of a
/// configuration directory that is not there, by its path. The directory of the output files
/// is told where there is one. Each thing is warned of once, and of nothing else.
#[verifier::rlimit(30)]
pub proof fn law_installations_warn_of_what_is_missing(
    report: InstallReportView,
    spec: ServiceSpecView,
    config_dir_present: bool,
)
    ensures
        ({
            let lines = install_lines(report, spec, config_dir_present);
            &&& tells(lines, display_text(report.definition_path))
            &&& report.log_dir matches Some(dir) ==> tells(lines, display_text(dir))
            &&& !report.bin_present ==> warns_of(lines, display_text(spec.bin))
            &&& !report.exec_bin_present ==> warns_of(lines, display_text(spec.exec_path()))
            &&& !config_dir_present ==> warns_of(lines, display_text(spec.config_dir))
            &&& report.overwritten <==> lines.contains(
                LineView::Out("previous definition overwritten (--force)"@),
            )
            &&& warnings(lines) == (if report.bin_present {
                0nat
            } else {
                1nat
            }) + (if report.exec_bin_present {
                0nat
            } else {
                1nat
            }) + (if config_dir_present {
                0nat
            } else {
                1nat
            })
        }),
{
    let lines = install_lines(report, spec, config_dir_present);
    let none = Seq::<LineView>::empty();
    let no_text = Seq::<char>::empty();
    let l1 = LineView::Out("service definition written: "@ + display_text(report.definition_path));
    let l2 = LineView::Out("previous definition overwritten (--force)"@);
    let bin = display_text(spec.bin);
    let exec = display_text(spec.exec_path());
    let dir = display_text(spec.config_dir);
    let b1 = "warning: wist-agentd binary not found: "@;
    let b2 = " (install it before starting the service)"@;
    let l3 = LineView::Warn(b1 + bin + b2);
    let e1 = "warning: wist-exec not found next to wist-agentd: "@;
    let e2 =
        " (the daemon resolves it as a sibling binary; set WARP_INSIGHT_EXEC_BIN or place it there)"@;
    let l4 = LineView::Warn(e1 + exec + e2);
    let d1 = "warning: config dir "@;
    let d2 =
        " does not exist; the daemon writes the default agentd.toml on first start (run `wist-agentd init-config --config-dir "@;
    let d3 = "` to create and review it before starting)"@;
    let l6 = LineView::Warn(d1 + dir + d2 + dir + d3);
    let p1 = seq![l1];
    let p2 = if report.overwritten {
        seq![l2]
    } else {
        none
    };
    let p3 = if !report.bin_present {
        seq![l3]
    } else {
        none
    };
    let p4 = if !report.exec_bin_present {
        seq![l4]
    } else {
        none
    };
    let p5 = match report.log_dir {
        Some(log) => seq![LineView::Out("launchd logs: "@ + display_text(log))],
        None => none,
    };
    let p6 = if !config_dir_present {
        seq![l6]
    } else {
        none
    };
    assert(lines == p1 + p2 + p3 + p4 + p5 + p6);
    let n1 = 1int;
    let n2 = n1 + p2.len();
    let n3 = n2 + p3.len();
    let n4 = n3 + p4.len();
    let n5 = n4 + p5.len();
    lemma_holds_between(
        "service definition written: "@,
        display_text(report.definition_path),
        no_text,
    );
    assert("service definition written: "@ + display_text(report.definition_path) + no_text
        =~= "service definition written: "@ + display_text(report.definition_path));
    assert(lines[0] == l1);
    if report.overwritten {
        assert(lines[n1] == l2);
    } else if lines.contains(l2) {
        let i = choose|i: int| 0 <= i < lines.len() && lines[i] == l2;
        lemma_lines_differ();
        if i >= n4 && i < n5 {
            assert(lines[i] == p5[0]);
        } else if i == 0 {
            assert(lines[i] == l1);
        } else if i < n3 {
            assert(lines[i] == l3);
        } else if i < n4 {
            assert(lines[i] == l4);
        } else {
            assert(lines[i] == l6);
        }
        assert(false);
    }
    if !report.bin_present {
        assert(lines[n2] == l3);
        lemma_holds_between(b1, bin, b2);
    }
    if !report.exec_bin_present {
        assert(lines[n3] == l4);
        lemma_holds_between(e1, exec, e2);
    }
    if let Some(log) = report.log_dir {
        assert(lines[n4] == p5[0]);
        assert("launchd logs: "@ + display_text(log) + no_text =~= "launchd logs: "@ + display_text(
            log,
        ));
        lemma_holds_between("launchd logs: "@, display_text(log), no_text);
    }
    if !config_dir_present {
        assert(lines[n5] == l6);
        assert(d1 + dir + d2 + dir + d3 =~= d1 + dir + (d2 + dir + d3));
        lemma_holds_between(d1, dir, d2 + dir + d3);
    }
    lemma_warnings_add(p1 + p2 + p3 + p4 + p5, p6);
    lemma_warnings_add(p1 + p2 + p3 + p4, p5);
    lemma_warnings_add(p1 + p2 + p3, p4);
    lemma_warnings_add(p1 + p2, p3);
    lemma_warnings_add(p1, p2);
    lemma_one_warning(l1);
    lemma_one_warning(l2);
    lemma_one_warning(l3);
    lemma_one_warning(l4);
    lemma_one_warning(l6);
    if let Some(log) = report.log_dir {
        lemma_one_warning(p5[0]);
    }
}

proof fn lemma_lines_differ()
    ensures
        forall|tail: Seq<char>|
            #[trigger] ("service definition written: "@ + tail)
                != "previous definition overwritten (--force)"@,
        forall|tail: Seq<char>|
            #[trigger] ("launchd logs: "@ + tail) != "previous definition overwritten (--force)"@,
{
    reveal_strlit("service definition written: ");
    reveal_strlit("launchd logs: ");
    reveal_strlit("previous definition overwritten (--force)");
    assert forall|tail: Seq<char>| #[trigger] ("service definition written: "@ + tail)
        != "previous definition overwritten (--force)"@ by {
        assert(("service definition written: "@ + tail)[0] == 's');
    }
    assert forall|tail: Seq<char>| #[trigger] ("launchd logs: "@ + tail)
        != "previous definition overwritten (--force)"@ by {
        assert(("launchd logs: "@ + tail)[0] == 'l');
    }
}

/// The steps of a removal: the service is stopped by the commands of its deactivation, all
/// of them, then the definition is deleted, and then it is told which definition was removed
/// or that none was there. An error of a step ends it: that of stopping is handed on as it
/// is, and that of deleting tells the path and the cause.
pub proof fn law_removals_go_step_by_step(plan: ServicePlanView, event: UninstallEvent, uid: u32)
    ensures
        ({
            let next = uninstall_turn(plan, event, uid);
            let path = display_text(plan.layout.definition_path);
            match event {
                UninstallEvent::Begin => next == Ok::<_, AgentdErrorView>(
                    UninstallNextView::Stop(deactivation(plan.layout.platform, plan.spec, uid)),
                ),
                UninstallEvent::StopEnded(Err(given)) => next == Err::<UninstallNextView, _>(
                    given@,
                ),
                UninstallEvent::StopEnded(Ok(_)) => next == Ok::<_, AgentdErrorView>(
                    UninstallNextView::Remove,
                ),
                UninstallEvent::RemovalEnded(FileRemoval::Removed) => next matches Ok(
                    UninstallNextView::Report(line),
                ) && line == "service definition "@ + path + ": removed"@,
                UninstallEvent::RemovalEnded(FileRemoval::NotFound) => next matches Ok(
                    UninstallNextView::Report(line),
                ) && line == "service definition "@ + path + ": not present"@,
                UninstallEvent::RemovalEnded(FileRemoval::Failed(cause)) => next matches Err(e)
                    && e.reason == AgentdReason::SystemError && (e.detail matches Some(text)
                    && holds_text(text, path) && holds_text(text, cause@)),
            }
        }),
{
    let path = display_text(plan.layout.definition_path);
    reveal_strlit(": ");
    reveal_strlit("removed");
    reveal_strlit("not present");
    reveal_strlit(": removed");
    reveal_strlit(": not present");
    let head = "service definition "@ + path;
    assert(head + ": "@ + "removed"@ =~= head + ": removed"@);
    assert(head + ": "@ + "not present"@ =~= head + ": not present"@);
    if let UninstallEvent::RemovalEnded(FileRemoval::Failed(cause)) = event {
        let text = "remove service definition "@ + path + ": "@ + cause@;
        assert(text =~= "remove service definition "@ + path + (": "@ + cause@));
        lemma_holds_between("remove service definition "@, path, ": "@ + cause@);
        assert(text =~= "remove service definition "@ + path + ": "@ + cause@
            + Seq::<char>::empty());
        lemma_holds_between(
            "remove service definition "@ + path + ": "@,
            cause@,
            Seq::<char>::empty(),
        );
    }
}

/// An enrollment uses the token that was given, as it is. Where it is to come from standard
/// input, that is read first, and the token is what was read without the white space around
/// it; where nothing is left of it, there is an error, and so there is where nothing could be
/// read. Without either, the configuration decides.
pub proof fn law_enrollments_use_the_given_token(
    config_root: Seq<u8>,
    request: EnrollRequestView,
    event: EnrollEvent,
    front: Seq<char>,
    token: Seq<char>,
    back: Seq<char>,
)
    requires
        is_blank(front),
        is_blank(back),
        has_solid_ends(token),
    ensures
        ({
            let next = enroll_turn(config_root, request, event);
            match event {
                EnrollEvent::Begin => if request.token_stdin {
                    next == Ok::<_, AgentdErrorView>(EnrollNextView::ReadStdin)
                } else {
                    match request.token {
                        Some(given) => next == Ok::<_, AgentdErrorView>(
                            EnrollNextView::WithToken(given),
                        ),
                        None => next == Ok::<_, AgentdErrorView>(EnrollNextView::FromConfiguration),
                    }
                },
                EnrollEvent::StdinRead(Some(text)) => text@ == front + token + back ==> if token.len()
                    > 0 {
                    next == Ok::<_, AgentdErrorView>(EnrollNextView::WithToken(token))
                } else {
                    next matches Err(e) && e.reason == AgentdReason::InvalidArgs
                },
                EnrollEvent::StdinRead(None) => next matches Err(e) && e.reason
                    == AgentdReason::SystemError,
                EnrollEvent::Ended(Ok((decision, agent))) => if decision
                    == EnrollmentDecision::Disabled {
                    next matches Err(e) && e.reason == AgentdReason::Enrollment && (
                    e.detail matches Some(text) && holds_text(text, display_text(config_root)))
                } else {
                    next matches Ok(EnrollNextView::Report(_))
                },
                EnrollEvent::Ended(Err(given)) => next == Err::<EnrollNextView, _>(given@),
            }
        }),
{
    law_trim_removes_white_space_only(front, token, back);
    lemma_holds_between(
        "control_plane.enabled is false in "@,
        display_text(config_root),
        "/agentd.toml; enable it (with endpoint) before enrolling"@,
    );
}

/// The word for a decision.
pub open spec fn is_said_of(line: Seq<char>, decision: EnrollmentDecision) -> bool {
    match decision {
        EnrollmentDecision::Enrolled => line == "enrolled"@,
        EnrollmentDecision::ExistingStateIdentity => holds_text(line, "state identity"@),
        EnrollmentDecision::ExistingConfigIdentity => holds_text(line, "config identity"@),
        EnrollmentDecision::Disabled => line == "enrollment disabled"@,
    }
}

/// The report on an enrollment starts with the decision and ends with the promise that the
/// token was not kept. Between them stand, exactly where they are known, the id of the agent,
/// or a dash, and the file with the credentials.
pub proof fn law_enrollment_reports_say_what_happened(
    decision: EnrollmentDecision,
    agent: Option<EnrolledAgent>,
)
    ensures
        ({
            let lines = enrollment_report(decision, agent);
            &&& is_said_of(lines[0], decision)
            &&& lines.last() == "token_persisted=false"@
            &&& match agent {
                Some(known) => lines.len() == 4 && lines[1] == "agent_id="@ + (match opt_text(
                    known.agent_id,
                ) {
                    Some(id) => id,
                    None => "-"@,
                }) && lines[2] == "credential_file="@ + display_text(known.credential_file@),
                None => lines.len() == 2,
            }
        }),
{
    reveal_strlit("already enrolled (state identity, no request sent)");
    reveal_strlit("already enrolled (config identity, no request sent)");
    reveal_strlit("already enrolled (");
    reveal_strlit("state identity");
    reveal_strlit("config identity");
    reveal_strlit(", no request sent)");
    assert("already enrolled (state identity, no request sent)"@ =~= "already enrolled ("@
        + "state identity"@ + ", no request sent)"@);
    assert("already enrolled (config identity, no request sent)"@ =~= "already enrolled ("@
        + "config identity"@ + ", no request sent)"@);
    lemma_holds_between("already enrolled ("@, "state identity"@, ", no request sent)"@);
    lemma_holds_between("already enrolled ("@, "config identity"@, ", no request sent)"@);
}

/// What is said at each step of an installation: the report on the enrollment line by line,
/// the report on the definition, the platform that was activated, and nothing where a step
/// failed or has only begun.
pub proof fn law_installations_say_what_they_did(
    layout: ServiceLayoutView,
    spec: ServiceSpecView,
    request: ServiceRequestView,
    event: InstallEvent,
    uid: u32,
)
    ensures
        ({
            let turn = install_turn(layout, spec, request, event, uid);
            match event {
                InstallEvent::EnrollmentEnded(Ok((decision, agent))) => turn.next is Ok ==> {
                    let report = enrollment_report(decision, agent);
                    &&& turn.lines.len() == report.len()
                    &&& forall|i: int|
                        0 <= i < report.len() ==> #[trigger] turn.lines[i] == LineView::Out(
                            report[i],
                        )
                },
                InstallEvent::WritingEnded(Ok((report, present))) => {
                    let told = install_lines(report@, spec, present);
                    &&& turn.lines.len() >= told.len()
                    &&& turn.lines.take(told.len() as int) == told
                    &&& request.activate ==> turn.lines == told
                    &&& !request.activate ==> turn.lines.len() > told.len()
                        && turn.lines[told.len() as int] == LineView::Out(
                        "definition only (--no-activate); activate manually:"@,
                    )
                },
                InstallEvent::ActivationEnded(Ok(_)) => turn.lines.len() > 0 && turn.lines[0]
                    == LineView::Out(
                    match layout.platform {
                        ServicePlatform::Systemd => "service activated (systemd)"@,
                        ServicePlatform::Launchd => "service activated (launchd)"@,
                    },
                ),
                _ => turn.lines.len() == 0,
            }
        }),
{
    let turn = install_turn(layout, spec, request, event, uid);
    reveal_strlit("service activated (");
    reveal_strlit("systemd");
    reveal_strlit("launchd");
    reveal_strlit(")");
    reveal_strlit("service activated (systemd)");
    reveal_strlit("service activated (launchd)");
    assert("service activated ("@ + "systemd"@ + ")"@ =~= "service activated (systemd)"@);
    assert("service activated ("@ + "launchd"@ + ")"@ =~= "service activated (launchd)"@);
    if let InstallEvent::WritingEnded(Ok((report, present))) = event {
        let told = install_lines(report@, spec, present);
        assert(turn.lines.take(told.len() as int) =~= told);
    }
}

} // verus!
