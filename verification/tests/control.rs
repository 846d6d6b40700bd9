use wist_agentd::config::model::{
    AgentConfig, AgentSection, ControlPlaneSection, LogsOutputSection, LogsSection, PathsSection,
};
use wist_agentd::config::{resolve_config_path, SYSTEM_CONFIG_DIR};
use wist_agentd::control::args::{EnrollRequest, ServiceAction, ServiceRequest};
use wist_agentd::control::daemon_flow::{
    daemon_plan, run_daemon, DaemonEvent, DaemonNext, DaemonPlan,
};
use wist_agentd::control::enroll::{
    read_token_from_stdin, reject_disabled, report_enrollment, run_enroll, EnrollEvent,
    EnrollNext, EnrolledAgent, EnrollmentDecision,
};
use wist_agentd::control::exec_bin::{
    exec_candidates, resolve_exec_bin_from, validate_exec_bin, ExecBinError, ExecChoice,
    ExecOrigin, ExecProbe,
};
use wist_agentd::control::identity::{sync_runtime_identity, RuntimeIdentity};
use wist_agentd::control::messages::{
    config_root_for, default_config_root, init_config_message, resolve_config_dir_arg, runs_once,
    starting_message, usage_message, version_message,
};
use wist_agentd::control::runtime_entry::{run_from_args, EntryAction};
use wist_agentd::control::service_flow::{
    run_service, run_service_install, run_service_status, run_service_uninstall, HostFacts,
    InstallEvent, InstallNext, OutputLine, ServicePlan, UninstallEvent, UninstallNext,
};
use wist_agentd::error::{AgentdError, AgentdReason};
use wist_agentd::os_text::OsText;
use wist_agentd::service::install::{FileRemoval, InstallReport};
use wist_agentd::service::status::{status, ConfiguredDirs, StatusProbe};
use wist_agentd::service::{render, ServiceLayout, ServicePlatform, ServiceScope, ServiceSpec};
use wist_agentd::single_instance::{acquire, lock_path, LockAttempt};

fn text(value: &str) -> OsText {
    OsText::from_text(value)
}

fn args(list: &[&str]) -> Vec<OsText> {
    list.iter().map(|arg| text(arg)).collect()
}

fn root() -> OsText {
    text("/tmp/wist-agentd-control")
}

fn under(path: &str) -> OsText {
    root().join(&text(path))
}

fn error(reason: AgentdReason, detail: &str) -> AgentdError {
    AgentdError { reason, detail: Some(detail.to_string()) }
}

fn out(lines: &[&str]) -> Vec<OutputLine> {
    lines.iter().map(|line| OutputLine::Out(line.to_string())).collect()
}

#[test]
fn resolve_exec_bin_uses_env_override_when_present() {
    let current_exe = under("bin/wist-agentd");
    let override_path = under("custom/wist-exec");
    let choice = resolve_exec_bin_from(&current_exe, Some(&override_path), None, &vec![]);
    let resolved = validate_exec_bin(choice, ExecProbe::Found { is_file: true, mode: 0o755 });
    assert_eq!(resolved, Ok(override_path));
}

#[test]
fn resolve_exec_bin_uses_path_when_sibling_is_missing() {
    let current_exe = under("bin/wist-agentd");
    let path_env = under("path-bin");
    let choice =
        resolve_exec_bin_from(&current_exe, None, Some(&path_env), &vec![false, true]);
    assert_eq!(choice.origin, ExecOrigin::SearchPath);
    let resolved = validate_exec_bin(choice, ExecProbe::Found { is_file: true, mode: 0o755 });
    assert_eq!(resolved, Ok(under("path-bin/wist-exec")));
}

#[test]
fn resolve_exec_bin_prefers_sibling_before_path() {
    let current_exe = under("bin/wist-agentd");
    let path_env = under("path-bin");
    let choice = resolve_exec_bin_from(&current_exe, None, Some(&path_env), &vec![true, true]);
    let resolved = validate_exec_bin(choice, ExecProbe::Found { is_file: true, mode: 0o755 });
    assert_eq!(resolved, Ok(under("bin/wist-exec")));
}

#[test]
fn resolve_exec_bin_rejects_missing_candidate() {
    let current_exe = under("bin/wist-agentd");
    let choice = resolve_exec_bin_from(&current_exe, None, None, &vec![false]);
    let err = validate_exec_bin(choice, ExecProbe::Unreadable("No such file".to_string()))
        .expect_err("missing exec should fail");
    assert!(err.message().contains("wist-exec was not found"));
    assert_eq!(
        err.message(),
        "wist-exec was not found via current executable sibling: /tmp/wist-agentd-control/bin/wist-exec (No such file)"
    );
}

#[test]
fn resolve_exec_bin_rejects_non_executable_file() {
    let current_exe = under("bin/wist-agentd");
    let choice = resolve_exec_bin_from(&current_exe, None, None, &vec![true]);
    let err = validate_exec_bin(choice, ExecProbe::Found { is_file: true, mode: 0o644 })
        .expect_err("non executable candidate should fail");
    assert!(err.message().contains("not executable"));
    assert_eq!(
        validate_exec_bin(
            ExecChoice { path: text("/d"), origin: ExecOrigin::SearchPath },
            ExecProbe::Found { is_file: false, mode: 0o755 }
        ),
        Err(ExecBinError::NotAFile(text("/d")))
    );
    assert_eq!(
        ExecBinError::NotAFile(text("/d")).message(),
        "wist-exec path is not a file: /d"
    );
    for mode in [0o100, 0o010, 0o001, 0o711] {
        let choice = ExecChoice { path: text("/x"), origin: ExecOrigin::Override };
        assert_eq!(
            validate_exec_bin(choice, ExecProbe::Found { is_file: true, mode }),
            Ok(text("/x"))
        );
    }
}

#[test]
fn exec_candidates_follow_the_search_path() {
    assert_eq!(
        exec_candidates(&text("/opt/wist-agentd"), Some(&text("/a:/b/::c"))),
        vec![
            text("/opt/wist-exec"),
            text("/a/wist-exec"),
            text("/b/wist-exec"),
            text("wist-exec"),
            text("c/wist-exec"),
        ]
    );
    assert_eq!(
        exec_candidates(&text("wist-agentd"), Some(&text(""))),
        vec![text("wist-exec"), text("wist-exec")]
    );
    assert_eq!(exec_candidates(&text("/"), None), vec![text("/wist-exec")]);
    let choice = resolve_exec_bin_from(
        &text("/opt/wist-agentd"),
        None,
        Some(&text("/a:/b:/c")),
        &vec![false, false, true],
    );
    assert_eq!(choice, ExecChoice { path: text("/b/wist-exec"), origin: ExecOrigin::SearchPath });
}

#[test]
fn run_from_args_init_config_creates_config_without_exec_bin() {
    let action =
        run_from_args(&root(), &args(&["init-config", "--config-dir", "wist-agentd"]), "0.1.3")
            .expect("init config command");
    assert_eq!(action, EntryAction::InitConfig(under("wist-agentd")));
    assert_eq!(resolve_config_path(&under("wist-agentd")), under("wist-agentd/agentd.toml"));
}

#[test]
fn run_from_args_init_config_honors_custom_config_dir() {
    let action = run_from_args(&root(), &args(&["init-config", "--config-dir", "conf"]), "0.1.3")
        .expect("init config with custom dir");
    assert_eq!(action, EntryAction::InitConfig(under("conf")));
    assert_eq!(resolve_config_path(&under("conf")), under("conf/agentd.toml"));
}

#[test]
fn run_from_args_init_config_stdout_does_not_create_config_file() {
    let action = run_from_args(&root(), &args(&["init-config", "--stdout"]), "0.1.3")
        .expect("init config stdout");
    match action {
        EntryAction::Print(template) => {
            assert!(template.starts_with("schema_version = \"v1\"\n"));
            assert!(template.ends_with("# framing = \"line\"\n"));
        }
        other => panic!("nothing is created: {other:?}"),
    }
}

#[test]
fn run_from_args_covers_every_command() {
    assert_eq!(
        run_from_args(&root(), &args(&[]), "0.1.3"),
        Ok(EntryAction::RunDaemon(text("/etc/wist-agentd")))
    );
    assert_eq!(
        run_from_args(&root(), &args(&["-V"]), "0.1.3"),
        Ok(EntryAction::PrintLine("wist-agentd 0.1.3".to_string()))
    );
    assert_eq!(
        run_from_args(&root(), &args(&["help"]), "0.1.3"),
        Ok(EntryAction::Print(usage_message().to_string()))
    );
    assert_eq!(
        run_from_args(&root(), &args(&["enroll", "--config-dir", "/c"]), "0.1.3"),
        Ok(EntryAction::Enroll {
            config_root: text("/c"),
            request: EnrollRequest { token: None, token_stdin: false },
        })
    );
    match run_from_args(&root(), &args(&["service", "status", "--config-dir", "c"]), "0.1.3") {
        Ok(EntryAction::Service { config_dir, request }) => {
            assert_eq!(config_dir, Some(text("c")));
            assert_eq!(request.action, ServiceAction::Status);
        }
        other => panic!("unexpected: {other:?}"),
    }
    assert_eq!(
        run_from_args(&root(), &args(&["--config-dir"]), "0.1.3"),
        Err(error(AgentdReason::InvalidArgs, "missing value for --config-dir"))
    );
}

#[test]
fn init_config_message_mentions_config_directory_when_created() {
    let path = text("/tmp/project/wist-agentd/agentd.toml");
    let message = init_config_message(&path, true, None);
    assert!(message.contains("initialized config directory"));
    assert!(message.contains("/tmp/project/wist-agentd"));
    assert!(message.contains("/tmp/project/wist-agentd/agentd.toml"));
    assert!(!message.contains("run/state/log/spool default to"));
    assert_eq!(
        message,
        "initialized config directory /tmp/project/wist-agentd and wrote config file /tmp/project/wist-agentd/agentd.toml"
    );
}

#[test]
fn init_config_message_explains_data_separation_for_system_config_dir() {
    let path = text("/etc/wist-agentd/agentd.toml");
    let message = init_config_message(&path, true, Some(&text("/var/lib/wist-agentd")));
    assert!(message.contains(
        "data (run/state/spool + collected output data/) defaults to /var/lib/wist-agentd"
    ));
    assert!(message.contains("logs to /var/log/wist-agentd"));
    assert!(message.contains("declare [paths] to override"));
}

#[test]
fn init_config_message_mentions_existing_config_file_and_directory() {
    let path = text("/tmp/project/wist-agentd/agentd.toml");
    let message = init_config_message(&path, false, None);
    assert!(message.contains("config file already exists"));
    assert!(message.contains("/tmp/project/wist-agentd"));
    assert!(message.contains("/tmp/project/wist-agentd/agentd.toml"));
    assert_eq!(
        init_config_message(&text("/"), false, None),
        "config file already exists at / (config directory: wist-agentd)"
    );
}

#[test]
fn usage_message_lists_supported_commands() {
    let message = usage_message();
    assert!(message.contains("wist-agentd init-config [--stdout]"));
    assert!(message.contains("wist-agentd help"));
    assert!(message.contains("wist-agentd version"));
    assert!(message.contains("wist-agentd service <print|install|uninstall|status>"));
    assert!(message.contains("Show this help message"));
    assert!(message.contains("--config-dir <path>"));
    assert!(message.starts_with("Usage:\n  wist-agentd [--config-dir <path>]\n"));
    assert!(message.ends_with("Default: /etc/wist-agentd.\n"));
}

#[test]
fn default_config_root_is_the_system_dir() {
    assert_eq!(default_config_root(), text(SYSTEM_CONFIG_DIR));
    assert_eq!(config_root_for(&root(), None), text("/etc/wist-agentd"));
}

#[test]
fn resolve_config_dir_arg_uses_relative_override_from_root() {
    assert_eq!(resolve_config_dir_arg(&root(), &text("conf")), under("conf"));
    assert_eq!(under("conf"), text("/tmp/wist-agentd-control/conf"));
}

#[test]
fn resolve_config_dir_arg_preserves_absolute_override() {
    let absolute = under("external-conf");
    assert_eq!(resolve_config_dir_arg(&root(), &absolute), absolute);
}

fn identity(agent_id: &str, instance_id: &str) -> RuntimeIdentity {
    RuntimeIdentity { agent_id: agent_id.to_string(), instance_id: instance_id.to_string() }
}

fn section(agent_id: Option<&str>, instance_name: Option<&str>) -> AgentSection {
    AgentSection {
        agent_id: agent_id.map(str::to_string),
        environment_id: Some("prod".to_string()),
        instance_name: instance_name.map(str::to_string),
    }
}

#[test]
fn sync_runtime_identity_prefers_config_identity_when_present() {
    let mut runtime = identity("local-agent", "local-instance");
    let config = section(Some("agent-from-config"), Some("instance-from-config"));
    sync_runtime_identity(&mut runtime, &config, false).expect("sync identity");
    assert_eq!(runtime.agent_id, "agent-from-config");
    assert_eq!(runtime.instance_id, "instance-from-config");
}

#[test]
fn sync_runtime_identity_rejects_config_agent_id_conflicting_with_enrolled_identity() {
    let mut runtime = identity("agent-a", "instance-a");
    let config = section(Some("agent-b"), Some("instance-from-config"));
    let err = sync_runtime_identity(&mut runtime, &config, true).expect_err("conflict rejected");
    assert!(err.message().contains("conflicts"));
    assert_eq!(runtime.agent_id, "agent-a");
    assert_eq!(runtime.instance_id, "instance-a");
    assert_eq!(
        err.message(),
        "config agent.agent_id (agent-b) conflicts with enrolled runtime identity agent-a; remove agent.agent_id or clear the agent state to re-enroll"
    );
}

#[test]
fn blank_identity_settings_are_ignored() {
    let mut runtime = identity("agent-a", "instance-a");
    let config = section(Some("  "), Some(" \n"));
    sync_runtime_identity(&mut runtime, &config, true).expect("sync identity");
    assert_eq!(runtime, identity("agent-a", "instance-a"));
    let same = section(Some(" agent-a "), Some(" i "));
    sync_runtime_identity(&mut runtime, &same, true).expect("same id");
    assert_eq!(runtime, identity("agent-a", "i"));
    let again = section(Some(" agent-a "), Some(" i "));
    sync_runtime_identity(&mut runtime, &again, true).expect("same id again");
    assert_eq!(runtime, identity("agent-a", "i"));
}

#[test]
fn enrollment_reports_and_refusals() {
    assert_eq!(
        reject_disabled(&text("/etc/wist-agentd"), EnrollmentDecision::Disabled),
        Err(error(
            AgentdReason::Enrollment,
            "control_plane.enabled is false in /etc/wist-agentd/agentd.toml; enable it (with endpoint) before enrolling"
        ))
    );
    assert_eq!(
        reject_disabled(&text("/c"), EnrollmentDecision::Enrolled),
        Ok(EnrollmentDecision::Enrolled)
    );
    let known = Some(EnrolledAgent { agent_id: None, credential_file: text("/s/agent.json") });
    assert_eq!(
        report_enrollment(EnrollmentDecision::Enrolled, &known),
        vec!["enrolled", "agent_id=-", "credential_file=/s/agent.json", "token_persisted=false"]
    );
    assert_eq!(
        report_enrollment(EnrollmentDecision::ExistingStateIdentity, &None),
        vec!["already enrolled (state identity, no request sent)", "token_persisted=false"]
    );
    assert_eq!(
        report_enrollment(EnrollmentDecision::ExistingConfigIdentity, &None)[0],
        "already enrolled (config identity, no request sent)"
    );
    assert_eq!(
        report_enrollment(EnrollmentDecision::Disabled, &None)[0],
        "enrollment disabled"
    );
}

#[test]
fn tokens_come_from_where_the_request_says() {
    let request =
        |token: Option<&str>, token_stdin| EnrollRequest { token: token.map(str::to_string), token_stdin };
    let begin = |request| run_enroll(&root(), &request, EnrollEvent::Begin);
    assert_eq!(begin(request(Some("t"), false)), Ok(EnrollNext::WithToken("t".to_string())));
    assert_eq!(begin(request(None, true)), Ok(EnrollNext::ReadStdin));
    assert_eq!(begin(request(None, false)), Ok(EnrollNext::FromConfiguration));
    let read = |text: Option<&str>| {
        run_enroll(
            &root(),
            &request(None, true),
            EnrollEvent::StdinRead(text.map(str::to_string)),
        )
    };
    assert_eq!(read(Some(" tok\n")), Ok(EnrollNext::WithToken("tok".to_string())));
    assert_eq!(
        read(Some("")),
        Err(error(AgentdReason::InvalidArgs, "--token-stdin received an empty token"))
    );
    assert_eq!(
        read(None),
        Err(error(AgentdReason::SystemError, "read enrollment token from stdin"))
    );
    assert_eq!(read_token_from_stdin(" tok\n"), Ok("tok".to_string()));
    assert_eq!(
        read_token_from_stdin(" \n"),
        Err(error(AgentdReason::InvalidArgs, "--token-stdin received an empty token"))
    );
}

#[test]
fn enrollments_end_with_a_report_or_an_error() {
    let request = EnrollRequest { token: Some("sesame".to_string()), token_stdin: false };
    let ended = |result| run_enroll(&root(), &request, EnrollEvent::Ended(result));
    assert_eq!(
        ended(Ok((EnrollmentDecision::Enrolled, None))),
        Ok(EnrollNext::Report(vec!["enrolled".to_string(), "token_persisted=false".to_string()]))
    );
    assert_eq!(
        ended(Ok((EnrollmentDecision::Disabled, None))),
        Err(error(
            AgentdReason::Enrollment,
            "control_plane.enabled is false in /tmp/wist-agentd-control/agentd.toml; enable it (with endpoint) before enrolling",
        ))
    );
    assert_eq!(
        ended(Err(error(AgentdReason::Enrollment, "refused"))),
        Err(error(AgentdReason::Enrollment, "refused"))
    );
}

fn daemon_setting() -> DaemonPlan {
    let config = AgentConfig {
        agent: AgentSection { agent_id: None, environment_id: None, instance_name: None },
        control_plane: ControlPlaneSection {
            enabled: false,
            endpoint: None,
            enrollment_token: None,
            credential_request: None,
            credential_id: None,
            bearer_token: None,
            credential_expires_at: None,
            tls_mode: None,
            trust_bundle: None,
            auth_mode: None,
        },
        paths: PathsSection {
            root_dir: "/d".to_string(),
            run_dir: "/d/run".to_string(),
            state_dir: "/d/state".to_string(),
            log_dir: "/d/log".to_string(),
        },
        logs: LogsSection {
            spool_dir: "/d/spool".to_string(),
            output: LogsOutputSection {
                kind: "file".to_string(),
                file_path: "/d/data/out".to_string(),
                tcp_addr: "127.0.0.1".to_string(),
                tcp_framing: "line".to_string(),
            },
            file_inputs: vec![],
        },
    };
    daemon_plan(&text("/c"), &config)
}

#[test]
fn a_daemon_starts_step_by_step() {
    let plan = daemon_setting();
    assert_eq!(plan.config_path, text("/c/agentd.toml"));
    assert_eq!(plan.root_dir, text("/d"));
    let next = |event| run_daemon(&plan, "0.1.3", false, event).next;
    assert_eq!(next(DaemonEvent::Begin), Ok(DaemonNext::TakeLock));
    assert_eq!(
        next(DaemonEvent::LockTried(LockAttempt::Taken)),
        Ok(DaemonNext::MakeDirectories)
    );
    assert_eq!(next(DaemonEvent::DirectoriesMade(true)), Ok(DaemonNext::Enroll));
    assert_eq!(next(DaemonEvent::EnrollmentEnded(Ok(()))), Ok(DaemonNext::InitializeState));
    let started = run_daemon(&plan, "0.1.3", false, DaemonEvent::StateInitialized(true));
    assert_eq!(
        started.lines,
        vec![
            "wist-agentd 0.1.3 starting: config=/c/agentd.toml mode=standalone run_dir=/d/run state_dir=/d/state log_dir=/d/log",
            "self-observability registered",
        ]
    );
    assert_eq!(started.next, Ok(DaemonNext::ResolveExecBin));
    let exec = || DaemonEvent::ExecBinResolved(Some(text("/usr/bin/wist-exec")));
    assert_eq!(next(exec()), Ok(DaemonNext::RunForever(text("/usr/bin/wist-exec"))));
    assert_eq!(
        run_daemon(&plan, "0.1.3", true, exec()).next,
        Ok(DaemonNext::RunOnce(text("/usr/bin/wist-exec")))
    );
}

#[test]
fn a_start_ends_at_the_first_failure() {
    let plan = daemon_setting();
    let next = |event| {
        let turn = run_daemon(&plan, "0.1.3", false, event);
        assert!(turn.lines.is_empty());
        turn.next
    };
    assert_eq!(
        next(DaemonEvent::LockTried(LockAttempt::Held)),
        Err(error(
            AgentdReason::AlreadyRunning,
            "another wist-agentd instance is already running (lock file: /d/state/.agentd.lock)",
        ))
    );
    assert_eq!(
        next(DaemonEvent::DirectoriesMade(false)),
        Err(error(AgentdReason::SystemError, "initialize runtime directories"))
    );
    assert_eq!(
        next(DaemonEvent::EnrollmentEnded(Err(error(AgentdReason::Enrollment, "refused")))),
        Err(error(AgentdReason::Enrollment, "refused"))
    );
    assert_eq!(
        next(DaemonEvent::StateInitialized(false)),
        Err(error(AgentdReason::SystemError, "initialize runtime state"))
    );
    assert_eq!(
        next(DaemonEvent::ExecBinResolved(None)),
        Err(error(AgentdReason::ExecBinUnavailable, "resolve wist-exec"))
    );
}

#[test]
fn daemon_messages() {
    assert_eq!(version_message("1.2.3"), "wist-agentd 1.2.3");
    assert_eq!(
        starting_message("0.1.3", &text("/c/agentd.toml"), true, &text("/r"), &text("/s"), &text("/l")),
        "wist-agentd 0.1.3 starting: config=/c/agentd.toml mode=managed run_dir=/r state_dir=/s log_dir=/l"
    );
    assert!(starting_message("0.1.3", &text("c"), false, &text("r"), &text("s"), &text("l"))
        .contains(" mode=standalone "));
    assert!(runs_once(Some("1")));
    assert!(!runs_once(Some("10")));
    assert!(!runs_once(None));
}

fn host(target_os: &str, home: Option<&str>) -> HostFacts {
    HostFacts {
        target_os: target_os.to_string(),
        home: home.map(text),
        exe: Some(text("/proc/exe")),
        canonical_exe: Some(text("/usr/bin/wist-agentd")),
    }
}

fn request(action: ServiceAction, scope: ServiceScope) -> ServiceRequest {
    ServiceRequest {
        action,
        scope,
        platform: None,
        bin: None,
        force: false,
        activate: true,
        enrollment_token: None,
    }
}

#[test]
fn run_service_print_renders_without_side_effects() {
    let config_dir = under("etc/wist-agentd");
    let mut wanted = request(ServiceAction::Print, ServiceScope::System);
    wanted.bin = Some(text("/usr/local/bin/wist-agentd"));
    wanted.activate = false;
    let facts = host("linux", None);
    let plan = run_service(&root(), Some(&config_dir), &wanted, &facts).expect("plan");
    assert!(plan.layout.definition_path.is_absolute());
    assert_eq!(plan.spec.config_dir, config_dir);
    assert!(render(&plan.layout, &plan.spec, None)
        .contains("ExecStart=/usr/local/bin/wist-agentd --config-dir /tmp/wist-agentd-control/etc/wist-agentd\n"));
}

#[test]
fn run_service_fills_in_what_the_request_leaves_open() {
    let plan = run_service(
        &root(),
        None,
        &request(ServiceAction::Status, ServiceScope::User),
        &host("macos", Some("/Users/u")),
    )
    .expect("plan");
    assert_eq!(
        plan,
        ServicePlan {
            layout: ServiceLayout {
                platform: ServicePlatform::Launchd,
                scope: ServiceScope::User,
                definition_path: text("/Users/u/Library/LaunchAgents/com.dayu-sec.wist-agentd.plist"),
                log_dir: Some(text("/Users/u/Library/Logs/wist-agentd")),
            },
            spec: ServiceSpec {
                scope: ServiceScope::User,
                bin: text("/usr/bin/wist-agentd"),
                config_dir: text("/Users/u/.wist-agentd"),
            },
        }
    );
    assert_eq!(
        run_service(&root(), None, &request(ServiceAction::Status, ServiceScope::System), &host("windows", None)),
        Err(error(
            AgentdReason::ServicePathUnresolved,
            "service management is supported on Linux (systemd) and macOS (launchd) only"
        ))
    );
    assert_eq!(
        run_service(&root(), None, &request(ServiceAction::Status, ServiceScope::User), &host("linux", Some(""))),
        Err(error(
            AgentdReason::ServicePathUnresolved,
            "HOME is not set; pass --config-dir / --bin explicitly"
        ))
    );
    let mut no_exe = host("linux", None);
    no_exe.exe = None;
    assert_eq!(
        run_service(&root(), None, &request(ServiceAction::Status, ServiceScope::System), &no_exe),
        Err(error(
            AgentdReason::ServicePathUnresolved,
            "resolve current executable for service install"
        ))
    );
}

fn install_setting() -> (ServiceLayout, ServiceSpec, ServiceRequest) {
    let spec =
        ServiceSpec::new(ServiceScope::System, under("bin/wist-agentd"), under("missing-conf"));
    let layout = ServiceLayout::for_paths(
        ServicePlatform::Systemd,
        ServiceScope::System,
        under("wist-agentd.service"),
        None,
    );
    let mut wanted = request(ServiceAction::Install, ServiceScope::System);
    wanted.bin = Some(spec.bin.clone());
    wanted.activate = false;
    wanted.enrollment_token = Some("tok-x".to_string());
    (layout, spec, wanted)
}

#[test]
fn run_service_install_does_not_write_a_definition_when_enrollment_fails() {
    let (layout, spec, wanted) = install_setting();
    let first = run_service_install(&layout, &spec, &wanted, InstallEvent::Begin, 0);
    assert_eq!(first.next, Ok(InstallNext::Enroll("tok-x".to_string())));
    let failure = error(AgentdReason::Enrollment, "refused");
    let turn = run_service_install(
        &layout,
        &spec,
        &wanted,
        InstallEvent::EnrollmentEnded(Err(failure)),
        0,
    );
    assert_eq!(turn.next, Err(error(AgentdReason::Enrollment, "refused")));
    let turn = run_service_install(
        &layout,
        &spec,
        &wanted,
        InstallEvent::EnrollmentEnded(Ok((EnrollmentDecision::Disabled, None))),
        0,
    );
    assert!(turn.next.is_err(), "enrollment failure must abort the install");
}

fn report(layout: &ServiceLayout, existed: bool, present: bool) -> InstallReport {
    InstallReport::new(layout, existed, present, present)
}

#[test]
fn an_installation_runs_to_its_end() {
    let (layout, spec, mut wanted) = install_setting();
    let enrolled = run_service_install(
        &layout,
        &spec,
        &wanted,
        InstallEvent::EnrollmentEnded(Ok((EnrollmentDecision::Enrolled, None))),
        0,
    );
    assert_eq!(enrolled.lines, out(&["enrolled", "token_persisted=false"]));
    assert_eq!(enrolled.next, Ok(InstallNext::Write));

    let manual = run_service_install(
        &layout,
        &spec,
        &wanted,
        InstallEvent::WritingEnded(Ok((report(&layout, true, true), true))),
        0,
    );
    assert_eq!(
        manual.lines,
        out(&[
            "service definition written: /tmp/wist-agentd-control/wist-agentd.service",
            "previous definition overwritten (--force)",
            "definition only (--no-activate); activate manually:",
            "  systemctl daemon-reload",
            "  systemctl enable wist-agentd",
            "  systemctl restart wist-agentd",
            "logs: journalctl -u wist-agentd -f",
            "check: systemctl status wist-agentd",
            "check: journalctl -u wist-agentd -f",
        ])
    );
    assert_eq!(manual.next, Ok(InstallNext::Done));

    wanted.activate = true;
    wanted.enrollment_token = None;
    let begin = run_service_install(&layout, &spec, &wanted, InstallEvent::Begin, 0);
    assert_eq!(begin.next, Ok(InstallNext::Write));
    let written = run_service_install(
        &layout,
        &spec,
        &wanted,
        InstallEvent::WritingEnded(Ok((report(&layout, false, false), false))),
        0,
    );
    assert_eq!(
        written.lines,
        vec![
            OutputLine::Out(
                "service definition written: /tmp/wist-agentd-control/wist-agentd.service".to_string()
            ),
            OutputLine::Warn("warning: wist-agentd binary not found: /tmp/wist-agentd-control/bin/wist-agentd (install it before starting the service)".to_string()),
            OutputLine::Warn("warning: wist-exec not found next to wist-agentd: /tmp/wist-agentd-control/bin/wist-exec (the daemon resolves it as a sibling binary; set WARP_INSIGHT_EXEC_BIN or place it there)".to_string()),
            OutputLine::Warn("warning: config dir /tmp/wist-agentd-control/missing-conf does not exist; the daemon writes the default agentd.toml on first start (run `wist-agentd init-config --config-dir /tmp/wist-agentd-control/missing-conf` to create and review it before starting)".to_string()),
        ]
    );
    match written.next {
        Ok(InstallNext::Activate(commands)) => assert_eq!(commands.len(), 3),
        other => panic!("unexpected: {other:?}"),
    }
    let done = run_service_install(
        &layout,
        &spec,
        &wanted,
        InstallEvent::ActivationEnded(Ok(())),
        0,
    );
    assert_eq!(done.lines[0], OutputLine::Out("service activated (systemd)".to_string()));
    assert_eq!(done.next, Ok(InstallNext::Done));
    let failed = run_service_install(
        &layout,
        &spec,
        &wanted,
        InstallEvent::ActivationEnded(Err(error(AgentdReason::ServiceCommandFailed, "x"))),
        0,
    );
    assert_eq!(failed.next, Err(error(AgentdReason::ServiceCommandFailed, "x")));
    let unwritten = run_service_install(
        &layout,
        &spec,
        &wanted,
        InstallEvent::WritingEnded(Err(error(AgentdReason::SystemError, "disk"))),
        0,
    );
    assert_eq!(unwritten.next, Err(error(AgentdReason::SystemError, "disk")));
}

#[test]
fn an_installation_never_prints_its_token() {
    let (layout, spec, wanted) = install_setting();
    let ended = InstallEvent::EnrollmentEnded(Ok((EnrollmentDecision::Enrolled, None)));
    let turn = run_service_install(&layout, &spec, &wanted, ended, 0);
    assert_eq!(turn.lines, out(&["enrolled", "token_persisted=false"]));
}

#[test]
fn an_uninstallation_stops_first_and_reports() {
    let (layout, spec, _) = install_setting();
    let plan = ServicePlan { layout, spec };
    let next = |event| run_service_uninstall(&plan, event, 0);
    match next(UninstallEvent::Begin) {
        Ok(UninstallNext::Stop(commands)) => {
            assert_eq!(commands[0].display_line(), "systemctl disable --now wist-agentd");
        }
        other => panic!("{other:?}"),
    }
    assert_eq!(next(UninstallEvent::StopEnded(Ok(()))), Ok(UninstallNext::Remove));
    assert_eq!(
        next(UninstallEvent::StopEnded(Err(error(AgentdReason::ServiceCommandFailed, "no")))),
        Err(error(AgentdReason::ServiceCommandFailed, "no"))
    );
    assert_eq!(
        next(UninstallEvent::RemovalEnded(FileRemoval::Removed)),
        Ok(UninstallNext::Report(
            "service definition /tmp/wist-agentd-control/wist-agentd.service: removed".to_string()
        ))
    );
    assert_eq!(
        next(UninstallEvent::RemovalEnded(FileRemoval::NotFound)),
        Ok(UninstallNext::Report(
            "service definition /tmp/wist-agentd-control/wist-agentd.service: not present"
                .to_string()
        ))
    );
    assert_eq!(
        next(UninstallEvent::RemovalEnded(FileRemoval::Failed("denied".to_string()))),
        Err(error(
            AgentdReason::SystemError,
            "remove service definition /tmp/wist-agentd-control/wist-agentd.service: denied",
        ))
    );
}

#[test]
fn a_status_is_shown_line_by_line() {
    let (layout, spec, _) = install_setting();
    let found = status(
        &layout,
        &spec,
        StatusProbe {
            definition_present: true,
            bin_present: true,
            exec_bin_present: false,
            config_present: true,
            loaded: Ok(ConfiguredDirs {
                root_dir: "/d".to_string(),
                run_dir: "/d/run".to_string(),
                state_dir: "/d/state".to_string(),
                log_dir: "/d/log".to_string(),
            }),
            lock_held: Ok(true),
        },
    )
    .expect("status");
    assert_eq!(
        run_service_status(&found, &spec, 0),
        vec![
            "platform=systemd",
            "scope=system",
            "definition=/tmp/wist-agentd-control/wist-agentd.service",
            "definition_present=true",
            "bin=/tmp/wist-agentd-control/bin/wist-agentd (present)",
            "exec_bin=/tmp/wist-agentd-control/bin/wist-exec (missing)",
            "config=/tmp/wist-agentd-control/missing-conf/agentd.toml (present)",
            "root_dir=/d",
            "run_dir=/d/run",
            "state_dir=/d/state",
            "log_dir=/d/log",
            "running=true",
            "logs=journalctl -u wist-agentd -f",
            "check=systemctl status wist-agentd",
            "check=journalctl -u wist-agentd -f",
        ]
    );
    let broken = status(
        &layout,
        &spec,
        StatusProbe {
            definition_present: false,
            bin_present: true,
            exec_bin_present: true,
            config_present: true,
            loaded: Err("bad\n  detail".to_string()),
            lock_held: Ok(false),
        },
    )
    .expect("status");
    let lines = run_service_status(&broken, &spec, 0);
    assert_eq!(lines[7], "config_error=bad / detail");
    assert_eq!(lines[8], "root_dir=-");
    assert_eq!(lines[12], "running=unknown (no readable config)");
}

#[test]
fn second_acquire_fails_until_first_is_dropped() {
    let dir = text("/var/lib/wist-agentd/state");
    assert_eq!(lock_path(&dir), text("/var/lib/wist-agentd/state/.agentd.lock"));
    let first = acquire(&dir, LockAttempt::Taken).expect("first acquire");
    assert_eq!(first.path, lock_path(&dir));
    let err = acquire(&dir, LockAttempt::Held).expect_err("second acquire should fail");
    assert_eq!(err.reason, AgentdReason::AlreadyRunning);
    assert_eq!(
        err.detail.as_deref(),
        Some("another wist-agentd instance is already running (lock file: /var/lib/wist-agentd/state/.agentd.lock)")
    );
    assert!(acquire(&dir, LockAttempt::Taken).is_ok());
    assert_eq!(
        acquire(&dir, LockAttempt::NoDirectory),
        Err(error(AgentdReason::SystemError, "create state dir for instance lock"))
    );
    assert_eq!(
        acquire(&dir, LockAttempt::NoFile),
        Err(error(AgentdReason::SystemError, "open instance lock file"))
    );
    assert_eq!(
        acquire(&dir, LockAttempt::Failed("EIO".to_string())),
        Err(error(
            AgentdReason::SystemError,
            "lock instance file /var/lib/wist-agentd/state/.agentd.lock: EIO"
        ))
    );
}
