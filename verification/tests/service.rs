use wist_agentd::error::{AgentdError, AgentdReason};
use wist_agentd::os_text::OsText;
use wist_agentd::service::commands::{
    activate_commands, deactivate_commands, failure_detail, inspect_commands,
    next_service_command, run, run_service_commands, run_with_retries, shell_quote, RawOutput, RetryStep, ServiceCommand,
    ServiceCommandOutcome, ACTIVATE_RETRIES,
};
use wist_agentd::service::install::{
    install, reject_unrepresentable_path, remove, FileRemoval, InstallReport, InstallStep,
};
use wist_agentd::service::launchd::{escape_xml, kv_string, log_dir, plist_path, plist_text};
use wist_agentd::service::status::{
    log_hint, one_line, path_state, status, ConfiguredDirs, StatusProbe,
};
use wist_agentd::service::systemd::{systemd_arg, unit_path, unit_text};
use wist_agentd::service::{
    default_bin, default_config_dir, home_dir, render, ServiceLayout, ServicePlatform,
    ServiceScope, ServiceSpec, LAUNCHD_LABEL,
};

const ROOT: &str = "/tmp/wist-agentd-service";

fn text(value: &str) -> OsText {
    OsText::from_text(value)
}

fn under(path: &str) -> OsText {
    text(ROOT).join(&text(path))
}

fn error(reason: AgentdReason, detail: &str) -> AgentdError {
    AgentdError { reason, detail: Some(detail.to_string()) }
}

fn spec() -> ServiceSpec {
    ServiceSpec::new(ServiceScope::System, under("bin/wist-agentd"), under("etc/wist-agentd"))
}

fn layout(platform: ServicePlatform) -> ServiceLayout {
    match platform {
        ServicePlatform::Systemd => ServiceLayout::for_paths(
            platform,
            ServiceScope::System,
            under("wist-agentd.service"),
            None,
        ),
        ServicePlatform::Launchd => ServiceLayout::for_paths(
            platform,
            ServiceScope::System,
            under("com.dayu-sec.wist-agentd.plist"),
            Some(under("logs")),
        ),
    }
}

#[test]
fn plist_escapes_xml_special_characters() {
    assert_eq!(escape_xml("a&b<c\"d"), "a&amp;b&lt;c&quot;d");
    assert_eq!(escape_xml("it's > &amp;"), "it&apos;s &gt; &amp;amp;");
    assert_eq!(escape_xml("<a> & b"), escape_xml("<a> ") + &escape_xml("& b"));
    assert_eq!(escape_xml("/usr/bin/wist-agentd"), "/usr/bin/wist-agentd");
}

#[test]
fn plist_path_uses_launch_daemons_for_system_scope() {
    assert_eq!(
        plist_path(ServiceScope::System, None).expect("plist path"),
        text("/Library/LaunchDaemons/com.dayu-sec.wist-agentd.plist")
    );
    assert_eq!(
        log_dir(ServiceScope::System, None).expect("log dir"),
        text("/var/log/wist-agentd")
    );
}

#[test]
fn unit_path_uses_system_dir_for_system_scope() {
    assert_eq!(
        unit_path(ServiceScope::System, None).expect("unit path"),
        text("/etc/systemd/system/wist-agentd.service")
    );
    assert_eq!(
        unit_path(ServiceScope::User, Some(&text("/home/u"))).expect("unit path"),
        text("/home/u/.config/systemd/user/wist-agentd.service")
    );
}

#[test]
fn systemd_arg_leaves_ordinary_paths_untouched() {
    assert_eq!(systemd_arg("/usr/local/bin/wist-agentd"), "/usr/local/bin/wist-agentd");
    assert_eq!(systemd_arg("/etc/wist-agentd"), "/etc/wist-agentd");
    assert_eq!(systemd_arg(""), "");
}

#[test]
fn systemd_arg_quotes_and_escapes_special_characters() {
    assert_eq!(systemd_arg("/opt/my app/bin"), "\"/opt/my app/bin\"");
    assert_eq!(systemd_arg("/a%i/bin"), "\"/a%%i/bin\"");
    assert_eq!(systemd_arg("/a$HOME/bin"), "\"/a$$HOME/bin\"");
    assert_eq!(systemd_arg("/a\"b"), "\"/a\\\"b\"");
    assert_eq!(systemd_arg("/a\\b"), "\"/a\\\\b\"");
    assert_eq!(systemd_arg("/\u{4e2d}"), "\"/\u{4e2d}\"");
}

#[test]
fn system_scope_paths_follow_platform_conventions() {
    assert_eq!(
        default_config_dir(ServiceScope::System, None).expect("system config dir"),
        text("/etc/wist-agentd")
    );
    assert_eq!(
        ServiceLayout::resolve(ServicePlatform::Systemd, ServiceScope::System, None)
            .expect("systemd system layout")
            .definition_path,
        text("/etc/systemd/system/wist-agentd.service")
    );
    assert_eq!(
        ServiceLayout::resolve(ServicePlatform::Launchd, ServiceScope::System, None)
            .expect("launchd system layout")
            .definition_path,
        text("/Library/LaunchDaemons/com.dayu-sec.wist-agentd.plist")
    );
}

#[test]
fn user_scope_paths_need_a_home() {
    let missing = error(
        AgentdReason::ServicePathUnresolved,
        "HOME is not set; pass --config-dir / --bin explicitly",
    );
    assert_eq!(home_dir(None), Err(missing));
    assert!(home_dir(Some(&text(""))).is_err());
    assert_eq!(home_dir(Some(&text("/h"))), Ok(text("/h")));
    assert_eq!(
        default_config_dir(ServiceScope::User, Some(&text("/h/"))),
        Ok(text("/h/.wist-agentd"))
    );
    assert!(default_config_dir(ServiceScope::User, None).is_err());
    assert!(ServiceLayout::resolve(ServicePlatform::Launchd, ServiceScope::User, None).is_err());
    assert!(unit_path(ServiceScope::User, None).is_err());
    assert!(log_dir(ServiceScope::User, None).is_err());
    assert_eq!(default_bin(Some(&text("/e")), None), Ok(text("/e")));
    assert_eq!(default_bin(Some(&text("/e")), Some(&text("/c"))), Ok(text("/c")));
    assert!(default_bin(None, Some(&text("/c"))).is_err());
}

#[test]
fn systemd_unit_runs_in_foreground_and_restarts_always() {
    let spec = spec();
    let rendered = render(&layout(ServicePlatform::Systemd), &spec, None);

    assert!(rendered.contains("[Unit]"));
    assert!(rendered.contains("[Install]"));
    assert!(rendered.contains("Type=simple"));
    assert!(rendered.contains(&format!(
        "ExecStart={} --config-dir {}",
        spec.bin.display(),
        spec.config_dir.display()
    )));
    assert!(rendered.contains("Restart=always"));
    assert!(rendered.contains("RestartSec=5"));
    assert!(rendered.contains(&format!("EnvironmentFile=-{}", spec.env_file().display())));
    assert!(rendered.contains("WantedBy=multi-user.target"));
}

#[test]
fn a_unit_is_rendered_exactly() {
    let spec =
        ServiceSpec::new(ServiceScope::System, text("/usr/bin/wist-agentd"), text("/etc/my app"));
    let wanted = "[Unit]\n\
Description=wist agent daemon (edge controller)\n\
Documentation=https://github.com/dayu-sec/wist-agentd\n\
After=network-online.target\n\
Wants=network-online.target\n\
StartLimitIntervalSec=60\n\
StartLimitBurst=10\n\
\n\
[Service]\n\
Type=simple\n\
ExecStart=/usr/bin/wist-agentd --config-dir \"/etc/my app\"\n\
EnvironmentFile=-\"/etc/my app/agentd.env\"\n\
Restart=always\n\
RestartSec=5\n\
KillSignal=SIGTERM\n\
KillMode=control-group\n\
TimeoutStopSec=30\n\
SyslogIdentifier=wist-agentd\n\
StandardOutput=journal\n\
StandardError=journal\n\
LimitNOFILE=65536\n\
NoNewPrivileges=true\n\
\n\
[Install]\n\
WantedBy=multi-user.target\n";
    assert_eq!(unit_text(&spec), wanted);
    assert_eq!(unit_text(&spec).lines().count(), 25);
}

#[test]
fn systemd_user_scope_targets_default_target_with_user_flag() {
    let spec = ServiceSpec::new(ServiceScope::User, under("bin/wist-agentd"), under("conf"));
    let layout = ServiceLayout::for_paths(
        ServicePlatform::Systemd,
        ServiceScope::User,
        under("wist-agentd.service"),
        None,
    );

    let rendered = render(&layout, &spec, None);

    assert!(rendered.contains("WantedBy=default.target"));
    assert_eq!(spec.systemctl_scope_args(), vec!["--user".to_string()]);
}

#[test]
fn launchd_plist_keeps_alive_and_logs_to_files() {
    let spec = spec();
    let layout = layout(ServicePlatform::Launchd);
    let log_dir = layout.log_dir.clone().expect("log dir");

    let rendered = render(&layout, &spec, None);

    assert!(rendered.contains("<key>Label</key>"));
    assert!(rendered.contains(LAUNCHD_LABEL));
    assert!(rendered.contains("<key>KeepAlive</key>"));
    assert!(rendered.contains("<true/>"));
    assert!(rendered.contains(&format!("<string>{}</string>", spec.bin.display())));
    assert!(rendered.contains("--config-dir"));
    assert!(rendered.contains(&format!("<string>{}</string>", spec.config_dir.display())));
    assert!(rendered.contains(&format!(
        "<string>{}</string>",
        log_dir.join(&text("agentd.err")).display()
    )));
}

#[test]
fn a_plist_is_rendered_exactly() {
    let spec = ServiceSpec::new(ServiceScope::User, text("/opt/a&b"), text("/c"));
    let wanted = "<?xml version=\"1.0\" encoding=\"UTF-8\"?>\n\
<!DOCTYPE plist PUBLIC \"-//Apple//DTD PLIST 1.0//EN\" \"http://www.apple.com/DTDs/PropertyList-1.0.dtd\">\n\
<plist version=\"1.0\">\n<dict>\n\
\x20 <key>Label</key>\n\
\x20 <string>com.dayu-sec.wist-agentd</string>\n\
\x20 <key>ProgramArguments</key>\n\
\x20 <array>\n\
\x20   <string>/opt/a&amp;b</string>\n\
\x20   <string>--config-dir</string>\n\
\x20   <string>/c</string>\n\
\x20 </array>\n\
\x20 <key>RunAtLoad</key>\n\
\x20 <true/>\n\
\x20 <key>KeepAlive</key>\n\
\x20 <true/>\n\
\x20 <key>ThrottleInterval</key>\n\
\x20 <integer>10</integer>\n\
\x20 <key>ExitTimeOut</key>\n\
\x20 <integer>30</integer>\n\
\x20 <key>ProcessType</key>\n\
\x20 <string>Background</string>\n\
\x20 <key>WorkingDirectory</key>\n\
\x20 <string>/h</string>\n\
\x20 <key>StandardOutPath</key>\n\
\x20 <string>/h/Library/Logs/wist-agentd/agentd.out</string>\n\
\x20 <key>StandardErrorPath</key>\n\
\x20 <string>/h/Library/Logs/wist-agentd/agentd.err</string>\n\
\x20 <key>EnvironmentVariables</key>\n\
\x20 <dict>\n\
\x20   <key>PATH</key>\n\
\x20   <string>/usr/local/bin:/usr/bin:/bin:/usr/sbin:/sbin</string>\n\
\x20 </dict>\n\
</dict>\n</plist>\n";
    assert_eq!(plist_text(&spec, None, Some(&text("/h"))), wanted);
    let homeless = plist_text(&spec, None, None);
    assert!(homeless.contains("<string>/tmp/agentd.out</string>"));
    assert!(homeless.contains("<key>WorkingDirectory</key>\n  <string>/</string>"));
    let system = ServiceSpec::new(ServiceScope::System, text("/b"), text("/c"));
    let rendered = plist_text(&system, None, Some(&text("/h")));
    assert!(rendered.contains("<string>/var/log/wist-agentd/agentd.err</string>"));
    assert!(rendered.contains("<key>WorkingDirectory</key>\n  <string>/</string>"));
    assert_eq!(kv_string("K<", "v"), "  <key>K&lt;</key>\n  <string>v</string>\n");
}

fn written(steps: &[InstallStep]) -> String {
    for step in steps {
        if let InstallStep::WriteDefinition { body, .. } = step {
            return format!("{body}\n");
        }
    }
    panic!("no definition is written")
}

#[test]
fn install_writes_definition_and_is_guarded_by_force() {
    let spec = spec();
    let layout = layout(ServicePlatform::Systemd);

    let steps = install(&layout, &spec, false, false, None).expect("first install");
    let report = InstallReport::new(&layout, false, false, false);
    assert!(!report.overwritten);
    assert_eq!(report.platform, ServicePlatform::Systemd);
    assert!(!report.exec_bin_present);
    assert_eq!(written(&steps), render(&layout, &spec, None));
    assert_eq!(steps.len(), 2);
    assert_eq!(steps[0], InstallStep::CreateDefinitionDir(text(ROOT)));
    assert_eq!(
        steps[0].failure(),
        error(
            AgentdReason::SystemError,
            "create service definition dir /tmp/wist-agentd-service"
        )
    );
    assert_eq!(
        steps[1].failure(),
        error(
            AgentdReason::SystemError,
            "write service definition /tmp/wist-agentd-service/wist-agentd.service"
        )
    );

    let err = install(&layout, &spec, false, true, None).expect_err("second install without force");
    assert_eq!(err.reason, AgentdReason::ServiceAlreadyInstalled);
    assert_eq!(
        err.detail.as_deref(),
        Some("service definition already exists: /tmp/wist-agentd-service/wist-agentd.service (pass --force to overwrite)")
    );

    let again = install(&layout, &spec, true, true, None).expect("forced install");
    assert_eq!(again, steps);
    assert!(InstallReport::new(&layout, true, false, false).overwritten);
}

#[test]
fn install_creates_launchd_log_dir_and_reports_exec_sibling() {
    let spec = spec();
    let layout = layout(ServicePlatform::Launchd);
    let log_dir = layout.log_dir.clone().expect("log dir");

    let steps = install(&layout, &spec, false, false, None).expect("install");
    assert_eq!(steps[2], InstallStep::CreateLogDir(log_dir.clone()));
    assert_eq!(
        steps[2].failure(),
        error(
            AgentdReason::SystemError,
            "create service log dir /tmp/wist-agentd-service/logs"
        )
    );
    let report = InstallReport::new(&layout, false, true, false);
    assert!(!report.exec_bin_present);
    assert_eq!(report.log_dir, Some(log_dir));
    assert_eq!(spec.exec_bin(), under("bin/wist-exec"));
    let report = InstallReport::new(&layout, true, true, true);
    assert!(report.bin_present);
    assert!(report.exec_bin_present);
}

#[test]
fn remove_reports_whether_a_definition_existed() {
    let layout = layout(ServicePlatform::Systemd);
    assert!(!remove(&layout, FileRemoval::NotFound).expect("remove missing"));
    assert!(remove(&layout, FileRemoval::Removed).expect("remove existing"));
    assert_eq!(
        remove(&layout, FileRemoval::Failed("denied".to_string())),
        Err(error(
            AgentdReason::SystemError,
            "remove service definition /tmp/wist-agentd-service/wist-agentd.service: denied"
        ))
    );
}

#[test]
fn install_rejects_paths_that_cannot_be_represented_in_a_definition() {
    let layout = layout(ServicePlatform::Systemd);
    let spec = ServiceSpec::new(
        ServiceScope::System,
        text("/opt/wist\nbin/wist-agentd"),
        under("conf"),
    );

    let err = install(&layout, &spec, false, false, None)
        .expect_err("newline path must be rejected");

    assert_eq!(err.reason, AgentdReason::ServicePathUnresolved);
    assert_eq!(
        err.detail.as_deref(),
        Some("binary contains a newline and cannot be written into a service definition: \"/opt/wist\\nbin/wist-agentd\"")
    );
    let other = ServiceSpec::new(ServiceScope::System, text("/b"), text("/c\r"));
    assert_eq!(
        reject_unrepresentable_path(&other),
        Err(error(
            AgentdReason::ServicePathUnresolved,
            "config dir contains a newline and cannot be written into a service definition: \"/c\\r\""
        ))
    );
}

#[test]
fn install_needs_a_directory_for_the_definition() {
    let layout = ServiceLayout::for_paths(
        ServicePlatform::Systemd,
        ServiceScope::System,
        text("/"),
        None,
    );
    assert_eq!(
        install(&layout, &spec(), false, false, None),
        Err(error(AgentdReason::ServicePathUnresolved, "no parent directory for /"))
    );
}

#[test]
fn install_quotes_paths_with_specials_in_the_rendered_unit() {
    let layout = layout(ServicePlatform::Systemd);
    let spec = ServiceSpec::new(
        ServiceScope::System,
        text("/opt/my app/wist-agentd"),
        text("/etc/my 100%/wist-agentd"),
    );

    let steps = install(&layout, &spec, false, false, None).expect("install");

    assert!(written(&steps).contains(
        "ExecStart=\"/opt/my app/wist-agentd\" --config-dir \"/etc/my 100%%/wist-agentd\""
    ));
}

fn display_lines(commands: &[ServiceCommand]) -> Vec<String> {
    commands.iter().map(|c| c.display_line()).collect()
}

#[test]
fn activate_commands_are_idempotent_per_platform() {
    let spec = spec();

    let systemd =
        activate_commands(&layout(ServicePlatform::Systemd), &spec, 0).expect("systemd activate");
    assert_eq!(
        display_lines(&systemd),
        vec![
            "systemctl daemon-reload",
            "systemctl enable wist-agentd",
            "systemctl restart wist-agentd",
        ]
    );

    let launchd = activate_commands(&layout(ServicePlatform::Launchd), &spec, 0).expect("launchd");
    assert_eq!(launchd.len(), 3);
    assert_eq!(launchd[0].program, "launchctl");
    assert_eq!(launchd[0].args[0], "bootout");
    assert!(launchd[0].ignore_failure);
    assert_eq!(
        launchd[1].args,
        vec![
            "bootstrap".to_string(),
            "system".to_string(),
            under("com.dayu-sec.wist-agentd.plist").display(),
        ]
    );
    assert_eq!(
        launchd[2].args,
        vec!["enable".to_string(), format!("system/{LAUNCHD_LABEL}")]
    );
}

#[test]
fn systemd_activation_restarts_so_reinstall_takes_effect() {
    let spec = spec();

    for platform in [ServicePlatform::Systemd, ServicePlatform::Launchd] {
        let commands = activate_commands(&layout(platform), &spec, 0).expect("activate");
        let lines = display_lines(&commands);
        let restarts =
            lines.iter().any(|line| line.contains(" restart ") || line.contains("bootstrap"));
        assert!(restarts, "{platform:?}: {lines:?}");
        assert!(
            !lines.iter().any(|line| line.contains("enable --now")),
            "{platform:?}: {lines:?}"
        );
    }
}

#[test]
fn only_the_process_restart_step_is_retryable() {
    let spec = spec();

    let systemd =
        activate_commands(&layout(ServicePlatform::Systemd), &spec, 0).expect("systemd activate");
    assert_eq!(systemd[0].retries, 0);
    assert_eq!(systemd[1].retries, 0);
    assert_eq!(systemd[2].retries, ACTIVATE_RETRIES);

    let launchd = activate_commands(&layout(ServicePlatform::Launchd), &spec, 0).expect("launchd");
    assert_eq!(launchd[0].retries, 0);
    assert_eq!(launchd[1].retries, ACTIVATE_RETRIES);
    assert_eq!(launchd[2].retries, 0);

    for command in deactivate_commands(ServicePlatform::Systemd, &spec, 0)
        .into_iter()
        .chain(deactivate_commands(ServicePlatform::Launchd, &spec, 0))
        .chain(inspect_commands(ServicePlatform::Systemd, &spec, 0))
    {
        assert_eq!(command.retries, 0, "{:?}", command.display_line());
    }
}

fn outcome(command: &ServiceCommand, success: bool, stdout: &str, stderr: &str) -> ServiceCommandOutcome {
    ServiceCommandOutcome {
        command: command.clone(),
        success,
        stdout: stdout.to_string(),
        stderr: stderr.to_string(),
    }
}

/// Runs a command whose first runs fail, and counts the runs.
fn run_flaky(command: &ServiceCommand, failures: u32) -> (ServiceCommandOutcome, u32) {
    let mut attempt = 0;
    let mut runs = 0;
    loop {
        let raw = RawOutput {
            success: runs >= failures,
            stdout: vec![],
            stderr: b"transient failure\n".to_vec(),
        };
        runs += 1;
        let ran = run(command, Ok(raw)).expect("run");
        match run_with_retries(command, attempt, ran) {
            RetryStep::Done(done) => return (done, runs),
            RetryStep::Again(next) => attempt = next,
        }
    }
}

fn flaky_command(retries: u32) -> ServiceCommand {
    ServiceCommand::new("sh", vec!["flaky.sh".to_string(), "attempts".to_string()], false)
        .retryable(retries)
}

#[test]
fn run_with_retries_retries_until_success() {
    let (done, runs) = run_flaky(&flaky_command(2), 2);
    assert!(done.success);
    assert_eq!(runs, 3);
}

#[test]
fn run_with_retries_gives_up_and_reports_the_last_failure() {
    let (done, runs) = run_flaky(&flaky_command(2), 99);
    assert!(!done.success);
    assert_eq!(done.stderr, "transient failure");
    assert_eq!(runs, 3);
}

#[test]
fn run_with_retries_does_not_retry_a_success() {
    let (done, runs) = run_flaky(&flaky_command(ACTIVATE_RETRIES), 0);
    assert!(done.success);
    assert_eq!(runs, 1);
}

#[test]
fn deactivate_and_inspect_commands_match_scope() {
    let user_spec = ServiceSpec::new(ServiceScope::User, under("bin/wist-agentd"), under("conf"));

    let systemd = deactivate_commands(ServicePlatform::Systemd, &user_spec, 501);
    assert_eq!(systemd[0].display_line(), "systemctl --user disable --now wist-agentd");
    assert!(systemd[0].ignore_failure);

    let inspect = inspect_commands(ServicePlatform::Systemd, &user_spec, 501);
    assert_eq!(inspect[0].display_line(), "systemctl --user status wist-agentd");
    assert_eq!(inspect[1].display_line(), "journalctl --user -u wist-agentd -f");

    let launchd = deactivate_commands(ServicePlatform::Launchd, &user_spec, 501);
    assert_eq!(launchd[0].args[0], "bootout");
    assert!(launchd[0].args[1].starts_with("gui/"));
    assert_eq!(launchd[0].args[1], "gui/501/com.dayu-sec.wist-agentd");
    let print = inspect_commands(ServicePlatform::Launchd, &user_spec, 0);
    assert_eq!(
        print[0].display_line(),
        "launchctl print gui/0/com.dayu-sec.wist-agentd"
    );
}

#[test]
fn log_hint_points_at_journal_or_log_file() {
    let spec = spec();
    assert_eq!(
        log_hint(&layout(ServicePlatform::Systemd), &spec).expect("systemd hint"),
        "journalctl -u wist-agentd -f"
    );
    let launchd = log_hint(&layout(ServicePlatform::Launchd), &spec).expect("launchd");
    assert_eq!(launchd, format!("tail -f {}", under("logs/agentd.err").display()));

    let user = ServiceSpec::new(ServiceScope::User, text("/b"), text("/c"));
    assert_eq!(
        log_hint(&layout(ServicePlatform::Systemd), &user).expect("user hint"),
        "journalctl --user -u wist-agentd -f"
    );
    let mut bare = layout(ServicePlatform::Launchd);
    bare.log_dir = None;
    assert_eq!(
        log_hint(&bare, &spec),
        Err(AgentdError { reason: AgentdReason::ServicePathUnresolved, detail: None })
    );
}

fn probe(config_present: bool, loaded: Result<ConfiguredDirs, String>) -> StatusProbe {
    StatusProbe {
        definition_present: false,
        bin_present: false,
        exec_bin_present: false,
        config_present,
        loaded,
        lock_held: Ok(false),
    }
}

fn dirs() -> ConfiguredDirs {
    ConfiguredDirs {
        root_dir: under("etc/wist-agentd").display(),
        run_dir: under("etc/wist-agentd/run").display(),
        state_dir: under("etc/wist-agentd/state").display(),
        log_dir: under("etc/wist-agentd/log").display(),
    }
}

#[test]
fn status_reads_config_state_dir_and_detects_running_lock() {
    let spec = spec();
    let layout = layout(ServicePlatform::Systemd);

    let before = status(&layout, &spec, probe(false, Err("not read".to_string())))
        .expect("status without config");
    assert!(!before.definition_present);
    assert!(!before.config_present);
    assert!(before.config_error.is_none());
    assert!(before.state_dir.is_none());
    assert!(before.root_dir.is_none());
    assert!(before.run_dir.is_none());
    assert!(before.log_dir.is_none());
    assert!(before.running.is_none());

    let with_config = status(&layout, &spec, probe(true, Ok(dirs()))).expect("status with config");
    assert!(with_config.config_present);
    assert_eq!(with_config.config_path, under("etc/wist-agentd/agentd.toml"));
    assert_eq!(with_config.state_dir, Some(spec.config_dir.join(&text("state"))));
    assert_eq!(with_config.root_dir, Some(spec.config_dir.clone()));
    assert_eq!(with_config.run_dir, Some(spec.config_dir.join(&text("run"))));
    assert_eq!(with_config.log_dir, Some(spec.config_dir.join(&text("log"))));
    assert_eq!(with_config.running, Some(false));

    let mut held = probe(true, Ok(dirs()));
    held.lock_held = Ok(true);
    let while_running = status(&layout, &spec, held).expect("status while running");
    assert_eq!(while_running.running, Some(true));

    let mut unknown = probe(true, Ok(dirs()));
    unknown.lock_held = Err("denied".to_string());
    assert_eq!(
        status(&layout, &spec, unknown),
        Err(error(
            AgentdReason::SystemError,
            "probe single-instance lock for service status"
        ))
    );
}

#[test]
fn status_reports_config_load_failure_reason() {
    let loaded = Err("config error\n  missing env var: WIST_TEST_MISSING_VAR\n\n".to_string());
    let found =
        status(&layout(ServicePlatform::Systemd), &spec(), probe(true, loaded)).expect("status");

    assert!(found.config_present);
    assert!(found.root_dir.is_none());
    assert!(found.running.is_none());
    let reason = found.config_error.expect("config error surfaced");
    assert!(reason.contains("WIST_TEST_MISSING_VAR"), "{reason}");
    assert!(!reason.contains('\n'));
    assert_eq!(reason, "config error / missing env var: WIST_TEST_MISSING_VAR");
    assert_eq!(one_line("\n \n"), "");
    assert_eq!(one_line(" a \r\n\n b"), "a / b");
}

#[test]
fn command_display_line_quotes_paths_with_spaces() {
    let command = ServiceCommand::new(
        "launchctl",
        vec!["bootstrap".to_string(), "/tmp/a b".to_string()],
        false,
    );
    assert_eq!(command.display_line(), "launchctl bootstrap '/tmp/a b'");
    assert_eq!(shell_quote(""), "''");
    assert_eq!(shell_quote("it's"), "'it'\\''s'");
    assert_eq!(shell_quote("a=b:c@d_e-f.g/H9"), "a=b:c@d_e-f.g/H9");
    assert_eq!(shell_quote("$x"), "'$x'");
}

#[test]
fn current_platform_is_supported_on_linux_and_macos() {
    assert_eq!(ServicePlatform::current("linux"), Some(ServicePlatform::Systemd));
    assert_eq!(ServicePlatform::current("macos"), Some(ServicePlatform::Launchd));
    assert_eq!(ServicePlatform::current("windows"), None);
    assert_eq!(ServicePlatform::Launchd.as_str(), "launchd");
    assert_eq!(ServiceScope::User.as_str(), "user");
    assert!(ServiceScope::System.is_system());
    assert!(!ServiceScope::User.is_system());
}

#[test]
fn commands_are_run_in_order_and_none_is_left_out() {
    let strict = ServiceCommand::new("systemctl", vec!["daemon-reload".to_string()], false);
    let list = vec![strict.clone(), strict.clone(), strict.clone()];
    let mut done = vec![];
    let mut places = vec![];
    while let Some(place) = next_service_command(&list, &done) {
        places.push(place);
        done.push(outcome(&list[place], place != 0, "", "first"));
    }
    assert_eq!(places, vec![0, 1, 2]);
    assert_eq!(
        run_service_commands(&done),
        Err(error(
            AgentdReason::ServiceCommandFailed,
            "`systemctl daemon-reload` failed: first"
        ))
    );
    assert_eq!(next_service_command(&vec![], &vec![]), None);
}

#[test]
fn command_results_are_judged_together() {
    let lenient = ServiceCommand::new("systemctl", vec!["disable".to_string()], true);
    let strict = ServiceCommand::new("systemctl", vec!["daemon-reload".to_string()], false);
    assert_eq!(
        run_service_commands(&vec![
            outcome(&lenient, false, "", "not loaded"),
            outcome(&strict, true, "", ""),
        ]),
        Ok(())
    );
    assert_eq!(
        run_service_commands(&vec![
            outcome(&strict, false, "out\nmore", ""),
            outcome(&lenient, false, "", "x"),
            outcome(&strict, false, "out", "err 1\nerr 2"),
            outcome(&strict, false, "", ""),
        ]),
        Err(error(
            AgentdReason::ServiceCommandFailed,
            "`systemctl daemon-reload` failed: out; `systemctl daemon-reload` failed: err 1; `systemctl daemon-reload` failed: no output"
        ))
    );
    assert_eq!(failure_detail(&outcome(&strict, false, "", "\nx")), "");
    assert_eq!(
        run(&strict, Err("not found".to_string())),
        Err(error(
            AgentdReason::ServiceCommandFailed,
            "run `systemctl daemon-reload`: not found"
        ))
    );
    let ran = run(
        &strict,
        Ok(RawOutput { success: true, stdout: vec![0x20, 0x61, 0xff, 0x0a], stderr: vec![0x0a] }),
    )
    .expect("run");
    assert_eq!(ran.stdout, "a\u{fffd}");
    assert_eq!(ran.stderr, "");
    assert_eq!(ran.command, strict);
}

#[test]
fn path_states_are_shown() {
    assert_eq!(path_state(&text("/a"), true), "/a (present)");
    assert_eq!(path_state(&OsText { bytes: vec![0x2f, 0xfe] }, false), "/\u{fffd} (missing)");
}

#[test]
fn units_keep_their_lines_for_paths_that_are_not_utf8() {
    let dir = |bytes: &[u8]| OsText { bytes: bytes.to_vec() };
    let spec = |config_dir| {
        ServiceSpec::new(ServiceScope::System, OsText::from_text("/usr/bin/wist-agentd"), config_dir)
    };
    let plain = unit_text(&spec(OsText::from_text("/etc/wist-agentd")));
    let odd = spec(dir(b"/etc/\xff\xc3"));
    assert_eq!(reject_unrepresentable_path(&odd), Ok(()));
    let rendered = unit_text(&odd);
    assert_eq!(rendered.lines().count(), plain.lines().count());
    assert!(rendered.contains("/etc/\u{fffd}\u{fffd}/agentd.env"));
    let broken = spec(dir(b"/etc/\xc3\n\xff"));
    assert!(reject_unrepresentable_path(&broken).is_err());
    let returned = spec(dir(b"/etc/\xe2\x82\r"));
    assert!(reject_unrepresentable_path(&returned).is_err());
}
