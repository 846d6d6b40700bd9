use wist_agentd::control::args::{
    looks_like_option, merge_config_dir, option_value, os_string_to_token, parse_command,
    parse_enroll_request, parse_service_request, set_config_dir, ArgsError, Command, EnrollRequest,
    Flag, ParsedArgs, ServiceAction, ServiceRequest,
};
use wist_agentd::os_text::OsText;
use wist_agentd::service::{ServicePlatform, ServiceScope};

fn text(value: &str) -> OsText {
    OsText::from_text(value)
}

fn args(list: &[&str]) -> Vec<OsText> {
    list.iter().map(|arg| text(arg)).collect()
}

fn parse(list: &[&str]) -> Result<ParsedArgs, ArgsError> {
    parse_command(&args(list))
}

fn refused(list: &[&str]) -> String {
    parse(list).expect_err("refused").message()
}

fn plain(command: Command) -> ParsedArgs {
    ParsedArgs { command, config_dir: None }
}

#[test]
fn parse_command_defaults_to_run() {
    assert_eq!(parse(&[]).expect("parse"), plain(Command::Run));
}

#[test]
fn parse_command_accepts_help_variants() {
    assert_eq!(parse(&["help"]).expect("parse"), plain(Command::Help));
    assert_eq!(parse(&["--help"]).expect("parse"), plain(Command::Help));
    assert_eq!(parse(&["-h"]).expect("parse"), plain(Command::Help));
}

#[test]
fn parse_command_accepts_init_config() {
    assert_eq!(
        parse(&["init-config"]).expect("parse"),
        plain(Command::InitConfig { stdout_only: false })
    );
}

#[test]
fn parse_command_accepts_init_config_stdout() {
    assert_eq!(
        parse(&["init-config", "--stdout"]).expect("parse"),
        plain(Command::InitConfig { stdout_only: true })
    );
}

#[test]
fn parse_command_accepts_global_config_dir() {
    assert_eq!(
        parse(&["--config-dir", "conf", "init-config"]).expect("parse"),
        ParsedArgs {
            command: Command::InitConfig { stdout_only: false },
            config_dir: Some(text("conf")),
        }
    );
}

#[test]
fn parse_command_accepts_init_config_stdout_after_config_dir() {
    assert_eq!(
        parse(&["init-config", "--config-dir", "conf", "--stdout"]).expect("parse"),
        ParsedArgs {
            command: Command::InitConfig { stdout_only: true },
            config_dir: Some(text("conf")),
        }
    );
}

#[test]
fn parse_command_rejects_unknown_command() {
    let message = refused(&["bad-command"]);
    assert!(message.contains("unknown argument or command"));
    assert!(message.contains("--config-dir"));
}

#[test]
fn parse_command_rejects_missing_config_dir_value() {
    assert!(refused(&["--config-dir"]).contains("missing value for --config-dir"));
}

#[test]
fn parse_command_rejects_config_dir_followed_by_option() {
    assert!(refused(&["init-config", "--config-dir", "--stdout"])
        .contains("missing value for --config-dir"));
}

#[test]
fn parse_command_rejects_stdout_without_init_config() {
    assert!(refused(&["--stdout"]).contains("--stdout is only supported with init-config"));
}

#[test]
fn parse_command_accepts_version_variants() {
    for arg in ["version", "--version", "-V"] {
        assert_eq!(parse(&[arg]).expect("parse"), plain(Command::Version));
    }
}

#[test]
fn parse_command_accepts_service_action_and_defaults_to_system_scope() {
    let parsed = parse(&["service", "print"]).expect("parse");
    assert_eq!(parsed.config_dir, None);
    assert_eq!(
        parsed.command,
        Command::Service(ServiceRequest {
            action: ServiceAction::Print,
            scope: ServiceScope::System,
            platform: None,
            bin: None,
            force: false,
            activate: true,
            enrollment_token: None,
        })
    );
}

#[test]
fn parse_command_accepts_service_install_flags() {
    let parsed = parse(&[
        "service",
        "install",
        "--user",
        "--bin",
        "/opt/wist/bin/wist-agentd",
        "--force",
        "--no-activate",
        "--config-dir",
        "/etc/wist-agentd",
    ])
    .expect("parse");

    assert_eq!(parsed.config_dir, Some(text("/etc/wist-agentd")));
    assert_eq!(
        parsed.command,
        Command::Service(ServiceRequest {
            action: ServiceAction::Install,
            scope: ServiceScope::User,
            platform: None,
            bin: Some(text("/opt/wist/bin/wist-agentd")),
            force: true,
            activate: false,
            enrollment_token: None,
        })
    );
}

#[test]
fn parse_command_rejects_invalid_service_arguments() {
    assert!(refused(&["service"]).contains("missing service action"));
    assert!(refused(&["service", "restart"]).contains("unknown service action"));
    assert!(refused(&["service", "status", "--force"])
        .contains("--force is only supported with `service install`"));
    assert!(
        refused(&["service", "install", "--bin", "--force"]).contains("missing value for --bin")
    );
}

#[test]
fn parse_command_accepts_service_flags_after_config_dir() {
    let parsed = parse(&[
        "service",
        "install",
        "--bin",
        "/usr/local/bin/wist-agentd",
        "--config-dir",
        "/etc/wist-agentd",
        "--force",
        "--enrollment-token",
        "tok-7",
    ])
    .expect("parse");

    assert_eq!(parsed.config_dir, Some(text("/etc/wist-agentd")));
    assert_eq!(
        parsed.command,
        Command::Service(ServiceRequest {
            action: ServiceAction::Install,
            scope: ServiceScope::System,
            platform: None,
            bin: Some(text("/usr/local/bin/wist-agentd")),
            force: true,
            activate: true,
            enrollment_token: Some("tok-7".to_string()),
        })
    );
}

#[test]
fn parse_command_accepts_enroll_flags_after_config_dir() {
    let parsed = parse(&["enroll", "--config-dir", "conf", "--token", "tok-1"]).expect("parse");
    assert_eq!(parsed.config_dir, Some(text("conf")));
    assert_eq!(
        parsed.command,
        Command::Enroll(EnrollRequest { token: Some("tok-1".to_string()), token_stdin: false })
    );
}

#[test]
fn parse_command_rejects_conflicting_config_dir_values() {
    let message = refused(&["service", "print", "--config-dir", "a", "--config-dir", "b"]);
    assert!(message.contains("conflicting --config-dir"), "{message}");
}

#[test]
fn parse_command_accepts_cross_platform_render_target() {
    let parsed = parse(&["service", "print", "--for", "launchd"]).expect("parse");
    assert_eq!(
        parsed.command,
        Command::Service(ServiceRequest {
            action: ServiceAction::Print,
            scope: ServiceScope::System,
            platform: Some(ServicePlatform::Launchd),
            bin: None,
            force: false,
            activate: true,
            enrollment_token: None,
        })
    );

    assert!(refused(&["service", "status", "--for", "systemd"])
        .contains("--for is only supported with `service print`"));
    assert!(refused(&["service", "print", "--for", "windows"])
        .contains("unknown platform for --for"));
}

#[test]
fn parse_command_accepts_enroll_with_token_forms() {
    let parsed = parse(&["enroll", "--token", "tok-1"]).expect("parse");
    assert_eq!(
        parsed.command,
        Command::Enroll(EnrollRequest { token: Some("tok-1".to_string()), token_stdin: false })
    );

    let parsed =
        parse(&["enroll", "--token-stdin", "--config-dir", "/etc/wist-agentd"]).expect("parse");
    assert_eq!(parsed.config_dir, Some(text("/etc/wist-agentd")));
    assert_eq!(
        parsed.command,
        Command::Enroll(EnrollRequest { token: None, token_stdin: true })
    );

    assert_eq!(
        parse(&["enroll"]).expect("parse"),
        plain(Command::Enroll(EnrollRequest { token: None, token_stdin: false }))
    );
}

#[test]
fn parse_command_rejects_bad_enroll_arguments() {
    assert!(refused(&["enroll", "--token"]).contains("missing value for --token"));
    assert!(refused(&["enroll", "--token", "a", "--token-stdin"]).contains("mutually exclusive"));
    assert!(refused(&["enroll", "--token", "   "]).contains("non-empty UTF-8"));
}

#[test]
fn parse_command_accepts_service_install_enrollment_token() {
    let parsed = parse(&["service", "install", "--enrollment-token", "tok-9", "--no-activate"])
        .expect("parse");

    assert_eq!(
        parsed.command,
        Command::Service(ServiceRequest {
            action: ServiceAction::Install,
            scope: ServiceScope::System,
            platform: None,
            bin: None,
            force: false,
            activate: false,
            enrollment_token: Some("tok-9".to_string()),
        })
    );

    assert!(refused(&["service", "status", "--enrollment-token", "tok-9"])
        .contains("--enrollment-token is only supported with `service install`"));
}

#[test]
fn parse_command_rejects_token_flags_outside_enroll() {
    assert!(refused(&["init-config", "--token", "tok"]).contains("unknown argument or command"));
    assert!(
        refused(&["service", "print", "--token", "tok"]).contains("unknown argument or command")
    );
    assert!(
        refused(&["service", "install", "--enrollment-token", "  "]).contains("non-empty UTF-8")
    );
}

#[test]
fn every_refusal_has_its_message() {
    assert_eq!(
        refused(&["init-config", "help"]),
        "help cannot be combined with another command"
    );
    assert_eq!(
        refused(&["help", "version"]),
        "version cannot be combined with another command"
    );
    assert_eq!(refused(&["help", "service"]), "multiple commands are not supported");
    assert_eq!(refused(&["init-config", "enroll"]), "multiple commands are not supported");
    assert_eq!(refused(&["enroll", "init-config"]), "multiple commands are not supported");
    assert_eq!(
        refused(&["service", "print", "--stdout"]),
        "--stdout is only supported with init-config"
    );
    assert_eq!(
        refused(&["run"]),
        "unknown argument or command: run (supported: help | version | init-config [--stdout] | service <print|install|uninstall|status> | --config-dir <path>)"
    );
    assert_eq!(
        refused(&["service"]),
        "missing service action (supported: print | install | uninstall | status)"
    );
    assert_eq!(
        refused(&["service", "restart"]),
        "unknown service action: restart (supported: print | install | uninstall | status)"
    );
    assert_eq!(
        refused(&["service", "print", "--for", "windows"]),
        "unknown platform for --for: windows (supported: systemd | launchd)"
    );
    assert_eq!(
        refused(&["service", "uninstall", "--no-activate"]),
        "--no-activate is only supported with `service install`"
    );
    assert_eq!(
        refused(&["enroll", "--config-dir", "a", "--config-dir", "b"]),
        "conflicting --config-dir: a vs b"
    );
    assert_eq!(
        refused(&["enroll", "--token", " \t"]),
        "enrollment token must be non-empty UTF-8"
    );
    assert_eq!(
        refused(&["enroll", "--token-stdin", "--token", "x"]),
        "--token and --token-stdin are mutually exclusive"
    );
    assert_eq!(refused(&["service", "print", "--for"]), "missing value for --for");
}

#[test]
fn arguments_need_not_be_utf8() {
    let raw = OsText { bytes: vec![0x66, 0x6f, 0xff] };
    let parsed =
        parse_command(&vec![text("--config-dir"), raw.clone(), text("help")]).expect("parse");
    assert_eq!(parsed.config_dir, Some(raw.clone()));
    let err = parse_command(&vec![raw.clone()]).expect_err("unknown");
    assert_eq!(err, ArgsError::UnknownArgument(raw.clone()));
    assert!(err.message().contains("fo\u{fffd} (supported"));
    assert_eq!(os_string_to_token(&raw), Err(ArgsError::UnusableToken));
    assert_eq!(os_string_to_token(&text("  t ")), Ok("t".to_string()));
}

#[test]
fn the_last_global_config_dir_wins() {
    let parsed = parse(&["--config-dir", "a", "--config-dir", "b"]).expect("parse");
    assert_eq!(parsed, ParsedArgs { command: Command::Run, config_dir: Some(text("b")) });
}

#[test]
fn a_config_dir_may_be_repeated_in_another_spelling() {
    let parsed = parse(&["--config-dir", "conf", "enroll", "--config-dir", "conf/"]).expect("parse");
    assert_eq!(parsed.config_dir, Some(text("conf/")));
    assert_eq!(
        refused(&["--config-dir", "conf", "enroll", "--config-dir", "other"]),
        "conflicting --config-dir: conf vs other"
    );

    let mut slot = None;
    assert_eq!(set_config_dir(&mut slot, text("a")), Ok(()));
    assert_eq!(set_config_dir(&mut slot, text("./a")), Err(ArgsError::ConflictingConfigDir(
        text("a"),
        text("./a")
    )));
    assert_eq!(slot, Some(text("a")));
    assert_eq!(merge_config_dir(&mut slot, None), Ok(()));
    assert_eq!(merge_config_dir(&mut slot, Some(text("a//"))), Ok(()));
    assert_eq!(slot, Some(text("a//")));
}

#[test]
fn service_options_may_stand_in_any_order() {
    let first = parse(&["service", "install", "--user", "--bin", "/b", "--force"]).expect("parse");
    let second = parse(&["service", "install", "--force", "--user", "--bin", "/b"]).expect("parse");
    assert_eq!(first, second);
    let last_scope = parse(&["service", "status", "--user", "--system"]).expect("parse");
    assert_eq!(last_scope, parse(&["service", "status"]).expect("parse"));
}

#[test]
fn a_config_dir_goes_first_or_last() {
    for rest in [
        vec!["service", "install", "--force"],
        vec!["enroll", "--token", "t"],
        vec!["init-config", "--stdout"],
        vec!["version"],
        vec![],
    ] {
        let mut front = vec!["--config-dir", "c"];
        front.extend(rest.iter());
        let mut back = rest.clone();
        back.extend(["--config-dir", "c"]);
        let parsed = parse(&front).expect("front");
        assert_eq!(parsed, parse(&back).expect("back"));
        assert_eq!(parsed.config_dir, Some(text("c")));
        assert_eq!(parsed.command, parse(&rest).expect("rest").command);
    }
}

#[test]
fn option_words_are_no_values() {
    for word in [
        "--help", "-h", "--version", "-V", "--stdout", "--config-dir", "--bin", "--for", "--token",
        "--token-stdin", "--enrollment-token", "--system", "--user", "--force", "--no-activate",
    ] {
        assert!(looks_like_option(&text(word)), "{word}");
    }
    for word in ["help", "version", "service", "--", "-v", "--config-dir=x", ""] {
        assert!(!looks_like_option(&text(word)), "{word}");
    }
    let list = args(&["--bin", "x"]);
    assert_eq!(option_value(&list, 1, Flag::Bin), Ok(&text("x")));
    assert_eq!(option_value(&list, 0, Flag::Bin), Err(ArgsError::MissingValue(Flag::Bin)));
    assert_eq!(option_value(&list, 2, Flag::Bin), Err(ArgsError::MissingValue(Flag::Bin)));
}

#[test]
fn subcommands_start_anywhere() {
    let given = args(&["enroll", "--token", "t", "help"]);
    assert_eq!(
        parse_enroll_request(&given, 1),
        Ok((EnrollRequest { token: Some("t".to_string()), token_stdin: false }, None, 3))
    );
    let nothing = EnrollRequest { token: None, token_stdin: false };
    assert_eq!(parse_enroll_request(&given, 4), Ok((nothing, None, 4)));
    let nothing = EnrollRequest { token: None, token_stdin: false };
    assert_eq!(parse_enroll_request(&given, 9), Ok((nothing, None, 9)));
    assert_eq!(parse_service_request(&given, 4), Err(ArgsError::MissingServiceAction));
    assert_eq!(parse_service_request(&given, usize::MAX), Err(ArgsError::MissingServiceAction));
}
