use wist_agentd::config::defaults::{
    absolutize, apply_path_defaults, collected_output_default, declared_paths, default_paths_for,
    fill_path_defaults, is_system_config_dir, resolve_paths, DeclaredPaths, DefaultPaths,
};
use wist_agentd::config::env::{
    expand_optional, expand_string, ConfigError, ConfigReason, EnvSnapshot,
};
use wist_agentd::config::model::{
    expand_env_contract, AgentConfig, AgentSection, ControlPlaneSection, LogFileInput,
    LogsOutputSection, LogsSection, PathsSection,
};
use wist_agentd::config::template::default_file_config_text;
use wist_agentd::os_text::OsText;

fn text(value: &str) -> OsText {
    OsText::from_text(value)
}

fn env(vars: &[(&str, &str)]) -> EnvSnapshot {
    let mut env = EnvSnapshot::new();
    for (name, value) in vars {
        env.set(name.to_string(), value.to_string());
    }
    env
}

fn missing(name: &str) -> ConfigError {
    ConfigError { reason: ConfigReason::MissingEnvVar, detail: name.to_string() }
}

fn config() -> AgentConfig {
    AgentConfig {
        agent: AgentSection { agent_id: None, environment_id: None, instance_name: None },
        control_plane: ControlPlaneSection {
            enabled: true,
            endpoint: Some("https://10.0.1.1".to_string()),
            enrollment_token: None,
            credential_request: None,
            credential_id: None,
            bearer_token: None,
            credential_expires_at: None,
            tls_mode: None,
            trust_bundle: None,
            auth_mode: None,
        },
        paths: PathsSection {
            root_dir: "given-root".to_string(),
            run_dir: "given-run".to_string(),
            state_dir: "/given/state".to_string(),
            log_dir: "given-log".to_string(),
        },
        logs: LogsSection {
            spool_dir: "state/spool/logs".to_string(),
            output: LogsOutputSection {
                kind: "file".to_string(),
                file_path: "given-out".to_string(),
                tcp_addr: "127.0.0.1".to_string(),
                tcp_framing: "line".to_string(),
            },
            file_inputs: vec![LogFileInput {
                input_id: "app".to_string(),
                path: "../logs/./app.log".to_string(),
                startup_position: "tail".to_string(),
                multiline_mode: "none".to_string(),
            }],
        },
    }
}

#[test]
fn variables_are_expanded_once() {
    let env = env(&[("A", "1"), ("B", "${A}"), ("", "empty")]);
    assert_eq!(expand_string("x${A}y${A}", &env), Ok("x1y1".to_string()));
    assert_eq!(expand_string("${B}", &env), Ok("${A}".to_string()));
    assert_eq!(expand_string("${}", &env), Ok("empty".to_string()));
    assert_eq!(expand_string("$A {A} $", &env), Ok("$A {A} $".to_string()));
    assert_eq!(expand_string("${A}${A", &env), Ok("1${A".to_string()));
    assert_eq!(expand_string("$${A}", &env), Ok("$1".to_string()));
    assert_eq!(expand_string("${A}${C}${D}", &env), Err(missing("C")));
    assert_eq!(expand_string("${a${A}", &env), Err(missing("a${A")));
    assert_eq!(expand_string("\u{4e2d}${A}\u{6587}", &env), Ok("\u{4e2d}1\u{6587}".to_string()));
    assert_eq!(expand_optional(&None, &env), Ok(None));
    assert_eq!(expand_optional(&Some("${A}".to_string()), &env), Ok(Some("1".to_string())));
}

#[test]
fn a_later_variable_replaces_an_earlier_one() {
    let env = env(&[("A", "1"), ("A", "2")]);
    assert_eq!(env.get("A").map(String::as_str), Some("2"));
    assert_eq!(env.get("B"), None);
}

#[test]
fn every_text_of_a_configuration_is_expanded() {
    let mut given = config();
    given.agent.agent_id = Some("${V}1".to_string());
    given.agent.environment_id = Some("${V}2".to_string());
    given.agent.instance_name = Some("${V}3".to_string());
    given.control_plane.endpoint = Some("${V}4".to_string());
    given.control_plane.enrollment_token = Some("${V}5".to_string());
    given.control_plane.credential_request = Some("${V}6".to_string());
    given.control_plane.credential_id = Some("${V}7".to_string());
    given.control_plane.bearer_token = Some("${V}8".to_string());
    given.control_plane.credential_expires_at = Some("${V}9".to_string());
    given.control_plane.tls_mode = Some("${V}10".to_string());
    given.control_plane.trust_bundle = Some("${V}11".to_string());
    given.control_plane.auth_mode = Some("${V}12".to_string());
    given.paths.root_dir = "${V}13".to_string();
    given.paths.run_dir = "${V}14".to_string();
    given.paths.state_dir = "${V}15".to_string();
    given.paths.log_dir = "${V}16".to_string();
    given.logs.spool_dir = "${V}17".to_string();
    given.logs.output.kind = "${V}18".to_string();
    given.logs.output.file_path = "${V}19".to_string();
    given.logs.output.tcp_addr = "${V}20".to_string();
    given.logs.output.tcp_framing = "${V}21".to_string();
    given.logs.file_inputs[0] = LogFileInput {
        input_id: "${V}22".to_string(),
        path: "${V}23".to_string(),
        startup_position: "${V}24".to_string(),
        multiline_mode: "${V}25".to_string(),
    };
    let done = expand_env_contract(&given, &env(&[("V", "v")])).expect("expand");
    let shown = format!("{done:?}");
    for n in 1..=25 {
        assert!(shown.contains(&format!("\"v{n}\"")), "{n}");
    }
    assert!(!shown.contains('$'));
    assert!(done.control_plane.enabled);
}

#[test]
fn the_first_missing_variable_is_reported() {
    let mut given = config();
    given.logs.file_inputs[0].path = "${LATE}".to_string();
    given.paths.log_dir = "${EARLY}".to_string();
    assert_eq!(expand_env_contract(&given, &env(&[])), Err(missing("EARLY")));
    assert_eq!(expand_env_contract(&given, &env(&[("EARLY", "x")])), Err(missing("LATE")));
    assert_eq!(expand_env_contract(&config(), &env(&[])), Ok(config()));
}

#[test]
fn system_directories_are_recognised_by_component() {
    let root = text("/");
    assert!(is_system_config_dir(&text("/etc/wist-agentd"), None));
    assert!(is_system_config_dir(&text("/etc//wist-agentd/sub/"), None));
    assert!(is_system_config_dir(&text("etc/wist-agentd"), Some(&root)));
    assert!(!is_system_config_dir(&text("etc/wist-agentd"), None));
    assert!(!is_system_config_dir(&text("/etc/wist-agentd2"), None));
    assert!(!is_system_config_dir(&text("/etc"), None));
    assert!(!is_system_config_dir(&text("/etc/x/../wist-agentd"), None));
}

#[test]
fn defaults_follow_the_configuration_directory() {
    let paths = |root: &str, log: &str| DefaultPaths {
        root_dir: root.to_string(),
        run_dir: "run".to_string(),
        state_dir: "state".to_string(),
        log_dir: log.to_string(),
    };
    assert_eq!(
        default_paths_for(&text("/etc/wist-agentd"), None),
        paths("/var/lib/wist-agentd", "/var/log/wist-agentd")
    );
    assert_eq!(default_paths_for(&text("/home/u/.wist-agentd"), None), paths(".", "log"));
    assert_eq!(
        collected_output_default(true),
        "/var/lib/wist-agentd/data/wist-records.ndjson"
    );
    assert_eq!(collected_output_default(false), "data/wist-records.ndjson");
}

fn toml_value(source: &str) -> toml::Value {
    toml::from_str(source).expect("toml")
}

#[test]
fn declared_paths_are_found_in_the_file() {
    let none = DeclaredPaths {
        root_dir: false,
        run_dir: false,
        state_dir: false,
        log_dir: false,
        output_file: false,
    };
    assert_eq!(declared_paths(&toml_value("")), none);
    assert_eq!(declared_paths(&toml_value("paths = 1\ntelemetry = [1]")), none);
    assert_eq!(declared_paths(&toml_value(&default_file_config_text())), none);
    assert_eq!(
        declared_paths(&toml_value("[paths]\nroot_dir = \".\"\nstate_dir = \"s\"")),
        DeclaredPaths { root_dir: true, state_dir: true, ..none }
    );
    assert_eq!(
        declared_paths(&toml_value("[paths]\nrun_dir = \"r\"\nlog_dir = \"l\"\npath = 1")),
        DeclaredPaths { run_dir: true, log_dir: true, ..none }
    );
    assert_eq!(
        declared_paths(&toml_value("[telemetry.logs.output.file]\npath = \"p\"")),
        DeclaredPaths { output_file: true, ..none }
    );
    assert_eq!(declared_paths(&toml_value("[telemetry.logs.output]\nfile = \"p\"")), none);
}

#[test]
fn defaults_fill_what_the_file_leaves_open() {
    let mut given = config();
    apply_path_defaults(
        &mut given,
        &text("/etc/wist-agentd/agentd.toml"),
        &toml_value("[paths]\nrun_dir = \"x\""),
        None,
    );
    assert_eq!(given.paths.root_dir, "/var/lib/wist-agentd");
    assert_eq!(given.paths.run_dir, "given-run");
    assert_eq!(given.paths.state_dir, "state");
    assert_eq!(given.paths.log_dir, "/var/log/wist-agentd");
    assert_eq!(given.logs.output.file_path, "/var/lib/wist-agentd/data/wist-records.ndjson");
    assert_eq!(given.logs.spool_dir, "state/spool/logs");

    let all = DeclaredPaths {
        root_dir: true,
        run_dir: true,
        state_dir: true,
        log_dir: true,
        output_file: true,
    };
    let mut declared = config();
    fill_path_defaults(&mut declared, &text("/etc/wist-agentd/agentd.toml"), all, None);
    assert_eq!(declared, config());
}

#[test]
fn local_configurations_keep_their_data_beside_them() {
    let path = text("/home/u/conf/agentd.toml");
    let mut given = config();
    apply_path_defaults(&mut given, &path, &toml_value(""), None);
    let done = resolve_paths(given, &path, false);
    assert_eq!(done.paths.root_dir, "/home/u/conf");
    assert_eq!(done.paths.run_dir, "/home/u/conf/run");
    assert_eq!(done.paths.state_dir, "/home/u/conf/state");
    assert_eq!(done.paths.log_dir, "/home/u/conf/log");
    assert_eq!(done.logs.output.file_path, "/home/u/conf/data/wist-records.ndjson");
    assert_eq!(done.logs.spool_dir, "/home/u/conf/state/spool/logs");
    assert_eq!(done.logs.file_inputs[0].path, "/home/u/logs/app.log");
}

#[test]
fn host_configurations_keep_their_data_apart() {
    let path = text("/etc/wist-agentd/agentd.toml");
    let mut given = config();
    apply_path_defaults(&mut given, &path, &toml_value(""), None);
    let done = resolve_paths(given, &path, false);
    assert_eq!(done.paths.root_dir, "/var/lib/wist-agentd");
    assert_eq!(done.paths.run_dir, "/var/lib/wist-agentd/run");
    assert_eq!(done.paths.state_dir, "/var/lib/wist-agentd/state");
    assert_eq!(done.paths.log_dir, "/var/log/wist-agentd");
    assert_eq!(done.logs.output.file_path, "/var/lib/wist-agentd/data/wist-records.ndjson");
}

#[test]
fn resolving_twice_changes_nothing() {
    let path = text("/c/agentd.toml");
    let once = resolve_paths(config(), &path, true);
    assert_eq!(once.paths.root_dir, "/c/given-root");
    assert_eq!(once.paths.run_dir, "/c/given-root/given-run");
    assert_eq!(once.paths.state_dir, "/given/state");
    assert_eq!(once.logs.file_inputs[0].path, "/c/logs/app.log");
    let again = resolve_paths(
        resolve_paths(config(), &path, true),
        &text("/elsewhere/agentd.toml"),
        false,
    );
    assert_eq!(again, once);
    assert_eq!(resolve_paths(config(), &text("agentd.toml"), true).paths.root_dir, "given-root");
    assert_eq!(resolve_paths(config(), &text("/"), true).paths.root_dir, "given-root");
}

#[test]
fn paths_are_made_absolute_in_normal_form() {
    for (base, raw, wanted) in [
        ("/a/b", "c", "/a/b/c"),
        ("/a/b", "../c", "/a/c"),
        ("/a/b", "/c/./d//e/", "/c/d/e"),
        ("/a", "../../../x", "/x"),
        ("/a", ".", "/a"),
        ("a/../..", "b", "b"),
        ("", "x/..", ""),
        ("/", "", "/"),
    ] {
        assert_eq!(absolutize(&text(base), raw), text(wanted), "{base} {raw}");
    }
}

#[test]
fn the_default_configuration_is_a_configuration() {
    let template = default_file_config_text();
    let value = toml_value(&template);
    assert_eq!(value.get("schema_version").and_then(|v| v.as_str()), Some("v1"));
    assert!(template.contains("in_memory_buffer_bytes = 1048576\n"));
    assert!(template.contains("# # log_dir = \"/var/log/wist-agentd\"\n"));
    assert_eq!(template.lines().count(), 118);
}

#[test]
fn a_declared_output_starts_at_the_configuration_file() {
    let path = text("/opt/conf/agentd.toml");
    let mut given = config();
    given.paths.root_dir = "/srv/data".to_string();
    given.logs.output.file_path = "out/r.ndjson".to_string();
    let raw = toml_value(
        "[paths]\nroot_dir = \"/srv/data\"\n[telemetry.logs.output.file]\npath = \"out/r.ndjson\"\n",
    );
    apply_path_defaults(&mut given, &path, &raw, None);
    let done = resolve_paths(given, &path, declared_paths(&raw).output_file);
    assert_eq!(done.paths.root_dir, "/srv/data");
    assert_eq!(done.paths.run_dir, "/srv/data/run");
    assert_eq!(done.logs.output.file_path, "/opt/conf/out/r.ndjson");
    assert_eq!(done.logs.spool_dir, "/srv/data/state/spool/logs");

    let mut absolute = config();
    absolute.logs.output.file_path = "/srv/./out/r.ndjson".to_string();
    assert_eq!(resolve_paths(absolute, &path, true).logs.output.file_path, "/srv/out/r.ndjson");
}

#[test]
fn an_undeclared_output_follows_the_declared_root() {
    let path = text("/opt/conf/agentd.toml");
    let raw = toml_value("[paths]\nroot_dir = \"/srv/data\"\n");
    let mut given = config();
    given.paths.root_dir = "/srv/data".to_string();
    apply_path_defaults(&mut given, &path, &raw, None);
    let done = resolve_paths(given, &path, declared_paths(&raw).output_file);
    assert_eq!(done.paths.root_dir, "/srv/data");
    assert_eq!(done.paths.state_dir, "/srv/data/state");
    assert_eq!(done.logs.output.file_path, "/srv/data/data/wist-records.ndjson");

    let raw = toml_value("[paths]\nroot_dir = \"data-root\"\n");
    let mut given = config();
    given.paths.root_dir = "data-root".to_string();
    apply_path_defaults(&mut given, &path, &raw, None);
    let done = resolve_paths(given, &path, declared_paths(&raw).output_file);
    assert_eq!(
        done.logs.output.file_path,
        "/opt/conf/data-root/data/wist-records.ndjson"
    );
}
