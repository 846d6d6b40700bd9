//! What the commands tell the user.
use crate::config::{SYSTEM_CONFIG_DIR, SYSTEM_LOG_DIR};
use crate::os_text::{display_text, opt_ref_bytes, OsText};
use crate::paths::{joined_path, parent_path};
use crate::text::text_eq;
use crate::text_laws::{holds_text, lemma_holds_between, starts_text};
use vstd::prelude::*;
use vstd::string::*;
use vstd::utf8::*;

verus! {

/// The name of a configuration directory where it cannot be told.
pub const CONFIG_DIR: &'static str = "wist-agentd";

/// How the program is used.
pub const USAGE: &'static str = r"Usage:
  wist-agentd [--config-dir <path>]
  wist-agentd help
  wist-agentd version
  wist-agentd init-config [--stdout] [--config-dir <path>]
  wist-agentd service <print|install|uninstall|status> [--system|--user] [--bin <path>] [--force] [--no-activate] [--config-dir <path>]
  wist-agentd service print --for <systemd|launchd>   (render for another platform)
  wist-agentd enroll [--token <token> | --token-stdin] [--config-dir <path>]

Commands:
  help                 Show this help message.
  version              Print the daemon version.
  init-config          Initialize config directory wist-agentd/ and write agentd.toml.
  init-config --stdout Print the default config template to stdout.
  service print        Print the systemd unit / launchd plist without touching the system.
  service install      Write the service definition and (unless --no-activate) load and start it.
  service uninstall    Stop the service and remove its definition.
  service status       Show definition / binary / config / lock / log status.
  enroll               Enroll with a one-time token; the token is never written to disk.

Service options (Linux uses systemd, macOS uses launchd):
  --system             Install for the whole host (default; /etc paths, root-owned).
  --user               Install for the current user (systemd --user / launchd LaunchAgent).
  --bin <path>         Installed path of the wist-agentd binary (default: current executable).
  --for <platform>     Only with `service print`: render systemd or launchd output.
  --force              Overwrite an existing service definition.
  --no-activate        Only write the definition; print the commands to load it yourself.
  --enrollment-token <token>  Only with `service install`: enroll first (token not persisted).

Enroll options:
  --token <token>      One-time enrollment token (visible in argv/ps for the run).
  --token-stdin        Read the token from stdin instead (recommended on shared hosts).

Options:
  --config-dir <path>  Use the specified config directory. Relative paths are resolved from the current working directory.
                       Default: /etc/wist-agentd.
";

/// How the program is used.
pub fn usage_message() -> (out: &'static str)
    ensures
        out@ == USAGE@,
{
    USAGE
}

/// The line that tells the version.
pub open spec fn version_line(version: Seq<char>) -> Seq<char> {
    "wist-agentd "@ + version
}

/// The line that tells the version.
pub fn version_message(version: &str) -> (out: String)
    ensures
        out@ == version_line(version@),
{
    let mut out = "wist-agentd ".to_string();
    out.append(version);
    out
}

/// The configuration directory that an argument means: a relative one is taken from the
/// working directory.
pub fn resolve_config_dir_arg(root: &OsText, path: &OsText) -> (dir: OsText)
    ensures
        dir@ == joined_path(root@, path@),
{
    if path.is_absolute() {
        path.clone()
    } else {
        root.join(path)
    }
}

/// The configuration directory where no argument gives one.
pub fn default_config_root() -> (dir: OsText)
    ensures
        dir@ == encode_utf8(SYSTEM_CONFIG_DIR@),
{
    OsText::from_text(SYSTEM_CONFIG_DIR)
}

/// The configuration directory of a command.
pub open spec fn config_root(root: Seq<u8>, config_dir: Option<Seq<u8>>) -> Seq<u8> {
    match config_dir {
        Some(path) => joined_path(root, path),
        None => encode_utf8(SYSTEM_CONFIG_DIR@),
    }
}

/// The configuration directory of a command.
pub fn config_root_for(root: &OsText, config_dir: Option<&OsText>) -> (dir: OsText)
    ensures
        dir@ == config_root(root@, opt_ref_bytes(config_dir)),
{
    match config_dir {
        Some(path) => resolve_config_dir_arg(root, path),
        None => default_config_root(),
    }
}

/// The name of the directory that a configuration file lies in.
pub open spec fn shown_config_dir(path: Seq<u8>) -> Seq<char> {
    match parent_path(path) {
        Some(dir) => display_text(dir),
        None => CONFIG_DIR@,
    }
}

/// What is added where data is kept apart from the configuration.
pub open spec fn data_note(config_dir: Seq<char>, data_root: Option<Seq<u8>>) -> Seq<char> {
    match data_root {
        Some(dir) => "\nconfig dir "@ + config_dir
            + " is the system location: data (run/state/spool + collected output data/) defaults to "@
            + display_text(dir) + ", logs to "@ + SYSTEM_LOG_DIR@
            + " (declare [paths] to override)"@,
        None => ""@,
    }
}

/// What initializing a configuration has done.
pub open spec fn init_message(path: Seq<u8>, created: bool, data_root: Option<Seq<u8>>) -> Seq<
    char,
> {
    let config_dir = shown_config_dir(path);
    if created {
        "initialized config directory "@ + config_dir + " and wrote config file "@ + display_text(
            path,
        ) + data_note(config_dir, data_root)
    } else {
        "config file already exists at "@ + display_text(path) + " (config directory: "@
            + config_dir + ")"@ + data_note(config_dir, data_root)
    }
}

/// Tells what initializing a configuration has done.
pub fn init_config_message(path: &OsText, created: bool, data_root: Option<&OsText>) -> (out:
    String)
    ensures
        out@ == init_message(path@, created, opt_ref_bytes(data_root)),
{
    let config_dir = match path.parent() {
        Some(dir) => dir.display(),
        None => CONFIG_DIR.to_string(),
    };
    let note = match data_root {
        Some(dir) => {
            let mut note = "\nconfig dir ".to_string();
            note.append(config_dir.as_str());
            note.append(
                " is the system location: data (run/state/spool + collected output data/) defaults to ",
            );
            note.append(dir.display().as_str());
            note.append(", logs to ");
            note.append(SYSTEM_LOG_DIR);
            note.append(" (declare [paths] to override)");
            note
        },
        None => "".to_string(),
    };
    if created {
        let mut out = "initialized config directory ".to_string();
        out.append(config_dir.as_str());
        out.append(" and wrote config file ");
        out.append(path.display().as_str());
        out.append(note.as_str());
        out
    } else {
        let mut out = "config file already exists at ".to_string();
        out.append(path.display().as_str());
        out.append(" (config directory: ");
        out.append(config_dir.as_str());
        out.append(")");
        out.append(note.as_str());
        out
    }
}

/// How the daemon works with a control plane.
pub open spec fn mode_word(managed: bool) -> Seq<char> {
    if managed {
        "managed"@
    } else {
        "standalone"@
    }
}

/// The line that a starting daemon prints.
pub open spec fn starting_line(
    version: Seq<char>,
    config_path: Seq<u8>,
    managed: bool,
    run_dir: Seq<u8>,
    state_dir: Seq<u8>,
    log_dir: Seq<u8>,
) -> Seq<char> {
    "wist-agentd "@ + version + " starting: config="@ + display_text(config_path) + " mode="@
        + mode_word(managed) + " run_dir="@ + display_text(run_dir) + " state_dir="@ + display_text(
        state_dir,
    ) + " log_dir="@ + display_text(log_dir)
}

/// The line that a starting daemon prints.
pub fn starting_message(
    version: &str,
    config_path: &OsText,
    managed: bool,
    run_dir: &OsText,
    state_dir: &OsText,
    log_dir: &OsText,
) -> (out: String)
    ensures
        out@ == starting_line(version@, config_path@, managed, run_dir@, state_dir@, log_dir@),
{
    let mut out = "wist-agentd ".to_string();
    out.append(version);
    out.append(" starting: config=");
    out.append(config_path.display().as_str());
    out.append(" mode=");
    out.append(
        if managed {
            "managed"
        } else {
            "standalone"
        },
    );
    out.append(" run_dir=");
    out.append(run_dir.display().as_str());
    out.append(" state_dir=");
    out.append(state_dir.display().as_str());
    out.append(" log_dir=");
    out.append(log_dir.display().as_str());
    out
}

/// Whether a setting asks for one round.
pub open spec fn asks_for_one_round(setting: Option<Seq<char>>) -> bool {
    match setting {
        Some(text) => text == "1"@,
        None => false,
    }
}

/// Whether the daemon is to end after one round, from the setting for it.
pub fn runs_once(setting: Option<&str>) -> (yes: bool)
    ensures
        yes == asks_for_one_round(
            match setting {
                Some(text) => Some(text@),
                None => None,
            },
        ),
{
    match setting {
        Some(text) => text_eq(text, "1"),
        None => false,
    }
}

/// One setting and no other asks for one round: the digit one alone.
pub proof fn law_one_setting_asks_for_one_round(setting: Option<Seq<char>>)
    ensures
        asks_for_one_round(setting) <==> (setting matches Some(text) && text.len() == 1 && text[0]
            == '1'),
{
    reveal_strlit("1");
    if let Some(text) = setting {
        if text.len() == 1 && text[0] == '1' {
            assert(text =~= "1"@);
        }
    }
}

/// What is said after a configuration was to be written names the file and its directory,
/// tells a file that was written from one that was there, and, exactly where data is kept
/// apart, names the places of data and logs.
#[verifier::rlimit(30)]
pub proof fn law_initializing_tells_what_it_did(
    path: Seq<u8>,
    created: bool,
    data_root: Option<Seq<u8>>,
)
    ensures
        ({
            let text = init_message(path, created, data_root);
            let plain = init_message(path, created, None);
            let dir = match parent_path(path) {
                Some(dir) => display_text(dir),
                None => "wist-agentd"@,
            };
            &&& holds_text(text, display_text(path))
            &&& holds_text(text, dir)
            &&& created ==> starts_text(
                text,
                "initialized config directory "@ + dir + " and wrote config file "@ + display_text(
                    path,
                ),
            )
            &&& !created ==> starts_text(
                text,
                "config file already exists at "@ + display_text(path) + " (config directory: "@
                    + dir + ")"@,
            )
            &&& starts_text(text, plain)
            &&& data_root is None ==> text == plain
            &&& data_root matches Some(root) ==> {
                let note = text.skip(plain.len() as int);
                &&& holds_text(note, "defaults to "@ + display_text(root) + ", logs to "@)
                &&& holds_text(note, ", logs to /var/log/wist-agentd ("@)
                &&& starts_text(note, "\nconfig dir "@ + dir)
            }
        }),
{
    reveal_strlit("");
    let none = Seq::<char>::empty();
    assert(""@ =~= none);
    let text = init_message(path, created, data_root);
    let plain = init_message(path, created, None);
    let dir = shown_config_dir(path);
    let file = display_text(path);
    let note = data_note(dir, data_root);
    let a = "initialized config directory "@;
    let b = " and wrote config file "@;
    let c = "config file already exists at "@;
    let d = " (config directory: "@;
    if created {
        let head = a + dir + b + file;
        assert(plain =~= head);
        assert(text =~= head + note);
        assert(text =~= a + dir + (b + file + note));
        lemma_holds_between(a, dir, b + file + note);
        assert(text =~= (a + dir + b) + file + note);
        lemma_holds_between(a + dir + b, file, note);
        assert(text.take(head.len() as int) =~= head);
    } else {
        let head = c + file + d + dir + ")"@;
        assert(plain =~= head);
        assert(text =~= head + note);
        assert(text =~= c + file + (d + dir + ")"@ + note));
        lemma_holds_between(c, file, d + dir + ")"@ + note);
        assert(text =~= (c + file + d) + dir + (")"@ + note));
        lemma_holds_between(c + file + d, dir, ")"@ + note);
        assert(text.take(head.len() as int) =~= head);
    }
    assert(text.take(plain.len() as int) =~= plain);
    assert(text.skip(plain.len() as int) =~= note);
    if let Some(root) = data_root {
        lemma_data_note(dir, root);
    }
}

proof fn lemma_note_literals()
    ensures
        " is the system location: data (run/state/spool + collected output data/) defaults to "@
            == " is the system location: data (run/state/spool + collected output data/) "@
            + "defaults to "@,
        " (declare [paths] to override)"@ == " ("@ + "declare [paths] to override)"@,
        ", logs to "@ + SYSTEM_LOG_DIR@ + " ("@ == ", logs to /var/log/wist-agentd ("@,
{
    reveal_strlit(
        " is the system location: data (run/state/spool + collected output data/) defaults to ",
    );
    reveal_strlit(" is the system location: data (run/state/spool + collected output data/) ");
    reveal_strlit("defaults to ");
    reveal_strlit(", logs to ");
    reveal_strlit("/var/log/wist-agentd");
    reveal_strlit(" (declare [paths] to override)");
    reveal_strlit(" (");
    reveal_strlit("declare [paths] to override)");
    reveal_strlit(", logs to /var/log/wist-agentd (");
    assert(" is the system location: data (run/state/spool + collected output data/) defaults to "@
        =~= " is the system location: data (run/state/spool + collected output data/) "@
        + "defaults to "@);
    assert(", logs to "@ + SYSTEM_LOG_DIR@ + " ("@ =~= ", logs to /var/log/wist-agentd ("@);
    assert(" (declare [paths] to override)"@ =~= " ("@ + "declare [paths] to override)"@);
}

proof fn lemma_data_note(dir: Seq<char>, root: Seq<u8>)
    ensures
        ({
            let note = data_note(dir, Some(root));
            &&& holds_text(note, "defaults to "@ + display_text(root) + ", logs to "@)
            &&& holds_text(note, ", logs to /var/log/wist-agentd ("@)
            &&& starts_text(note, "\nconfig dir "@ + dir)
        }),
{
    lemma_note_literals();
    let note = data_note(dir, Some(root));
    let shown = display_text(root);
    let head = "\nconfig dir "@ + dir;
    let short = " is the system location: data (run/state/spool + collected output data/) "@;
    let to = "defaults to "@;
    let logs = ", logs to "@;
    let end = " (declare [paths] to override)"@;
    let open = " ("@;
    let rest = "declare [paths] to override)"@;
    let own = SYSTEM_LOG_DIR@;
    assert(note =~= (head + short) + (to + shown + logs) + (own + end));
    lemma_holds_between(head + short, to + shown + logs, own + end);
    assert(note =~= (head + short + to + shown) + (logs + own + open) + rest);
    lemma_holds_between(head + short + to + shown, logs + own + open, rest);
    assert(note.take(head.len() as int) =~= head);
}

} // verus!
