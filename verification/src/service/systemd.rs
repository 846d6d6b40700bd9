//! Rendering of systemd units.
//!
//! The unit runs the daemon in the foreground and starts it again whenever it ended.
//! The environment file may be missing. Stopping the unit stops the executor, too.
use crate::error::{AgentdError, AgentdErrorView};
use crate::os_text::{display_text, opt_ref_bytes, OsText};
use crate::paths::joined_path;
use crate::service::install::unrepresentable_path;
use crate::service::laws::{law_accepted_units_keep_their_lines, lemma_env_path_single_line};
use crate::service::{
    below_home, home_dir, path_result, ServiceScope, ServiceSpec, ServiceSpecView, SERVICE_NAME,
};
use crate::text::{
    ascii_alphanumeric, concat_map, end_lines, ended_lines, is_ascii_alphanumeric,
    lemma_concat_map_step, line_seq, texts,
};
use vstd::prelude::*;
use vstd::string::*;
use vstd::utf8::*;

verus! {

/// The directory of the units of the host.
pub const SYSTEM_UNIT_DIR: &'static str = "/etc/systemd/system";

/// The directory of the units of a user, below the home directory.
pub const USER_UNIT_DIR: &'static str = ".config/systemd/user";

/// The name of the unit file.
pub const UNIT_FILE_NAME: &'static str = "wist-agentd.service";

/// The unit file of a scope.
pub open spec fn unit_file(scope: ServiceScope, home: Option<Seq<u8>>) -> Result<
    Seq<u8>,
    AgentdErrorView,
> {
    let name = encode_utf8(UNIT_FILE_NAME@);
    match scope {
        ServiceScope::System => Ok(joined_path(encode_utf8(SYSTEM_UNIT_DIR@), name)),
        ServiceScope::User => match below_home(home, encode_utf8(USER_UNIT_DIR@)) {
            Ok(dir) => Ok(joined_path(dir, name)),
            Err(e) => Err(e),
        },
    }
}

/// The unit file of a scope.
pub fn unit_path(scope: ServiceScope, home: Option<&OsText>) -> (out: Result<OsText, AgentdError>)
    ensures
        path_result(out) == unit_file(scope, opt_ref_bytes(home)),
{
    let name = OsText::from_text(UNIT_FILE_NAME);
    match scope {
        ServiceScope::System => Ok(OsText::from_text(SYSTEM_UNIT_DIR).join(&name)),
        ServiceScope::User => match home_dir(home) {
            Ok(dir) => Ok(dir.join(&OsText::from_text(USER_UNIT_DIR)).join(&name)),
            Err(e) => Err(e),
        },
    }
}

/// A character that stands for itself in a directive of a unit.
pub open spec fn is_plain_unit_char(c: char) -> bool {
    is_ascii_alphanumeric(c) || c == '/' || c == '.' || c == '-' || c == '_' || c == ':' || c == '@'
        || c == '+' || c == '=' || c == ','
}

/// A text of characters that stand for themselves.
pub open spec fn is_plain_unit_text(s: Seq<char>) -> bool {
    forall|i: int| 0 <= i < s.len() ==> is_plain_unit_char(#[trigger] s[i])
}

/// A character inside a quoted argument: the quote and the backslash are escaped by a
/// backslash, and the marks of specifiers and variables are doubled.
pub open spec fn escaped_unit_char(c: char) -> Seq<char> {
    if c == '\\' {
        "\\\\"@
    } else if c == '"' {
        "\\\""@
    } else if c == '%' {
        "%%"@
    } else if c == '$' {
        "$$"@
    } else {
        seq![c]
    }
}

/// A text as one argument of a directive: as it is where every character stands for
/// itself, and otherwise in double quotes.
pub open spec fn unit_argument(s: Seq<char>) -> Seq<char> {
    if is_plain_unit_text(s) {
        s
    } else {
        seq!['"'] + concat_map(s, |c: char| escaped_unit_char(c)) + seq!['"']
    }
}

/// Writes a text as one argument of a directive.
pub fn systemd_arg(value: &str) -> (out: String)
    ensures
        out@ == unit_argument(value@),
{
    let mut plain = true;
    for c in it: value.chars()
        invariant
            it.seq() == value@,
            plain == (forall|j: int|
                0 <= j < it.index() ==> is_plain_unit_char(#[trigger] value@[j])),
    {
        let own = ascii_alphanumeric(c) || c == '/' || c == '.' || c == '-' || c == '_' || c == ':'
            || c == '@' || c == '+' || c == '=' || c == ',';
        proof {
            assert(value@[it.index()] == c);
        }
        if !own {
            plain = false;
        }
    }
    if plain {
        return value.to_string();
    }
    let ghost f = |c: char| escaped_unit_char(c);
    let mut quoted = String::new();
    quoted.push('"');
    assert(quoted@ =~= seq!['"'] + concat_map(value@.take(0), f));
    for c in it: value.chars()
        invariant
            it.seq() == value@,
            f == (|c: char| escaped_unit_char(c)),
            quoted@ == seq!['"'] + concat_map(value@.take(it.index()), f),
    {
        let ghost before = quoted@;
        proof {
            lemma_concat_map_step(value@, f, it.index());
        }
        if c == '\\' {
            quoted.append("\\\\");
        } else if c == '"' {
            quoted.append("\\\"");
        } else if c == '%' {
            quoted.append("%%");
        } else if c == '$' {
            quoted.append("$$");
        } else {
            quoted.push(c);
            assert(quoted@ =~= before + seq![c]);
        }
        proof {
            assert(quoted@ =~= before + escaped_unit_char(c));
            assert(quoted@ =~= seq!['"'] + concat_map(value@.take(it.index() + 1), f));
        }
    }
    proof {
        assert(value@.take(value@.len() as int) =~= value@);
    }
    let ghost body = quoted@;
    quoted.push('"');
    assert(quoted@ =~= body + seq!['"']);
    quoted
}

/// The target that pulls the unit in.
pub open spec fn wanted_by(scope: ServiceScope) -> Seq<char> {
    match scope {
        ServiceScope::System => "multi-user.target"@,
        ServiceScope::User => "default.target"@,
    }
}

/// The lines of a unit.
pub open spec fn unit_lines(spec: ServiceSpecView) -> Seq<Seq<char>> {
    seq![
        "[Unit]"@,
        "Description=wist agent daemon (edge controller)"@,
        "Documentation=https://github.com/dayu-sec/wist-agentd"@,
        "After=network-online.target"@,
        "Wants=network-online.target"@,
        "StartLimitIntervalSec=60"@,
        "StartLimitBurst=10"@,
        ""@,
        "[Service]"@,
        "Type=simple"@,
        "ExecStart="@ + unit_argument(display_text(spec.bin)) + " --config-dir "@ + unit_argument(
            display_text(spec.config_dir),
        ),
        "EnvironmentFile=-"@ + unit_argument(display_text(spec.env_path())),
        "Restart=always"@,
        "RestartSec=5"@,
        "KillSignal=SIGTERM"@,
        "KillMode=control-group"@,
        "TimeoutStopSec=30"@,
        "SyslogIdentifier="@ + SERVICE_NAME@,
        "StandardOutput=journal"@,
        "StandardError=journal"@,
        "LimitNOFILE=65536"@,
        "NoNewPrivileges=true"@,
        ""@,
        "[Install]"@,
        "WantedBy="@ + wanted_by(spec.scope),
    ]
}

/// The text of a unit.
pub open spec fn unit_definition(spec: ServiceSpecView) -> Seq<char> {
    ended_lines(unit_lines(spec))
}

/// Renders a unit. Every path in it is written as one argument. Where no path has a line
/// break, the unit has exactly the lines that were meant.
pub fn unit_text(spec: &ServiceSpec) -> (text: String)
    ensures
        text@ == unit_definition(spec@),
        unrepresentable_path(spec@) is None ==> line_seq(text@) == unit_lines(spec@),
{
    let mut exec_start = "ExecStart=".to_string();
    exec_start.append(systemd_arg(spec.bin.display().as_str()).as_str());
    exec_start.append(" --config-dir ");
    exec_start.append(systemd_arg(spec.config_dir.display().as_str()).as_str());
    let mut environment = "EnvironmentFile=-".to_string();
    environment.append(systemd_arg(spec.env_file().display().as_str()).as_str());
    let mut identifier = "SyslogIdentifier=".to_string();
    identifier.append(SERVICE_NAME);
    let mut wanted = "WantedBy=".to_string();
    wanted.append(
        match spec.scope {
            ServiceScope::System => "multi-user.target",
            ServiceScope::User => "default.target",
        },
    );
    // A second instance ends at once; the start limit keeps that from flooding the
    // journal.
    let lines: Vec<String> = vec![
        "[Unit]".to_string(),
        "Description=wist agent daemon (edge controller)".to_string(),
        "Documentation=https://github.com/dayu-sec/wist-agentd".to_string(),
        "After=network-online.target".to_string(),
        "Wants=network-online.target".to_string(),
        "StartLimitIntervalSec=60".to_string(),
        "StartLimitBurst=10".to_string(),
        "".to_string(),
        "[Service]".to_string(),
        "Type=simple".to_string(),
        exec_start,
        environment,
        "Restart=always".to_string(),
        "RestartSec=5".to_string(),
        "KillSignal=SIGTERM".to_string(),
        "KillMode=control-group".to_string(),
        "TimeoutStopSec=30".to_string(),
        identifier,
        "StandardOutput=journal".to_string(),
        "StandardError=journal".to_string(),
        "LimitNOFILE=65536".to_string(),
        "NoNewPrivileges=true".to_string(),
        "".to_string(),
        "[Install]".to_string(),
        wanted,
    ];
    proof {
        assert(texts(lines@) =~= unit_lines(spec@));
        if unrepresentable_path(spec@) is None {
            lemma_env_path_single_line(spec@);
            law_accepted_units_keep_their_lines(spec@);
        }
    }
    end_lines(&lines)
}

} // verus!
