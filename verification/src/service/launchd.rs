//! Rendering of launchd property lists.
//!
//! The job starts when it is loaded and again whenever it ended. Its output goes to
//! files. The environment of a launchd job is minimal, so the search path is given.
use crate::config::SYSTEM_LOG_DIR;
use crate::error::{AgentdError, AgentdErrorView};
use crate::os_text::{display_text, opt_ref_bytes, OsText};
use crate::paths::joined_path;
use crate::service::{
    below_home, home_dir, home_path, path_result, ServiceScope, ServiceSpec, ServiceSpecView,
    LAUNCHD_LABEL,
};
use crate::text::{concat_all, concat_map, concatenated, lemma_concat_map_step, texts};
use vstd::prelude::*;
use vstd::string::*;
use vstd::utf8::*;

verus! {

/// The directory of the property lists of the host.
pub const SYSTEM_PLIST_DIR: &'static str = "/Library/LaunchDaemons";

/// The directory of the property lists of a user, below the home directory.
pub const USER_PLIST_DIR: &'static str = "Library/LaunchAgents";

/// The name of the property list.
pub const PLIST_FILE_NAME: &'static str = "com.dayu-sec.wist-agentd.plist";

/// The directory of the output files of a user, below the home directory.
pub const USER_LOG_DIR: &'static str = "Library/Logs/wist-agentd";

/// The file that standard output goes to.
pub const STDOUT_FILE: &'static str = "agentd.out";

/// The file that standard error goes to.
pub const STDERR_FILE: &'static str = "agentd.err";

/// The property list of a scope.
pub open spec fn plist_file(scope: ServiceScope, home: Option<Seq<u8>>) -> Result<
    Seq<u8>,
    AgentdErrorView,
> {
    let name = encode_utf8(PLIST_FILE_NAME@);
    match scope {
        ServiceScope::System => Ok(joined_path(encode_utf8(SYSTEM_PLIST_DIR@), name)),
        ServiceScope::User => match below_home(home, encode_utf8(USER_PLIST_DIR@)) {
            Ok(dir) => Ok(joined_path(dir, name)),
            Err(e) => Err(e),
        },
    }
}

/// The property list of a scope.
pub fn plist_path(scope: ServiceScope, home: Option<&OsText>) -> (out: Result<OsText, AgentdError>)
    ensures
        path_result(out) == plist_file(scope, opt_ref_bytes(home)),
{
    let name = OsText::from_text(PLIST_FILE_NAME);
    match scope {
        ServiceScope::System => Ok(OsText::from_text(SYSTEM_PLIST_DIR).join(&name)),
        ServiceScope::User => match home_dir(home) {
            Ok(dir) => Ok(dir.join(&OsText::from_text(USER_PLIST_DIR)).join(&name)),
            Err(e) => Err(e),
        },
    }
}

/// The directory of the output files of a scope.
pub open spec fn log_directory(scope: ServiceScope, home: Option<Seq<u8>>) -> Result<
    Seq<u8>,
    AgentdErrorView,
> {
    match scope {
        ServiceScope::System => Ok(encode_utf8(SYSTEM_LOG_DIR@)),
        ServiceScope::User => below_home(home, encode_utf8(USER_LOG_DIR@)),
    }
}

/// The directory of the output files of a scope.
pub fn log_dir(scope: ServiceScope, home: Option<&OsText>) -> (out: Result<OsText, AgentdError>)
    ensures
        path_result(out) == log_directory(scope, opt_ref_bytes(home)),
{
    match scope {
        ServiceScope::System => Ok(OsText::from_text(SYSTEM_LOG_DIR)),
        ServiceScope::User => match home_dir(home) {
            Ok(dir) => Ok(dir.join(&OsText::from_text(USER_LOG_DIR))),
            Err(e) => Err(e),
        },
    }
}

/// A character in the text of an element.
pub open spec fn escaped_xml_char(c: char) -> Seq<char> {
    if c == '&' {
        "&amp;"@
    } else if c == '<' {
        "&lt;"@
    } else if c == '>' {
        "&gt;"@
    } else if c == '"' {
        "&quot;"@
    } else if c == '\'' {
        "&apos;"@
    } else {
        seq![c]
    }
}

/// A text in an element: the five characters of markup are written as entities.
pub open spec fn xml_text(s: Seq<char>) -> Seq<char> {
    concat_map(s, |c: char| escaped_xml_char(c))
}

/// Writes a text so that it can stand in an element.
pub fn escape_xml(value: &str) -> (out: String)
    ensures
        out@ == xml_text(value@),
{
    let ghost f = |c: char| escaped_xml_char(c);
    let mut out = String::new();
    for c in it: value.chars()
        invariant
            it.seq() == value@,
            f == (|c: char| escaped_xml_char(c)),
            out@ == concat_map(value@.take(it.index()), f),
    {
        let ghost before = out@;
        proof {
            lemma_concat_map_step(value@, f, it.index());
        }
        if c == '&' {
            out.append("&amp;");
        } else if c == '<' {
            out.append("&lt;");
        } else if c == '>' {
            out.append("&gt;");
        } else if c == '"' {
            out.append("&quot;");
        } else if c == '\'' {
            out.append("&apos;");
        } else {
            out.push(c);
            assert(out@ =~= before + seq![c]);
        }
        proof {
            assert(out@ =~= before + escaped_xml_char(c));
        }
    }
    proof {
        assert(value@.take(value@.len() as int) =~= value@);
    }
    out
}

/// A key of a dictionary with a text for its value.
pub open spec fn kv_element(key: Seq<char>, value: Seq<char>) -> Seq<char> {
    "  <key>"@ + xml_text(key) + "</key>\n  <string>"@ + xml_text(value) + "</string>\n"@
}

/// Writes a key of a dictionary with a text for its value.
pub fn kv_string(key: &str, value: &str) -> (out: String)
    ensures
        out@ == kv_element(key@, value@),
{
    let mut out = "  <key>".to_string();
    out.append(escape_xml(key).as_str());
    out.append("</key>\n  <string>");
    out.append(escape_xml(value).as_str());
    out.append("</string>\n");
    out
}

/// An item of a list of texts.
pub open spec fn list_item(value: Seq<char>) -> Seq<char> {
    "    <string>"@ + xml_text(value) + "</string>\n"@
}

fn list_item_text(value: &str) -> (out: String)
    ensures
        out@ == list_item(value@),
{
    let mut out = "    <string>".to_string();
    out.append(escape_xml(value).as_str());
    out.append("</string>\n");
    out
}

/// The directory that the job runs in: the home directory of a user where it is
/// known, and otherwise the root.
pub open spec fn working_dir(scope: ServiceScope, home: Option<Seq<u8>>) -> Seq<u8> {
    match (scope, home_path(home)) {
        (ServiceScope::User, Some(dir)) => dir,
        _ => encode_utf8("/"@),
    }
}

/// The directory of the output files: the given one, that of the scope, or `/tmp`
/// where the scope has none.
pub open spec fn output_dir(
    scope: ServiceScope,
    given: Option<Seq<u8>>,
    home: Option<Seq<u8>>,
) -> Seq<u8> {
    match given {
        Some(dir) => dir,
        None => match log_directory(scope, home) {
            Ok(dir) => dir,
            Err(_) => encode_utf8("/tmp"@),
        },
    }
}

/// The parts of a property list.
pub open spec fn plist_parts(
    spec: ServiceSpecView,
    log_dir: Option<Seq<u8>>,
    home: Option<Seq<u8>>,
) -> Seq<Seq<char>> {
    let dir = output_dir(spec.scope, log_dir, home);
    seq![
        "<?xml version=\"1.0\" encoding=\"UTF-8\"?>\n"@,
        "<!DOCTYPE plist PUBLIC \"-//Apple//DTD PLIST 1.0//EN\" \"http://www.apple.com/DTDs/PropertyList-1.0.dtd\">\n"@,
        "<plist version=\"1.0\">\n<dict>\n"@,
        kv_element("Label"@, LAUNCHD_LABEL@),
        "  <key>ProgramArguments</key>\n  <array>\n"@,
        list_item(display_text(spec.bin)),
        "    <string>--config-dir</string>\n"@,
        list_item(display_text(spec.config_dir)),
        "  </array>\n"@,
        "  <key>RunAtLoad</key>\n  <true/>\n"@,
        "  <key>KeepAlive</key>\n  <true/>\n"@,
        "  <key>ThrottleInterval</key>\n  <integer>10</integer>\n"@,
        "  <key>ExitTimeOut</key>\n  <integer>30</integer>\n"@,
        "  <key>ProcessType</key>\n  <string>Background</string>\n"@,
        kv_element("WorkingDirectory"@, display_text(working_dir(spec.scope, home))),
        kv_element(
            "StandardOutPath"@,
            display_text(joined_path(dir, encode_utf8(STDOUT_FILE@))),
        ),
        kv_element(
            "StandardErrorPath"@,
            display_text(joined_path(dir, encode_utf8(STDERR_FILE@))),
        ),
        "  <key>EnvironmentVariables</key>\n  <dict>\n"@,
        "    <key>PATH</key>\n"@,
        "    <string>/usr/local/bin:/usr/bin:/bin:/usr/sbin:/sbin</string>\n"@,
        "  </dict>\n"@,
        "</dict>\n</plist>\n"@,
    ]
}

/// The text of a property list.
pub open spec fn plist_definition(
    spec: ServiceSpecView,
    log_dir: Option<Seq<u8>>,
    home: Option<Seq<u8>>,
) -> Seq<char> {
    concatenated(plist_parts(spec, log_dir, home))
}

/// Renders a property list. Without a given directory the output goes to that of the
/// scope.
pub fn plist_text(
    spec: &ServiceSpec,
    log_dir_override: Option<&OsText>,
    home: Option<&OsText>,
) -> (text: String)
    ensures
        text@ == plist_definition(spec@, opt_ref_bytes(log_dir_override), opt_ref_bytes(home)),
{
    let working = match spec.scope {
        ServiceScope::System => OsText::from_text("/"),
        ServiceScope::User => match home_dir(home) {
            Ok(dir) => dir,
            Err(_) => OsText::from_text("/"),
        },
    };
    let dir = match log_dir_override {
        Some(dir) => dir.clone(),
        None => match log_dir(spec.scope, home) {
            Ok(dir) => dir,
            Err(_) => OsText::from_text("/tmp"),
        },
    };
    let stdout = dir.join(&OsText::from_text(STDOUT_FILE));
    let stderr = dir.join(&OsText::from_text(STDERR_FILE));
    let parts: Vec<String> = vec![
        "<?xml version=\"1.0\" encoding=\"UTF-8\"?>\n".to_string(),
        "<!DOCTYPE plist PUBLIC \"-//Apple//DTD PLIST 1.0//EN\" \"http://www.apple.com/DTDs/PropertyList-1.0.dtd\">\n".to_string(),
        "<plist version=\"1.0\">\n<dict>\n".to_string(),
        kv_string("Label", LAUNCHD_LABEL),
        "  <key>ProgramArguments</key>\n  <array>\n".to_string(),
        list_item_text(spec.bin.display().as_str()),
        "    <string>--config-dir</string>\n".to_string(),
        list_item_text(spec.config_dir.display().as_str()),
        "  </array>\n".to_string(),
        "  <key>RunAtLoad</key>\n  <true/>\n".to_string(),
        "  <key>KeepAlive</key>\n  <true/>\n".to_string(),
        "  <key>ThrottleInterval</key>\n  <integer>10</integer>\n".to_string(),
        "  <key>ExitTimeOut</key>\n  <integer>30</integer>\n".to_string(),
        "  <key>ProcessType</key>\n  <string>Background</string>\n".to_string(),
        kv_string("WorkingDirectory", working.display().as_str()),
        kv_string("StandardOutPath", stdout.display().as_str()),
        kv_string("StandardErrorPath", stderr.display().as_str()),
        "  <key>EnvironmentVariables</key>\n  <dict>\n".to_string(),
        "    <key>PATH</key>\n".to_string(),
        "    <string>/usr/local/bin:/usr/bin:/bin:/usr/sbin:/sbin</string>\n".to_string(),
        "  </dict>\n".to_string(),
        "</dict>\n</plist>\n".to_string(),
    ];
    proof {
        assert(texts(parts@) =~= plist_parts(
            spec@,
            opt_ref_bytes(log_dir_override),
            opt_ref_bytes(home),
        ));
    }
    concat_all(&parts)
}

} // verus!
