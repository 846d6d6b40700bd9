//! Default directories and the resolution of paths.
//!
//! Where data lies follows from where the configuration lies. Below the configuration
//! directory of the host, data and logs go to the places of the host. Anywhere else
//! they stay beside the configuration.
use crate::config::model::{
    input_views, AgentConfig, AgentConfigView, LogFileInput, LogFileInputView, LogsOutputSection,
    LogsOutputSectionView, LogsSection, LogsSectionView, PathsSection, PathsSectionView,
};
use crate::config::{SYSTEM_CONFIG_DIR, SYSTEM_DATA_ROOT, SYSTEM_LOG_DIR};
use crate::os_text::{display_text, law_text_is_shown_as_itself, opt_ref_bytes, OsText};
use crate::paths::{
    is_below, is_rooted, joined_path, normalize_path, normalized, parent_path, SEPARATOR,
};
use crate::text::lemma_encode_concat;
use vstd::prelude::*;
use vstd::string::*;
use vstd::utf8::*;

verus! {

/// The directory of collected records, below the data.
pub const COLLECTED_OUTPUT_SUBDIR: &'static str = "data";

/// The file of collected records.
pub const COLLECTED_OUTPUT_FILE: &'static str = "wist-records.ndjson";

/// The directories that are used where the configuration names none.
#[derive(Debug, PartialEq, Eq)]
pub struct DefaultPaths {
    pub root_dir: String,
    pub run_dir: String,
    pub state_dir: String,
    pub log_dir: String,
}

impl View for DefaultPaths {
    type V = PathsSectionView;

    open spec fn view(&self) -> PathsSectionView {
        PathsSectionView {
            root_dir: self.root_dir@,
            run_dir: self.run_dir@,
            state_dir: self.state_dir@,
            log_dir: self.log_dir@,
        }
    }
}

/// Whether a configuration directory is that of the host or lies below it. A relative
/// one is taken from the working directory where that is known.
pub open spec fn is_system_dir(config_dir: Seq<u8>, cwd: Option<Seq<u8>>) -> bool {
    let absolute = match cwd {
        Some(dir) => joined_path(dir, config_dir),
        None => config_dir,
    };
    is_below(absolute, encode_utf8(SYSTEM_CONFIG_DIR@))
}

/// Whether a configuration directory is that of the host or lies below it.
pub fn is_system_config_dir(config_dir: &OsText, cwd: Option<&OsText>) -> (yes: bool)
    ensures
        yes == is_system_dir(config_dir@, opt_ref_bytes(cwd)),
{
    let absolute = if config_dir.is_absolute() {
        config_dir.clone()
    } else {
        match cwd {
            Some(dir) => dir.join(config_dir),
            None => config_dir.clone(),
        }
    };
    absolute.starts_with(&OsText::from_text(SYSTEM_CONFIG_DIR))
}

/// The directories that are used where the configuration names none.
pub open spec fn default_dirs(system: bool) -> PathsSectionView {
    PathsSectionView {
        root_dir: if system {
            SYSTEM_DATA_ROOT@
        } else {
            "."@
        },
        run_dir: "run"@,
        state_dir: "state"@,
        log_dir: if system {
            SYSTEM_LOG_DIR@
        } else {
            "log"@
        },
    }
}

/// The directories that are used where the configuration names none.
pub fn default_paths_for(config_dir: &OsText, cwd: Option<&OsText>) -> (paths: DefaultPaths)
    ensures
        paths@ == default_dirs(is_system_dir(config_dir@, opt_ref_bytes(cwd))),
{
    if is_system_config_dir(config_dir, cwd) {
        DefaultPaths {
            root_dir: SYSTEM_DATA_ROOT.to_string(),
            run_dir: "run".to_string(),
            state_dir: "state".to_string(),
            log_dir: SYSTEM_LOG_DIR.to_string(),
        }
    } else {
        DefaultPaths {
            root_dir: ".".to_string(),
            run_dir: "run".to_string(),
            state_dir: "state".to_string(),
            log_dir: "log".to_string(),
        }
    }
}

/// The file of collected records, from the directory that it is kept below.
pub open spec fn relative_output() -> Seq<char> {
    COLLECTED_OUTPUT_SUBDIR@ + "/"@ + COLLECTED_OUTPUT_FILE@
}

/// The file of collected records that is used where the configuration names none: below
/// the data of the host, or, as a relative path, below the root directory.
pub open spec fn default_output(system: bool) -> Seq<char> {
    if system {
        SYSTEM_DATA_ROOT@ + "/"@ + relative_output()
    } else {
        relative_output()
    }
}

/// The file of collected records of the host lies below its data.
pub proof fn lemma_default_output()
    ensures
        encode_utf8(default_output(true)) == joined_path(
            encode_utf8(SYSTEM_DATA_ROOT@),
            encode_utf8(relative_output()),
        ),
{
    let base = SYSTEM_DATA_ROOT@;
    let slash = "/"@;
    let relative = relative_output();
    reveal_strlit("/var/lib/wist-agentd");
    reveal_strlit("/");
    reveal_strlit("data");
    reveal_strlit("wist-records.ndjson");
    is_ascii_chars_encode_utf8(base);
    is_ascii_chars_encode_utf8(slash);
    is_ascii_chars_encode_utf8(relative);
    assert(encode_utf8(slash) =~= seq![SEPARATOR]);
    assert(relative[0] == 'd');
    assert(!is_rooted(encode_utf8(relative)));
    assert(encode_utf8(base).last() == base.last() as u8);
    lemma_encode_concat(base, slash);
    lemma_encode_concat(base + slash, relative);
    assert(encode_utf8(base).push(SEPARATOR) =~= encode_utf8(base) + seq![SEPARATOR]);
    assert(base + slash + relative =~= default_output(true));
}

/// The file of collected records that is used where the configuration names none.
pub fn collected_output_default(system: bool) -> (path: String)
    ensures
        path@ == default_output(system),
{
    let mut relative = COLLECTED_OUTPUT_SUBDIR.to_string();
    relative.append("/");
    relative.append(COLLECTED_OUTPUT_FILE);
    if !system {
        return relative;
    }
    proof {
        lemma_default_output();
        law_text_is_shown_as_itself(default_output(true));
    }
    OsText::from_text(SYSTEM_DATA_ROOT).join(&OsText::from_text(relative.as_str())).display()
}

/// Which of the paths a configuration file names.
#[derive(Debug, Clone, Copy, PartialEq, Eq, Structural)]
pub struct DeclaredPaths {
    pub root_dir: bool,
    pub run_dir: bool,
    pub state_dir: bool,
    pub log_dir: bool,
    pub output_file: bool,
}

/// The directory that a configuration file lies in.
pub open spec fn config_dir_of(config_path: Seq<u8>) -> Seq<u8> {
    match parent_path(config_path) {
        Some(dir) => dir,
        None => encode_utf8("."@),
    }
}

/// The directory that a configuration file lies in.
pub fn config_dir_for(config_path: &OsText) -> (dir: OsText)
    ensures
        dir@ == config_dir_of(config_path@),
{
    match config_path.parent() {
        Some(dir) => dir,
        None => OsText::from_text("."),
    }
}

/// A configuration with defaults for the paths that its file does not name. What the
/// file names stays as it is.
pub open spec fn with_path_defaults(
    config: AgentConfigView,
    system: bool,
    declared: DeclaredPaths,
) -> AgentConfigView {
    let dirs = default_dirs(system);
    AgentConfigView {
        paths: PathsSectionView {
            root_dir: if declared.root_dir {
                config.paths.root_dir
            } else {
                dirs.root_dir
            },
            run_dir: if declared.run_dir {
                config.paths.run_dir
            } else {
                dirs.run_dir
            },
            state_dir: if declared.state_dir {
                config.paths.state_dir
            } else {
                dirs.state_dir
            },
            log_dir: if declared.log_dir {
                config.paths.log_dir
            } else {
                dirs.log_dir
            },
        },
        logs: LogsSectionView {
            output: LogsOutputSectionView {
                file_path: if declared.output_file {
                    config.logs.output.file_path
                } else {
                    default_output(system)
                },
                ..config.logs.output
            },
            ..config.logs
        },
        ..config
    }
}

/// A configuration with defaults for the paths that its file does not name, from where the
/// file lies.
pub open spec fn filled_config(
    config: AgentConfigView,
    config_path: Seq<u8>,
    declared: DeclaredPaths,
    cwd: Option<Seq<u8>>,
) -> AgentConfigView {
    with_path_defaults(config, is_system_dir(config_dir_of(config_path), cwd), declared)
}

/// Fills in defaults for the paths that a configuration file does not name.
pub fn fill_path_defaults(
    config: &mut AgentConfig,
    config_path: &OsText,
    declared: DeclaredPaths,
    cwd: Option<&OsText>,
)
    ensures
        final(config)@ == filled_config(
            old(config)@,
            config_path@,
            declared,
            opt_ref_bytes(cwd),
        ),
{
    let config_dir = config_dir_for(config_path);
    let system = is_system_config_dir(&config_dir, cwd);
    let defaults = default_paths_for(&config_dir, cwd);
    if !declared.root_dir {
        config.paths.root_dir = defaults.root_dir;
    }
    if !declared.run_dir {
        config.paths.run_dir = defaults.run_dir;
    }
    if !declared.state_dir {
        config.paths.state_dir = defaults.state_dir;
    }
    if !declared.log_dir {
        config.paths.log_dir = defaults.log_dir;
    }
    if !declared.output_file {
        config.logs.output.file_path = collected_output_default(system);
    }
}

/// A TOML value as the `toml` crate reads it.
#[verifier::external_type_specification]
#[verifier::external_body]
pub struct ExTomlValue(toml::Value);

/// The ways through nested tables that a TOML value has: each is a list of keys, of
/// which the first is looked up in the value and each further one in what the one
/// before it led to.
pub uninterp spec fn toml_key_paths(value: toml::Value) -> Set<Seq<Seq<char>>>;

/// Calls `toml::Value::get` with a text for its index. It gives the value of that key
/// where the value is a table that has the key, and nothing otherwise: the ways through
/// what it gives are those that start with the key, without it.
#[verifier::external_body]
fn toml_get<'a>(value: &'a toml::Value, key: &str) -> (found: Option<&'a toml::Value>)
    ensures
        match found {
            Some(inner) => toml_key_paths(*value).contains(seq![key@]) && forall|way: Seq<Seq<char>>|
                #![trigger toml_key_paths(*inner).contains(way)]
                toml_key_paths(*inner).contains(way) == toml_key_paths(*value).contains(
                    seq![key@] + way,
                ),
            None => forall|way: Seq<Seq<char>>|
                !(#[trigger] toml_key_paths(*value).contains(seq![key@] + way)),
        },
{
    value.get(key)
}

/// Which of the paths a TOML value names.
pub open spec fn declared_in(raw: toml::Value) -> DeclaredPaths {
    let ways = toml_key_paths(raw);
    DeclaredPaths {
        root_dir: ways.contains(seq!["paths"@, "root_dir"@]),
        run_dir: ways.contains(seq!["paths"@, "run_dir"@]),
        state_dir: ways.contains(seq!["paths"@, "state_dir"@]),
        log_dir: ways.contains(seq!["paths"@, "log_dir"@]),
        output_file: ways.contains(seq!["telemetry"@, "logs"@, "output"@, "file"@, "path"@]),
    }
}

/// Whether a key leads to a value.
fn toml_has(value: &toml::Value, key: &str) -> (yes: bool)
    ensures
        yes == toml_key_paths(*value).contains(seq![key@]),
{
    let found = toml_get(value, key);
    proof {
        assert(seq![key@] + Seq::<Seq<char>>::empty() =~= seq![key@]);
        if found is None {
            assert(!toml_key_paths(*value).contains(seq![key@] + Seq::<Seq<char>>::empty()));
        }
    }
    found.is_some()
}

/// Whether a key of a table of the file leads to a value.
fn toml_has_in(value: &toml::Value, table: &str, key: &str) -> (yes: bool)
    ensures
        yes == toml_key_paths(*value).contains(seq![table@, key@]),
{
    proof {
        assert(seq![table@] + seq![key@] =~= seq![table@, key@]);
    }
    match toml_get(value, table) {
        Some(inner) => toml_has(inner, key),
        None => {
            assert(!toml_key_paths(*value).contains(seq![table@] + seq![key@]));
            false
        },
    }
}

/// Finds out which of the paths a TOML value names.
pub fn declared_paths(raw: &toml::Value) -> (declared: DeclaredPaths)
    ensures
        declared == declared_in(*raw),
{
    let ghost last = seq!["path"@];
    let ghost file = seq!["file"@, "path"@];
    let ghost output = seq!["output"@, "file"@, "path"@];
    let ghost logs = seq!["logs"@, "output"@, "file"@, "path"@];
    let ghost whole = seq!["telemetry"@, "logs"@, "output"@, "file"@, "path"@];
    proof {
        assert(seq!["telemetry"@] + logs =~= whole);
        assert(seq!["logs"@] + output =~= logs);
        assert(seq!["output"@] + file =~= output);
    }
    let output_file = match toml_get(raw, "telemetry") {
        Some(telemetry) => match toml_get(telemetry, "logs") {
            Some(found) => {
                assert(toml_key_paths(*telemetry).contains(logs) == toml_key_paths(*raw).contains(
                    whole,
                ));
                match toml_get(found, "output") {
                    Some(inner) => {
                        assert(toml_key_paths(*found).contains(output) == toml_key_paths(
                            *telemetry,
                        ).contains(logs));
                        assert(toml_key_paths(*inner).contains(file) == toml_key_paths(
                            *found,
                        ).contains(output));
                        toml_has_in(inner, "file", "path")
                    },
                    None => {
                        assert(toml_key_paths(*found).contains(output) == toml_key_paths(
                            *telemetry,
                        ).contains(logs));
                        assert(!toml_key_paths(*found).contains(seq!["output"@] + file));
                        false
                    },
                }
            },
            None => {
                assert(toml_key_paths(*telemetry).contains(logs) == toml_key_paths(*raw).contains(
                    whole,
                ));
                assert(!toml_key_paths(*telemetry).contains(seq!["logs"@] + output));
                false
            },
        },
        None => {
            assert(!toml_key_paths(*raw).contains(seq!["telemetry"@] + logs));
            false
        },
    };
    DeclaredPaths {
        root_dir: toml_has_in(raw, "paths", "root_dir"),
        run_dir: toml_has_in(raw, "paths", "run_dir"),
        state_dir: toml_has_in(raw, "paths", "state_dir"),
        log_dir: toml_has_in(raw, "paths", "log_dir"),
        output_file,
    }
}

/// Fills in defaults for the paths that a configuration file does not name. `raw` is the
/// file as it was read.
pub fn apply_path_defaults(
    config: &mut AgentConfig,
    config_path: &OsText,
    raw: &toml::Value,
    cwd: Option<&OsText>,
)
    ensures
        final(config)@ == filled_config(
            old(config)@,
            config_path@,
            declared_in(*raw),
            opt_ref_bytes(cwd),
        ),
{
    let declared = declared_paths(raw);
    fill_path_defaults(config, config_path, declared, cwd)
}

/// A path from a configuration, taken from a base where it is relative, in its normal
/// form.
pub open spec fn absolutized(base: Seq<u8>, raw: Seq<char>) -> Seq<u8> {
    normalized(joined_path(base, encode_utf8(raw)))
}

/// A path from a configuration, taken from a base where it is relative, in its normal
/// form.
pub fn absolutize(base: &OsText, raw: &str) -> (path: OsText)
    ensures
        path@ == absolutized(base@, raw@),
{
    normalize_path(&base.join(&OsText::from_text(raw)))
}

/// The text of such a path.
pub open spec fn absolutized_text(base: Seq<u8>, raw: Seq<char>) -> Seq<char> {
    display_text(absolutized(base, raw))
}

fn absolutize_text(base: &OsText, raw: &str) -> (text: String)
    ensures
        text@ == absolutized_text(base@, raw@),
{
    absolutize(base, raw).display()
}

/// The root directory of a configuration.
pub open spec fn root_of(config: AgentConfigView, config_path: Seq<u8>) -> Seq<u8> {
    absolutized(config_dir_of(config_path), config.paths.root_dir)
}

/// The file of collected records of a configuration. One that the configuration file names
/// is taken from the directory of that file, and the default from the root directory:
/// records are data.
pub open spec fn output_of(
    config: AgentConfigView,
    config_path: Seq<u8>,
    output_declared: bool,
) -> Seq<u8> {
    absolutized(
        if output_declared {
            config_dir_of(config_path)
        } else {
            root_of(config, config_path)
        },
        config.logs.output.file_path,
    )
}

/// A configuration with its paths resolved: the root directory, and a file of collected
/// records that the configuration file names, from the directory of that file, and all
/// others from the root directory.
pub open spec fn with_resolved_paths(
    config: AgentConfigView,
    config_path: Seq<u8>,
    output_declared: bool,
) -> AgentConfigView {
    let root = root_of(config, config_path);
    AgentConfigView {
        paths: PathsSectionView {
            root_dir: display_text(root),
            run_dir: absolutized_text(root, config.paths.run_dir),
            state_dir: absolutized_text(root, config.paths.state_dir),
            log_dir: absolutized_text(root, config.paths.log_dir),
        },
        logs: LogsSectionView {
            spool_dir: absolutized_text(root, config.logs.spool_dir),
            output: LogsOutputSectionView {
                file_path: display_text(output_of(config, config_path, output_declared)),
                ..config.logs.output
            },
            file_inputs: config.logs.file_inputs.map_values(
                |i: LogFileInputView| LogFileInputView { path: absolutized_text(root, i.path), ..i },
            ),
        },
        ..config
    }
}

/// Resolves the paths of a configuration. `output_declared` says whether the configuration
/// file names the file of collected records.
pub fn resolve_paths(config: AgentConfig, config_path: &OsText, output_declared: bool) -> (out:
    AgentConfig)
    ensures
        out@ == with_resolved_paths(config@, config_path@, output_declared),
{
    let config_dir = config_dir_for(config_path);
    let root = absolutize(&config_dir, config.paths.root_dir.as_str());
    let ghost f = |i: LogFileInputView| LogFileInputView {
        path: absolutized_text(root@, i.path),
        ..i
    };
    let ghost wanted = config@.logs.file_inputs.map_values(f);
    let given = config.logs.file_inputs;
    let mut file_inputs: Vec<LogFileInput> = Vec::new();
    for i in 0..given.len()
        invariant
            f == (|i: LogFileInputView| LogFileInputView {
                path: absolutized_text(root@, i.path),
                ..i
            }),
            wanted == input_views(given@).map_values(f),
            input_views(file_inputs@) == wanted.take(i as int),
    {
        let ghost before = input_views(file_inputs@);
        let input = LogFileInput {
            input_id: given[i].input_id.as_str().to_string(),
            path: absolutize_text(&root, given[i].path.as_str()),
            startup_position: given[i].startup_position.as_str().to_string(),
            multiline_mode: given[i].multiline_mode.as_str().to_string(),
        };
        let ghost shown = input@;
        file_inputs.push(input);
        proof {
            assert(input_views(given@)[i as int] == given@[i as int]@);
            assert(shown == wanted[i as int]);
            assert(input_views(file_inputs@) =~= before.push(shown));
            assert(input_views(file_inputs@) =~= wanted.take(i + 1));
        }
    }
    proof {
        assert(wanted.take(wanted.len() as int) =~= wanted);
    }
    let file_path = absolutize_text(
        if output_declared {
            &config_dir
        } else {
            &root
        },
        config.logs.output.file_path.as_str(),
    );
    AgentConfig {
        agent: config.agent,
        control_plane: config.control_plane,
        paths: PathsSection {
            run_dir: absolutize_text(&root, config.paths.run_dir.as_str()),
            state_dir: absolutize_text(&root, config.paths.state_dir.as_str()),
            log_dir: absolutize_text(&root, config.paths.log_dir.as_str()),
            root_dir: root.display(),
        },
        logs: LogsSection {
            spool_dir: absolutize_text(&root, config.logs.spool_dir.as_str()),
            output: LogsOutputSection {
                kind: config.logs.output.kind,
                file_path,
                tcp_addr: config.logs.output.tcp_addr,
                tcp_framing: config.logs.output.tcp_framing,
            },
            file_inputs,
        },
    }
}

} // verus!
