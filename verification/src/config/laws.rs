//! What holds of every configuration.
use crate::config::defaults::{
    absolutized, absolutized_text, config_dir_of, default_output, lemma_default_output, output_of,
    relative_output, root_of, with_path_defaults, with_resolved_paths, DeclaredPaths,
    COLLECTED_OUTPUT_FILE, COLLECTED_OUTPUT_SUBDIR,
};
use crate::config::env::first_open;
use crate::config::model::{
    expander, first_missing, inputs_mapped, inputs_texts, AgentConfigView, LogFileInputView,
};
use crate::config::{SYSTEM_DATA_ROOT, SYSTEM_LOG_DIR};
use crate::os_text::{display_text, lemma_is_text};
use crate::path_laws::{
    is_plain_relative, law_dot_stays, law_join_keeps_utf8, law_normal_form_keeps_utf8,
    law_paths_of_names_are_normal, law_plain_relative_paths_stay_below,
};
use crate::paths::{
    components, glued, is_below, is_plain_name, is_rooted, joined_path, law_join_keeps_the_root,
    law_normal_form_is_plain, law_normalize_is_idempotent, law_path_of_names_has_those_names,
    name_components, normalized, path_of_names, plain_names, Component, DOT, SEPARATOR,
};
use crate::text::lemma_encode_concat;
use vstd::prelude::*;
use vstd::string::*;
use vstd::utf8::*;

verus! {

/// An absolute path in its normal form: the root and then names only, no `.` and no `..`.
pub open spec fn is_settled_path(path: Seq<u8>) -> bool {
    &&& is_rooted(path)
    &&& normalized(path) == path
    &&& forall|i: int|
        0 < i < components(path).len() ==> #[trigger] components(path)[i] is Normal
}

proof fn lemma_absolutized_settles(base: Seq<u8>, raw: Seq<char>)
    requires
        is_rooted(base),
    ensures
        is_settled_path(absolutized(base, raw)),
{
    let whole = joined_path(base, encode_utf8(raw));
    law_join_keeps_the_root(base, encode_utf8(raw));
    law_normal_form_is_plain(whole);
    law_normalize_is_idempotent(whole);
}

/// Whatever a configuration names, its root directory, its file of collected records and
/// every path taken from the root directory are absolute and in their normal form, where
/// the file lies in an absolute directory.
pub proof fn law_resolved_paths_are_absolute(
    config: AgentConfigView,
    config_path: Seq<u8>,
    output_declared: bool,
    raw: Seq<char>,
)
    requires
        is_rooted(config_dir_of(config_path)),
    ensures
        is_settled_path(root_of(config, config_path)),
        is_settled_path(output_of(config, config_path, output_declared)),
        is_settled_path(absolutized(root_of(config, config_path), raw)),
{
    let dir = config_dir_of(config_path);
    let root = root_of(config, config_path);
    lemma_absolutized_settles(dir, config.paths.root_dir);
    lemma_absolutized_settles(dir, config.logs.output.file_path);
    lemma_absolutized_settles(root, config.logs.output.file_path);
    lemma_absolutized_settles(root, raw);
}

/// An absolute path in its normal form that is UTF-8 resolves to itself from anywhere.
proof fn lemma_settled_path_stays(path: Seq<u8>, base: Seq<u8>)
    requires
        is_rooted(path),
        valid_utf8(path),
        normalized(path) == path,
    ensures
        absolutized(base, display_text(path)) == path,
        absolutized_text(base, display_text(path)) == display_text(path),
{
    lemma_is_text(path, display_text(path));
}

/// A path that is taken from a base in UTF-8 is UTF-8, so that its text is the path.
proof fn lemma_absolutized_text(base: Seq<u8>, raw: Seq<char>)
    requires
        valid_utf8(base),
    ensures
        valid_utf8(absolutized(base, raw)),
        encode_utf8(absolutized_text(base, raw)) == absolutized(base, raw),
{
    let path = encode_utf8(raw);
    encode_utf8_valid_utf8(raw);
    law_join_keeps_utf8(base, path);
    law_normal_form_keeps_utf8(joined_path(base, path));
    lemma_is_text(absolutized(base, raw), absolutized_text(base, raw));
}

/// Every path that a resolved configuration names is absolute and in its normal form. The
/// file lies in an absolute directory that is UTF-8.
pub proof fn law_resolved_configurations_name_settled_paths(
    config: AgentConfigView,
    config_path: Seq<u8>,
    output_declared: bool,
)
    requires
        valid_utf8(config_dir_of(config_path)),
        is_rooted(config_dir_of(config_path)),
    ensures
        ({
            let resolved = with_resolved_paths(config, config_path, output_declared);
            &&& is_settled_path(encode_utf8(resolved.paths.root_dir))
            &&& is_settled_path(encode_utf8(resolved.paths.run_dir))
            &&& is_settled_path(encode_utf8(resolved.paths.state_dir))
            &&& is_settled_path(encode_utf8(resolved.paths.log_dir))
            &&& is_settled_path(encode_utf8(resolved.logs.spool_dir))
            &&& is_settled_path(encode_utf8(resolved.logs.output.file_path))
            &&& forall|i: int|
                0 <= i < resolved.logs.file_inputs.len() ==> is_settled_path(
                    encode_utf8(#[trigger] resolved.logs.file_inputs[i].path),
                )
        }),
{
    let dir = config_dir_of(config_path);
    let root = root_of(config, config_path);
    lemma_absolutized_text(dir, config.paths.root_dir);
    lemma_absolutized_text(dir, config.logs.output.file_path);
    lemma_absolutized_settles(dir, config.paths.root_dir);
    lemma_absolutized_settles(dir, config.logs.output.file_path);
    assert forall|raw: Seq<char>| is_settled_path(
        encode_utf8(#[trigger] absolutized_text(root, raw)),
    ) by {
        lemma_absolutized_text(root, raw);
        lemma_absolutized_settles(root, raw);
    }
    assert(is_settled_path(encode_utf8(absolutized_text(root, config.logs.output.file_path))));
    let resolved = with_resolved_paths(config, config_path, output_declared);
    assert forall|i: int| 0 <= i < resolved.logs.file_inputs.len() implies is_settled_path(
        encode_utf8(#[trigger] resolved.logs.file_inputs[i].path),
    ) by {
        assert(resolved.logs.file_inputs[i].path == absolutized_text(
            root,
            config.logs.file_inputs[i].path,
        ));
    }
}

/// Where relative paths start: the root directory, and a file of collected records that the
/// configuration file names, at the directory of that file, everything else at the resolved
/// root directory. The inputs keep their number, their order and whatever else they hold, and nothing else
/// of the configuration changes. The directory of the file is UTF-8.
pub proof fn law_relative_paths_start_where_they_belong(
    config: AgentConfigView,
    config_path: Seq<u8>,
    output_declared: bool,
)
    requires
        valid_utf8(config_dir_of(config_path)),
    ensures
        ({
            let dir = config_dir_of(config_path);
            let resolved = with_resolved_paths(config, config_path, output_declared);
            let root = encode_utf8(resolved.paths.root_dir);
            &&& resolved.paths.root_dir == absolutized_text(dir, config.paths.root_dir)
            &&& resolved.logs.output.file_path == absolutized_text(
                if output_declared {
                    dir
                } else {
                    root
                },
                config.logs.output.file_path,
            )
            &&& resolved.paths.run_dir == absolutized_text(root, config.paths.run_dir)
            &&& resolved.paths.state_dir == absolutized_text(root, config.paths.state_dir)
            &&& resolved.paths.log_dir == absolutized_text(root, config.paths.log_dir)
            &&& resolved.logs.spool_dir == absolutized_text(root, config.logs.spool_dir)
            &&& resolved.logs.file_inputs.len() == config.logs.file_inputs.len()
            &&& forall|i: int|
                0 <= i < config.logs.file_inputs.len() ==> #[trigger] resolved.logs.file_inputs[i]
                    == (LogFileInputView {
                    path: absolutized_text(root, config.logs.file_inputs[i].path),
                    ..config.logs.file_inputs[i]
                })
            &&& resolved.agent == config.agent
            &&& resolved.control_plane == config.control_plane
            &&& resolved.logs.output.kind == config.logs.output.kind
            &&& resolved.logs.output.tcp_addr == config.logs.output.tcp_addr
            &&& resolved.logs.output.tcp_framing == config.logs.output.tcp_framing
        }),
{
    lemma_absolutized_text(config_dir_of(config_path), config.paths.root_dir);
}

/// Resolving the paths of a configuration a second time changes nothing, wherever the
/// file is then said to lie and whatever it is said to name. The file lies in an absolute directory that is UTF-8.
pub proof fn law_resolving_is_final(
    config: AgentConfigView,
    config_path: Seq<u8>,
    output_declared: bool,
    other_path: Seq<u8>,
    other_declared: bool,
)
    requires
        valid_utf8(config_dir_of(config_path)),
        is_rooted(config_dir_of(config_path)),
    ensures
        with_resolved_paths(
            with_resolved_paths(config, config_path, output_declared),
            other_path,
            other_declared,
        ) == with_resolved_paths(config, config_path, output_declared),
{
    let dir = config_dir_of(config_path);
    let once = with_resolved_paths(config, config_path, output_declared);
    let root = root_of(config, config_path);
    lemma_absolutized_text(dir, config.paths.root_dir);
    lemma_absolutized_settles(dir, config.paths.root_dir);
    lemma_settled_path_stays(root, config_dir_of(other_path));
    assert(root_of(once, other_path) == root);
    let output = output_of(config, config_path, output_declared);
    lemma_absolutized_text(dir, config.logs.output.file_path);
    lemma_absolutized_settles(dir, config.logs.output.file_path);
    lemma_absolutized_text(root, config.logs.output.file_path);
    lemma_absolutized_settles(root, config.logs.output.file_path);
    lemma_settled_path_stays(output, config_dir_of(other_path));
    lemma_settled_path_stays(output, root);
    assert forall|raw: Seq<char>| absolutized_text(root, #[trigger] absolutized_text(root, raw))
        == absolutized_text(root, raw) by {
        lemma_absolutized_text(root, raw);
        lemma_absolutized_settles(root, raw);
        lemma_settled_path_stays(absolutized(root, raw), root);
    }
    let twice = with_resolved_paths(once, other_path, other_declared);
    assert(twice.logs.file_inputs =~= once.logs.file_inputs) by {
        assert forall|i: int| 0 <= i < once.logs.file_inputs.len() implies
            #[trigger] twice.logs.file_inputs[i] == once.logs.file_inputs[i] by {
            let raw = config.logs.file_inputs[i].path;
            assert(once.logs.file_inputs[i].path == absolutized_text(root, raw));
            assert(twice.logs.file_inputs[i].path == absolutized_text(
                root,
                absolutized_text(root, raw),
            ));
        }
    }
    assert(twice.paths =~= once.paths);
    assert(twice.logs.output =~= once.logs.output);
    assert(twice.logs =~= once.logs);
}

/// No path is named.
pub open spec fn nothing_declared() -> DeclaredPaths {
    DeclaredPaths {
        root_dir: false,
        run_dir: false,
        state_dir: false,
        log_dir: false,
        output_file: false,
    }
}

proof fn lemma_names_below(base: Seq<u8>, raw: Seq<char>, names: Seq<Seq<u8>>)
    requires
        plain_names(names),
        encode_utf8(raw) == path_of_names(false, names),
    ensures
        is_below(absolutized(base, raw), normalized(base)),
{
    let path = encode_utf8(raw);
    let start = normalized(base);
    law_path_of_names_has_those_names(false, names);
    assert(Seq::<Component>::empty() + name_components(names) =~= name_components(names));
    assert(is_plain_relative(path));
    law_plain_relative_paths_stay_below(base, path);
    assert(components(absolutized(base, raw)).take(components(start).len() as int) =~= components(
        start,
    ));
}

proof fn lemma_one_name(raw: Seq<char>)
    requires
        is_ascii_chars(raw),
        raw.len() > 2,
        forall|i: int| 0 <= i < raw.len() ==> raw[i] != '/',
    ensures
        plain_names(seq![encode_utf8(raw)]),
        encode_utf8(raw) == path_of_names(false, seq![encode_utf8(raw)]),
{
    is_ascii_chars_encode_utf8(raw);
    let name = encode_utf8(raw);
    assert(name.len() > 2);
    if name.contains(SEPARATOR) {
        let i = choose|i: int| 0 <= i < name.len() && name[i] == SEPARATOR;
        assert(raw[i] as u8 == SEPARATOR);
        assert(raw[i] == '/');
    }
    assert(is_plain_name(name));
}

/// Away from the places of the host, a configuration that names no paths keeps
/// everything below its own directory: the root is that directory, and the run, state
/// and log directories and the collected records lie below it.
pub proof fn law_local_data_stays_with_the_configuration(
    config: AgentConfigView,
    config_path: Seq<u8>,
)
    ensures
        ({
            let filled = with_path_defaults(config, false, nothing_declared());
            let root = root_of(filled, config_path);
            &&& root == normalized(config_dir_of(config_path))
            &&& is_below(absolutized(root, filled.paths.run_dir), root)
            &&& is_below(absolutized(root, filled.paths.state_dir), root)
            &&& is_below(absolutized(root, filled.paths.log_dir), root)
            &&& is_below(output_of(filled, config_path, false), root)
        }),
{
    let dir = config_dir_of(config_path);
    reveal_strlit(".");
    is_ascii_chars_encode_utf8("."@);
    assert(encode_utf8("."@) =~= seq![DOT]);
    law_dot_stays(dir);
    law_normalize_is_idempotent(dir);
    let root = normalized(dir);
    reveal_strlit("run");
    lemma_one_name("run"@);
    lemma_names_below(root, "run"@, seq![encode_utf8("run"@)]);
    reveal_strlit("state");
    lemma_one_name("state"@);
    lemma_names_below(root, "state"@, seq![encode_utf8("state"@)]);
    reveal_strlit("log");
    lemma_one_name("log"@);
    lemma_names_below(root, "log"@, seq![encode_utf8("log"@)]);

    lemma_output_names();
    lemma_names_below(root, relative_output(), output_names());
}

/// Collected records follow the data: away from the places of the host, where the
/// configuration file does not name their file, they lie below the root directory, whatever
/// else the file names.
pub proof fn law_default_records_follow_the_data(
    config: AgentConfigView,
    config_path: Seq<u8>,
    declared: DeclaredPaths,
)
    requires
        !declared.output_file,
    ensures
        ({
            let filled = with_path_defaults(config, false, declared);
            is_below(output_of(filled, config_path, declared.output_file), root_of(
                filled,
                config_path,
            ))
        }),
{
    let filled = with_path_defaults(config, false, declared);
    law_normalize_is_idempotent(
        joined_path(config_dir_of(config_path), encode_utf8(filled.paths.root_dir)),
    );
    lemma_output_names();
    lemma_names_below(root_of(filled, config_path), relative_output(), output_names());
}

/// The names that lead to the file of collected records.
pub open spec fn output_names() -> Seq<Seq<u8>> {
    seq![encode_utf8(COLLECTED_OUTPUT_SUBDIR@), encode_utf8(COLLECTED_OUTPUT_FILE@)]
}

proof fn lemma_output_names()
    ensures
        plain_names(output_names()),
        encode_utf8(relative_output()) == path_of_names(false, output_names()),
{
    let sub = COLLECTED_OUTPUT_SUBDIR@;
    let file = COLLECTED_OUTPUT_FILE@;
    reveal_strlit("data");
    reveal_strlit("wist-records.ndjson");
    reveal_strlit("/");
    lemma_one_name(sub);
    lemma_one_name(file);
    is_ascii_chars_encode_utf8("/"@);
    assert(encode_utf8("/"@) =~= seq![SEPARATOR]);
    lemma_encode_concat(sub, "/"@);
    lemma_encode_concat(sub + "/"@, file);
    let names = output_names();
    assert(is_plain_name(seq![encode_utf8(sub)][0]));
    assert(is_plain_name(seq![encode_utf8(file)][0]));
    assert(plain_names(names));
    assert(names.drop_last() =~= seq![encode_utf8(sub)]);
    assert(glued(names, SEPARATOR) == glued(names.drop_last(), SEPARATOR).push(SEPARATOR)
        + names.last());
    assert(encode_utf8(sub).push(SEPARATOR) =~= encode_utf8(sub) + seq![SEPARATOR]);
    assert(encode_utf8(relative_output()) =~= path_of_names(false, names));
}

/// The places of the host: data and logs are kept apart from the configuration,
/// wherever below its directory the file lies.
pub proof fn law_host_data_is_kept_apart(config: AgentConfigView, config_path: Seq<u8>)
    ensures
        ({
            let filled = with_path_defaults(config, true, nothing_declared());
            let root = root_of(filled, config_path);
            &&& root == encode_utf8(SYSTEM_DATA_ROOT@)
            &&& absolutized(root, filled.paths.log_dir) == encode_utf8(SYSTEM_LOG_DIR@)
            &&& is_below(absolutized(root, filled.paths.run_dir), root)
            &&& is_below(absolutized(root, filled.paths.state_dir), root)
            &&& is_below(output_of(filled, config_path, false), root)
        }),
{
    let var = "var"@;
    let lib = "lib"@;
    let log = "log"@;
    let own = "wist-agentd"@;
    reveal_strlit("var");
    reveal_strlit("lib");
    reveal_strlit("log");
    reveal_strlit("wist-agentd");
    reveal_strlit("/var/lib/wist-agentd");
    reveal_strlit("/var/log/wist-agentd");
    let slash = seq!['/'];
    assert(SYSTEM_DATA_ROOT@ =~= slash + var + slash + lib + slash + own);
    assert(SYSTEM_LOG_DIR@ =~= slash + var + slash + log + slash + own);
    lemma_three_names(var, lib, own, SYSTEM_DATA_ROOT@);
    lemma_three_names(var, log, own, SYSTEM_LOG_DIR@);
    let root = encode_utf8(SYSTEM_DATA_ROOT@);
    reveal_strlit("run");
    lemma_one_name("run"@);
    lemma_names_below(root, "run"@, seq![encode_utf8("run"@)]);
    reveal_strlit("state");
    lemma_one_name("state"@);
    lemma_names_below(root, "state"@, seq![encode_utf8("state"@)]);
    lemma_output_names();
    lemma_names_below(root, relative_output(), output_names());
    lemma_default_output();
    law_join_keeps_the_root(root, encode_utf8(relative_output()));
    assert(absolutized(root, default_output(true)) == absolutized(root, relative_output()));
}

proof fn lemma_three_names(a: Seq<char>, b: Seq<char>, c: Seq<char>, whole: Seq<char>)
    requires
        is_ascii_chars(a) && a.len() > 2 && forall|i: int| 0 <= i < a.len() ==> a[i] != '/',
        is_ascii_chars(b) && b.len() > 2 && forall|i: int| 0 <= i < b.len() ==> b[i] != '/',
        is_ascii_chars(c) && c.len() > 2 && forall|i: int| 0 <= i < c.len() ==> c[i] != '/',
        whole == seq!['/'] + a + seq!['/'] + b + seq!['/'] + c,
    ensures
        is_rooted(encode_utf8(whole)),
        normalized(encode_utf8(whole)) == encode_utf8(whole),
{
    lemma_one_name(a);
    lemma_one_name(b);
    lemma_one_name(c);
    let slash = seq!['/'];
    is_ascii_chars_encode_utf8(slash);
    assert(encode_utf8(slash) =~= seq![SEPARATOR]);
    lemma_encode_concat(slash, a);
    lemma_encode_concat(slash + a, slash);
    lemma_encode_concat(slash + a + slash, b);
    lemma_encode_concat(slash + a + slash + b, slash);
    lemma_encode_concat(slash + a + slash + b + slash, c);
    let x = encode_utf8(a);
    let y = encode_utf8(b);
    let z = encode_utf8(c);
    let names = seq![x, y, z];
    assert(is_plain_name(seq![x][0]));
    assert(is_plain_name(seq![y][0]));
    assert(is_plain_name(seq![z][0]));
    assert(plain_names(names));
    assert(names.drop_last() =~= seq![x, y]);
    assert(seq![x, y].drop_last() =~= seq![x]);
    assert(glued(seq![x, y], SEPARATOR) == x.push(SEPARATOR) + y);
    assert(glued(names, SEPARATOR) == (x.push(SEPARATOR) + y).push(SEPARATOR) + z);
    assert(encode_utf8(whole) =~= path_of_names(true, names));
    law_paths_of_names_are_normal(true, names);
}

/// What a configuration file names is never replaced by a default.
pub proof fn law_declared_paths_stay(
    config: AgentConfigView,
    system: bool,
    declared: DeclaredPaths,
)
    ensures
        ({
            let filled = with_path_defaults(config, system, declared);
            &&& declared.root_dir ==> filled.paths.root_dir == config.paths.root_dir
            &&& declared.run_dir ==> filled.paths.run_dir == config.paths.run_dir
            &&& declared.state_dir ==> filled.paths.state_dir == config.paths.state_dir
            &&& declared.log_dir ==> filled.paths.log_dir == config.paths.log_dir
            &&& declared.output_file ==> filled.logs.output.file_path
                == config.logs.output.file_path
            &&& filled.agent == config.agent
            &&& filled.control_plane == config.control_plane
            &&& filled.logs.spool_dir == config.logs.spool_dir
            &&& filled.logs.file_inputs == config.logs.file_inputs
        }),
{
}

/// A list of values none of which refers to a variable.
pub open spec fn all_plain(values: Seq<Option<Seq<char>>>) -> bool {
    forall|i: int|
        0 <= i < values.len() ==> (#[trigger] values[i] matches Some(s) ==> first_open(s)
            == s.len())
}

proof fn lemma_plain_values(values: Seq<Option<Seq<char>>>, env: Map<Seq<char>, Seq<char>>)
    requires
        all_plain(values),
    ensures
        first_missing(values, env) is None,
    decreases values.len(),
{
    if values.len() > 0 {
        assert(values[0] matches Some(s) ==> first_open(s) == s.len());
        assert(all_plain(values.skip(1))) by {
            assert forall|i: int| 0 <= i < values.skip(1).len() implies (
            #[trigger] values.skip(1)[i] matches Some(s) ==> first_open(s) == s.len()) by {
                assert(values.skip(1)[i] == values[i + 1]);
            }
        }
        lemma_plain_values(values.skip(1), env);
    }
}

proof fn lemma_plain_inputs(inputs: Seq<LogFileInputView>, env: Map<Seq<char>, Seq<char>>)
    requires
        all_plain(inputs_texts(inputs)),
    ensures
        inputs_mapped(inputs, expander(env)) == inputs,
    decreases inputs.len(),
{
    if inputs.len() == 0 {
        assert(inputs_mapped(inputs, expander(env)) =~= inputs);
    } else {
        let front = inputs.drop_last();
        let all = inputs_texts(inputs);
        let head = inputs_texts(front);
        let own = inputs.last().texts();
        assert(all == head + own);
        assert(all_plain(head)) by {
            assert forall|i: int| 0 <= i < head.len() implies (#[trigger] head[i] matches Some(s)
                ==> first_open(s) == s.len()) by {
                assert(head[i] == all[i]);
            }
        }
        lemma_plain_inputs(front, env);
        let n = head.len() as int;
        assert(all[n] == own[0] && all[n + 1] == own[1] && all[n + 2] == own[2] && all[n + 3]
            == own[3]);
        assert(inputs.last().mapped(expander(env)) =~= inputs.last());
        assert(inputs_mapped(inputs, expander(env)) =~= inputs_mapped(front, expander(env)).push(
            inputs.last(),
        ));
        assert(front.push(inputs.last()) =~= inputs);
    }
}

/// A configuration that refers to no variable is left as it is, whatever is set.
pub proof fn law_plain_configurations_stay(
    config: AgentConfigView,
    env: Map<Seq<char>, Seq<char>>,
)
    requires
        all_plain(config.texts()),
    ensures
        first_missing(config.texts(), env) is None,
        config.mapped(expander(env)) == config,
{
    let all = config.texts();
    let f = expander(env);
    lemma_plain_values(all, env);
    let a = config.agent.texts();
    let c = config.control_plane.texts();
    let p = config.paths.texts();
    let l = config.logs.own_texts();
    let i = inputs_texts(config.logs.file_inputs);
    assert(all =~= a + (c + (p + (l + i))));
    assert forall|j: int| 0 <= j < a.len() implies #[trigger] a[j] == all[j] by {}
    assert forall|j: int| 0 <= j < c.len() implies #[trigger] c[j] == all[3 + j] by {}
    assert forall|j: int| 0 <= j < p.len() implies #[trigger] p[j] == all[12 + j] by {}
    assert forall|j: int| 0 <= j < l.len() implies #[trigger] l[j] == all[16 + j] by {}
    assert(all_plain(i)) by {
        assert forall|j: int| 0 <= j < i.len() implies (#[trigger] i[j] matches Some(s)
            ==> first_open(s) == s.len()) by {
            assert(i[j] == all[21 + j]);
        }
    }
    lemma_plain_inputs(config.logs.file_inputs, env);
    assert(a[0] == config.agent.agent_id && a[1] == config.agent.environment_id && a[2]
        == config.agent.instance_name);
    assert(config.agent.mapped(f) =~= config.agent);
    assert(c[0] == config.control_plane.endpoint && c[1] == config.control_plane.enrollment_token
        && c[2] == config.control_plane.credential_request && c[3]
        == config.control_plane.credential_id && c[4] == config.control_plane.bearer_token && c[5]
        == config.control_plane.credential_expires_at && c[6] == config.control_plane.tls_mode
        && c[7] == config.control_plane.trust_bundle && c[8] == config.control_plane.auth_mode);
    assert(config.control_plane.mapped(f) =~= config.control_plane);
    assert(p[0] == Some(config.paths.root_dir) && p[1] == Some(config.paths.run_dir) && p[2] == Some(
        config.paths.state_dir,
    ) && p[3] == Some(config.paths.log_dir));
    assert(config.paths.mapped(f) =~= config.paths);
    assert(l[0] == Some(config.logs.spool_dir) && l[1] == Some(config.logs.output.kind) && l[2]
        == Some(config.logs.output.file_path) && l[3] == Some(config.logs.output.tcp_addr) && l[4]
        == Some(config.logs.output.tcp_framing));
    assert(config.logs.mapped(f).output =~= config.logs.output);
    assert(config.logs.mapped(f) =~= config.logs);
}

} // verus!
