//! What holds of default and resolved paths, path by path.
use crate::config::config_file;
use crate::config::defaults::{
    absolutized, absolutized_text, config_dir_of, declared_in, default_output, filled_config,
    is_system_dir, output_of, root_of, toml_key_paths, with_path_defaults, with_resolved_paths,
    DeclaredPaths,
};
use crate::config::laws::nothing_declared;
use crate::config::model::{AgentConfigView, LogFileInputView};
use crate::config::{SYSTEM_DATA_ROOT, SYSTEM_LOG_DIR};
use crate::os_text::display_text;
use crate::path_laws::{law_dot_stays, law_names_stay};
use crate::path_step_laws::{
    is_name_text, law_a_name_is_a_step_down, law_join_appends_a_name, lemma_below_text,
    lemma_name_text, lemma_top_text,
};
use crate::paths::{
    components, is_rooted, joined_path, law_normal_form_is_plain, law_normalize_is_idempotent,
    law_parent_drops_the_last_component, name_components, normalized, settled, Component, DOT,
};
use vstd::prelude::*;
use vstd::string::*;
use vstd::utf8::*;

verus! {

/// Each path is filled in on its own: one that the file does not name gets the default that
/// it has where the file names nothing, whatever else the file names and whatever the
/// configuration held. Nothing else is filled in.
pub proof fn law_each_path_is_filled_on_its_own(
    config: AgentConfigView,
    other: AgentConfigView,
    system: bool,
    declared: DeclaredPaths,
)
    ensures
        ({
            let filled = with_path_defaults(config, system, declared);
            let bare = with_path_defaults(other, system, nothing_declared());
            &&& !declared.root_dir ==> filled.paths.root_dir == bare.paths.root_dir
            &&& !declared.run_dir ==> filled.paths.run_dir == bare.paths.run_dir
            &&& !declared.state_dir ==> filled.paths.state_dir == bare.paths.state_dir
            &&& !declared.log_dir ==> filled.paths.log_dir == bare.paths.log_dir
            &&& !declared.output_file ==> filled.logs.output.file_path
                == bare.logs.output.file_path
            &&& filled.logs.output.kind == config.logs.output.kind
            &&& filled.logs.output.tcp_addr == config.logs.output.tcp_addr
            &&& filled.logs.output.tcp_framing == config.logs.output.tcp_framing
        }),
{
}

/// The path of a name below a directory.
pub open spec fn is_name_below(path: Seq<u8>, dir: Seq<u8>, name: Seq<char>) -> bool {
    components(path) == components(dir).push(Component::Normal(encode_utf8(name)))
}

/// The path of a name in a directory below another one.
pub open spec fn is_two_names_below(
    path: Seq<u8>,
    dir: Seq<u8>,
    first: Seq<char>,
    second: Seq<char>,
) -> bool {
    components(path) == components(dir).push(Component::Normal(encode_utf8(first))).push(
        Component::Normal(encode_utf8(second)),
    )
}

/// An absolute path of three names.
pub open spec fn is_path_of_three(
    path: Seq<u8>,
    a: Seq<char>,
    b: Seq<char>,
    c: Seq<char>,
) -> bool {
    components(path) == seq![
        Component::Root,
        Component::Normal(encode_utf8(a)),
        Component::Normal(encode_utf8(b)),
        Component::Normal(encode_utf8(c)),
    ]
}

proof fn lemma_name_from(base: Seq<u8>, name: Seq<char>)
    requires
        is_name_text(name),
    ensures
        is_name_below(absolutized(base, name), normalized(base), name),
{
    let n = encode_utf8(name);
    lemma_name_text(name);
    law_a_name_is_a_step_down(base, n);
    law_join_appends_a_name(base, n);
    law_normal_form_is_plain(joined_path(base, n));
    law_normal_form_is_plain(base);
    let kept = settled(components(base));
    let lead = if is_rooted(base) {
        seq![Component::Root]
    } else {
        Seq::<Component>::empty()
    };
    assert(lead + name_components(kept.push(n)) =~= (lead + name_components(kept)).push(
        Component::Normal(n),
    ));
}

proof fn lemma_two_names_from(base: Seq<u8>, first: Seq<char>, second: Seq<char>)
    requires
        is_name_text(first),
        is_name_text(second),
    ensures
        is_two_names_below(
            absolutized(base, first + seq!['/'] + second),
            normalized(base),
            first,
            second,
        ),
{
    let a = encode_utf8(first);
    let b = encode_utf8(second);
    let raw = first + seq!['/'] + second;
    lemma_name_text(first);
    lemma_name_text(second);
    lemma_below_text(first, second);
    let path = encode_utf8(raw);
    assert(!is_rooted(path)) by {
        assert(!is_rooted(a)) by {
            if is_rooted(a) {
                assert(a.contains(a[0]));
            }
        }
    }
    assert(components(path) =~= seq![Component::Normal(a), Component::Normal(b)]);
    crate::path_laws::law_plain_relative_paths_stay_below(base, path);
    assert(components(normalized(base)) + components(path) =~= components(normalized(base)).push(
        Component::Normal(a),
    ).push(Component::Normal(b)));
}

proof fn lemma_three_names_alone(
    base: Seq<u8>,
    a: Seq<char>,
    b: Seq<char>,
    c: Seq<char>,
)
    requires
        is_name_text(a),
        is_name_text(b),
        is_name_text(c),
    ensures
        is_path_of_three(
            absolutized(base, seq!['/'] + a + seq!['/'] + b + seq!['/'] + c),
            a,
            b,
            c,
        ),
        is_rooted(encode_utf8(seq!['/'] + a + seq!['/'] + b + seq!['/'] + c)),
{
    let top = seq!['/'] + a;
    lemma_top_text(a);
    assert(top.last() == a.last());
    lemma_below_text(top, b);
    let two = top + seq!['/'] + b;
    assert(two.last() == b.last());
    lemma_below_text(two, c);
    let whole = two + seq!['/'] + c;
    let path = encode_utf8(whole);
    assert(components(path) =~= seq![
        Component::Root,
        Component::Normal(encode_utf8(a)),
        Component::Normal(encode_utf8(b)),
        Component::Normal(encode_utf8(c)),
    ]);
    law_names_stay(path);
}

/// Away from the places of the host: whatever else the file names, an undeclared root is
/// the directory of the file, undeclared run, state and log directories are `run`, `state`
/// and `log` directly below the root, and undeclared records go to `data` below it.
pub proof fn law_local_defaults_lie_below_the_root(
    config: AgentConfigView,
    config_path: Seq<u8>,
    declared: DeclaredPaths,
)
    ensures
        ({
            let filled = with_path_defaults(config, false, declared);
            let root = root_of(filled, config_path);
            &&& !declared.root_dir ==> root == normalized(config_dir_of(config_path))
            &&& !declared.run_dir ==> is_name_below(
                absolutized(root, filled.paths.run_dir),
                root,
                "run"@,
            )
            &&& !declared.state_dir ==> is_name_below(
                absolutized(root, filled.paths.state_dir),
                root,
                "state"@,
            )
            &&& !declared.log_dir ==> is_name_below(
                absolutized(root, filled.paths.log_dir),
                root,
                "log"@,
            )
            &&& !declared.output_file ==> is_two_names_below(
                output_of(filled, config_path, false),
                root,
                "data"@,
                "wist-records.ndjson"@,
            )
        }),
{
    let filled = with_path_defaults(config, false, declared);
    let dir = config_dir_of(config_path);
    let root = root_of(filled, config_path);
    law_normalize_is_idempotent(joined_path(dir, encode_utf8(filled.paths.root_dir)));
    assert(normalized(root) == root);
    reveal_strlit(".");
    is_ascii_chars_encode_utf8("."@);
    assert(encode_utf8("."@) =~= seq![DOT]);
    law_dot_stays(dir);
    reveal_strlit("run");
    lemma_name_from(root, "run"@);
    reveal_strlit("state");
    lemma_name_from(root, "state"@);
    reveal_strlit("log");
    lemma_name_from(root, "log"@);
    reveal_strlit("data");
    reveal_strlit("wist-records.ndjson");
    reveal_strlit("/");
    assert("/"@ =~= seq!['/']);
    lemma_two_names_from(root, "data"@, "wist-records.ndjson"@);
}

proof fn lemma_host_dirs(base: Seq<u8>)
    ensures
        is_path_of_three(absolutized(base, SYSTEM_DATA_ROOT@), "var"@, "lib"@, "wist-agentd"@),
        is_path_of_three(absolutized(base, SYSTEM_LOG_DIR@), "var"@, "log"@, "wist-agentd"@),
{
    reveal_strlit("var");
    reveal_strlit("lib");
    reveal_strlit("log");
    reveal_strlit("wist-agentd");
    reveal_strlit("/var/lib/wist-agentd");
    reveal_strlit("/var/log/wist-agentd");
    let slash = seq!['/'];
    assert(SYSTEM_DATA_ROOT@ =~= slash + "var"@ + slash + "lib"@ + slash + "wist-agentd"@);
    assert(SYSTEM_LOG_DIR@ =~= slash + "var"@ + slash + "log"@ + slash + "wist-agentd"@);
    lemma_three_names_alone(base, "var"@, "lib"@, "wist-agentd"@);
    lemma_three_names_alone(base, "var"@, "log"@, "wist-agentd"@);
}

/// The components of the file of records of the host.
pub open spec fn host_records() -> Seq<Component> {
    seq![
        Component::Root,
        Component::Normal(encode_utf8("var"@)),
        Component::Normal(encode_utf8("lib"@)),
        Component::Normal(encode_utf8("wist-agentd"@)),
        Component::Normal(encode_utf8("data"@)),
        Component::Normal(encode_utf8("wist-records.ndjson"@)),
    ]
}

#[verifier::rlimit(30)]
proof fn lemma_host_output(base: Seq<u8>)
    ensures
        components(absolutized(base, default_output(true))) == host_records(),
{
    reveal_strlit("var");
    reveal_strlit("lib");
    reveal_strlit("wist-agentd");
    reveal_strlit("/var/lib/wist-agentd");
    reveal_strlit("data");
    reveal_strlit("wist-records.ndjson");
    reveal_strlit("/");
    let slash = seq!['/'];
    assert("/"@ =~= slash);
    let one = slash + "var"@;
    let two = one + slash + "lib"@;
    let data = two + slash + "wist-agentd"@;
    let sub = data + slash + "data"@;
    assert(SYSTEM_DATA_ROOT@ =~= data);
    lemma_top_text("var"@);
    assert(one.last() == "var"@.last());
    lemma_below_text(one, "lib"@);
    assert(two.last() == "lib"@.last());
    lemma_below_text(two, "wist-agentd"@);
    assert(data.last() == "wist-agentd"@.last());
    lemma_below_text(data, "data"@);
    assert(sub.last() == "data"@.last());
    lemma_below_text(sub, "wist-records.ndjson"@);
    let output = encode_utf8(sub + slash + "wist-records.ndjson"@);
    assert(components(output) =~= host_records());
    law_names_stay(output);
    assert(default_output(true) =~= sub + slash + "wist-records.ndjson"@);
    assert(joined_path(base, output) == output);
}

/// At the places of the host: whatever else the file names, an undeclared root is
/// `/var/lib/wist-agentd`, undeclared run and state directories are `run` and `state`
/// directly below the root, an undeclared log directory is `/var/log/wist-agentd`, and
/// undeclared records go to `data` below `/var/lib/wist-agentd`.
pub proof fn law_host_defaults_lie_at_their_places(
    config: AgentConfigView,
    config_path: Seq<u8>,
    declared: DeclaredPaths,
)
    ensures
        ({
            let filled = with_path_defaults(config, true, declared);
            let root = root_of(filled, config_path);
            &&& !declared.root_dir ==> is_path_of_three(root, "var"@, "lib"@, "wist-agentd"@)
            &&& !declared.run_dir ==> is_name_below(
                absolutized(root, filled.paths.run_dir),
                root,
                "run"@,
            )
            &&& !declared.state_dir ==> is_name_below(
                absolutized(root, filled.paths.state_dir),
                root,
                "state"@,
            )
            &&& !declared.log_dir ==> is_path_of_three(
                absolutized(root, filled.paths.log_dir),
                "var"@,
                "log"@,
                "wist-agentd"@,
            )
            &&& !declared.output_file ==> components(output_of(filled, config_path, false))
                == host_records()
        }),
{
    let filled = with_path_defaults(config, true, declared);
    let dir = config_dir_of(config_path);
    let root = root_of(filled, config_path);
    law_normalize_is_idempotent(joined_path(dir, encode_utf8(filled.paths.root_dir)));
    assert(normalized(root) == root);
    reveal_strlit("run");
    lemma_name_from(root, "run"@);
    reveal_strlit("state");
    lemma_name_from(root, "state"@);
    lemma_host_dirs(dir);
    lemma_host_dirs(root);
    lemma_host_output(root);
}

/// A configuration belongs to the host exactly if its directory, taken from the working
/// directory where it is relative, is `/etc/wist-agentd` or lies below it, name by name. An
/// absolute directory does not depend on the working directory.
pub proof fn law_host_configurations_lie_below_etc(config_dir: Seq<u8>, cwd: Option<Seq<u8>>)
    ensures
        ({
            let from = match cwd {
                Some(dir) => joined_path(dir, config_dir),
                None => config_dir,
            };
            let comps = components(from);
            &&& is_system_dir(config_dir, cwd) <==> comps.len() >= 3 && comps[0] is Root && comps[1]
                == Component::Normal(encode_utf8("etc"@)) && comps[2] == Component::Normal(
                encode_utf8("wist-agentd"@),
            )
            &&& is_rooted(config_dir) ==> is_system_dir(config_dir, cwd) == is_system_dir(
                config_dir,
                None,
            )
        }),
{
    reveal_strlit("etc");
    reveal_strlit("wist-agentd");
    reveal_strlit("/etc/wist-agentd");
    let slash = seq!['/'];
    let top = slash + "etc"@;
    lemma_top_text("etc"@);
    assert(top.last() == "etc"@.last());
    lemma_below_text(top, "wist-agentd"@);
    assert("/etc/wist-agentd"@ =~= top + slash + "wist-agentd"@);
    let host = seq![
        Component::Root,
        Component::Normal(encode_utf8("etc"@)),
        Component::Normal(encode_utf8("wist-agentd"@)),
    ];
    assert(components(encode_utf8("/etc/wist-agentd"@)) =~= host);
    let from = match cwd {
        Some(dir) => joined_path(dir, config_dir),
        None => config_dir,
    };
    let comps = components(from);
    if comps.len() >= 3 {
        let front = comps.take(3);
        assert(front[0] == comps[0] && front[1] == comps[1] && front[2] == comps[2]);
        if comps[0] is Root && comps[1] == host[1] && comps[2] == host[2] {
            assert(front =~= host);
        }
        if front == host {
            assert(comps[0] == host[0] && comps[1] == host[1] && comps[2] == host[2]);
        }
    }
}

/// The configuration file of a directory is named `agentd.toml` and lies in it: the
/// directory of that file is the directory again.
pub proof fn law_configuration_files_lie_in_their_directory(config_dir: Seq<u8>)
    ensures
        is_name_below(config_file(config_dir), config_dir, "agentd.toml"@),
        components(config_dir_of(config_file(config_dir))) == components(config_dir),
{
    reveal_strlit("agentd.toml");
    lemma_name_text("agentd.toml"@);
    let name = encode_utf8("agentd.toml"@);
    law_join_appends_a_name(config_dir, name);
    let file = config_file(config_dir);
    law_parent_drops_the_last_component(file);
    assert(components(file).last() == Component::Normal(name));
    assert(components(file).drop_last() =~= components(config_dir));
}

/// Where each path of a resolved configuration starts, wherever the file lies: the root at
/// the directory of the file, records that the file names there too, and everything else at
/// the root. Nothing that is no path changes.
pub proof fn law_every_path_is_resolved_from_its_base(
    config: AgentConfigView,
    config_path: Seq<u8>,
    output_declared: bool,
)
    ensures
        ({
            let dir = config_dir_of(config_path);
            let root = absolutized(dir, config.paths.root_dir);
            let done = with_resolved_paths(config, config_path, output_declared);
            &&& done.paths.root_dir == display_text(root)
            &&& done.paths.run_dir == absolutized_text(root, config.paths.run_dir)
            &&& done.paths.state_dir == absolutized_text(root, config.paths.state_dir)
            &&& done.paths.log_dir == absolutized_text(root, config.paths.log_dir)
            &&& done.logs.spool_dir == absolutized_text(root, config.logs.spool_dir)
            &&& output_declared ==> done.logs.output.file_path == absolutized_text(
                dir,
                config.logs.output.file_path,
            )
            &&& !output_declared ==> done.logs.output.file_path == absolutized_text(
                root,
                config.logs.output.file_path,
            )
            &&& done.logs.file_inputs.len() == config.logs.file_inputs.len()
            &&& forall|i: int|
                0 <= i < config.logs.file_inputs.len() ==> #[trigger] done.logs.file_inputs[i] == (
                LogFileInputView {
                    path: absolutized_text(root, config.logs.file_inputs[i].path),
                    ..config.logs.file_inputs[i]
                })
            &&& done.agent == config.agent
            &&& done.control_plane == config.control_plane
            &&& done.logs.output.kind == config.logs.output.kind
            &&& done.logs.output.tcp_addr == config.logs.output.tcp_addr
            &&& done.logs.output.tcp_framing == config.logs.output.tcp_framing
        }),
{
}

/// An absolute path of a configuration does not depend on where it is taken from, and a
/// relative name lies directly below the normal form of that place.
pub proof fn law_bases_count_for_relative_paths_only(
    base: Seq<u8>,
    other: Seq<u8>,
    raw: Seq<char>,
)
    ensures
        is_rooted(encode_utf8(raw)) ==> absolutized(base, raw) == absolutized(other, raw),
        is_rooted(encode_utf8(raw)) ==> absolutized(base, raw) == normalized(encode_utf8(raw)),
        absolutized(base, raw) == normalized(joined_path(base, encode_utf8(raw))),
        is_name_text(raw) ==> is_name_below(absolutized(base, raw), normalized(base), raw),
{
    if is_name_text(raw) {
        lemma_name_from(base, raw);
    }
}

/// Where the file of a configuration lies decides on the defaults: those of the host exactly
/// where its directory, taken from the working directory where it is relative, is
/// `/etc/wist-agentd` or lies below it, and otherwise the local ones.
pub proof fn law_the_place_of_the_file_decides(
    config: AgentConfigView,
    config_path: Seq<u8>,
    declared: DeclaredPaths,
    cwd: Option<Seq<u8>>,
)
    ensures
        ({
            let dir = config_dir_of(config_path);
            let comps = components(
                match cwd {
                    Some(from) => joined_path(from, dir),
                    None => dir,
                },
            );
            let host = comps.len() >= 3 && comps[0] is Root && comps[1] == Component::Normal(
                encode_utf8("etc"@),
            ) && comps[2] == Component::Normal(encode_utf8("wist-agentd"@));
            &&& filled_config(config, config_path, declared, cwd) == with_path_defaults(
                config,
                host,
                declared,
            )
            &&& components(config_path).len() > 0 && !(components(config_path).last() is Root)
                ==> components(dir) == components(config_path).drop_last()
        }),
{
    law_host_configurations_lie_below_etc(config_dir_of(config_path), cwd);
    law_parent_drops_the_last_component(config_path);
}

/// A path is named by the file exactly where its key is there: `root_dir`, `run_dir`,
/// `state_dir` and `log_dir` in `[paths]`, and `path` in `[telemetry.logs.output.file]`.
pub proof fn law_paths_are_named_by_their_keys(raw: toml::Value)
    ensures
        declared_in(raw).root_dir <==> toml_key_paths(raw).contains(seq!["paths"@, "root_dir"@]),
        declared_in(raw).run_dir <==> toml_key_paths(raw).contains(seq!["paths"@, "run_dir"@]),
        declared_in(raw).state_dir <==> toml_key_paths(raw).contains(seq!["paths"@, "state_dir"@]),
        declared_in(raw).log_dir <==> toml_key_paths(raw).contains(seq!["paths"@, "log_dir"@]),
        declared_in(raw).output_file <==> toml_key_paths(raw).contains(
            seq!["telemetry"@, "logs"@, "output"@, "file"@, "path"@],
        ),
{
}

} // verus!
