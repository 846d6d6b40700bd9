//! What holds of the expansion of a whole configuration.
use crate::config::env::{expanded, opt_expanded};
use crate::config::model::{
    expander, first_missing, inputs_texts, value_expanded, AgentConfigView, LogFileInputView,
};
use vstd::prelude::*;

verus! {

/// Whether a text is what expanding another one gives.
pub open spec fn expands_to(
    before: Seq<char>,
    after: Seq<char>,
    env: Map<Seq<char>, Seq<char>>,
) -> bool {
    expanded(before, env) == Ok::<_, Seq<char>>(after)
}

/// The same for an optional text: one that is missing stays missing.
pub open spec fn opt_expands_to(
    before: Option<Seq<char>>,
    after: Option<Seq<char>>,
    env: Map<Seq<char>, Seq<char>>,
) -> bool {
    match (before, after) {
        (Some(text), Some(done)) => expands_to(text, done, env),
        (None, None) => true,
        _ => false,
    }
}

proof fn lemma_none_missing(values: Seq<Option<Seq<char>>>, env: Map<Seq<char>, Seq<char>>)
    requires
        first_missing(values, env) is None,
    ensures
        forall|i: int|
            0 <= i < values.len() ==> (#[trigger] values[i] matches Some(s) ==> expands_to(
                s,
                value_expanded(s, env),
                env,
            )),
    decreases values.len(),
{
    if values.len() > 0 {
        lemma_none_missing(values.skip(1), env);
        assert forall|i: int| 0 <= i < values.len() implies (#[trigger] values[i] matches Some(s)
            ==> expands_to(s, value_expanded(s, env), env)) by {
            if i > 0 {
                assert(values.skip(1)[i - 1] == values[i]);
            }
        }
    }
}

/// A list of values has a missing variable exactly if one of them has, and what is reported
/// is missing in one whose predecessors have none.
proof fn lemma_missing_is_first(values: Seq<Option<Seq<char>>>, env: Map<Seq<char>, Seq<char>>)
    ensures
        match first_missing(values, env) {
            Some(missing) => exists|i: int|
                0 <= i < values.len() && opt_expanded(#[trigger] values[i], env) == Err::<
                    Option<Seq<char>>,
                    _,
                >(missing) && forall|j: int|
                    0 <= j < i ==> opt_expanded(#[trigger] values[j], env) is Ok,
            None => forall|i: int|
                0 <= i < values.len() ==> opt_expanded(#[trigger] values[i], env) is Ok,
        },
    decreases values.len(),
{
    if values.len() > 0 {
        let rest = values.skip(1);
        lemma_missing_is_first(rest, env);
        if opt_expanded(values[0], env) is Ok {
            match first_missing(rest, env) {
                Some(missing) => {
                    let k = choose|i: int|
                        0 <= i < rest.len() && opt_expanded(#[trigger] rest[i], env) == Err::<
                            Option<Seq<char>>,
                            _,
                        >(missing) && forall|j: int|
                            0 <= j < i ==> opt_expanded(#[trigger] rest[j], env) is Ok;
                    assert(values[k + 1] == rest[k]);
                    assert forall|j: int| 0 <= j < k + 1 implies opt_expanded(
                        #[trigger] values[j],
                        env,
                    ) is Ok by {
                        if j > 0 {
                            assert(rest[j - 1] == values[j]);
                        }
                    }
                },
                None => {
                    assert forall|i: int| 0 <= i < values.len() implies opt_expanded(
                        #[trigger] values[i],
                        env,
                    ) is Ok by {
                        if i > 0 {
                            assert(rest[i - 1] == values[i]);
                        }
                    }
                },
            }
        }
    }
}

proof fn lemma_inputs_texts_at(inputs: Seq<LogFileInputView>, at: int)
    requires
        0 <= at < inputs.len(),
    ensures
        inputs_texts(inputs).len() == 4 * inputs.len(),
        inputs_texts(inputs)[4 * at] == Some(inputs[at].input_id),
        inputs_texts(inputs)[4 * at + 1] == Some(inputs[at].path),
        inputs_texts(inputs)[4 * at + 2] == Some(inputs[at].startup_position),
        inputs_texts(inputs)[4 * at + 3] == Some(inputs[at].multiline_mode),
    decreases inputs.len(),
{
    let front = inputs.drop_last();
    lemma_inputs_texts_len(front);
    if at < front.len() {
        lemma_inputs_texts_at(front, at);
        assert(front[at] == inputs[at]);
    }
}

proof fn lemma_inputs_texts_len(inputs: Seq<LogFileInputView>)
    ensures
        inputs_texts(inputs).len() == 4 * inputs.len(),
    decreases inputs.len(),
{
    if inputs.len() > 0 {
        lemma_inputs_texts_len(inputs.drop_last());
    }
}

/// Where no variable is missing, every text of the configuration becomes its own expansion,
/// each in its own place; whether the control plane is on stays, and so do the number and
/// the order of the inputs.
#[verifier::rlimit(30)]
pub proof fn law_every_text_is_expanded_in_its_place(
    config: AgentConfigView,
    env: Map<Seq<char>, Seq<char>>,
)
    requires
        first_missing(config.texts(), env) is None,
    ensures
        ({
            let done = config.mapped(expander(env));
            &&& opt_expands_to(config.agent.agent_id, done.agent.agent_id, env)
            &&& opt_expands_to(config.agent.environment_id, done.agent.environment_id, env)
            &&& opt_expands_to(config.agent.instance_name, done.agent.instance_name, env)
            &&& done.control_plane.enabled == config.control_plane.enabled
            &&& opt_expands_to(config.control_plane.endpoint, done.control_plane.endpoint, env)
            &&& opt_expands_to(
                config.control_plane.enrollment_token,
                done.control_plane.enrollment_token,
                env,
            )
            &&& opt_expands_to(
                config.control_plane.credential_request,
                done.control_plane.credential_request,
                env,
            )
            &&& opt_expands_to(
                config.control_plane.credential_id,
                done.control_plane.credential_id,
                env,
            )
            &&& opt_expands_to(
                config.control_plane.bearer_token,
                done.control_plane.bearer_token,
                env,
            )
            &&& opt_expands_to(
                config.control_plane.credential_expires_at,
                done.control_plane.credential_expires_at,
                env,
            )
            &&& opt_expands_to(config.control_plane.tls_mode, done.control_plane.tls_mode, env)
            &&& opt_expands_to(
                config.control_plane.trust_bundle,
                done.control_plane.trust_bundle,
                env,
            )
            &&& opt_expands_to(config.control_plane.auth_mode, done.control_plane.auth_mode, env)
            &&& expands_to(config.paths.root_dir, done.paths.root_dir, env)
            &&& expands_to(config.paths.run_dir, done.paths.run_dir, env)
            &&& expands_to(config.paths.state_dir, done.paths.state_dir, env)
            &&& expands_to(config.paths.log_dir, done.paths.log_dir, env)
            &&& expands_to(config.logs.spool_dir, done.logs.spool_dir, env)
            &&& expands_to(config.logs.output.kind, done.logs.output.kind, env)
            &&& expands_to(config.logs.output.file_path, done.logs.output.file_path, env)
            &&& expands_to(config.logs.output.tcp_addr, done.logs.output.tcp_addr, env)
            &&& expands_to(config.logs.output.tcp_framing, done.logs.output.tcp_framing, env)
            &&& done.logs.file_inputs.len() == config.logs.file_inputs.len()
            &&& forall|i: int|
                #![trigger done.logs.file_inputs[i]]
                0 <= i < config.logs.file_inputs.len() ==> {
                    let input = config.logs.file_inputs[i];
                    let after = done.logs.file_inputs[i];
                    &&& expands_to(input.input_id, after.input_id, env)
                    &&& expands_to(input.path, after.path, env)
                    &&& expands_to(input.startup_position, after.startup_position, env)
                    &&& expands_to(input.multiline_mode, after.multiline_mode, env)
                }
        }),
{
    let done = config.mapped(expander(env));
    let all = config.texts();
    lemma_none_missing(all, env);
    let a = config.agent.texts();
    let c = config.control_plane.texts();
    let p = config.paths.texts();
    let l = config.logs.own_texts();
    let inputs = inputs_texts(config.logs.file_inputs);
    assert(all =~= a + (c + (p + (l + inputs))));
    assert forall|j: int| 0 <= j < a.len() implies #[trigger] a[j] == all[j] by {}
    assert forall|j: int| 0 <= j < c.len() implies #[trigger] c[j] == all[3 + j] by {}
    assert forall|j: int| 0 <= j < p.len() implies #[trigger] p[j] == all[12 + j] by {}
    assert forall|j: int| 0 <= j < l.len() implies #[trigger] l[j] == all[16 + j] by {}
    assert(a[0] == all[0] && a[1] == all[1] && a[2] == all[2]);
    assert(c[0] == all[3] && c[1] == all[4] && c[2] == all[5] && c[3] == all[6] && c[4] == all[7]
        && c[5] == all[8] && c[6] == all[9] && c[7] == all[10] && c[8] == all[11]);
    assert(p[0] == all[12] && p[1] == all[13] && p[2] == all[14] && p[3] == all[15]);
    assert(l[0] == all[16] && l[1] == all[17] && l[2] == all[18] && l[3] == all[19] && l[4]
        == all[20]);
    assert forall|i: int|
        #![trigger done.logs.file_inputs[i]]
        0 <= i < config.logs.file_inputs.len() implies {
        let input = config.logs.file_inputs[i];
        let after = done.logs.file_inputs[i];
        &&& expands_to(input.input_id, after.input_id, env)
        &&& expands_to(input.path, after.path, env)
        &&& expands_to(input.startup_position, after.startup_position, env)
        &&& expands_to(input.multiline_mode, after.multiline_mode, env)
    } by {
        lemma_inputs_texts_at(config.logs.file_inputs, i);
        assert(all[21 + 4 * i] == inputs[4 * i]);
        assert(all[21 + 4 * i + 1] == inputs[4 * i + 1]);
        assert(all[21 + 4 * i + 2] == inputs[4 * i + 2]);
        assert(all[21 + 4 * i + 3] == inputs[4 * i + 3]);
    }
}

/// The texts of a configuration in the order of its file, without its inputs.
pub open spec fn texts_in_order(config: AgentConfigView) -> Seq<Option<Seq<char>>> {
    seq![
        config.agent.agent_id,
        config.agent.environment_id,
        config.agent.instance_name,
        config.control_plane.endpoint,
        config.control_plane.enrollment_token,
        config.control_plane.credential_request,
        config.control_plane.credential_id,
        config.control_plane.bearer_token,
        config.control_plane.credential_expires_at,
        config.control_plane.tls_mode,
        config.control_plane.trust_bundle,
        config.control_plane.auth_mode,
        Some(config.paths.root_dir),
        Some(config.paths.run_dir),
        Some(config.paths.state_dir),
        Some(config.paths.log_dir),
        Some(config.logs.spool_dir),
        Some(config.logs.output.kind),
        Some(config.logs.output.file_path),
        Some(config.logs.output.tcp_addr),
        Some(config.logs.output.tcp_framing),
    ]
}

/// Whether expanding an optional text finds a variable missing.
pub open spec fn misses(
    value: Option<Seq<char>>,
    missing: Seq<char>,
    env: Map<Seq<char>, Seq<char>>,
) -> bool {
    value matches Some(text) && expanded(text, env) == Err::<Seq<char>, _>(missing)
}

/// Whether expanding an optional text finds no variable missing.
pub open spec fn misses_nothing(
    value: Option<Seq<char>>,
    env: Map<Seq<char>, Seq<char>>,
) -> bool {
    value matches Some(text) ==> expanded(text, env) is Ok
}

/// The variable that is reported is the first one that is missing in the order of the
/// texts: what is missing outside the inputs comes before what is missing in them, and
/// nothing is reported exactly if nothing is missing anywhere.
#[verifier::rlimit(30)]
pub proof fn law_the_first_missing_variable_is_reported(
    config: AgentConfigView,
    env: Map<Seq<char>, Seq<char>>,
)
    ensures
        ({
            let own = texts_in_order(config);
            let inputs = config.logs.file_inputs;
            let reported = first_missing(config.texts(), env);
            &&& forall|k: int, missing: Seq<char>|
                0 <= k < own.len() && misses(#[trigger] own[k], missing, env) && (forall|j: int|
                    0 <= j < k ==> misses_nothing(#[trigger] own[j], env))
                    ==> #[trigger] is_reported(reported, missing)
            &&& reported is None <==> (forall|k: int|
                0 <= k < own.len() ==> misses_nothing(#[trigger] own[k], env)) && (forall|i: int|
                0 <= i < inputs.len() ==> misses_nothing(
                    Some((#[trigger] inputs[i]).input_id),
                    env,
                ) && misses_nothing(Some(inputs[i].path), env) && misses_nothing(
                    Some(inputs[i].startup_position),
                    env,
                ) && misses_nothing(Some(inputs[i].multiline_mode), env))
        }),
{
    let own = texts_in_order(config);
    let inputs = config.logs.file_inputs;
    let all = config.texts();
    let tail = inputs_texts(inputs);
    assert(all =~= own + tail);
    lemma_missing_is_first(all, env);
    lemma_inputs_texts_len(inputs);
    let reported = first_missing(all, env);
    assert forall|k: int, missing: Seq<char>|
        0 <= k < own.len() && misses(#[trigger] own[k], missing, env) && (forall|j: int|
            0 <= j < k ==> misses_nothing(#[trigger] own[j], env)) implies #[trigger] is_reported(
        reported,
        missing,
    ) by {
        assert(all[k] == own[k]);
        let found = reported->0;
        let i = choose|i: int|
            0 <= i < all.len() && opt_expanded(#[trigger] all[i], env) == Err::<
                Option<Seq<char>>,
                _,
            >(found) && forall|j: int| 0 <= j < i ==> opt_expanded(#[trigger] all[j], env) is Ok;
        if i < k {
            assert(all[i] == own[i]);
            assert(misses_nothing(own[i], env));
        }
        assert(i == k);
    }
    if reported is None {
        assert forall|k: int| 0 <= k < own.len() implies misses_nothing(#[trigger] own[k], env) by {
            assert(all[k] == own[k]);
        }
        assert forall|i: int| 0 <= i < inputs.len() implies misses_nothing(
            Some((#[trigger] inputs[i]).input_id),
            env,
        ) && misses_nothing(Some(inputs[i].path), env) && misses_nothing(
            Some(inputs[i].startup_position),
            env,
        ) && misses_nothing(Some(inputs[i].multiline_mode), env) by {
            lemma_inputs_texts_at(inputs, i);
            assert(all[21 + 4 * i] == tail[4 * i]);
            assert(all[21 + 4 * i + 1] == tail[4 * i + 1]);
            assert(all[21 + 4 * i + 2] == tail[4 * i + 2]);
            assert(all[21 + 4 * i + 3] == tail[4 * i + 3]);
        }
    } else {
        let found = reported->0;
        let i = choose|i: int|
            0 <= i < all.len() && opt_expanded(#[trigger] all[i], env) == Err::<
                Option<Seq<char>>,
                _,
            >(found) && forall|j: int| 0 <= j < i ==> opt_expanded(#[trigger] all[j], env) is Ok;
        if i < 21 {
            assert(all[i] == own[i]);
            assert(!misses_nothing(own[i], env));
        } else {
            let at = (i - 21) / 4;
            let part = (i - 21) % 4;
            assert(i - 21 == 4 * at + part);
            lemma_inputs_texts_at(inputs, at);
            assert(all[i] == tail[4 * at + part]);
            assert(!(misses_nothing(Some(inputs[at].input_id), env) && misses_nothing(
                Some(inputs[at].path),
                env,
            ) && misses_nothing(Some(inputs[at].startup_position), env) && misses_nothing(
                Some(inputs[at].multiline_mode),
                env,
            )));
        }
    }
}

/// Whether a variable is the one that is reported.
pub open spec fn is_reported(reported: Option<Seq<char>>, missing: Seq<char>) -> bool {
    reported == Some(missing)
}

/// What is missing in the inputs alone is reported in their order: in the first input that
/// misses something, and there in the order of its id, its path, its start and its mode.
pub proof fn law_missing_variables_of_inputs_are_reported_in_order(
    config: AgentConfigView,
    env: Map<Seq<char>, Seq<char>>,
    at: int,
    missing: Seq<char>,
)
    requires
        0 <= at < config.logs.file_inputs.len(),
        forall|k: int|
            0 <= k < texts_in_order(config).len() ==> misses_nothing(
                #[trigger] texts_in_order(config)[k],
                env,
            ),
        forall|i: int|
            0 <= i < at ==> input_misses_nothing(#[trigger] config.logs.file_inputs[i], env),
    ensures
        ({
            let input = config.logs.file_inputs[at];
            let reported = first_missing(config.texts(), env);
            let id = misses_nothing(Some(input.input_id), env);
            let path = misses_nothing(Some(input.path), env);
            let start = misses_nothing(Some(input.startup_position), env);
            &&& misses(Some(input.input_id), missing, env) ==> reported == Some(missing)
            &&& id && misses(Some(input.path), missing, env) ==> reported == Some(missing)
            &&& id && path && misses(Some(input.startup_position), missing, env) ==> reported
                == Some(missing)
            &&& id && path && start && misses(Some(input.multiline_mode), missing, env) ==> reported
                == Some(missing)
        }),
{
    let own = texts_in_order(config);
    let inputs = config.logs.file_inputs;
    let tail = inputs_texts(inputs);
    let all = config.texts();
    assert(all =~= own + tail);
    lemma_inputs_texts_at(inputs, at);
    assert forall|j: int| 0 <= j < 21 + 4 * at implies opt_expanded(#[trigger] all[j], env) is Ok by {
        if j < 21 {
            assert(all[j] == own[j]);
        } else {
            let i = (j - 21) / 4;
            let part = (j - 21) % 4;
            assert(j - 21 == 4 * i + part);
            lemma_inputs_texts_at(inputs, i);
            assert(all[j] == tail[4 * i + part]);
            assert(input_misses_nothing(inputs[i], env));
        }
    }
    assert(all[21 + 4 * at] == tail[4 * at]);
    assert(all[21 + 4 * at + 1] == tail[4 * at + 1]);
    assert(all[21 + 4 * at + 2] == tail[4 * at + 2]);
    assert(all[21 + 4 * at + 3] == tail[4 * at + 3]);
    let input = inputs[at];
    if misses(Some(input.input_id), missing, env) {
        lemma_first_is_reported(all, env, 21 + 4 * at, missing);
    } else if misses_nothing(Some(input.input_id), env) {
        if misses(Some(input.path), missing, env) {
            lemma_first_is_reported(all, env, 21 + 4 * at + 1, missing);
        } else if misses_nothing(Some(input.path), env) {
            if misses(Some(input.startup_position), missing, env) {
                lemma_first_is_reported(all, env, 21 + 4 * at + 2, missing);
            } else if misses_nothing(Some(input.startup_position), env) && misses(
                Some(input.multiline_mode),
                missing,
                env,
            ) {
                lemma_first_is_reported(all, env, 21 + 4 * at + 3, missing);
            }
        }
    }
}

/// Whether expanding an input finds no variable missing.
pub open spec fn input_misses_nothing(
    input: LogFileInputView,
    env: Map<Seq<char>, Seq<char>>,
) -> bool {
    &&& misses_nothing(Some(input.input_id), env)
    &&& misses_nothing(Some(input.path), env)
    &&& misses_nothing(Some(input.startup_position), env)
    &&& misses_nothing(Some(input.multiline_mode), env)
}

proof fn lemma_first_is_reported(
    values: Seq<Option<Seq<char>>>,
    env: Map<Seq<char>, Seq<char>>,
    at: int,
    missing: Seq<char>,
)
    requires
        0 <= at < values.len(),
        misses(values[at], missing, env),
        forall|j: int| 0 <= j < at ==> opt_expanded(#[trigger] values[j], env) is Ok,
    ensures
        first_missing(values, env) == Some(missing),
    decreases at,
{
    if at > 0 {
        let rest = values.skip(1);
        assert(rest[at - 1] == values[at]);
        assert forall|j: int| 0 <= j < at - 1 implies opt_expanded(#[trigger] rest[j], env) is Ok by {
            assert(rest[j] == values[j + 1]);
        }
        let first: int = 0;
        assert(opt_expanded(values[first], env) is Ok);
        lemma_first_is_reported(rest, env, at - 1, missing);
    }
}

} // verus!
