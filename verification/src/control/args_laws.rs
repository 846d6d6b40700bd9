//! What holds of every command line.
use crate::control::args::{
    action_of, command_line, enroll_option, enroll_options, enroll_request, flag_value,
    is_option_word, is_word, merged_config_dir, parsed_args, plain_enroll_state,
    plain_line_state, plain_service_state, service_option, service_options, service_request,
    with_command, with_enroll_option, with_service_option, ArgsErrorView, CommandView,
    EnrollOption, EnrollRequestView, EnrollState, Flag, LineState, OptionRead, ParsedArgsView,
    ServiceAction, ServiceOption, ServiceRequestView, ServiceState,
};
use crate::control::args::{lemma_enroll_options_shrink, lemma_service_options_shrink};
use crate::paths::same_path;
use crate::text::{lemma_encoding_determines_text, trimmed};
use vstd::prelude::*;
use vstd::string::*;
use vstd::utf8::*;

verus! {

/// Two options of `service` that set different things.
pub open spec fn independent_service_options(a: ServiceOption, b: ServiceOption) -> bool {
    match a {
        ServiceOption::ConfigDir(_) => !(b is ConfigDir),
        ServiceOption::Scope(_) => !(b is Scope),
        ServiceOption::Force => !(b is Force),
        ServiceOption::NoActivate => !(b is NoActivate),
        ServiceOption::For(_) => !(b is For),
        ServiceOption::Bin(_) => !(b is Bin),
        ServiceOption::EnrollmentToken(_) => !(b is EnrollmentToken),
    }
}

/// The arguments of one option of `service` and nothing else.
pub open spec fn is_service_option(
    action: ServiceAction,
    group: Seq<Seq<u8>>,
    option: ServiceOption,
) -> bool {
    service_option(action, group) == (OptionRead::Given { option, width: group.len() as int })
}

proof fn lemma_service_option_ignores_what_follows(
    action: ServiceAction,
    group: Seq<Seq<u8>>,
    option: ServiceOption,
    rest: Seq<Seq<u8>>,
)
    requires
        is_service_option(action, group, option),
    ensures
        service_option(action, group + rest) == (OptionRead::Given {
            option,
            width: group.len() as int,
        }),
        (group + rest).skip(group.len() as int) == rest,
{
    let all = group + rest;
    assert(group.len() > 0);
    assert(all[0] == group[0]);
    if group.len() > 1 {
        assert(all[1] == group[1]);
    }
    assert(all.skip(group.len() as int) =~= rest);
}

/// One option after another.
pub open spec fn with_two_service_options(
    state: ServiceState,
    a: ServiceOption,
    b: ServiceOption,
) -> Result<ServiceState, ArgsErrorView> {
    match with_service_option(state, a) {
        Ok(next) => with_service_option(next, b),
        Err(e) => Err(e),
    }
}

proof fn lemma_service_options_commute(state: ServiceState, a: ServiceOption, b: ServiceOption)
    requires
        independent_service_options(a, b),
    ensures
        with_two_service_options(state, a, b) == with_two_service_options(state, b, a),
{
}

pub proof fn lemma_service_options_step(
    state: ServiceState,
    group: Seq<Seq<u8>>,
    option: ServiceOption,
    rest: Seq<Seq<u8>>,
)
    requires
        is_service_option(state.request.action, group, option),
    ensures
        service_options(group + rest, state) == (match with_service_option(state, option) {
            Ok(next) => service_options(rest, next),
            Err(e) => Err(e),
        }),
        with_service_option(state, option) matches Ok(next) ==> next.request.action
            == state.request.action,
{
    lemma_service_option_ignores_what_follows(state.request.action, group, option, rest);
}

/// Options of `service` that set different things may stand in either order:
/// the request, or the refusal, is the same.
pub proof fn law_service_options_in_any_order(
    state: ServiceState,
    a: Seq<Seq<u8>>,
    option_a: ServiceOption,
    b: Seq<Seq<u8>>,
    option_b: ServiceOption,
    rest: Seq<Seq<u8>>,
)
    requires
        is_service_option(state.request.action, a, option_a),
        is_service_option(state.request.action, b, option_b),
        independent_service_options(option_a, option_b),
    ensures
        service_options(a + b + rest, state) == service_options(b + a + rest, state),
{
    assert(a + b + rest =~= a + (b + rest));
    assert(b + a + rest =~= b + (a + rest));
    lemma_service_options_step(state, a, option_a, b + rest);
    lemma_service_options_step(state, b, option_b, a + rest);
    if let Ok(after_a) = with_service_option(state, option_a) {
        lemma_service_options_step(after_a, b, option_b, rest);
    }
    if let Ok(after_b) = with_service_option(state, option_b) {
        lemma_service_options_step(after_b, a, option_a, rest);
    }
    lemma_service_options_commute(state, option_a, option_b);
}

/// Two options of `enroll` that set different things.
pub open spec fn independent_enroll_options(a: EnrollOption, b: EnrollOption) -> bool {
    match a {
        EnrollOption::ConfigDir(_) => !(b is ConfigDir),
        EnrollOption::Token(_) => !(b is Token),
        EnrollOption::TokenStdin => !(b is TokenStdin),
    }
}

/// The arguments of one option of `enroll` and nothing else.
pub open spec fn is_enroll_option(group: Seq<Seq<u8>>, option: EnrollOption) -> bool {
    enroll_option(group) == (OptionRead::Given { option, width: group.len() as int })
}

pub proof fn lemma_enroll_option_ignores_what_follows(
    group: Seq<Seq<u8>>,
    option: EnrollOption,
    rest: Seq<Seq<u8>>,
)
    requires
        is_enroll_option(group, option),
    ensures
        enroll_option(group + rest) == (OptionRead::Given { option, width: group.len() as int }),
        (group + rest).skip(group.len() as int) == rest,
{
    let all = group + rest;
    assert(group.len() > 0);
    assert(all[0] == group[0]);
    if group.len() > 1 {
        assert(all[1] == group[1]);
    }
    assert(all.skip(group.len() as int) =~= rest);
}

/// Options of `enroll` that set different things may stand in either order: the
/// request, or the refusal, is the same.
pub proof fn law_enroll_options_in_any_order(
    state: EnrollState,
    a: Seq<Seq<u8>>,
    option_a: EnrollOption,
    b: Seq<Seq<u8>>,
    option_b: EnrollOption,
    rest: Seq<Seq<u8>>,
)
    requires
        is_enroll_option(a, option_a),
        is_enroll_option(b, option_b),
        independent_enroll_options(option_a, option_b),
    ensures
        enroll_options(a + b + rest, state) == enroll_options(b + a + rest, state),
{
    reveal_with_fuel(enroll_options, 3);
    assert(a + b + rest =~= a + (b + rest));
    assert(b + a + rest =~= b + (a + rest));
    lemma_enroll_option_ignores_what_follows(a, option_a, b + rest);
    lemma_enroll_option_ignores_what_follows(b, option_b, rest);
    lemma_enroll_option_ignores_what_follows(b, option_b, a + rest);
    lemma_enroll_option_ignores_what_follows(a, option_a, rest);
}

/// Among the options of a subcommand, the same configuration directory may be given
/// again without effect, and any other one is refused.
pub proof fn law_config_dir_repeats_or_conflicts(
    state: ServiceState,
    first: Seq<u8>,
    second: Seq<u8>,
)
    requires
        state.config_dir == Some(first),
    ensures
        with_service_option(state, ServiceOption::ConfigDir(first)) == Ok::<_, ArgsErrorView>(
            state,
        ),
        with_service_option(state, ServiceOption::ConfigDir(second)) is Err <==> !same_path(
            first,
            second,
        ),
        !same_path(first, second) ==> with_service_option(
            state,
            ServiceOption::ConfigDir(second),
        ) == Err::<ServiceState, _>(ArgsErrorView::ConflictingConfigDir(first, second)),
{
}

/// A service request that holds together: what only `install` may be given is given
/// to `install` only, a platform is given to `print` only, and a token is neither
/// blank nor surrounded by white space.
pub open spec fn consistent_service_request(request: ServiceRequestView) -> bool {
    &&& request.force ==> request.action == ServiceAction::Install
    &&& !request.activate ==> request.action == ServiceAction::Install
    &&& request.platform is Some ==> request.action == ServiceAction::Print
    &&& request.enrollment_token matches Some(token) ==> {
        &&& request.action == ServiceAction::Install
        &&& token.len() > 0
        &&& trimmed(token) == token
    }
}

/// An enroll request that holds together: at most one form of the token, and a token
/// that is neither blank nor surrounded by white space.
pub open spec fn consistent_enroll_request(request: EnrollRequestView) -> bool {
    &&& !(request.token is Some && request.token_stdin)
    &&& request.token matches Some(token) ==> token.len() > 0 && trimmed(token) == token
}

proof fn lemma_service_options_consistent(rest: Seq<Seq<u8>>, state: ServiceState)
    requires
        consistent_service_request(state.request),
    ensures
        service_options(rest, state) matches Ok((done, _)) ==> consistent_service_request(
            done.request,
        ),
    decreases rest.len(),
{
    match service_option(state.request.action, rest) {
        OptionRead::Given { option, width } => {
            match with_service_option(state, option) {
                Ok(next) => {
                    match option {
                        ServiceOption::EnrollmentToken(token) => {
                            let text = crate::os_text::text_of(rest[1])->0;
                            crate::text::law_trim_is_idempotent(text);
                            assert(token == trimmed(text));
                        },
                        _ => {},
                    }
                    lemma_service_options_consistent(rest.skip(width), next);
                },
                Err(_) => {},
            }
        },
        _ => {},
    }
}

proof fn lemma_enroll_options_consistent(rest: Seq<Seq<u8>>, state: EnrollState)
    requires
        state.request.token matches Some(token) ==> token.len() > 0 && trimmed(token) == token,
    ensures
        enroll_options(rest, state) matches Ok((done, _)) ==> (done.request.token matches Some(
            token,
        ) ==> token.len() > 0 && trimmed(token) == token),
    decreases rest.len(),
{
    match enroll_option(rest) {
        OptionRead::Given { option, width } => {
            match with_enroll_option(state, option) {
                Ok(next) => {
                    match option {
                        EnrollOption::Token(token) => {
                            let text = crate::os_text::text_of(rest[1])->0;
                            crate::text::law_trim_is_idempotent(text);
                            assert(token == trimmed(text));
                        },
                        _ => {},
                    }
                    lemma_enroll_options_consistent(rest.skip(width), next);
                },
                Err(_) => {},
            }
        },
        _ => {},
    }
}

/// A command that holds together.
pub open spec fn consistent_command(command: CommandView) -> bool {
    match command {
        CommandView::Service(request) => consistent_service_request(request),
        CommandView::Enroll(request) => consistent_enroll_request(request),
        _ => true,
    }
}

proof fn lemma_command_line_consistent(rest: Seq<Seq<u8>>, state: LineState)
    requires
        consistent_command(state.command),
    ensures
        command_line(rest, state) matches Ok(parsed) ==> consistent_command(parsed.command),
    decreases rest.len(),
{
    if rest.len() > 0 {
        if is_word(rest[0], "help"@) || is_word(rest[0], "--help"@) || is_word(rest[0], "-h"@) {
            lemma_command_line_consistent(rest.skip(1), with_command(state, CommandView::Help));
        } else if is_word(rest[0], "version"@) || is_word(rest[0], "--version"@) || is_word(
            rest[0],
            "-V"@,
        ) {
            lemma_command_line_consistent(rest.skip(1), with_command(state, CommandView::Version));
        } else if is_word(rest[0], "service"@) {
            if rest.len() > 1 && action_of(rest[1]) is Some {
                let plain = plain_service_state(action_of(rest[1])->0);
                lemma_service_options_consistent(rest.skip(1).skip(1), plain);
                lemma_service_options_shrink(rest.skip(1).skip(1), plain);
            }
            if let Ok((service, left)) = service_request(rest.skip(1)) {
                if let Ok(config_dir) = merged_config_dir(state.config_dir, service.config_dir) {
                    lemma_command_line_consistent(
                        left,
                        LineState {
                            config_dir,
                            ..with_command(state, CommandView::Service(service.request))
                        },
                    );
                }
            }
        } else if is_word(rest[0], "enroll"@) {
            lemma_enroll_options_consistent(rest.skip(1), plain_enroll_state());
            lemma_enroll_options_shrink(rest.skip(1), plain_enroll_state());
            if let Ok((enroll, left)) = enroll_request(rest.skip(1)) {
                if let Ok(config_dir) = merged_config_dir(state.config_dir, enroll.config_dir) {
                    lemma_command_line_consistent(
                        left,
                        LineState {
                            config_dir,
                            ..with_command(state, CommandView::Enroll(enroll.request))
                        },
                    );
                }
            }
        } else if is_word(rest[0], "--config-dir"@) {
            if let Ok(value) = flag_value(rest, Flag::ConfigDir) {
                lemma_command_line_consistent(
                    rest.skip(2),
                    LineState { config_dir: Some(value), ..state },
                );
            }
        } else if is_word(rest[0], "--stdout"@) {
            lemma_command_line_consistent(
                rest.skip(1),
                LineState { command: CommandView::InitConfig { stdout_only: true }, ..state },
            );
        } else if is_word(rest[0], "init-config"@) {
            lemma_command_line_consistent(
                rest.skip(1),
                with_command(state, CommandView::InitConfig { stdout_only: false }),
            );
        }
    }
}

/// Every accepted command line asks for something that holds together.
pub proof fn law_accepted_commands_are_consistent(args: Seq<Seq<u8>>)
    ensures
        parsed_args(args) matches Ok(parsed) ==> consistent_command(parsed.command),
{
    lemma_command_line_consistent(args, plain_line_state());
}

/// Two commands that differ at most in where `init-config` writes to.
pub open spec fn same_command(a: CommandView, b: CommandView) -> bool {
    a == b || (a is InitConfig && b is InitConfig)
}

/// Once a command was given, no later argument makes it another one.
pub proof fn law_only_one_command(rest: Seq<Seq<u8>>, state: LineState)
    requires
        state.explicit,
    ensures
        command_line(rest, state) matches Ok(parsed) ==> same_command(
            parsed.command,
            state.command,
        ),
    decreases rest.len(),
{
    if rest.len() > 0 {
        if is_word(rest[0], "--config-dir"@) {
            if let Ok(value) = flag_value(rest, Flag::ConfigDir) {
                law_only_one_command(
                    rest.skip(2),
                    LineState { config_dir: Some(value), ..state },
                );
            }
        } else if is_word(rest[0], "--stdout"@) {
            law_only_one_command(
                rest.skip(1),
                LineState { command: CommandView::InitConfig { stdout_only: true }, ..state },
            );
        }
    }
}

/// The arguments that give a configuration directory.
pub open spec fn config_dir_args(path: Seq<u8>) -> Seq<Seq<u8>> {
    seq![encode_utf8("--config-dir"@), path]
}

pub proof fn lemma_words_differ(a: Seq<char>, b: Seq<char>)
    requires
        a.len() != b.len(),
    ensures
        !is_word(encode_utf8(a), b),
{
    lemma_encoding_determines_text(a, b);
}

pub proof fn lemma_config_dir_alone(state: LineState, path: Seq<u8>, rest: Seq<Seq<u8>>)
    requires
        !is_option_word(path),
    ensures
        command_line(config_dir_args(path) + rest, state) == command_line(
            rest,
            LineState { config_dir: Some(path), ..state },
        ),
{
    let word = "--config-dir"@;
    reveal_strlit("--config-dir");
    reveal_strlit("help");
    reveal_strlit("--help");
    reveal_strlit("-h");
    reveal_strlit("version");
    reveal_strlit("--version");
    reveal_strlit("-V");
    reveal_strlit("service");
    reveal_strlit("enroll");
    lemma_words_differ(word, "help"@);
    lemma_words_differ(word, "--help"@);
    lemma_words_differ(word, "-h"@);
    lemma_words_differ(word, "version"@);
    lemma_words_differ(word, "--version"@);
    lemma_words_differ(word, "-V"@);
    lemma_words_differ(word, "service"@);
    lemma_words_differ(word, "enroll"@);
    let all = config_dir_args(path) + rest;
    assert(all[0] == encode_utf8(word));
    assert(all[1] == path);
    assert(all.skip(2) =~= rest);
}

proof fn lemma_service_options_keep_dir(rest: Seq<Seq<u8>>, state: ServiceState)
    ensures
        service_options(rest, state) matches Ok((done, _)) ==> (state.config_dir is Some
            ==> done.config_dir is Some) && done.request.action == state.request.action,
    decreases rest.len(),
{
    match service_option(state.request.action, rest) {
        OptionRead::Given { option, width } => match with_service_option(state, option) {
            Ok(next) => lemma_service_options_keep_dir(rest.skip(width), next),
            Err(_) => {},
        },
        _ => {},
    }
}

proof fn lemma_enroll_options_keep_dir(rest: Seq<Seq<u8>>, state: EnrollState)
    ensures
        enroll_options(rest, state) matches Ok((done, _)) ==> (state.config_dir is Some
            ==> done.config_dir is Some),
    decreases rest.len(),
{
    match enroll_option(rest) {
        OptionRead::Given { option, width } => match with_enroll_option(state, option) {
            Ok(next) => lemma_enroll_options_keep_dir(rest.skip(width), next),
            Err(_) => {},
        },
        _ => {},
    }
}

/// Where the options of a service end before the arguments do, more arguments stay
/// unread; where they end with the arguments, a configuration directory that follows
/// is one of them.
proof fn lemma_service_options_append(rest: Seq<Seq<u8>>, state: ServiceState, path: Seq<u8>)
    requires
        !is_option_word(path),
        service_options(rest, state) is Ok,
        service_options(rest, state)->Ok_0.0.config_dir is None,
    ensures
        ({
            let (done, left) = service_options(rest, state)->Ok_0;
            service_options(rest + config_dir_args(path), state) == Ok::<_, ArgsErrorView>(
                if left.len() == 0 {
                    (ServiceState { config_dir: Some(path), ..done }, Seq::empty())
                } else {
                    (done, left + config_dir_args(path))
                },
            )
        }),
    decreases rest.len(),
{
    let more = config_dir_args(path);
    let all = rest + more;
    match service_option(state.request.action, rest) {
        OptionRead::End => {
            if rest.len() == 0 {
                reveal_with_fuel(service_options, 2);
                assert(all =~= more);
                assert(more.skip(2) =~= Seq::<Seq<u8>>::empty());
            } else {
                assert(all[0] == rest[0]);
            }
        },
        OptionRead::Given { option, width } => {
            assert(all[0] == rest[0]);
            if width == 2 {
                assert(all[1] == rest[1]);
            }
            assert(all.skip(width) =~= rest.skip(width) + more);
            let next = with_service_option(state, option)->Ok_0;
            lemma_service_options_append(rest.skip(width), next, path);
        },
        OptionRead::Refused(_) => {},
    }
}

proof fn lemma_enroll_options_append(rest: Seq<Seq<u8>>, state: EnrollState, path: Seq<u8>)
    requires
        !is_option_word(path),
        enroll_options(rest, state) is Ok,
        enroll_options(rest, state)->Ok_0.0.config_dir is None,
    ensures
        ({
            let (done, left) = enroll_options(rest, state)->Ok_0;
            enroll_options(rest + config_dir_args(path), state) == Ok::<_, ArgsErrorView>(
                if left.len() == 0 {
                    (EnrollState { config_dir: Some(path), ..done }, Seq::empty())
                } else {
                    (done, left + config_dir_args(path))
                },
            )
        }),
    decreases rest.len(),
{
    let more = config_dir_args(path);
    let all = rest + more;
    match enroll_option(rest) {
        OptionRead::End => {
            if rest.len() == 0 {
                reveal_with_fuel(enroll_options, 2);
                assert(all =~= more);
                assert(more.skip(2) =~= Seq::<Seq<u8>>::empty());
            } else {
                assert(all[0] == rest[0]);
            }
        },
        OptionRead::Given { option, width } => {
            assert(all[0] == rest[0]);
            if width == 2 {
                assert(all[1] == rest[1]);
            }
            assert(all.skip(width) =~= rest.skip(width) + more);
            let next = with_enroll_option(state, option)->Ok_0;
            lemma_enroll_options_append(rest.skip(width), next, path);
        },
        OptionRead::Refused(_) => {},
    }
}

/// A directory that was given stays given.
proof fn lemma_line_keeps_dir(rest: Seq<Seq<u8>>, state: LineState)
    requires
        state.config_dir is Some,
    ensures
        command_line(rest, state) matches Ok(parsed) ==> parsed.config_dir is Some,
    decreases rest.len(),
{
    if rest.len() > 0 {
        if is_word(rest[0], "help"@) || is_word(rest[0], "--help"@) || is_word(rest[0], "-h"@) {
            lemma_line_keeps_dir(rest.skip(1), with_command(state, CommandView::Help));
        } else if is_word(rest[0], "version"@) || is_word(rest[0], "--version"@) || is_word(
            rest[0],
            "-V"@,
        ) {
            lemma_line_keeps_dir(rest.skip(1), with_command(state, CommandView::Version));
        } else if is_word(rest[0], "service"@) {
            if let Ok((service, left)) = service_request(rest.skip(1)) {
                lemma_service_options_shrink(
                    rest.skip(1).skip(1),
                    plain_service_state(action_of(rest.skip(1)[0])->0),
                );
                if let Ok(config_dir) = merged_config_dir(state.config_dir, service.config_dir) {
                    lemma_line_keeps_dir(
                        left,
                        LineState {
                            config_dir,
                            ..with_command(state, CommandView::Service(service.request))
                        },
                    );
                }
            }
        } else if is_word(rest[0], "enroll"@) {
            lemma_enroll_options_shrink(rest.skip(1), plain_enroll_state());
            if let Ok((enroll, left)) = enroll_request(rest.skip(1)) {
                if let Ok(config_dir) = merged_config_dir(state.config_dir, enroll.config_dir) {
                    lemma_line_keeps_dir(
                        left,
                        LineState {
                            config_dir,
                            ..with_command(state, CommandView::Enroll(enroll.request))
                        },
                    );
                }
            }
        } else if is_word(rest[0], "--config-dir"@) {
            if let Ok(value) = flag_value(rest, Flag::ConfigDir) {
                lemma_line_keeps_dir(rest.skip(2), LineState { config_dir: Some(value), ..state });
            }
        } else if is_word(rest[0], "--stdout"@) {
            lemma_line_keeps_dir(
                rest.skip(1),
                LineState { command: CommandView::InitConfig { stdout_only: true }, ..state },
            );
        } else if is_word(rest[0], "init-config"@) {
            lemma_line_keeps_dir(
                rest.skip(1),
                with_command(state, CommandView::InitConfig { stdout_only: false }),
            );
        }
    }
}

proof fn lemma_line_without_dir(rest: Seq<Seq<u8>>, state: LineState, path: Seq<u8>)
    requires
        !is_option_word(path),
        state.config_dir is None,
        command_line(rest, state) is Ok,
        command_line(rest, state)->Ok_0.config_dir is None,
    ensures
        ({
            let wanted = Ok::<_, ArgsErrorView>(
                ParsedArgsView {
                    config_dir: Some(path),
                    ..command_line(rest, state)->Ok_0
                },
            );
            &&& command_line(rest, LineState { config_dir: Some(path), ..state }) == wanted
            &&& command_line(rest + config_dir_args(path), state) == wanted
        }),
    decreases rest.len(),
{
    let more = config_dir_args(path);
    let all = rest + more;
    let given = LineState { config_dir: Some(path), ..state };
    if rest.len() == 0 {
        assert(all =~= more + Seq::<Seq<u8>>::empty());
        lemma_config_dir_alone(state, path, Seq::empty());
    } else {
        assert(all[0] == rest[0]);
        assert(all.skip(1) =~= rest.skip(1) + more);
        if is_word(rest[0], "help"@) || is_word(rest[0], "--help"@) || is_word(rest[0], "-h"@) {
            let next = with_command(state, CommandView::Help);
            lemma_line_without_dir(rest.skip(1), next, path);
            assert(with_command(given, CommandView::Help) =~= (LineState {
                config_dir: Some(path),
                ..next
            }));
        } else if is_word(rest[0], "version"@) || is_word(rest[0], "--version"@) || is_word(
            rest[0],
            "-V"@,
        ) {
            let next = with_command(state, CommandView::Version);
            lemma_line_without_dir(rest.skip(1), next, path);
            assert(with_command(given, CommandView::Version) =~= (LineState {
                config_dir: Some(path),
                ..next
            }));
        } else if is_word(rest[0], "service"@) {
            let (service, left) = service_request(rest.skip(1))->Ok_0;
            let plain = plain_service_state(action_of(rest.skip(1)[0])->0);
            lemma_service_options_shrink(rest.skip(1).skip(1), plain);
            let config_dir = merged_config_dir(state.config_dir, service.config_dir)->Ok_0;
            let next = LineState {
                config_dir,
                ..with_command(state, CommandView::Service(service.request))
            };
            if service.config_dir is Some {
                lemma_line_keeps_dir(left, next);
                assert(false);
            }
            lemma_service_options_append(rest.skip(1).skip(1), plain, path);
            assert(all.skip(1)[0] == rest.skip(1)[0]);
            assert(all.skip(1).skip(1) =~= rest.skip(1).skip(1) + more);
            lemma_line_without_dir(left, next, path);
            if left.len() == 0 {
                assert(left + more =~= more + Seq::<Seq<u8>>::empty());
                assert(left =~= Seq::<Seq<u8>>::empty());
            }
        } else if is_word(rest[0], "enroll"@) {
            let (enroll, left) = enroll_request(rest.skip(1))->Ok_0;
            lemma_enroll_options_shrink(rest.skip(1), plain_enroll_state());
            let config_dir = merged_config_dir(state.config_dir, enroll.config_dir)->Ok_0;
            let next = LineState {
                config_dir,
                ..with_command(state, CommandView::Enroll(enroll.request))
            };
            if enroll.config_dir is Some {
                lemma_line_keeps_dir(left, next);
                assert(false);
            }
            lemma_enroll_options_append(rest.skip(1), plain_enroll_state(), path);
            lemma_line_without_dir(left, next, path);
            if left.len() == 0 {
                assert(left + more =~= more + Seq::<Seq<u8>>::empty());
                assert(left =~= Seq::<Seq<u8>>::empty());
            }
        } else if is_word(rest[0], "--config-dir"@) {
            let value = flag_value(rest, Flag::ConfigDir)->Ok_0;
            lemma_line_keeps_dir(rest.skip(2), LineState { config_dir: Some(value), ..state });
            assert(false);
        } else if is_word(rest[0], "--stdout"@) {
            let next = LineState {
                command: CommandView::InitConfig { stdout_only: true },
                ..state
            };
            lemma_line_without_dir(rest.skip(1), next, path);
        } else if is_word(rest[0], "init-config"@) {
            let next = with_command(state, CommandView::InitConfig { stdout_only: false });
            lemma_line_without_dir(rest.skip(1), next, path);
        }
    }
}

/// A command line that gives no configuration directory may be given one before its
/// first or after its last argument, with the same effect: the command stays, and the
/// directory is that one.
pub proof fn law_config_dir_goes_first_or_last(args: Seq<Seq<u8>>, path: Seq<u8>)
    requires
        !is_option_word(path),
        parsed_args(args) is Ok,
        parsed_args(args)->Ok_0.config_dir is None,
    ensures
        parsed_args(config_dir_args(path) + args) == Ok::<_, ArgsErrorView>(
            ParsedArgsView { config_dir: Some(path), ..parsed_args(args)->Ok_0 },
        ),
        parsed_args(args + config_dir_args(path)) == parsed_args(config_dir_args(path) + args),
{
    lemma_line_without_dir(args, plain_line_state(), path);
    lemma_config_dir_alone(plain_line_state(), path, args);
}

} // verus!
