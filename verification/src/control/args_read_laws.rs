//! Command lines read back: what is written for a request is read as that request.
use crate::control::args::{
    action_of, args_error_text, command_line, enroll_option, enroll_options, enroll_request,
    flag_value, is_option_word, is_word, parsed_args, plain_enroll_state, plain_line_state,
    plain_service_state, platform_of, service_option, service_options, service_request,
    token_of, with_enroll_option, with_service_option, ArgsErrorView, CommandView, EnrollOption,
    EnrollRequestView, EnrollState, Flag, LineState, ParsedArgsView, ServiceAction,
    ServiceOption, ServiceRequestView, ServiceState,
};
use crate::control::args_laws::{
    config_dir_args, consistent_enroll_request, consistent_service_request, is_service_option,
    lemma_config_dir_alone, lemma_service_options_step, lemma_words_differ,
};
use crate::os_text::{display_text, lemma_is_text};
use crate::service::{ServicePlatform, ServiceScope};
use crate::text::{lemma_encoding_determines_text, trimmed};
use crate::text_laws::{has_solid_ends, is_blank, law_trim_removes_white_space_only, starts_text};
use vstd::prelude::*;
use vstd::string::*;
use vstd::utf8::*;

verus! {

/// The argument that is a word.
pub open spec fn word(text: Seq<char>) -> Seq<u8> {
    encode_utf8(text)
}

proof fn lemma_words_differ_at(a: Seq<char>, b: Seq<char>, i: int)
    requires
        0 <= i < a.len(),
        i < b.len(),
        a[i] != b[i],
    ensures
        !is_word(encode_utf8(a), b),
{
    lemma_encoding_determines_text(a, b);
}

/// The word for an action.
pub open spec fn action_word(action: ServiceAction) -> Seq<char> {
    match action {
        ServiceAction::Print => "print"@,
        ServiceAction::Install => "install"@,
        ServiceAction::Uninstall => "uninstall"@,
        ServiceAction::Status => "status"@,
    }
}

/// The arguments for the scope of a request.
pub open spec fn scope_group(scope: ServiceScope) -> Seq<Seq<u8>> {
    match scope {
        ServiceScope::System => seq![word("--system"@)],
        ServiceScope::User => seq![word("--user"@)],
    }
}

/// The arguments for the binary of a request.
pub open spec fn bin_group(bin: Option<Seq<u8>>) -> Seq<Seq<u8>> {
    match bin {
        Some(path) => seq![word("--bin"@), path],
        None => Seq::empty(),
    }
}

/// The arguments for a switch.
pub open spec fn switch_group(on: bool, name: Seq<char>) -> Seq<Seq<u8>> {
    if on {
        seq![word(name)]
    } else {
        Seq::empty()
    }
}

/// The arguments for the platform of a request.
pub open spec fn platform_group(platform: Option<ServicePlatform>) -> Seq<Seq<u8>> {
    match platform {
        Some(ServicePlatform::Systemd) => seq![word("--for"@), word("systemd"@)],
        Some(ServicePlatform::Launchd) => seq![word("--for"@), word("launchd"@)],
        None => Seq::empty(),
    }
}

/// The arguments for the token of a request.
pub open spec fn token_group(token: Option<Seq<char>>, name: Seq<char>) -> Seq<Seq<u8>> {
    match token {
        Some(text) => seq![word(name), encode_utf8(text)],
        None => Seq::empty(),
    }
}

/// A command line for a service request.
pub open spec fn service_args(request: ServiceRequestView) -> Seq<Seq<u8>> {
    seq![word("service"@), word(action_word(request.action))] + (scope_group(request.scope) + (
    bin_group(request.bin) + (switch_group(request.force, "--force"@) + (switch_group(
        !request.activate,
        "--no-activate"@,
    ) + (platform_group(request.platform) + token_group(
        request.enrollment_token,
        "--enrollment-token"@,
    ))))))
}

proof fn lemma_service_words()
    ensures
        !is_word(word("--system"@), "--config-dir"@),
        !is_word(word("--user"@), "--config-dir"@),
        !is_word(word("--user"@), "--system"@),
        !is_word(word("--force"@), "--config-dir"@),
        !is_word(word("--force"@), "--system"@),
        !is_word(word("--force"@), "--user"@),
        !is_word(word("--no-activate"@), "--config-dir"@),
        !is_word(word("--no-activate"@), "--system"@),
        !is_word(word("--no-activate"@), "--user"@),
        !is_word(word("--no-activate"@), "--force"@),
        !is_word(word("--for"@), "--config-dir"@),
        !is_word(word("--for"@), "--system"@),
        !is_word(word("--for"@), "--user"@),
        !is_word(word("--for"@), "--force"@),
        !is_word(word("--for"@), "--no-activate"@),
        !is_word(word("--bin"@), "--config-dir"@),
        !is_word(word("--bin"@), "--system"@),
        !is_word(word("--bin"@), "--user"@),
        !is_word(word("--bin"@), "--force"@),
        !is_word(word("--bin"@), "--no-activate"@),
        !is_word(word("--bin"@), "--for"@),
        !is_word(word("--enrollment-token"@), "--config-dir"@),
        !is_word(word("--enrollment-token"@), "--system"@),
        !is_word(word("--enrollment-token"@), "--user"@),
        !is_word(word("--enrollment-token"@), "--force"@),
        !is_word(word("--enrollment-token"@), "--no-activate"@),
        !is_word(word("--enrollment-token"@), "--for"@),
        !is_word(word("--enrollment-token"@), "--bin"@),
{
    reveal_strlit("--config-dir");
    reveal_strlit("--system");
    reveal_strlit("--user");
    reveal_strlit("--force");
    reveal_strlit("--no-activate");
    reveal_strlit("--for");
    reveal_strlit("--bin");
    reveal_strlit("--enrollment-token");
    lemma_words_differ("--system"@, "--config-dir"@);
    lemma_words_differ("--user"@, "--config-dir"@);
    lemma_words_differ("--user"@, "--system"@);
    lemma_words_differ("--force"@, "--config-dir"@);
    lemma_words_differ("--force"@, "--system"@);
    lemma_words_differ("--force"@, "--user"@);
    lemma_words_differ("--no-activate"@, "--config-dir"@);
    lemma_words_differ("--no-activate"@, "--system"@);
    lemma_words_differ("--no-activate"@, "--user"@);
    lemma_words_differ("--no-activate"@, "--force"@);
    lemma_words_differ("--for"@, "--config-dir"@);
    lemma_words_differ("--for"@, "--system"@);
    lemma_words_differ("--for"@, "--user"@);
    lemma_words_differ("--for"@, "--force"@);
    lemma_words_differ("--for"@, "--no-activate"@);
    lemma_words_differ("--bin"@, "--config-dir"@);
    lemma_words_differ("--bin"@, "--system"@);
    lemma_words_differ("--bin"@, "--user"@);
    lemma_words_differ("--bin"@, "--force"@);
    lemma_words_differ("--bin"@, "--no-activate"@);
    lemma_words_differ_at("--bin"@, "--for"@, 2);
    lemma_words_differ("--enrollment-token"@, "--config-dir"@);
    lemma_words_differ("--enrollment-token"@, "--system"@);
    lemma_words_differ("--enrollment-token"@, "--user"@);
    lemma_words_differ("--enrollment-token"@, "--force"@);
    lemma_words_differ("--enrollment-token"@, "--no-activate"@);
    lemma_words_differ("--enrollment-token"@, "--for"@);
    lemma_words_differ("--enrollment-token"@, "--bin"@);
}

proof fn lemma_action_words(action: ServiceAction)
    ensures
        action_of(word(action_word(action))) == Some(action),
{
    reveal_strlit("print");
    reveal_strlit("install");
    reveal_strlit("uninstall");
    reveal_strlit("status");
    lemma_words_differ("install"@, "print"@);
    lemma_words_differ("uninstall"@, "print"@);
    lemma_words_differ("uninstall"@, "install"@);
    lemma_words_differ("status"@, "print"@);
    lemma_words_differ("status"@, "install"@);
    lemma_words_differ("status"@, "uninstall"@);
}

/// A scope is read from its word.
proof fn lemma_scope_group(action: ServiceAction, scope: ServiceScope)
    ensures
        is_service_option(action, scope_group(scope), ServiceOption::Scope(scope)),
{
    lemma_service_words();
}

proof fn lemma_bin_group(action: ServiceAction, bin: Seq<u8>)
    requires
        !is_option_word(bin),
    ensures
        is_service_option(action, bin_group(Some(bin)), ServiceOption::Bin(bin)),
{
    lemma_service_words();
}

proof fn lemma_install_switches()
    ensures
        is_service_option(
            ServiceAction::Install,
            seq![word("--force"@)],
            ServiceOption::Force,
        ),
        is_service_option(
            ServiceAction::Install,
            seq![word("--no-activate"@)],
            ServiceOption::NoActivate,
        ),
{
    lemma_service_words();
}

proof fn lemma_platform_group(platform: ServicePlatform)
    ensures
        is_service_option(
            ServiceAction::Print,
            platform_group(Some(platform)),
            ServiceOption::For(platform),
        ),
{
    lemma_service_words();
    lemma_platform_words();
}

proof fn lemma_platform_words()
    ensures
        !is_option_word(word("systemd"@)) && !is_option_word(word("linux"@)),
        !is_option_word(word("launchd"@)) && !is_option_word(word("macos"@)),
        platform_of(word("systemd"@)) == Some(ServicePlatform::Systemd),
        platform_of(word("linux"@)) == Some(ServicePlatform::Systemd),
        platform_of(word("launchd"@)) == Some(ServicePlatform::Launchd),
        platform_of(word("macos"@)) == Some(ServicePlatform::Launchd),
{
    reveal_strlit("systemd");
    reveal_strlit("linux");
    reveal_strlit("launchd");
    reveal_strlit("macos");
    lemma_words_differ_at("launchd"@, "systemd"@, 0);
    lemma_words_differ("launchd"@, "linux"@);
    lemma_words_differ("macos"@, "systemd"@);
    lemma_words_differ_at("macos"@, "linux"@, 0);
    law_values_without_a_dash_are_no_options("systemd"@);
    law_values_without_a_dash_are_no_options("linux"@);
    law_values_without_a_dash_are_no_options("launchd"@);
    law_values_without_a_dash_are_no_options("macos"@);
}

/// A value that does not start with a dash is never taken for an option.
pub proof fn law_values_without_a_dash_are_no_options(value: Seq<char>)
    requires
        value.len() > 0 ==> value[0] != '-',
    ensures
        !is_option_word(encode_utf8(value)),
{
    reveal_strlit("--help");
    reveal_strlit("-h");
    reveal_strlit("--version");
    reveal_strlit("-V");
    reveal_strlit("--stdout");
    reveal_strlit("--config-dir");
    reveal_strlit("--bin");
    reveal_strlit("--for");
    reveal_strlit("--token");
    reveal_strlit("--token-stdin");
    reveal_strlit("--enrollment-token");
    reveal_strlit("--system");
    reveal_strlit("--user");
    reveal_strlit("--force");
    reveal_strlit("--no-activate");
    lemma_encoding_determines_text(value, "--help"@);
    lemma_encoding_determines_text(value, "-h"@);
    lemma_encoding_determines_text(value, "--version"@);
    lemma_encoding_determines_text(value, "-V"@);
    lemma_encoding_determines_text(value, "--stdout"@);
    lemma_encoding_determines_text(value, "--config-dir"@);
    lemma_encoding_determines_text(value, "--bin"@);
    lemma_encoding_determines_text(value, "--for"@);
    lemma_encoding_determines_text(value, "--token"@);
    lemma_encoding_determines_text(value, "--token-stdin"@);
    lemma_encoding_determines_text(value, "--enrollment-token"@);
    lemma_encoding_determines_text(value, "--system"@);
    lemma_encoding_determines_text(value, "--user"@);
    lemma_encoding_determines_text(value, "--force"@);
    lemma_encoding_determines_text(value, "--no-activate"@);
}

/// An absolute path is never taken for an option.
pub proof fn law_absolute_paths_are_no_options(path: Seq<u8>)
    requires
        crate::paths::is_rooted(path),
    ensures
        !is_option_word(path),
{
    reveal_strlit("--help");
    reveal_strlit("-h");
    reveal_strlit("--version");
    reveal_strlit("-V");
    reveal_strlit("--stdout");
    reveal_strlit("--config-dir");
    reveal_strlit("--bin");
    reveal_strlit("--for");
    reveal_strlit("--token");
    reveal_strlit("--token-stdin");
    reveal_strlit("--enrollment-token");
    reveal_strlit("--system");
    reveal_strlit("--user");
    reveal_strlit("--force");
    reveal_strlit("--no-activate");
    is_ascii_chars_encode_utf8("--help"@);
    assert("--help"@[0] == '-');
    is_ascii_chars_encode_utf8("-h"@);
    assert("-h"@[0] == '-');
    is_ascii_chars_encode_utf8("--version"@);
    assert("--version"@[0] == '-');
    is_ascii_chars_encode_utf8("-V"@);
    assert("-V"@[0] == '-');
    is_ascii_chars_encode_utf8("--stdout"@);
    assert("--stdout"@[0] == '-');
    is_ascii_chars_encode_utf8("--config-dir"@);
    assert("--config-dir"@[0] == '-');
    is_ascii_chars_encode_utf8("--bin"@);
    assert("--bin"@[0] == '-');
    is_ascii_chars_encode_utf8("--for"@);
    assert("--for"@[0] == '-');
    is_ascii_chars_encode_utf8("--token"@);
    assert("--token"@[0] == '-');
    is_ascii_chars_encode_utf8("--token-stdin"@);
    assert("--token-stdin"@[0] == '-');
    is_ascii_chars_encode_utf8("--enrollment-token"@);
    assert("--enrollment-token"@[0] == '-');
    is_ascii_chars_encode_utf8("--system"@);
    assert("--system"@[0] == '-');
    is_ascii_chars_encode_utf8("--user"@);
    assert("--user"@[0] == '-');
    is_ascii_chars_encode_utf8("--force"@);
    assert("--force"@[0] == '-');
    is_ascii_chars_encode_utf8("--no-activate"@);
    assert("--no-activate"@[0] == '-');
}

proof fn lemma_token_group(token: Seq<char>)
    requires
        token.len() > 0,
        trimmed(token) == token,
        !is_option_word(encode_utf8(token)),
    ensures
        is_service_option(
            ServiceAction::Install,
            token_group(Some(token), "--enrollment-token"@),
            ServiceOption::EnrollmentToken(token),
        ),
        token_of(encode_utf8(token)) == Some(token),
{
    lemma_service_words();
    lemma_is_text(encode_utf8(token), token);
}

/// The state of a request of which the scope, the binary and so on up to a point are read.
spec fn read_so_far(
    request: ServiceRequestView,
    bin: bool,
    force: bool,
    activate: bool,
    platform: bool,
    token: bool,
) -> ServiceState {
    ServiceState {
        request: ServiceRequestView {
            action: request.action,
            scope: request.scope,
            platform: if platform {
                request.platform
            } else {
                None
            },
            bin: if bin {
                request.bin
            } else {
                None
            },
            force: force && request.force,
            activate: !activate || request.activate,
            enrollment_token: if token {
                request.enrollment_token
            } else {
                None
            },
        },
        config_dir: None,
    }
}

/// A service request that holds together is read from the command line that is written for
/// it: the action, the scope, the binary, the switches, the platform and the token are those
/// of the request, and no configuration directory is made up.
#[verifier::rlimit(60)]
pub proof fn law_service_requests_read_back(request: ServiceRequestView)
    requires
        consistent_service_request(request),
        request.bin matches Some(path) ==> !is_option_word(path),
        request.enrollment_token matches Some(token) ==> !is_option_word(encode_utf8(token)),
    ensures
        parsed_args(service_args(request)) == Ok::<_, ArgsErrorView>(
            ParsedArgsView { command: CommandView::Service(request), config_dir: None },
        ),
{
    let none = Seq::<Seq<u8>>::empty();
    let g6 = token_group(request.enrollment_token, "--enrollment-token"@);
    let g5 = platform_group(request.platform);
    let g4 = switch_group(!request.activate, "--no-activate"@);
    let g3 = switch_group(request.force, "--force"@);
    let g2 = bin_group(request.bin);
    let g1 = scope_group(request.scope);
    let r6 = g6;
    let r5 = g5 + r6;
    let r4 = g4 + r5;
    let r3 = g3 + r4;
    let r2 = g2 + r3;
    let r1 = g1 + r2;
    let plain = plain_service_state(request.action);
    let s1 = read_so_far(request, false, false, false, false, false);
    let s2 = read_so_far(request, true, false, false, false, false);
    let s3 = read_so_far(request, true, true, false, false, false);
    let s4 = read_so_far(request, true, true, true, false, false);
    let s5 = read_so_far(request, true, true, true, true, false);
    let s6 = read_so_far(request, true, true, true, true, true);
    let done = ServiceState { request, config_dir: None };
    assert(s6 =~= done);
    lemma_scope_group(request.action, request.scope);
    lemma_service_options_step(plain, g1, ServiceOption::Scope(request.scope), r2);
    assert(with_service_option(plain, ServiceOption::Scope(request.scope)) == Ok::<
        _,
        ArgsErrorView,
    >(s1));
    assert(service_options(r1, plain) == service_options(r2, s1));
    if let Some(path) = request.bin {
        lemma_bin_group(request.action, path);
        lemma_service_options_step(s1, g2, ServiceOption::Bin(path), r3);
    } else {
        assert(r2 =~= r3);
        assert(s1 =~= s2);
    }
    assert(service_options(r2, s1) == service_options(r3, s2));
    lemma_install_switches();
    if request.force {
        lemma_service_options_step(s2, g3, ServiceOption::Force, r4);
    } else {
        assert(r3 =~= r4);
        assert(s2 =~= s3);
    }
    assert(service_options(r3, s2) == service_options(r4, s3));
    if !request.activate {
        lemma_service_options_step(s3, g4, ServiceOption::NoActivate, r5);
    } else {
        assert(r4 =~= r5);
        assert(s3 =~= s4);
    }
    assert(service_options(r4, s3) == service_options(r5, s4));
    if let Some(platform) = request.platform {
        lemma_platform_group(platform);
        lemma_service_options_step(s4, g5, ServiceOption::For(platform), r6);
    } else {
        assert(r5 =~= r6);
        assert(s4 =~= s5);
    }
    assert(service_options(r5, s4) == service_options(r6, s5));
    if let Some(token) = request.enrollment_token {
        lemma_token_group(token);
        assert(g6 + none =~= g6);
        lemma_service_options_step(s5, g6, ServiceOption::EnrollmentToken(token), none);
    } else {
        assert(r6 =~= none);
        assert(s5 =~= s6);
    }
    assert(service_options(r6, s5) == service_options(none, s6));
    assert(service_options(none, s6) == Ok::<_, ArgsErrorView>((done, none)));
    let args = service_args(request);
    lemma_action_words(request.action);
    assert(args[0] == word("service"@));
    assert(args.skip(1)[0] == word(action_word(request.action)));
    assert(args.skip(1).skip(1) =~= r1);
    lemma_service_word();
    assert(service_request(args.skip(1)) == Ok::<_, ArgsErrorView>((done, none)));
    reveal_with_fuel(command_line, 2);
}

proof fn lemma_service_word()
    ensures
        !is_word(word("service"@), "help"@) && !is_word(word("service"@), "--help"@),
        !is_word(word("service"@), "-h"@) && !is_word(word("service"@), "version"@),
        !is_word(word("service"@), "--version"@) && !is_word(word("service"@), "-V"@),
{
    reveal_strlit("service");
    reveal_strlit("help");
    reveal_strlit("--help");
    reveal_strlit("-h");
    reveal_strlit("version");
    reveal_strlit("--version");
    reveal_strlit("-V");
    lemma_words_differ("service"@, "help"@);
    lemma_words_differ("service"@, "--help"@);
    lemma_words_differ("service"@, "-h"@);
    lemma_words_differ_at("service"@, "version"@, 0);
    lemma_words_differ("service"@, "--version"@);
    lemma_words_differ("service"@, "-V"@);
}

/// Other names of a platform mean the same one, and anything else is refused by its name.
pub proof fn law_platforms_have_two_names(name: Seq<char>)
    ensures
        name == "systemd"@ || name == "linux"@ ==> platform_of(word(name)) == Some(
            ServicePlatform::Systemd,
        ),
        name == "launchd"@ || name == "macos"@ ==> platform_of(word(name)) == Some(
            ServicePlatform::Launchd,
        ),
        name != "systemd"@ && name != "linux"@ && name != "launchd"@ && name != "macos"@
            ==> platform_of(word(name)) is None,
{
    lemma_platform_words();
    lemma_encoding_determines_text(name, "systemd"@);
    lemma_encoding_determines_text(name, "linux"@);
    lemma_encoding_determines_text(name, "launchd"@);
    lemma_encoding_determines_text(name, "macos"@);
}

/// A command line for an enroll request.
pub open spec fn enroll_args(request: EnrollRequestView) -> Seq<Seq<u8>> {
    seq![word("enroll"@)] + (token_group(request.token, "--token"@) + switch_group(
        request.token_stdin,
        "--token-stdin"@,
    ))
}

/// An enroll request that holds together is read from the command line that is written for
/// it.
pub proof fn law_enroll_requests_read_back(request: EnrollRequestView)
    requires
        consistent_enroll_request(request),
        request.token matches Some(token) ==> !is_option_word(encode_utf8(token)),
    ensures
        parsed_args(enroll_args(request)) == Ok::<_, ArgsErrorView>(
            ParsedArgsView { command: CommandView::Enroll(request), config_dir: None },
        ),
{
    let none = Seq::<Seq<u8>>::empty();
    let args = enroll_args(request);
    let rest = args.skip(1);
    let plain = plain_enroll_state();
    let done = EnrollState { request, config_dir: None };
    reveal_strlit("enroll");
    reveal_strlit("help");
    reveal_strlit("--help");
    reveal_strlit("-h");
    reveal_strlit("version");
    reveal_strlit("--version");
    reveal_strlit("-V");
    reveal_strlit("service");
    reveal_strlit("--token");
    reveal_strlit("--token-stdin");
    reveal_strlit("--config-dir");
    lemma_words_differ("enroll"@, "help"@);
    lemma_words_differ_at("enroll"@, "--help"@, 0);
    lemma_words_differ("enroll"@, "-h"@);
    lemma_words_differ("enroll"@, "version"@);
    lemma_words_differ("enroll"@, "--version"@);
    lemma_words_differ("enroll"@, "-V"@);
    lemma_words_differ("enroll"@, "service"@);
    lemma_words_differ("--token"@, "--config-dir"@);
    lemma_words_differ("--token-stdin"@, "--config-dir"@);
    lemma_words_differ("--token-stdin"@, "--token"@);
    assert(args[0] == word("enroll"@));
    reveal_with_fuel(enroll_options, 2);
    if let Some(token) = request.token {
        lemma_is_text(encode_utf8(token), token);
        assert(rest =~= seq![word("--token"@), encode_utf8(token)]);
        assert(rest.skip(2) =~= none);
        assert(with_enroll_option(plain, EnrollOption::Token(token))->Ok_0 =~= done);
    } else if request.token_stdin {
        assert(rest =~= seq![word("--token-stdin"@)]);
        assert(rest.skip(1) =~= none);
        assert(with_enroll_option(plain, EnrollOption::TokenStdin)->Ok_0 =~= done);
    } else {
        assert(rest =~= none);
        assert(plain =~= done);
    }
    assert(enroll_request(rest) == Ok::<_, ArgsErrorView>((done, none)));
    reveal_with_fuel(command_line, 2);
}

/// The commands without options: each of their names asks for them, and no arguments ask for
/// the daemon to be run.
pub proof fn law_plain_commands_read_back(name: Seq<char>)
    ensures
        name == "help"@ || name == "--help"@ || name == "-h"@ ==> parsed_args(seq![word(name)])
            == Ok::<_, ArgsErrorView>(
            ParsedArgsView { command: CommandView::Help, config_dir: None },
        ),
        name == "version"@ || name == "--version"@ || name == "-V"@ ==> parsed_args(
            seq![word(name)],
        ) == Ok::<_, ArgsErrorView>(
            ParsedArgsView { command: CommandView::Version, config_dir: None },
        ),
        name == "init-config"@ ==> parsed_args(seq![word(name)]) == Ok::<_, ArgsErrorView>(
            ParsedArgsView {
                command: CommandView::InitConfig { stdout_only: false },
                config_dir: None,
            },
        ),
        name == "init-config"@ ==> parsed_args(seq![word(name), word("--stdout"@)]) == Ok::<
            _,
            ArgsErrorView,
        >(
            ParsedArgsView {
                command: CommandView::InitConfig { stdout_only: true },
                config_dir: None,
            },
        ),
        parsed_args(Seq::empty()) == Ok::<_, ArgsErrorView>(
            ParsedArgsView { command: CommandView::Run, config_dir: None },
        ),
{
    lemma_line_words();
    reveal_with_fuel(command_line, 3);
    let one = seq![word(name)];
    assert(one.skip(1) =~= Seq::<Seq<u8>>::empty());
    let two = seq![word(name), word("--stdout"@)];
    assert(two.skip(1) =~= seq![word("--stdout"@)]);
    assert(two.skip(1).skip(1) =~= Seq::<Seq<u8>>::empty());
}

proof fn lemma_line_words()
    ensures
        !is_word(word("version"@), "help"@),
        !is_word(word("version"@), "--help"@),
        !is_word(word("version"@), "-h"@),
        !is_word(word("--version"@), "help"@),
        !is_word(word("--version"@), "--help"@),
        !is_word(word("--version"@), "-h"@),
        !is_word(word("-V"@), "help"@),
        !is_word(word("-V"@), "--help"@),
        !is_word(word("-V"@), "-h"@),
        !is_word(word("--stdout"@), "help"@),
        !is_word(word("--stdout"@), "--help"@),
        !is_word(word("--stdout"@), "-h"@),
        !is_word(word("--stdout"@), "version"@),
        !is_word(word("--stdout"@), "--version"@),
        !is_word(word("--stdout"@), "-V"@),
        !is_word(word("--stdout"@), "service"@),
        !is_word(word("--stdout"@), "enroll"@),
        !is_word(word("--stdout"@), "--config-dir"@),
        !is_word(word("init-config"@), "help"@),
        !is_word(word("init-config"@), "--help"@),
        !is_word(word("init-config"@), "-h"@),
        !is_word(word("init-config"@), "version"@),
        !is_word(word("init-config"@), "--version"@),
        !is_word(word("init-config"@), "-V"@),
        !is_word(word("init-config"@), "service"@),
        !is_word(word("init-config"@), "enroll"@),
        !is_word(word("init-config"@), "--config-dir"@),
        !is_word(word("init-config"@), "--stdout"@),
{
    reveal_strlit("help");
    reveal_strlit("--help");
    reveal_strlit("-h");
    reveal_strlit("version");
    reveal_strlit("--version");
    reveal_strlit("-V");
    reveal_strlit("service");
    reveal_strlit("enroll");
    reveal_strlit("--config-dir");
    reveal_strlit("--stdout");
    reveal_strlit("init-config");
    lemma_words_differ("version"@, "help"@);
    lemma_words_differ("version"@, "--help"@);
    lemma_words_differ("version"@, "-h"@);
    lemma_words_differ("--version"@, "help"@);
    lemma_words_differ("--version"@, "--help"@);
    lemma_words_differ("--version"@, "-h"@);
    lemma_words_differ("-V"@, "help"@);
    lemma_words_differ("-V"@, "--help"@);
    lemma_words_differ_at("-V"@, "-h"@, 1);
    lemma_words_differ("--stdout"@, "help"@);
    lemma_words_differ("--stdout"@, "--help"@);
    lemma_words_differ("--stdout"@, "-h"@);
    lemma_words_differ("--stdout"@, "version"@);
    lemma_words_differ("--stdout"@, "--version"@);
    lemma_words_differ("--stdout"@, "-V"@);
    lemma_words_differ("--stdout"@, "service"@);
    lemma_words_differ("--stdout"@, "enroll"@);
    lemma_words_differ("--stdout"@, "--config-dir"@);
    lemma_words_differ("init-config"@, "help"@);
    lemma_words_differ("init-config"@, "--help"@);
    lemma_words_differ("init-config"@, "-h"@);
    lemma_words_differ("init-config"@, "version"@);
    lemma_words_differ("init-config"@, "--version"@);
    lemma_words_differ("init-config"@, "-V"@);
    lemma_words_differ("init-config"@, "service"@);
    lemma_words_differ("init-config"@, "enroll"@);
    lemma_words_differ("init-config"@, "--config-dir"@);
    lemma_words_differ("init-config"@, "--stdout"@);
}

/// An argument that is none of the words of the command line.
pub open spec fn is_unknown(arg: Seq<u8>) -> bool {
    &&& arg != word("help"@)
    &&& arg != word("--help"@)
    &&& arg != word("-h"@)
    &&& arg != word("version"@)
    &&& arg != word("--version"@)
    &&& arg != word("-V"@)
    &&& arg != word("service"@)
    &&& arg != word("enroll"@)
    &&& arg != word("--config-dir"@)
    &&& arg != word("--stdout"@)
    &&& arg != word("init-config"@)
}

/// An argument that means nothing is refused by its name, wherever a command or an option
/// is expected.
pub proof fn law_unknown_arguments_are_refused(arg: Seq<u8>, rest: Seq<Seq<u8>>, state: LineState)
    requires
        is_unknown(arg),
    ensures
        command_line(seq![arg] + rest, state) == Err::<ParsedArgsView, _>(
            ArgsErrorView::UnknownArgument(arg),
        ),
{
    assert((seq![arg] + rest)[0] == arg);
}

/// A service needs an action that is known.
pub proof fn law_unknown_actions_are_refused(arg: Seq<u8>, rest: Seq<Seq<u8>>)
    ensures
        service_request(Seq::empty()) == Err::<(ServiceState, Seq<Seq<u8>>), _>(
            ArgsErrorView::MissingServiceAction,
        ),
        arg != word("print"@) && arg != word("install"@) && arg != word("uninstall"@) && arg
            != word("status"@) ==> service_request(seq![arg] + rest) == Err::<
            (ServiceState, Seq<Seq<u8>>),
            _,
        >(ArgsErrorView::UnknownServiceAction(arg)),
{
    assert((seq![arg] + rest)[0] == arg);
}

/// What follows an option that needs a value is its value, unless it looks like an option or
/// nothing follows: then the value is missing, and the option is named.
pub proof fn law_options_need_their_values(value: Seq<u8>, rest: Seq<Seq<u8>>, flag: Flag)
    ensures
        flag_value(seq![word(flag.text())], flag) == Err::<Seq<u8>, _>(
            ArgsErrorView::MissingValue(flag),
        ),
        is_option_word(value) ==> flag_value(seq![word(flag.text()), value] + rest, flag) == Err::<
            Seq<u8>,
            _,
        >(ArgsErrorView::MissingValue(flag)),
        !is_option_word(value) ==> flag_value(seq![word(flag.text()), value] + rest, flag) == Ok::<
            _,
            ArgsErrorView,
        >(value),
{
    assert((seq![word(flag.text()), value] + rest)[1] == value);
}

/// Every option that an error can name is one that is never taken for a value.
pub proof fn law_named_options_are_options(flag: Flag)
    ensures
        is_option_word(word(flag.text())),
{
}

/// No word that some command takes for an option is ever taken for a value.
pub proof fn law_options_are_no_values(action: ServiceAction, arg: Seq<u8>, rest: Seq<Seq<u8>>)
    ensures
        !(service_option(action, seq![arg] + rest) is End) ==> is_option_word(arg),
        !(enroll_option(seq![arg] + rest) is End) ==> is_option_word(arg),
{
    assert((seq![arg] + rest)[0] == arg);
}

/// Where an option of `service` is given twice, the last one counts; a switch that is given
/// twice is on.
pub proof fn law_the_last_option_counts(state: ServiceState, first: ServiceOption, last: ServiceOption)
    requires
        first is Scope && last is Scope || first is Bin && last is Bin || first is For && last
            is For || first is EnrollmentToken && last is EnrollmentToken || first is Force && last
            is Force || first is NoActivate && last is NoActivate,
    ensures
        with_service_option(state, first) matches Ok(next) && with_service_option(next, last)
            == with_service_option(state, last),
{
}

/// Outside a subcommand, the last configuration directory counts.
pub proof fn law_the_last_directory_counts(
    first: Seq<u8>,
    last: Seq<u8>,
    rest: Seq<Seq<u8>>,
)
    requires
        !is_option_word(first),
        !is_option_word(last),
    ensures
        parsed_args(config_dir_args(first) + (config_dir_args(last) + rest)) == parsed_args(
            config_dir_args(last) + rest,
        ),
{
    let plain = plain_line_state();
    lemma_config_dir_alone(plain, first, config_dir_args(last) + rest);
    lemma_config_dir_alone(plain, last, rest);
    lemma_config_dir_alone(LineState { config_dir: Some(first), ..plain }, last, rest);
}

/// A directory that is given before a subcommand and another one among its options are in
/// conflict, and both are named.
pub proof fn law_directories_must_agree(dir: Seq<u8>, rest: Seq<Seq<u8>>)
    requires
        !is_option_word(dir),
        service_request(rest) is Ok,
        service_request(rest)->Ok_0.0.config_dir is Some,
        !crate::paths::same_path(dir, service_request(rest)->Ok_0.0.config_dir->0),
    ensures
        parsed_args(config_dir_args(dir) + (seq![word("service"@)] + rest)) == Err::<
            ParsedArgsView,
            _,
        >(
            ArgsErrorView::ConflictingConfigDir(
                dir,
                service_request(rest)->Ok_0.0.config_dir->0,
            ),
        ),
{
    lemma_config_dir_alone(plain_line_state(), dir, seq![word("service"@)] + rest);
    lemma_service_word();
    let line = seq![word("service"@)] + rest;
    assert(line[0] == word("service"@));
    assert(line.skip(1) =~= rest);
}

/// The sentence on a refused command line names what it is about: the argument, the action
/// or the platform that is not known, the option that lacks its value or stands with the
/// wrong action, and both directories of a conflict.
pub proof fn law_refusals_name_what_they_are_about(err: ArgsErrorView)
    ensures
        match err {
            ArgsErrorView::UnknownArgument(arg) => starts_text(
                args_error_text(err),
                "unknown argument or command: "@ + display_text(arg) + " "@,
            ),
            ArgsErrorView::UnknownServiceAction(arg) => starts_text(
                args_error_text(err),
                "unknown service action: "@ + display_text(arg) + " "@,
            ),
            ArgsErrorView::UnknownPlatform(arg) => starts_text(
                args_error_text(err),
                "unknown platform for --for: "@ + display_text(arg) + " "@,
            ),
            ArgsErrorView::MissingValue(flag) => args_error_text(err) == "missing value for "@
                + flag.text(),
            ArgsErrorView::OnlyWithInstall(flag) => starts_text(
                args_error_text(err),
                flag.text() + " is only supported with "@,
            ),
            ArgsErrorView::ConflictingConfigDir(a, b) => args_error_text(err)
                == "conflicting --config-dir: "@ + display_text(a) + " vs "@ + display_text(b),
            _ => true,
        },
{
    reveal_strlit(" ");
    let text = args_error_text(err);
    match err {
        ArgsErrorView::UnknownArgument(arg) => {
            reveal_strlit(
                " (supported: help | version | init-config [--stdout] | service <print|install|uninstall|status> | --config-dir <path>)",
            );
            let head = "unknown argument or command: "@ + display_text(arg) + " "@;
            assert(text.take(head.len() as int) =~= head);
        },
        ArgsErrorView::UnknownServiceAction(arg) => {
            reveal_strlit(" (supported: ");
            let head = "unknown service action: "@ + display_text(arg) + " "@;
            assert(text.take(head.len() as int) =~= head);
        },
        ArgsErrorView::UnknownPlatform(arg) => {
            reveal_strlit(" (supported: systemd | launchd)");
            let head = "unknown platform for --for: "@ + display_text(arg) + " "@;
            assert(text.take(head.len() as int) =~= head);
        },
        ArgsErrorView::OnlyWithInstall(flag) => {
            reveal_strlit(" is only supported with `service install`");
            reveal_strlit(" is only supported with ");
            let head = flag.text() + " is only supported with "@;
            assert(text.take(head.len() as int) =~= head);
        },
        _ => {},
    }
}

/// Once a command was given, another one is refused, whichever it is; and what only goes
/// with the writing of a configuration is refused without it.
pub proof fn law_second_commands_are_refused(
    name: Seq<char>,
    rest: Seq<Seq<u8>>,
    state: LineState,
)
    ensures
        state.explicit && (name == "help"@ || name == "--help"@ || name == "-h"@ || name
            == "version"@ || name == "--version"@ || name == "-V"@ || name == "service"@ || name
            == "enroll"@ || name == "init-config"@) ==> command_line(
            seq![word(name)] + rest,
            state,
        ) is Err,
        name == "--stdout"@ && !(state.command is InitConfig) ==> command_line(
            seq![word(name)] + rest,
            state,
        ) == Err::<ParsedArgsView, _>(ArgsErrorView::StdoutWithoutInitConfig),
{
    lemma_line_words();
    assert((seq![word(name)] + rest)[0] == word(name));
}

/// The options of the command line are these, and no other text is taken for an option.
pub proof fn law_these_are_the_options(name: Seq<char>)
    ensures
        is_option_word(word(name)) <==> {
            ||| name == "--help"@
            ||| name == "-h"@
            ||| name == "--version"@
            ||| name == "-V"@
            ||| name == "--stdout"@
            ||| name == "--config-dir"@
            ||| name == "--bin"@
            ||| name == "--for"@
            ||| name == "--token"@
            ||| name == "--token-stdin"@
            ||| name == "--enrollment-token"@
            ||| name == "--system"@
            ||| name == "--user"@
            ||| name == "--force"@
            ||| name == "--no-activate"@
        },
{
    lemma_encoding_determines_text(name, "--help"@);
    lemma_encoding_determines_text(name, "-h"@);
    lemma_encoding_determines_text(name, "--version"@);
    lemma_encoding_determines_text(name, "-V"@);
    lemma_encoding_determines_text(name, "--stdout"@);
    lemma_encoding_determines_text(name, "--config-dir"@);
    lemma_encoding_determines_text(name, "--bin"@);
    lemma_encoding_determines_text(name, "--for"@);
    lemma_encoding_determines_text(name, "--token"@);
    lemma_encoding_determines_text(name, "--token-stdin"@);
    lemma_encoding_determines_text(name, "--enrollment-token"@);
    lemma_encoding_determines_text(name, "--system"@);
    lemma_encoding_determines_text(name, "--user"@);
    lemma_encoding_determines_text(name, "--force"@);
    lemma_encoding_determines_text(name, "--no-activate"@);
}

/// A token is the text of its argument without the white space around it; a blank one and
/// one that is not UTF-8 are none.
pub proof fn law_tokens_are_trimmed(
    front: Seq<char>,
    kept: Seq<char>,
    back: Seq<char>,
    bytes: Seq<u8>,
)
    requires
        is_blank(front),
        is_blank(back),
        has_solid_ends(kept),
    ensures
        kept.len() > 0 ==> token_of(encode_utf8(front + kept + back)) == Some(kept),
        kept.len() == 0 ==> token_of(encode_utf8(front + kept + back)) is None,
        !valid_utf8(bytes) ==> token_of(bytes) is None,
{
    lemma_is_text(encode_utf8(front + kept + back), front + kept + back);
    law_trim_removes_white_space_only(front, kept, back);
}

/// A service request without options is for the whole host, takes nothing over, replaces
/// nothing, and is activated.
pub proof fn law_services_are_for_the_host_by_default(action: ServiceAction)
    ensures
        parsed_args(seq![word("service"@), word(action_word(action))]) == Ok::<_, ArgsErrorView>(
            ParsedArgsView {
                command: CommandView::Service(
                    ServiceRequestView {
                        action,
                        scope: ServiceScope::System,
                        platform: None,
                        bin: None,
                        force: false,
                        activate: true,
                        enrollment_token: None,
                    },
                ),
                config_dir: None,
            },
        ),
{
    let args = seq![word("service"@), word(action_word(action))];
    let none = Seq::<Seq<u8>>::empty();
    lemma_service_word();
    lemma_action_words(action);
    assert(args.skip(1)[0] == word(action_word(action)));
    assert(args.skip(1).skip(1) =~= none);
    assert(service_options(none, plain_service_state(action)) == Ok::<_, ArgsErrorView>(
        (plain_service_state(action), none),
    ));
    assert(service_request(args.skip(1)) == Ok::<_, ArgsErrorView>(
        (plain_service_state(action), none),
    ));
    reveal_with_fuel(command_line, 2);
}

} // verus!
