//! What holds of every start of the program and of the daemon.
use crate::config::model::AgentConfigView;
use crate::config::template::DEFAULT_FILE_CONFIG;
use crate::control::args::{
    args_error_text, is_option_word, parsed_args, CommandView, EnrollRequestView, ParsedArgsView,
    ServiceRequestView,
};
use crate::control::args_laws::{
    config_dir_args, consistent_enroll_request, consistent_service_request,
    law_config_dir_goes_first_or_last,
};
use crate::control::args_read_laws::{
    enroll_args, law_absolute_paths_are_no_options, law_enroll_requests_read_back,
    law_plain_commands_read_back, law_service_requests_read_back, service_args, word,
};
use crate::control::daemon_flow::{
    daemon_lines, daemon_next, planned_daemon, DaemonEvent, DaemonPlanView,
};
use crate::control::messages::starting_line;
use crate::control::runtime_entry::{entry_action, program_action, EntryActionView};
use crate::error::{AgentdErrorView, AgentdReason};
use crate::os_text::{display_text, lemma_is_text, text_of};
use crate::path_step_laws::{
    law_absolute_paths_stand_alone, law_join_appends_a_name, lemma_below_text, lemma_name_text,
    lemma_top_text,
};
use crate::paths::{components, is_rooted, joined_path, Component};
use crate::single_instance::{lock_error, lock_file, LockAttempt};
use crate::text_laws::{holds_text, lemma_holds_between};
use vstd::prelude::*;
use vstd::string::*;
use vstd::utf8::*;

verus! {

/// Whether an action works with a configuration directory.
pub open spec fn works_with(action: EntryActionView, dir: Seq<u8>) -> bool {
    match action {
        EntryActionView::RunDaemon(own) => own == dir,
        EntryActionView::InitConfig(own) => own == dir,
        EntryActionView::Enroll { config_root, .. } => config_root == dir,
        _ => false,
    }
}

/// The commands that work with a configuration directory themselves.
pub open spec fn needs_directory(command: CommandView) -> bool {
    match command {
        CommandView::Run => true,
        CommandView::InitConfig { stdout_only } => !stdout_only,
        CommandView::Enroll(_) => true,
        _ => false,
    }
}

/// The configuration directory of the host, as components.
pub open spec fn is_host_directory(dir: Seq<u8>) -> bool {
    components(dir) == seq![
        Component::Root,
        Component::Normal(encode_utf8("etc"@)),
        Component::Normal(encode_utf8("wist-agentd"@)),
    ]
}

/// The daemon, the writing of a configuration and an enrollment all work with the directory
/// that was given: as it is where it is absolute, and otherwise from the working directory.
/// Only where none was given they work with that of the host, whatever the working directory
/// is.
pub proof fn law_a_given_directory_is_used(
    root: Seq<u8>,
    parsed: ParsedArgsView,
    version: Seq<char>,
)
    requires
        needs_directory(parsed.command),
    ensures
        parsed.config_dir matches Some(path) ==> works_with(
            entry_action(root, parsed, version),
            joined_path(root, path),
        ),
        parsed.config_dir matches Some(path) ==> is_rooted(path) ==> works_with(
            entry_action(root, parsed, version),
            path,
        ),
        parsed.config_dir is None ==> exists|dir: Seq<u8>|
            is_host_directory(dir) && #[trigger] works_with(
                entry_action(root, parsed, version),
                dir,
            ),
        parsed.config_dir is None ==> entry_action(root, parsed, version) == entry_action(
            Seq::empty(),
            parsed,
            version,
        ),
{
    if let Some(path) = parsed.config_dir {
        if is_rooted(path) {
            law_absolute_paths_stand_alone(root, path);
        }
    } else {
        reveal_strlit("etc");
        reveal_strlit("wist-agentd");
        reveal_strlit("/etc/wist-agentd");
        let slash = seq!['/'];
        let top = slash + "etc"@;
        lemma_top_text("etc"@);
        assert(top.last() == "etc"@.last());
        lemma_below_text(top, "wist-agentd"@);
        assert("/etc/wist-agentd"@ =~= top + slash + "wist-agentd"@);
        let dir = encode_utf8("/etc/wist-agentd"@);
        assert(components(dir) =~= seq![
            Component::Root,
            Component::Normal(encode_utf8("etc"@)),
            Component::Normal(encode_utf8("wist-agentd"@)),
        ]);
        assert(is_host_directory(dir));
        assert(works_with(entry_action(root, parsed, version), dir));
    }
}

/// Each command leads to what it asks for: the daemon is run, a configuration is written, an
/// enrollment is made with the request as it is, a service is managed with the request and
/// the directory as they are, and the other commands only print: the version behind the
/// name of the program, and the default configuration as a whole.
pub proof fn law_commands_lead_to_what_they_ask_for(
    root: Seq<u8>,
    parsed: ParsedArgsView,
    version: Seq<char>,
)
    ensures
        match (parsed.command, entry_action(root, parsed, version)) {
            (CommandView::Help, EntryActionView::Print(_)) => true,
            (CommandView::Version, EntryActionView::PrintLine(text)) => text == "wist-agentd "@
                + version,
            (CommandView::Run, EntryActionView::RunDaemon(_)) => true,
            (
                CommandView::InitConfig { stdout_only },
                EntryActionView::Print(text),
            ) => stdout_only && text == DEFAULT_FILE_CONFIG@,
            (CommandView::InitConfig { stdout_only }, EntryActionView::InitConfig(_)) => {
                !stdout_only
            },
            (
                CommandView::Service(request),
                EntryActionView::Service { config_dir, request: own },
            ) => own == request && config_dir == parsed.config_dir,
            (CommandView::Enroll(request), EntryActionView::Enroll { request: own, .. }) => own
                == request,
            _ => false,
        },
{
}

/// What a service definition runs starts the daemon with the directory that the definition
/// names: from any working directory, the arguments `--config-dir` and an absolute path lead
/// to the daemon with that path. Without arguments the daemon is run with the directory of
/// the host.
pub proof fn law_installed_daemons_use_their_directory(
    root: Seq<u8>,
    dir: Seq<u8>,
    version: Seq<char>,
)
    requires
        is_rooted(dir),
    ensures
        program_action(root, seq![encode_utf8("--config-dir"@), dir], version) == Ok::<
            _,
            AgentdErrorView,
        >(EntryActionView::RunDaemon(dir)),
        program_action(root, Seq::empty(), version) matches Ok(EntryActionView::RunDaemon(host))
            && is_host_directory(host),
{
    law_absolute_paths_are_no_options(dir);
    law_plain_commands_read_back(Seq::empty());
    let none = Seq::<Seq<u8>>::empty();
    law_config_dir_goes_first_or_last(none, dir);
    assert(config_dir_args(dir) + none =~= config_dir_args(dir));
    let parsed = parsed_args(config_dir_args(dir))->Ok_0;
    law_a_given_directory_is_used(root, parsed, version);
    law_commands_lead_to_what_they_ask_for(root, parsed, version);
    law_a_given_directory_is_used(root, parsed_args(none)->Ok_0, version);
    law_commands_lead_to_what_they_ask_for(root, parsed_args(none)->Ok_0, version);
}

/// A configuration directory that is given before or after any command line without one is
/// the one that is worked with, from the working directory where it is relative.
pub proof fn law_directories_may_be_given_first_or_last(
    root: Seq<u8>,
    args: Seq<Seq<u8>>,
    dir: Seq<u8>,
    version: Seq<char>,
)
    requires
        !is_option_word(dir),
        parsed_args(args) is Ok,
        parsed_args(args)->Ok_0.config_dir is None,
        needs_directory(parsed_args(args)->Ok_0.command),
    ensures
        program_action(root, config_dir_args(dir) + args, version) matches Ok(action)
            && works_with(action, joined_path(root, dir)),
        program_action(root, args + config_dir_args(dir), version) == program_action(
            root,
            config_dir_args(dir) + args,
            version,
        ),
{
    law_config_dir_goes_first_or_last(args, dir);
    let parsed = parsed_args(config_dir_args(dir) + args)->Ok_0;
    law_a_given_directory_is_used(root, parsed, version);
}

/// The words after the name of the program lead to what they ask for: each name of a command
/// to that command, and a written request to that request.
pub proof fn law_command_lines_lead_to_what_they_ask_for(
    root: Seq<u8>,
    name: Seq<char>,
    service: ServiceRequestView,
    enroll: EnrollRequestView,
    version: Seq<char>,
)
    requires
        consistent_service_request(service),
        service.bin matches Some(path) ==> !is_option_word(path),
        service.enrollment_token matches Some(token) ==> !is_option_word(encode_utf8(token)),
        consistent_enroll_request(enroll),
        enroll.token matches Some(token) ==> !is_option_word(encode_utf8(token)),
    ensures
        name == "help"@ || name == "--help"@ || name == "-h"@ ==> program_action(
            root,
            seq![word(name)],
            version,
        ) matches Ok(EntryActionView::Print(_)),
        name == "version"@ || name == "--version"@ || name == "-V"@ ==> program_action(
            root,
            seq![word(name)],
            version,
        ) == Ok::<_, AgentdErrorView>(EntryActionView::PrintLine("wist-agentd "@ + version)),
        name == "init-config"@ ==> (program_action(root, seq![word(name)], version) matches Ok(
            EntryActionView::InitConfig(dir),
        ) && is_host_directory(dir)),
        program_action(root, service_args(service), version) == Ok::<_, AgentdErrorView>(
            EntryActionView::Service { config_dir: None, request: service },
        ),
        program_action(root, enroll_args(enroll), version) matches Ok(EntryActionView::Enroll {
            config_root,
            request,
        }) && request == enroll && is_host_directory(config_root),
{
    law_plain_commands_read_back(name);
    law_service_requests_read_back(service);
    law_enroll_requests_read_back(enroll);
    let init = ParsedArgsView {
        command: CommandView::InitConfig { stdout_only: false },
        config_dir: None,
    };
    law_a_given_directory_is_used(root, init, version);
    law_a_given_directory_is_used(
        root,
        ParsedArgsView { command: CommandView::Enroll(enroll), config_dir: None },
        version,
    );
}

/// A command line that is refused does nothing but tell why.
pub proof fn law_refused_command_lines_do_nothing(
    root: Seq<u8>,
    args: Seq<Seq<u8>>,
    version: Seq<char>,
)
    ensures
        program_action(root, args, version) is Err <==> parsed_args(args) is Err,
        program_action(root, args, version) matches Err(e) ==> e.reason == AgentdReason::InvalidArgs
            && e.detail == Some(args_error_text(parsed_args(args)->Err_0)),
{
}

/// A daemon works with the directories that its configuration names, each in its own place,
/// with the file `agentd.toml` in its configuration directory, and under a control plane
/// exactly where that is turned on.
pub proof fn law_daemons_work_where_they_are_told(config_root: Seq<u8>, config: AgentConfigView)
    ensures
        ({
            let plan = planned_daemon(config_root, config);
            &&& text_of(plan.root_dir) == Some(config.paths.root_dir)
            &&& text_of(plan.run_dir) == Some(config.paths.run_dir)
            &&& text_of(plan.state_dir) == Some(config.paths.state_dir)
            &&& text_of(plan.log_dir) == Some(config.paths.log_dir)
            &&& components(plan.config_path) == components(config_root).push(
                Component::Normal(encode_utf8("agentd.toml"@)),
            )
            &&& plan.managed == config.control_plane.enabled
        }),
{
    lemma_is_text(encode_utf8(config.paths.root_dir), config.paths.root_dir);
    lemma_is_text(encode_utf8(config.paths.run_dir), config.paths.run_dir);
    lemma_is_text(encode_utf8(config.paths.state_dir), config.paths.state_dir);
    lemma_is_text(encode_utf8(config.paths.log_dir), config.paths.log_dir);
    reveal_strlit("agentd.toml");
    lemma_name_text("agentd.toml"@);
    law_join_appends_a_name(config_root, encode_utf8("agentd.toml"@));
}

/// A step of the start that failed ends it: without the lock, without directories, without
/// the runtime state and without the executor there is an error with a reason of its own,
/// and an error of the enrollment is handed on as it is.
pub proof fn law_failed_steps_end_the_start(plan: DaemonPlanView, once: bool, event: DaemonEvent)
    ensures
        match event {
            DaemonEvent::Begin => daemon_next(plan, once, event) is Ok,
            DaemonEvent::LockTried(attempt) => match daemon_next(plan, once, event) {
                Ok(_) => attempt == LockAttempt::Taken,
                Err(e) => attempt != LockAttempt::Taken && (attempt == LockAttempt::Held <==> e.reason
                    == AgentdReason::AlreadyRunning) && (attempt != LockAttempt::Held ==> e.reason
                    == AgentdReason::SystemError),
            },
            DaemonEvent::DirectoriesMade(done) | DaemonEvent::StateInitialized(done) => {
                match daemon_next(plan, once, event) {
                    Ok(_) => done,
                    Err(e) => !done && e.reason == AgentdReason::SystemError,
                }
            },
            DaemonEvent::EnrollmentEnded(result) => match (result, daemon_next(plan, once, event)) {
                (Ok(_), Ok(_)) => true,
                (Err(given), Err(e)) => e == given@,
                _ => false,
            },
            DaemonEvent::ExecBinResolved(found) => match daemon_next(plan, once, event) {
                Ok(_) => found is Some,
                Err(e) => found is None && e.reason == AgentdReason::ExecBinUnavailable,
            },
        },
{
}

/// The lock of a daemon lies in its state directory, under a name that no two directories
/// share: two daemons have the same lock only where they have the same state directory.
pub proof fn law_locks_lie_in_the_state_directory(state_dir: Seq<u8>, other: Seq<u8>)
    ensures
        components(lock_file(state_dir)) == components(state_dir).push(
            Component::Normal(encode_utf8(".agentd.lock"@)),
        ),
        lock_file(state_dir) == lock_file(other) ==> components(state_dir) == components(other),
{
    reveal_strlit(".agentd.lock");
    lemma_name_text(".agentd.lock"@);
    let name = encode_utf8(".agentd.lock"@);
    law_join_appends_a_name(state_dir, name);
    law_join_appends_a_name(other, name);
    if lock_file(state_dir) == lock_file(other) {
        assert(components(state_dir) =~= components(lock_file(state_dir)).drop_last());
        assert(components(other) =~= components(lock_file(other)).drop_last());
    }
}

/// An error of the lock says what went wrong: which lock another daemon holds, and which one
/// could not be taken and why.
pub proof fn law_lock_errors_name_the_lock(state_dir: Seq<u8>, attempt: LockAttempt)
    ensures
        attempt == LockAttempt::Held ==> (lock_error(state_dir, attempt) matches Some(e)
            && e.detail matches Some(text) && holds_text(text, display_text(lock_file(state_dir)))),
        attempt matches LockAttempt::Failed(cause) ==> (lock_error(state_dir, attempt) matches Some(e)
            && e.detail matches Some(text) && holds_text(text, display_text(lock_file(state_dir)))
            && holds_text(text, cause@)),
{
    let shown = display_text(lock_file(state_dir));
    match attempt {
        LockAttempt::Held => {
            lemma_holds_between(
                "another wist-agentd instance is already running (lock file: "@,
                shown,
                ")"@,
            );
        },
        LockAttempt::Failed(cause) => {
            let text = "lock instance file "@ + shown + ": "@ + cause@;
            assert(text =~= "lock instance file "@ + shown + (": "@ + cause@));
            lemma_holds_between("lock instance file "@, shown, ": "@ + cause@);
            assert(text =~= "lock instance file "@ + shown + ": "@ + cause@ + Seq::<char>::empty());
            lemma_holds_between("lock instance file "@ + shown + ": "@, cause@, Seq::empty());
        },
        _ => {},
    }
}

/// The line of a starting daemon is its own label, the version, and then what it works with:
/// each field behind its key, in this order and with nothing between them.
pub proof fn law_starting_daemons_say_where_they_work(
    version: Seq<char>,
    config_path: Seq<u8>,
    managed: bool,
    run_dir: Seq<u8>,
    state_dir: Seq<u8>,
    log_dir: Seq<u8>,
)
    ensures
        ({
            let line = starting_line(version, config_path, managed, run_dir, state_dir, log_dir);
            &&& holds_text(line, " config="@ + display_text(config_path) + " mode="@)
            &&& managed ==> holds_text(line, " mode=managed run_dir="@)
            &&& !managed ==> holds_text(line, " mode=standalone run_dir="@)
            &&& holds_text(line, " run_dir="@ + display_text(run_dir) + " state_dir="@)
            &&& holds_text(line, " state_dir="@ + display_text(state_dir) + " log_dir="@)
            &&& line.len() >= display_text(log_dir).len() && line.skip(
                line.len() - display_text(log_dir).len(),
            ) == display_text(log_dir)
            &&& holds_text(line, " log_dir="@ + display_text(log_dir))
            &&& holds_text(line, "wist-agentd "@ + version + " starting:"@)
        }),
{
    let line = starting_line(version, config_path, managed, run_dir, state_dir, log_dir);
    let w = crate::control::messages::mode_word(managed);
    lemma_starting_literals();
    lemma_five_fields(
        "wist-agentd "@ + version + " starting:"@,
        (" config="@, display_text(config_path)),
        (" mode="@, w),
        (" run_dir="@, display_text(run_dir)),
        (" state_dir="@, display_text(state_dir)),
        (" log_dir="@, display_text(log_dir)),
    );
    let head = "wist-agentd "@ + version;
    assert(head + " starting: config="@ =~= head + " starting:"@ + " config="@);
}

proof fn lemma_starting_literals()
    ensures
        " starting: config="@ == " starting:"@ + " config="@,
        " mode=managed run_dir="@ == " mode="@ + "managed"@ + " run_dir="@,
        " mode=standalone run_dir="@ == " mode="@ + "standalone"@ + " run_dir="@,
{
    reveal_strlit(" starting: config=");
    reveal_strlit(" starting:");
    reveal_strlit(" config=");
    reveal_strlit(" mode=");
    reveal_strlit("managed");
    reveal_strlit("standalone");
    reveal_strlit(" mode=managed run_dir=");
    reveal_strlit(" mode=standalone run_dir=");
    reveal_strlit(" run_dir=");
    assert(" starting: config="@ =~= " starting:"@ + " config="@);
    assert(" mode=managed run_dir="@ =~= " mode="@ + "managed"@ + " run_dir="@);
    assert(" mode=standalone run_dir="@ =~= " mode="@ + "standalone"@ + " run_dir="@);
}

/// A line of a head and five keys with their values holds each value between its own key and
/// the next one, and ends with the last value.
#[verifier::rlimit(30)]
proof fn lemma_five_fields(
    head: Seq<char>,
    a: (Seq<char>, Seq<char>),
    b: (Seq<char>, Seq<char>),
    c: (Seq<char>, Seq<char>),
    d: (Seq<char>, Seq<char>),
    e: (Seq<char>, Seq<char>),
)
    ensures
        ({
            let line = head + a.0 + a.1 + b.0 + b.1 + c.0 + c.1 + d.0 + d.1 + e.0 + e.1;
            &&& holds_text(line, head)
            &&& holds_text(line, a.0 + a.1 + b.0)
            &&& holds_text(line, b.0 + b.1 + c.0)
            &&& holds_text(line, c.0 + c.1 + d.0)
            &&& holds_text(line, d.0 + d.1 + e.0)
            &&& holds_text(line, e.0 + e.1)
            &&& line.len() >= e.1.len()
            &&& line.skip(line.len() - e.1.len()) == e.1
        }),
{
    let line = head + a.0 + a.1 + b.0 + b.1 + c.0 + c.1 + d.0 + d.1 + e.0 + e.1;
    let none = Seq::<char>::empty();
    let front_b = head + a.0 + a.1;
    let front_c = front_b + b.0 + b.1;
    let front_d = front_c + c.0 + c.1;
    let front_e = front_d + d.0 + d.1;
    let back_e = e.1;
    let back_d = d.1 + e.0 + back_e;
    let back_c = c.1 + d.0 + back_d;
    let back_b = b.1 + c.0 + back_c;
    assert(line =~= front_e + (e.0 + e.1) + none);
    lemma_holds_between(front_e, e.0 + e.1, none);
    assert(line =~= front_d + (d.0 + d.1 + e.0) + back_e);
    lemma_holds_between(front_d, d.0 + d.1 + e.0, back_e);
    assert(line =~= front_c + (c.0 + c.1 + d.0) + back_d);
    lemma_holds_between(front_c, c.0 + c.1 + d.0, back_d);
    assert(line =~= front_b + (b.0 + b.1 + c.0) + back_c);
    lemma_holds_between(front_b, b.0 + b.1 + c.0, back_c);
    assert(line =~= head + (a.0 + a.1 + b.0) + back_b);
    lemma_holds_between(head, a.0 + a.1 + b.0, back_b);
    assert(line =~= none + head + (a.0 + a.1 + b.0 + back_b));
    lemma_holds_between(none, head, a.0 + a.1 + b.0 + back_b);
    assert(line.skip(line.len() - e.1.len()) =~= e.1);
}

/// A daemon says where it works as its first line, once its runtime state is in order, and
/// says nothing before or after that.
pub proof fn law_the_first_line_says_where_the_daemon_works(
    plan: DaemonPlanView,
    version: Seq<char>,
    event: DaemonEvent,
)
    ensures
        ({
            let lines = daemon_lines(plan, version, event);
            &&& lines.len() > 0 <==> event == DaemonEvent::StateInitialized(true)
            &&& lines.len() > 0 ==> lines[0] == starting_line(
                version,
                plan.config_path,
                plan.managed,
                plan.run_dir,
                plan.state_dir,
                plan.log_dir,
            )
            &&& lines.len() > 0 ==> lines.len() == 2 && lines[1] == "self-observability registered"@
        }),
{
}

} // verus!
