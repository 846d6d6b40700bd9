//! What holds of the commands of the service managers.
use crate::error::AgentdReason;
use crate::os_text::display_text;
use crate::service::commands::{
    activation, command_failures, command_line_text, deactivation, failure_text, inspection,
    judgement, outcome_of, shell_word, RawOutput, ServiceCommandOutcomeView, ServiceCommandView,
};
use crate::service::{ServiceLayoutView, ServicePlatform, ServiceScope, ServiceSpecView};
use crate::text::{decimal, joined, lemma_decimal_injective, line_seq};
use crate::text_laws::{
    has_solid_ends, is_blank, law_a_line_feed_ends_a_line, law_trim_removes_white_space_only,
};
use vstd::prelude::*;
use vstd::string::*;

verus! {

/// Whether a command addresses the systemd of a scope: it starts with `--user` exactly
/// where the scope is that of a user, and has it nowhere else.
pub open spec fn addresses_scope(command: ServiceCommandView, scope: ServiceScope) -> bool {
    &&& command.args.len() > 0
    &&& command.args[0] == "--user"@ <==> scope == ServiceScope::User
    &&& forall|i: int| 0 < i < command.args.len() ==> #[trigger] command.args[i] != "--user"@
}

/// Whether commands are the same but for the `--user` in front of the arguments of each.
pub open spec fn differ_by_user_flag(
    user: Seq<ServiceCommandView>,
    system: Seq<ServiceCommandView>,
) -> bool {
    &&& user.len() == system.len()
    &&& forall|i: int|
        0 <= i < system.len() ==> #[trigger] user[i] == (ServiceCommandView {
            args: seq!["--user"@] + system[i].args,
            ..system[i]
        })
}

proof fn lemma_words()
    ensures
        "--user"@.len() == 6,
        "daemon-reload"@.len() == 13,
        "enable"@.len() == 6 && "enable"@[0] == 'e',
        "--user"@[0] == '-' && "--user"@[1] == '-',
        "restart"@.len() == 7,
        "disable"@.len() == 7,
        "--now"@.len() == 5,
        "status"@.len() == 6 && "status"@[0] == 's',
        "-u"@.len() == 2,
        "-f"@.len() == 2,
        "wist-agentd"@.len() == 11,
{
    reveal_strlit("--user");
    reveal_strlit("daemon-reload");
    reveal_strlit("enable");
    reveal_strlit("restart");
    reveal_strlit("disable");
    reveal_strlit("--now");
    reveal_strlit("status");
    reveal_strlit("-u");
    reveal_strlit("-f");
    reveal_strlit("wist-agentd");
}

/// Every command of systemd addresses the manager of the scope of the service, whether it
/// loads, stops or looks at it.
pub proof fn law_systemd_commands_address_their_scope(
    layout: ServiceLayoutView,
    spec: ServiceSpecView,
    uid: u32,
)
    requires
        layout.platform == ServicePlatform::Systemd,
    ensures
        forall|i: int|
            0 <= i < activation(layout, spec, uid).len() ==> addresses_scope(
                #[trigger] activation(layout, spec, uid)[i],
                spec.scope,
            ),
        forall|i: int|
            0 <= i < deactivation(layout.platform, spec, uid).len() ==> addresses_scope(
                #[trigger] deactivation(layout.platform, spec, uid)[i],
                spec.scope,
            ),
        forall|i: int|
            0 <= i < inspection(layout.platform, spec, uid).len() ==> addresses_scope(
                #[trigger] inspection(layout.platform, spec, uid)[i],
                spec.scope,
            ),
{
    lemma_words();
    let up = activation(layout, spec, uid);
    assert(addresses_scope(up[0], spec.scope));
    assert(addresses_scope(up[1], spec.scope));
    assert(addresses_scope(up[2], spec.scope));
    let down = deactivation(layout.platform, spec, uid);
    assert(addresses_scope(down[0], spec.scope));
    assert(addresses_scope(down[1], spec.scope));
    let look = inspection(layout.platform, spec, uid);
    assert(addresses_scope(look[0], spec.scope));
    assert(addresses_scope(look[1], spec.scope));
}

/// For a user the same is done as for the host, each command with `--user` in front of its
/// arguments.
pub proof fn law_scopes_differ_by_the_user_flag(
    layout: ServiceLayoutView,
    spec: ServiceSpecView,
    uid: u32,
    other_uid: u32,
)
    requires
        layout.platform == ServicePlatform::Systemd,
    ensures
        ({
            let user = ServiceSpecView { scope: ServiceScope::User, ..spec };
            let system = ServiceSpecView { scope: ServiceScope::System, ..spec };
            &&& differ_by_user_flag(
                activation(layout, user, uid),
                activation(layout, system, other_uid),
            )
            &&& differ_by_user_flag(
                deactivation(layout.platform, user, uid),
                deactivation(layout.platform, system, other_uid),
            )
            &&& differ_by_user_flag(
                inspection(layout.platform, user, uid),
                inspection(layout.platform, system, other_uid),
            )
        }),
{
    let user = ServiceSpecView { scope: ServiceScope::User, ..spec };
    let system = ServiceSpecView { scope: ServiceScope::System, ..spec };
    let flag = seq!["--user"@];
    let a = activation(layout, user, uid);
    let b = activation(layout, system, other_uid);
    assert(a[0].args =~= flag + b[0].args);
    assert(a[1].args =~= flag + b[1].args);
    assert(a[2].args =~= flag + b[2].args);
    let c = deactivation(layout.platform, user, uid);
    let d = deactivation(layout.platform, system, other_uid);
    assert(c[0].args =~= flag + d[0].args);
    assert(c[1].args =~= flag + d[1].args);
    let e = inspection(layout.platform, user, uid);
    let f = inspection(layout.platform, system, other_uid);
    assert(e[0].args =~= flag + f[0].args);
    assert(e[1].args =~= flag + f[1].args);
}

/// The arguments of a command without the flag of the scope.
pub open spec fn words_of(command: ServiceCommandView, scope: ServiceScope) -> Seq<Seq<char>> {
    match scope {
        ServiceScope::System => command.args,
        ServiceScope::User => command.args.skip(1),
    }
}

/// An activation by systemd reloads the units, enables the unit and restarts it, in this
/// order, and each of these must succeed. A deactivation disables and stops the unit, which
/// may fail, and then reloads the units. To look at the service, its state and its journal
/// are shown.
pub proof fn law_systemd_does_what_is_asked(
    layout: ServiceLayoutView,
    spec: ServiceSpecView,
    uid: u32,
)
    requires
        layout.platform == ServicePlatform::Systemd,
    ensures
        ({
            let up = activation(layout, spec, uid);
            let down = deactivation(layout.platform, spec, uid);
            let look = inspection(layout.platform, spec, uid);
            &&& up.len() == 3
            &&& forall|i: int|
                0 <= i < up.len() ==> (#[trigger] up[i]).program == "systemctl"@
                    && !up[i].ignore_failure
            &&& words_of(up[0], spec.scope) == seq!["daemon-reload"@]
            &&& words_of(up[1], spec.scope) == seq!["enable"@, "wist-agentd"@]
            &&& words_of(up[2], spec.scope) == seq!["restart"@, "wist-agentd"@]
            &&& up[0].retries == 0 && up[1].retries == 0 && up[2].retries == 5
            &&& down.len() == 2
            &&& forall|i: int| 0 <= i < down.len() ==> (#[trigger] down[i]).program == "systemctl"@
            &&& words_of(down[0], spec.scope) == seq!["disable"@, "--now"@, "wist-agentd"@]
            &&& down[0].ignore_failure
            &&& words_of(down[1], spec.scope) == seq!["daemon-reload"@]
            &&& !down[1].ignore_failure
            &&& look.len() == 2
            &&& look[0].program == "systemctl"@
            &&& words_of(look[0], spec.scope) == seq!["status"@, "wist-agentd"@]
            &&& look[1].program == "journalctl"@
            &&& words_of(look[1], spec.scope) == seq!["-u"@, "wist-agentd"@, "-f"@]
        }),
{
    let up = activation(layout, spec, uid);
    let down = deactivation(layout.platform, spec, uid);
    let look = inspection(layout.platform, spec, uid);
    assert(words_of(up[0], spec.scope) =~= seq!["daemon-reload"@]);
    assert(words_of(up[1], spec.scope) =~= seq!["enable"@, "wist-agentd"@]);
    assert(words_of(up[2], spec.scope) =~= seq!["restart"@, "wist-agentd"@]);
    assert(words_of(down[0], spec.scope) =~= seq!["disable"@, "--now"@, "wist-agentd"@]);
    assert(words_of(down[1], spec.scope) =~= seq!["daemon-reload"@]);
    assert(words_of(look[0], spec.scope) =~= seq!["status"@, "wist-agentd"@]);
    assert(words_of(look[1], spec.scope) =~= seq!["-u"@, "wist-agentd"@, "-f"@]);
}

/// The job of a service in launchd: in the domain of the host, or in that of the user with
/// the id.
pub open spec fn is_job(target: Seq<char>, scope: ServiceScope, uid: u32) -> bool {
    match scope {
        ServiceScope::System => target == "system/com.dayu-sec.wist-agentd"@,
        ServiceScope::User => target == "gui/"@ + decimal(uid as nat)
            + "/com.dayu-sec.wist-agentd"@,
    }
}

/// An activation by launchd unloads the job, which may fail, loads the definition into the
/// domain of the job, and enables the job, in this order. A deactivation unloads that same
/// job, which may fail, and that job is the one that is looked at.
#[verifier::rlimit(30)]
pub proof fn law_launchd_does_what_is_asked(
    layout: ServiceLayoutView,
    spec: ServiceSpecView,
    uid: u32,
)
    requires
        layout.platform == ServicePlatform::Launchd,
    ensures
        ({
            let up = activation(layout, spec, uid);
            let down = deactivation(layout.platform, spec, uid);
            let look = inspection(layout.platform, spec, uid);
            &&& up.len() == 3 && down.len() == 1 && look.len() == 1
            &&& forall|i: int| 0 <= i < up.len() ==> (#[trigger] up[i]).program == "launchctl"@
            &&& down[0].program == "launchctl"@ && look[0].program == "launchctl"@
            &&& up[0].args.len() == 2 && up[0].args[0] == "bootout"@ && is_job(
                up[0].args[1],
                spec.scope,
                uid,
            )
            &&& up[0].ignore_failure
            &&& up[1].args.len() == 3 && up[1].args[0] == "bootstrap"@
            &&& up[1].args[1] + "/com.dayu-sec.wist-agentd"@ == up[0].args[1]
            &&& up[1].args[2] == display_text(layout.definition_path)
            &&& up[0].retries == 0 && up[1].retries == 5 && up[2].retries == 0
            &&& !up[1].ignore_failure
            &&& up[2].args == seq!["enable"@, up[0].args[1]]
            &&& !up[2].ignore_failure
            &&& down[0].args == up[0].args
            &&& down[0].ignore_failure
            &&& look[0].args == seq!["print"@, up[0].args[1]]
        }),
{
    reveal_strlit("system");
    reveal_strlit("/");
    reveal_strlit("com.dayu-sec.wist-agentd");
    reveal_strlit("system/com.dayu-sec.wist-agentd");
    reveal_strlit("/com.dayu-sec.wist-agentd");
    let up = activation(layout, spec, uid);
    let down = deactivation(layout.platform, spec, uid);
    let look = inspection(layout.platform, spec, uid);
    assert("/"@ + "com.dayu-sec.wist-agentd"@ =~= "/com.dayu-sec.wist-agentd"@);
    let domain = spec.domain(uid);
    assert(domain + "/"@ + "com.dayu-sec.wist-agentd"@ =~= domain + "/com.dayu-sec.wist-agentd"@);
    assert("system"@ + "/com.dayu-sec.wist-agentd"@ =~= "system/com.dayu-sec.wist-agentd"@);
    assert(up[2].args =~= seq!["enable"@, up[0].args[1]]);
    assert(down[0].args =~= up[0].args);
    assert(look[0].args =~= seq!["print"@, up[0].args[1]]);
}

/// Users have jobs of their own.
pub proof fn law_users_have_jobs_of_their_own(target: Seq<char>, a: u32, b: u32)
    requires
        is_job(target, ServiceScope::User, a),
        is_job(target, ServiceScope::User, b),
    ensures
        a == b,
{
    let tail = "/com.dayu-sec.wist-agentd"@;
    let x = decimal(a as nat);
    let y = decimal(b as nat);
    let head = "gui/"@;
    assert((head + x + tail).len() == head.len() + x.len() + tail.len());
    assert((head + y + tail).len() == head.len() + y.len() + tail.len());
    assert(x.len() == y.len());
    assert(x =~= y) by {
        assert forall|i: int| 0 <= i < x.len() implies x[i] == y[i] by {
            assert((head + x + tail)[head.len() + i] == x[i]);
            assert((head + y + tail)[head.len() + i] == y[i]);
        }
    }
    lemma_decimal_injective(a as nat, b as nat);
}

/// A result that is a failure of consequence: the command did not succeed, and its failure
/// may not be ignored.
pub open spec fn is_failure(outcome: ServiceCommandOutcomeView) -> bool {
    !(outcome.success || outcome.command.ignore_failure)
}

/// All is well exactly if no result is a failure of consequence. One more result that is
/// none adds nothing to what is said, and one that is one adds its own sentence at the end.
pub proof fn law_failures_are_reported_one_by_one(
    outcomes: Seq<ServiceCommandOutcomeView>,
    last: ServiceCommandOutcomeView,
)
    ensures
        command_failures(outcomes).len() == 0 <==> forall|i: int|
            0 <= i < outcomes.len() ==> !is_failure(#[trigger] outcomes[i]),
        !is_failure(last) ==> command_failures(outcomes.push(last)) == command_failures(outcomes),
        is_failure(last) ==> command_failures(outcomes.push(last)) == command_failures(
            outcomes,
        ).push(
            "`"@ + command_line_text(last.command) + "` failed: "@ + failure_text(last),
        ),
    decreases outcomes.len(),
{
    assert(outcomes.push(last).drop_last() =~= outcomes);
    if outcomes.len() > 0 {
        let front = outcomes.drop_last();
        law_failures_are_reported_one_by_one(front, outcomes.last());
        if command_failures(outcomes).len() == 0 {
            assert forall|i: int| 0 <= i < outcomes.len() implies !is_failure(
                #[trigger] outcomes[i],
            ) by {
                if i < front.len() {
                    assert(front[i] == outcomes[i]);
                }
            }
        }
        if forall|i: int| 0 <= i < outcomes.len() ==> !is_failure(#[trigger] outcomes[i]) {
            assert forall|i: int| 0 <= i < front.len() implies !is_failure(
                #[trigger] front[i],
            ) by {
                assert(front[i] == outcomes[i]);
            }
            assert(!is_failure(outcomes[outcomes.len() - 1]));
        }
    }
}

/// What is said of a failure is the first line of the error output; where there is no error
/// output, the first line of the output; and where there is none either, that there is none.
pub proof fn law_failures_are_told_by_their_first_line(
    outcome: ServiceCommandOutcomeView,
    line: Seq<char>,
    rest: Seq<char>,
)
    requires
        crate::text::is_single_line(line),
        line.len() > 0,
    ensures
        outcome.stderr == line + seq!['\n'] + rest ==> failure_text(outcome) == line,
        outcome.stderr == line ==> failure_text(outcome) == line,
        outcome.stderr.len() == 0 && outcome.stdout == line + seq!['\n'] + rest ==> failure_text(
            outcome,
        ) == line,
        outcome.stderr.len() == 0 && outcome.stdout == line ==> failure_text(outcome) == line,
        outcome.stderr.len() == 0 && outcome.stdout.len() == 0 ==> failure_text(outcome)
            == "no output"@,
{
    law_a_line_feed_ends_a_line(line, rest);
    assert((seq![line] + line_seq(rest))[0] == line);
    law_a_line_feed_ends_a_line(Seq::empty(), rest);
    if outcome.stdout.len() == 0 {
        assert(outcome.stdout =~= Seq::<char>::empty());
    }
}

/// The result of a command that was run is whether it succeeded, and each of its two
/// outputs without the white space around it. A command that could not be run is an error
/// that shows the command and tells the cause.
pub proof fn law_results_are_those_of_the_run(
    command: ServiceCommandView,
    ran: Result<RawOutput, String>,
    front: Seq<char>,
    kept: Seq<char>,
    back: Seq<char>,
)
    requires
        is_blank(front),
        is_blank(back),
        has_solid_ends(kept),
    ensures
        match ran {
            Ok(raw) => outcome_of(command, ran) matches Ok(outcome) && {
                &&& outcome.command == command
                &&& outcome.success == raw.success
                &&& display_text(raw.stdout@) == front + kept + back ==> outcome.stdout == kept
                &&& display_text(raw.stderr@) == front + kept + back ==> outcome.stderr == kept
            },
            Err(cause) => outcome_of(command, ran) matches Err(e) && {
                &&& e.reason == AgentdReason::ServiceCommandFailed
                &&& e.detail == Some("run `"@ + command_line_text(command) + "`: "@ + cause@)
            },
        },
{
    law_trim_removes_white_space_only(front, kept, back);
}

/// A word of letters, digits and the characters `/`, `.`, `-`, `_`, `=`, `:` and `@` is
/// shown as it is, and any other text in quotes.
pub proof fn law_plain_words_are_shown_as_they_are(s: Seq<char>)
    ensures
        s.len() > 0 && (forall|i: int|
            0 <= i < s.len() ==> {
                let c = #[trigger] s[i];
                'a' <= c <= 'z' || 'A' <= c <= 'Z' || '0' <= c <= '9' || c == '/' || c == '.' || c
                    == '-' || c == '_' || c == '=' || c == ':' || c == '@'
            }) ==> shell_word(s) == s,
        shell_word(s) != s ==> shell_word(s).len() >= 2 && shell_word(s)[0] == '\''
            && shell_word(s).last() == '\'',
{
}

/// A command is shown as its words with single spaces between them.
pub proof fn law_commands_are_shown_word_by_word(command: ServiceCommandView, arg: Seq<char>)
    ensures
        command.args.len() == 0 ==> command_line_text(command) == shell_word(command.program),
        command_line_text(ServiceCommandView { args: command.args.push(arg), ..command })
            == command_line_text(command) + " "@ + shell_word(arg),
{
    let f = |s: Seq<char>| shell_word(s);
    let words = (seq![command.program] + command.args).map_values(f);
    let more = (seq![command.program] + command.args.push(arg)).map_values(f);
    assert(more =~= words.push(shell_word(arg)));
    assert(more.drop_last() =~= words);
    assert(more.len() >= 2);
    assert(joined(more, " "@) == joined(words, " "@) + " "@ + more.last());
    if command.args.len() == 0 {
        assert(words =~= seq![shell_word(command.program)]);
    }
}

/// Commands are judged by their failures of consequence: all is well exactly where there is
/// none, and otherwise every one of them is told, in their order.
pub proof fn law_commands_are_judged_by_their_failures(outcomes: Seq<ServiceCommandOutcomeView>)
    ensures
        judgement(outcomes) is Ok <==> forall|i: int|
            0 <= i < outcomes.len() ==> !is_failure(#[trigger] outcomes[i]),
        judgement(outcomes) matches Err(e) ==> e.reason == AgentdReason::ServiceCommandFailed && (
        e.detail matches Some(text) && text == joined(command_failures(outcomes), "; "@)),
{
    if outcomes.len() > 0 {
        law_failures_are_reported_one_by_one(outcomes, outcomes[0]);
    }
}

} // verus!
