//! Commands of the service manager: which ones there are, how they are shown, and what
//! their results mean.
use crate::error::{error_with, AgentdError, AgentdErrorView, AgentdReason};
use crate::os_text::{decode_lossy, display_text};
use crate::service::{
    ServiceLayout, ServiceLayoutView, ServicePlatform, ServiceSpec, ServiceSpecView, SERVICE_NAME,
};
use crate::text::{
    ascii_alphanumeric, concat_map, is_ascii_alphanumeric, join, joined, lemma_concat_map_step,
    line_seq, lines, texts, trim, trimmed,
};
use vstd::prelude::*;
use vstd::string::*;

verus! {

/// How often a step that replaces the running process is tried again. Service managers
/// tear down asynchronously, so the step right after may fail for a moment.
pub const ACTIVATE_RETRIES: u32 = 5;

/// The pause before such a step is tried again, in milliseconds.
pub const ACTIVATE_RETRY_DELAY_MILLIS: u64 = 300;

/// A command of the service manager.
#[derive(Debug, PartialEq, Eq)]
pub struct ServiceCommand {
    pub program: String,
    pub args: Vec<String>,
    /// Whether a failure is of no consequence.
    pub ignore_failure: bool,
    /// How often the command is tried again after a failure.
    pub retries: u32,
}

/// What a command says.
#[verifier::ext_equal]
pub struct ServiceCommandView {
    pub program: Seq<char>,
    pub args: Seq<Seq<char>>,
    pub ignore_failure: bool,
    pub retries: u32,
}

impl View for ServiceCommand {
    type V = ServiceCommandView;

    open spec fn view(&self) -> ServiceCommandView {
        ServiceCommandView {
            program: self.program@,
            args: texts(self.args@),
            ignore_failure: self.ignore_failure,
            retries: self.retries,
        }
    }
}

/// The views of a list of commands.
pub open spec fn command_views(list: Seq<ServiceCommand>) -> Seq<ServiceCommandView> {
    list.map_values(|c: ServiceCommand| c@)
}

/// A command that is run once and must succeed.
pub open spec fn plain_command(program: Seq<char>, args: Seq<Seq<char>>) -> ServiceCommandView {
    ServiceCommandView { program, args, ignore_failure: false, retries: 0 }
}

/// A command that is run once and may fail.
pub open spec fn lenient_command(program: Seq<char>, args: Seq<Seq<char>>) -> ServiceCommandView {
    ServiceCommandView { ignore_failure: true, ..plain_command(program, args) }
}

/// A command that is tried again after a failure.
pub open spec fn retried_command(program: Seq<char>, args: Seq<Seq<char>>) -> ServiceCommandView {
    ServiceCommandView { retries: ACTIVATE_RETRIES, ..plain_command(program, args) }
}

/// A character that a shell takes as it is.
pub open spec fn is_shell_safe(c: char) -> bool {
    is_ascii_alphanumeric(c) || c == '/' || c == '.' || c == '-' || c == '_' || c == '=' || c == ':'
        || c == '@'
}

/// A text that a shell takes as one word, as it is.
pub open spec fn is_shell_word(s: Seq<char>) -> bool {
    s.len() > 0 && forall|i: int| 0 <= i < s.len() ==> is_shell_safe(#[trigger] s[i])
}

/// A character inside single quotes: a single quote ends the quotes, stands escaped
/// and starts them again.
pub open spec fn shell_quoted_char(c: char) -> Seq<char> {
    if c == '\'' {
        "'\\''"@
    } else {
        seq![c]
    }
}

/// A text as one word for a shell.
pub open spec fn shell_word(s: Seq<char>) -> Seq<char> {
    if is_shell_word(s) {
        s
    } else {
        seq!['\''] + concat_map(s, |c: char| shell_quoted_char(c)) + seq!['\'']
    }
}

/// Writes a text as one word for a shell.
pub fn shell_quote(value: &str) -> (out: String)
    ensures
        out@ == shell_word(value@),
{
    let mut safe = true;
    let mut empty = true;
    for c in it: value.chars()
        invariant
            it.seq() == value@,
            empty == (it.index() == 0),
            safe == (forall|j: int| 0 <= j < it.index() ==> is_shell_safe(#[trigger] value@[j])),
    {
        let own = ascii_alphanumeric(c) || c == '/' || c == '.' || c == '-' || c == '_' || c == '='
            || c == ':' || c == '@';
        proof {
            assert(value@[it.index()] == c);
        }
        empty = false;
        if !own {
            safe = false;
        }
    }
    if !empty && safe {
        return value.to_string();
    }
    let ghost f = |c: char| shell_quoted_char(c);
    let mut quoted = String::new();
    quoted.push('\'');
    assert(quoted@ =~= seq!['\''] + concat_map(value@.take(0), f));
    for c in it: value.chars()
        invariant
            it.seq() == value@,
            f == (|c: char| shell_quoted_char(c)),
            quoted@ == seq!['\''] + concat_map(value@.take(it.index()), f),
    {
        let ghost before = quoted@;
        proof {
            lemma_concat_map_step(value@, f, it.index());
        }
        if c == '\'' {
            quoted.append("'\\''");
        } else {
            quoted.push(c);
            assert(quoted@ =~= before + seq![c]);
        }
        proof {
            assert(quoted@ =~= before + shell_quoted_char(c));
            assert(quoted@ =~= seq!['\''] + concat_map(value@.take(it.index() + 1), f));
        }
    }
    proof {
        assert(value@.take(value@.len() as int) =~= value@);
    }
    let ghost body = quoted@;
    quoted.push('\'');
    assert(quoted@ =~= body + seq!['\'']);
    quoted
}

/// A command as a line that can be pasted into a shell.
pub open spec fn command_line_text(command: ServiceCommandView) -> Seq<char> {
    joined(
        (seq![command.program] + command.args).map_values(|s: Seq<char>| shell_word(s)),
        " "@,
    )
}

impl ServiceCommand {
    /// A command that is run once.
    pub fn new(program: &str, args: Vec<String>, ignore_failure: bool) -> (command: ServiceCommand)
        ensures
            command@ == (ServiceCommandView {
                program: program@,
                args: texts(args@),
                ignore_failure,
                retries: 0,
            }),
    {
        ServiceCommand { program: program.to_string(), args, ignore_failure, retries: 0 }
    }

    /// The command, tried again up to `retries` times after a failure.
    pub fn retryable(self, retries: u32) -> (command: ServiceCommand)
        ensures
            command@ == (ServiceCommandView { retries, ..self@ }),
    {
        ServiceCommand {
            program: self.program,
            args: self.args,
            ignore_failure: self.ignore_failure,
            retries,
        }
    }

    /// The command as a line that can be pasted into a shell.
    pub fn display_line(&self) -> (line: String)
        ensures
            line@ == command_line_text(self@),
    {
        let mut parts: Vec<String> = Vec::new();
        parts.push(shell_quote(self.program.as_str()));
        let ghost words = (seq![self.program@] + texts(self.args@)).map_values(
            |s: Seq<char>| shell_word(s),
        );
        proof {
            assert(texts(parts@) =~= words.take(1));
        }
        for i in 0..self.args.len()
            invariant
                words == (seq![self.program@] + texts(self.args@)).map_values(
                    |s: Seq<char>| shell_word(s),
                ),
                texts(parts@) == words.take(i + 1),
        {
            let ghost before = texts(parts@);
            parts.push(shell_quote(self.args[i].as_str()));
            proof {
                assert(texts(parts@) =~= before.push(shell_word(self.args@[i as int]@)));
                assert(words[i + 1] == shell_word(self.args@[i as int]@));
                assert(texts(parts@) =~= words.take(i + 2));
            }
        }
        proof {
            assert(words.take(words.len() as int) =~= words);
        }
        join(&parts, " ")
    }
}

/// The commands that load and start a service.
pub open spec fn activation(
    layout: ServiceLayoutView,
    spec: ServiceSpecView,
    uid: u32,
) -> Seq<ServiceCommandView> {
    match layout.platform {
        ServicePlatform::Systemd => seq![
            plain_command("systemctl"@, spec.scope_args() + seq!["daemon-reload"@]),
            plain_command("systemctl"@, spec.scope_args() + seq!["enable"@, SERVICE_NAME@]),
            retried_command("systemctl"@, spec.scope_args() + seq!["restart"@, SERVICE_NAME@]),
        ],
        ServicePlatform::Launchd => seq![
            lenient_command("launchctl"@, seq!["bootout"@, spec.target(uid)]),
            retried_command(
                "launchctl"@,
                seq!["bootstrap"@, spec.domain(uid), display_text(layout.definition_path)],
            ),
            plain_command("launchctl"@, seq!["enable"@, spec.target(uid)]),
        ],
    }
}

/// The arguments of a systemd tool: those of the scope and more.
fn scoped_args(spec: &ServiceSpec, more: &[&str]) -> (args: Vec<String>)
    ensures
        texts(args@) == spec@.scope_args() + more@.map_values(|s: &str| s@),
{
    let mut args = spec.systemctl_scope_args();
    let ghost start = texts(args@);
    let ghost added = more@.map_values(|s: &str| s@);
    for i in 0..more.len()
        invariant
            added == more@.map_values(|s: &str| s@),
            texts(args@) == start + added.take(i as int),
    {
        let ghost before = texts(args@);
        args.push(more[i].to_string());
        proof {
            assert(texts(args@) =~= before.push(added[i as int]));
            assert(texts(args@) =~= start + added.take(i + 1));
        }
    }
    proof {
        assert(added.take(added.len() as int) =~= added);
    }
    args
}

/// The commands that load and start a service, whether or not it runs already.
pub fn activate_commands(layout: &ServiceLayout, spec: &ServiceSpec, uid: u32) -> (out: Result<
    Vec<ServiceCommand>,
    AgentdError,
>)
    ensures
        out matches Ok(commands) && command_views(commands@) == activation(layout@, spec@, uid),
{
    let commands: Vec<ServiceCommand>;
    match layout.platform {
        ServicePlatform::Systemd => {
            let reload_args = scoped_args(spec, &["daemon-reload"]);
            let enable_args = scoped_args(spec, &["enable", SERVICE_NAME]);
            // Starting a unit that is active changes nothing, so the process is
            // restarted: only then does a new binary or definition take effect.
            let restart_args = scoped_args(spec, &["restart", SERVICE_NAME]);
            proof {
                assert(texts(reload_args@) =~= spec@.scope_args() + seq!["daemon-reload"@]);
                assert(texts(enable_args@) =~= spec@.scope_args() + seq![
                    "enable"@,
                    SERVICE_NAME@,
                ]);
                assert(texts(restart_args@) =~= spec@.scope_args() + seq![
                    "restart"@,
                    SERVICE_NAME@,
                ]);
            }
            commands = vec![
                ServiceCommand::new("systemctl", reload_args, false),
                ServiceCommand::new("systemctl", enable_args, false),
                ServiceCommand::new("systemctl", restart_args, false).retryable(ACTIVATE_RETRIES),
            ];
        },
        ServicePlatform::Launchd => {
            let bootout_args = vec!["bootout".to_string(), spec.launchd_target(uid)];
            let bootstrap_args = vec![
                "bootstrap".to_string(),
                spec.launchd_domain(uid),
                layout.definition_path.display(),
            ];
            let enable_args = vec!["enable".to_string(), spec.launchd_target(uid)];
            proof {
                assert(texts(bootout_args@) =~= seq!["bootout"@, spec@.target(uid)]);
                assert(texts(bootstrap_args@) =~= seq![
                    "bootstrap"@,
                    spec@.domain(uid),
                    display_text(layout@.definition_path),
                ]);
                assert(texts(enable_args@) =~= seq!["enable"@, spec@.target(uid)]);
            }
            // A loaded job cannot be loaded again, so it is unloaded first.
            commands = vec![
                ServiceCommand::new("launchctl", bootout_args, true),
                ServiceCommand::new("launchctl", bootstrap_args, false).retryable(ACTIVATE_RETRIES),
                ServiceCommand::new("launchctl", enable_args, false),
            ];
        },
    }
    proof {
        assert(command_views(commands@) =~= activation(layout@, spec@, uid));
    }
    Ok(commands)
}

/// The commands that stop and unload a service.
pub open spec fn deactivation(
    platform: ServicePlatform,
    spec: ServiceSpecView,
    uid: u32,
) -> Seq<ServiceCommandView> {
    match platform {
        ServicePlatform::Systemd => seq![
            lenient_command(
                "systemctl"@,
                spec.scope_args() + seq!["disable"@, "--now"@, SERVICE_NAME@],
            ),
            plain_command("systemctl"@, spec.scope_args() + seq!["daemon-reload"@]),
        ],
        ServicePlatform::Launchd => seq![
            lenient_command("launchctl"@, seq!["bootout"@, spec.target(uid)]),
        ],
    }
}

/// The commands that stop and unload a service, whether or not it is loaded.
pub fn deactivate_commands(platform: ServicePlatform, spec: &ServiceSpec, uid: u32) -> (commands:
    Vec<ServiceCommand>)
    ensures
        command_views(commands@) == deactivation(platform, spec@, uid),
{
    let commands: Vec<ServiceCommand>;
    match platform {
        ServicePlatform::Systemd => {
            let disable_args = scoped_args(spec, &["disable", "--now", SERVICE_NAME]);
            let reload_args = scoped_args(spec, &["daemon-reload"]);
            proof {
                assert(texts(disable_args@) =~= spec@.scope_args() + seq![
                    "disable"@,
                    "--now"@,
                    SERVICE_NAME@,
                ]);
                assert(texts(reload_args@) =~= spec@.scope_args() + seq!["daemon-reload"@]);
            }
            commands = vec![
                ServiceCommand::new("systemctl", disable_args, true),
                ServiceCommand::new("systemctl", reload_args, false),
            ];
        },
        ServicePlatform::Launchd => {
            let bootout_args = vec!["bootout".to_string(), spec.launchd_target(uid)];
            proof {
                assert(texts(bootout_args@) =~= seq!["bootout"@, spec@.target(uid)]);
            }
            commands = vec![ServiceCommand::new("launchctl", bootout_args, true)];
        },
    }
    proof {
        assert(command_views(commands@) =~= deactivation(platform, spec@, uid));
    }
    commands
}

/// The commands by which an operator looks at a service.
pub open spec fn inspection(
    platform: ServicePlatform,
    spec: ServiceSpecView,
    uid: u32,
) -> Seq<ServiceCommandView> {
    match platform {
        ServicePlatform::Systemd => seq![
            plain_command("systemctl"@, spec.scope_args() + seq!["status"@, SERVICE_NAME@]),
            plain_command("journalctl"@, spec.scope_args() + seq!["-u"@, SERVICE_NAME@, "-f"@]),
        ],
        ServicePlatform::Launchd => seq![
            plain_command("launchctl"@, seq!["print"@, spec.target(uid)]),
        ],
    }
}

/// The commands by which an operator looks at a service. They are shown, not run.
pub fn inspect_commands(platform: ServicePlatform, spec: &ServiceSpec, uid: u32) -> (commands: Vec<
    ServiceCommand,
>)
    ensures
        command_views(commands@) == inspection(platform, spec@, uid),
{
    let commands: Vec<ServiceCommand>;
    match platform {
        ServicePlatform::Systemd => {
            let status_args = scoped_args(spec, &["status", SERVICE_NAME]);
            let log_args = scoped_args(spec, &["-u", SERVICE_NAME, "-f"]);
            proof {
                assert(texts(status_args@) =~= spec@.scope_args() + seq![
                    "status"@,
                    SERVICE_NAME@,
                ]);
                assert(texts(log_args@) =~= spec@.scope_args() + seq!["-u"@, SERVICE_NAME@, "-f"@]);
            }
            commands = vec![
                ServiceCommand::new("systemctl", status_args, false),
                ServiceCommand::new("journalctl", log_args, false),
            ];
        },
        ServicePlatform::Launchd => {
            let print_args = vec!["print".to_string(), spec.launchd_target(uid)];
            proof {
                assert(texts(print_args@) =~= seq!["print"@, spec@.target(uid)]);
            }
            commands = vec![ServiceCommand::new("launchctl", print_args, false)];
        },
    }
    proof {
        assert(command_views(commands@) =~= inspection(platform, spec@, uid));
    }
    commands
}

/// What a program that was run left behind.
#[derive(Debug, PartialEq, Eq)]
pub struct RawOutput {
    pub success: bool,
    pub stdout: Vec<u8>,
    pub stderr: Vec<u8>,
}

/// The result of a command.
#[derive(Debug, PartialEq, Eq)]
pub struct ServiceCommandOutcome {
    pub command: ServiceCommand,
    pub success: bool,
    pub stdout: String,
    pub stderr: String,
}

/// What the result of a command says.
#[verifier::ext_equal]
pub struct ServiceCommandOutcomeView {
    pub command: ServiceCommandView,
    pub success: bool,
    pub stdout: Seq<char>,
    pub stderr: Seq<char>,
}

impl View for ServiceCommandOutcome {
    type V = ServiceCommandOutcomeView;

    open spec fn view(&self) -> ServiceCommandOutcomeView {
        ServiceCommandOutcomeView {
            command: self.command@,
            success: self.success,
            stdout: self.stdout@,
            stderr: self.stderr@,
        }
    }
}

fn copy_texts(list: &Vec<String>) -> (copy: Vec<String>)
    ensures
        texts(copy@) == texts(list@),
{
    let mut copy: Vec<String> = Vec::new();
    for i in 0..list.len()
        invariant
            texts(copy@) == texts(list@).take(i as int),
    {
        let ghost before = texts(copy@);
        copy.push(list[i].as_str().to_string());
        proof {
            assert(texts(copy@) =~= before.push(list@[i as int]@));
            assert(texts(copy@) =~= texts(list@).take(i + 1));
        }
    }
    proof {
        assert(texts(list@).take(list@.len() as int) =~= texts(list@));
    }
    copy
}

impl Clone for ServiceCommand {
    fn clone(&self) -> (copy: Self)
        ensures
            copy@ == self@,
    {
        ServiceCommand {
            program: self.program.as_str().to_string(),
            args: copy_texts(&self.args),
            ignore_failure: self.ignore_failure,
            retries: self.retries,
        }
    }
}

/// The result of a command, from what running it gave: its output as text without
/// surrounding white space, or why it could not be run at all.
pub open spec fn outcome_of(command: ServiceCommandView, ran: Result<RawOutput, String>) -> Result<
    ServiceCommandOutcomeView,
    AgentdErrorView,
> {
    match ran {
        Ok(raw) => Ok(
            ServiceCommandOutcomeView {
                command,
                success: raw.success,
                stdout: trimmed(display_text(raw.stdout@)),
                stderr: trimmed(display_text(raw.stderr@)),
            },
        ),
        Err(cause) => Err(
            error_with(
                AgentdReason::ServiceCommandFailed,
                "run `"@ + command_line_text(command) + "`: "@ + cause@,
            ),
        ),
    }
}

/// The result of a command, from what running it gave.
pub fn run(command: &ServiceCommand, ran: Result<RawOutput, String>) -> (out: Result<
    ServiceCommandOutcome,
    AgentdError,
>)
    ensures
        match out {
            Ok(outcome) => outcome_of(command@, ran) == Ok::<_, AgentdErrorView>(outcome@),
            Err(e) => outcome_of(command@, ran) == Err::<ServiceCommandOutcomeView, _>(e@),
        },
{
    match ran {
        Ok(raw) => Ok(
            ServiceCommandOutcome {
                command: command.clone(),
                success: raw.success,
                stdout: trim(decode_lossy(raw.stdout.as_slice()).as_str()),
                stderr: trim(decode_lossy(raw.stderr.as_slice()).as_str()),
            },
        ),
        Err(cause) => {
            let mut detail = "run `".to_string();
            detail.append(command.display_line().as_str());
            detail.append("`: ");
            detail.append(cause.as_str());
            Err(AgentdError::with_detail(AgentdReason::ServiceCommandFailed, detail))
        },
    }
}

/// What follows a run of a command.
#[derive(Debug, PartialEq, Eq)]
pub enum RetryStep {
    /// The result stands.
    Done(ServiceCommandOutcome),
    /// The command is run again after a pause; so many attempts have failed.
    Again(u32),
}

/// Whether the result of a run stands: it succeeded, or all retries are used up.
pub open spec fn result_stands(retries: u32, failed_before: u32, success: bool) -> bool {
    success || failed_before >= retries
}

/// How many runs have failed when a command is run again after a run, where it is.
pub open spec fn next_attempt(retries: u32, failed_before: u32, success: bool) -> Option<u32> {
    if result_stands(retries, failed_before, success) {
        None
    } else {
        Some((failed_before + 1) as u32)
    }
}

/// Decides what follows a run of a command before which `attempt` runs have failed.
/// The last result is the one that stands.
pub fn run_with_retries(
    command: &ServiceCommand,
    attempt: u32,
    outcome: ServiceCommandOutcome,
) -> (step: RetryStep)
    ensures
        match step {
            RetryStep::Done(done) => done == outcome && next_attempt(
                command.retries,
                attempt,
                outcome.success,
            ) is None,
            RetryStep::Again(next) => next_attempt(command.retries, attempt, outcome.success)
                == Some(next),
        },
{
    if outcome.success || attempt >= command.retries {
        RetryStep::Done(outcome)
    } else {
        RetryStep::Again(attempt + 1)
    }
}

/// What is said of a failed command: the first line of its error output, or of its
/// output where that is empty.
pub open spec fn failure_text(outcome: ServiceCommandOutcomeView) -> Seq<char> {
    let text = if outcome.stderr.len() == 0 {
        outcome.stdout
    } else {
        outcome.stderr
    };
    if line_seq(text).len() > 0 {
        line_seq(text)[0]
    } else {
        "no output"@
    }
}

/// What is said of a failed command.
pub fn failure_detail(outcome: &ServiceCommandOutcome) -> (out: String)
    ensures
        out@ == failure_text(outcome@),
{
    let mut all: Vec<String>;
    if outcome.stderr.as_str().is_empty() {
        all = lines(outcome.stdout.as_str());
    } else {
        all = lines(outcome.stderr.as_str());
    }
    if all.len() > 0 {
        let ghost first = all@[0]@;
        proof {
            assert(texts(all@)[0] == first);
        }
        all.swap_remove(0)
    } else {
        "no output".to_string()
    }
}

/// What is said of a command that failed and may not.
pub open spec fn command_failure(outcome: ServiceCommandOutcomeView) -> Seq<char> {
    "`"@ + command_line_text(outcome.command) + "` failed: "@ + failure_text(outcome)
}

/// A result that counts as a failure.
pub open spec fn counts_as_failure(outcome: ServiceCommandOutcomeView) -> bool {
    !outcome.success && !outcome.command.ignore_failure
}

/// The failures among some results, in their order.
pub open spec fn command_failures(outcomes: Seq<ServiceCommandOutcomeView>) -> Seq<Seq<char>>
    decreases outcomes.len(),
{
    if outcomes.len() == 0 {
        Seq::empty()
    } else if counts_as_failure(outcomes.last()) {
        command_failures(outcomes.drop_last()).push(command_failure(outcomes.last()))
    } else {
        command_failures(outcomes.drop_last())
    }
}

/// The views of a list of results.
pub open spec fn outcome_views(list: Seq<ServiceCommandOutcome>) -> Seq<ServiceCommandOutcomeView> {
    list.map_values(|o: ServiceCommandOutcome| o@)
}

/// The place of the command that is run after so many others, where one is left.
pub open spec fn next_place(total: nat, done: nat) -> Option<usize> {
    if done < total {
        Some(done as usize)
    } else {
        None
    }
}

/// Which of some commands is to be run after those that have a result. A failure leaves
/// none of them out.
pub fn next_service_command(
    commands: &Vec<ServiceCommand>,
    done: &Vec<ServiceCommandOutcome>,
) -> (next: Option<usize>)
    ensures
        next == next_place(commands@.len(), done@.len()),
{
    if done.len() < commands.len() {
        Some(done.len())
    } else {
        None
    }
}

/// What the results of commands that were run one after the other come to: all failures
/// that count are reported together.
pub open spec fn judgement(outcomes: Seq<ServiceCommandOutcomeView>) -> Result<
    (),
    AgentdErrorView,
> {
    let failures = command_failures(outcomes);
    if failures.len() == 0 {
        Ok(())
    } else {
        Err(error_with(AgentdReason::ServiceCommandFailed, joined(failures, "; "@)))
    }
}

/// Judges the results of commands that were run one after the other.
pub fn run_service_commands(outcomes: &Vec<ServiceCommandOutcome>) -> (out: Result<
    (),
    AgentdError,
>)
    ensures
        match out {
            Ok(_) => judgement(outcome_views(outcomes@)) is Ok,
            Err(e) => judgement(outcome_views(outcomes@)) == Err::<(), _>(e@),
        },
{
    let ghost all = outcome_views(outcomes@);
    let mut failures: Vec<String> = Vec::new();
    assert(texts(failures@) =~= command_failures(all.take(0)));
    for i in 0..outcomes.len()
        invariant
            all == outcome_views(outcomes@),
            texts(failures@) == command_failures(all.take(i as int)),
    {
        let ghost before = texts(failures@);
        proof {
            assert(all.take(i + 1).drop_last() =~= all.take(i as int));
            assert(all[i as int] == outcomes@[i as int]@);
        }
        let outcome = &outcomes[i];
        if !outcome.success && !outcome.command.ignore_failure {
            let mut failure = "`".to_string();
            failure.append(outcome.command.display_line().as_str());
            failure.append("` failed: ");
            failure.append(failure_detail(outcome).as_str());
            failures.push(failure);
            proof {
                assert(texts(failures@) =~= before.push(command_failure(all[i as int])));
            }
        }
    }
    proof {
        assert(all.take(all.len() as int) =~= all);
    }
    if failures.len() == 0 {
        Ok(())
    } else {
        Err(AgentdError::with_detail(AgentdReason::ServiceCommandFailed, join(&failures, "; ")))
    }
}

} // verus!
