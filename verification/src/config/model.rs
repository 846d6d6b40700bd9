//! The part of the configuration that is completed after it was read.
use crate::config::env::{
    expand_optional, expand_string, expanded, opt_expanded, ConfigError, ConfigReason, EnvSnapshot,
};
use crate::text::opt_text;
use vstd::prelude::*;
use vstd::string::*;

verus! {

/// Who the agent is.
#[derive(Debug, PartialEq, Eq)]
pub struct AgentSection {
    pub agent_id: Option<String>,
    pub environment_id: Option<String>,
    pub instance_name: Option<String>,
}

/// How the agent reaches its control plane.
#[derive(Debug, PartialEq, Eq)]
pub struct ControlPlaneSection {
    pub enabled: bool,
    pub endpoint: Option<String>,
    pub enrollment_token: Option<String>,
    pub credential_request: Option<String>,
    pub credential_id: Option<String>,
    pub bearer_token: Option<String>,
    pub credential_expires_at: Option<String>,
    pub tls_mode: Option<String>,
    pub trust_bundle: Option<String>,
    pub auth_mode: Option<String>,
}

/// Where the agent keeps its data.
#[derive(Debug, PartialEq, Eq)]
pub struct PathsSection {
    pub root_dir: String,
    pub run_dir: String,
    pub state_dir: String,
    pub log_dir: String,
}

/// Where collected records go.
#[derive(Debug, PartialEq, Eq)]
pub struct LogsOutputSection {
    pub kind: String,
    pub file_path: String,
    pub tcp_addr: String,
    pub tcp_framing: String,
}

/// A file that is collected.
#[derive(Debug, PartialEq, Eq)]
pub struct LogFileInput {
    pub input_id: String,
    pub path: String,
    pub startup_position: String,
    pub multiline_mode: String,
}

/// What is collected and where it goes.
#[derive(Debug, PartialEq, Eq)]
pub struct LogsSection {
    pub spool_dir: String,
    pub output: LogsOutputSection,
    pub file_inputs: Vec<LogFileInput>,
}

/// The configuration of the agent.
#[derive(Debug, PartialEq, Eq)]
pub struct AgentConfig {
    pub agent: AgentSection,
    pub control_plane: ControlPlaneSection,
    pub paths: PathsSection,
    pub logs: LogsSection,
}

#[verifier::ext_equal]
pub struct AgentSectionView {
    pub agent_id: Option<Seq<char>>,
    pub environment_id: Option<Seq<char>>,
    pub instance_name: Option<Seq<char>>,
}

impl View for AgentSection {
    type V = AgentSectionView;

    open spec fn view(&self) -> AgentSectionView {
        AgentSectionView {
            agent_id: opt_text(self.agent_id),
            environment_id: opt_text(self.environment_id),
            instance_name: opt_text(self.instance_name),
        }
    }
}

#[verifier::ext_equal]
pub struct ControlPlaneSectionView {
    pub enabled: bool,
    pub endpoint: Option<Seq<char>>,
    pub enrollment_token: Option<Seq<char>>,
    pub credential_request: Option<Seq<char>>,
    pub credential_id: Option<Seq<char>>,
    pub bearer_token: Option<Seq<char>>,
    pub credential_expires_at: Option<Seq<char>>,
    pub tls_mode: Option<Seq<char>>,
    pub trust_bundle: Option<Seq<char>>,
    pub auth_mode: Option<Seq<char>>,
}

impl View for ControlPlaneSection {
    type V = ControlPlaneSectionView;

    open spec fn view(&self) -> ControlPlaneSectionView {
        ControlPlaneSectionView {
            enabled: self.enabled,
            endpoint: opt_text(self.endpoint),
            enrollment_token: opt_text(self.enrollment_token),
            credential_request: opt_text(self.credential_request),
            credential_id: opt_text(self.credential_id),
            bearer_token: opt_text(self.bearer_token),
            credential_expires_at: opt_text(self.credential_expires_at),
            tls_mode: opt_text(self.tls_mode),
            trust_bundle: opt_text(self.trust_bundle),
            auth_mode: opt_text(self.auth_mode),
        }
    }
}

#[verifier::ext_equal]
pub struct PathsSectionView {
    pub root_dir: Seq<char>,
    pub run_dir: Seq<char>,
    pub state_dir: Seq<char>,
    pub log_dir: Seq<char>,
}

impl View for PathsSection {
    type V = PathsSectionView;

    open spec fn view(&self) -> PathsSectionView {
        PathsSectionView {
            root_dir: self.root_dir@,
            run_dir: self.run_dir@,
            state_dir: self.state_dir@,
            log_dir: self.log_dir@,
        }
    }
}

#[verifier::ext_equal]
pub struct LogsOutputSectionView {
    pub kind: Seq<char>,
    pub file_path: Seq<char>,
    pub tcp_addr: Seq<char>,
    pub tcp_framing: Seq<char>,
}

impl View for LogsOutputSection {
    type V = LogsOutputSectionView;

    open spec fn view(&self) -> LogsOutputSectionView {
        LogsOutputSectionView {
            kind: self.kind@,
            file_path: self.file_path@,
            tcp_addr: self.tcp_addr@,
            tcp_framing: self.tcp_framing@,
        }
    }
}

#[verifier::ext_equal]
pub struct LogFileInputView {
    pub input_id: Seq<char>,
    pub path: Seq<char>,
    pub startup_position: Seq<char>,
    pub multiline_mode: Seq<char>,
}

impl View for LogFileInput {
    type V = LogFileInputView;

    open spec fn view(&self) -> LogFileInputView {
        LogFileInputView {
            input_id: self.input_id@,
            path: self.path@,
            startup_position: self.startup_position@,
            multiline_mode: self.multiline_mode@,
        }
    }
}

/// The views of a list of inputs.
pub open spec fn input_views(list: Seq<LogFileInput>) -> Seq<LogFileInputView> {
    list.map_values(|i: LogFileInput| i@)
}

#[verifier::ext_equal]
pub struct LogsSectionView {
    pub spool_dir: Seq<char>,
    pub output: LogsOutputSectionView,
    pub file_inputs: Seq<LogFileInputView>,
}

impl View for LogsSection {
    type V = LogsSectionView;

    open spec fn view(&self) -> LogsSectionView {
        LogsSectionView {
            spool_dir: self.spool_dir@,
            output: self.output@,
            file_inputs: input_views(self.file_inputs@),
        }
    }
}

/// What a configuration says.
#[verifier::ext_equal]
pub struct AgentConfigView {
    pub agent: AgentSectionView,
    pub control_plane: ControlPlaneSectionView,
    pub paths: PathsSectionView,
    pub logs: LogsSectionView,
}

impl View for AgentConfig {
    type V = AgentConfigView;

    open spec fn view(&self) -> AgentConfigView {
        AgentConfigView {
            agent: self.agent@,
            control_plane: self.control_plane@,
            paths: self.paths@,
            logs: self.logs@,
        }
    }
}

/// A function on texts, applied to an optional text.
pub open spec fn opt_map(value: Option<Seq<char>>, f: spec_fn(Seq<char>) -> Seq<char>) -> Option<
    Seq<char>,
> {
    match value {
        Some(s) => Some(f(s)),
        None => None,
    }
}

impl AgentSectionView {
    /// The texts of the section, in their order.
    pub open spec fn texts(self) -> Seq<Option<Seq<char>>> {
        seq![self.agent_id, self.environment_id, self.instance_name]
    }

    /// The section with a function applied to each text.
    pub open spec fn mapped(self, f: spec_fn(Seq<char>) -> Seq<char>) -> AgentSectionView {
        AgentSectionView {
            agent_id: opt_map(self.agent_id, f),
            environment_id: opt_map(self.environment_id, f),
            instance_name: opt_map(self.instance_name, f),
        }
    }
}

impl ControlPlaneSectionView {
    /// The texts of the section, in their order.
    pub open spec fn texts(self) -> Seq<Option<Seq<char>>> {
        seq![
            self.endpoint,
            self.enrollment_token,
            self.credential_request,
            self.credential_id,
            self.bearer_token,
            self.credential_expires_at,
            self.tls_mode,
            self.trust_bundle,
            self.auth_mode,
        ]
    }

    /// The section with a function applied to each text.
    pub open spec fn mapped(self, f: spec_fn(Seq<char>) -> Seq<char>) -> ControlPlaneSectionView {
        ControlPlaneSectionView {
            enabled: self.enabled,
            endpoint: opt_map(self.endpoint, f),
            enrollment_token: opt_map(self.enrollment_token, f),
            credential_request: opt_map(self.credential_request, f),
            credential_id: opt_map(self.credential_id, f),
            bearer_token: opt_map(self.bearer_token, f),
            credential_expires_at: opt_map(self.credential_expires_at, f),
            tls_mode: opt_map(self.tls_mode, f),
            trust_bundle: opt_map(self.trust_bundle, f),
            auth_mode: opt_map(self.auth_mode, f),
        }
    }
}

impl PathsSectionView {
    /// The texts of the section, in their order.
    pub open spec fn texts(self) -> Seq<Option<Seq<char>>> {
        seq![Some(self.root_dir), Some(self.run_dir), Some(self.state_dir), Some(self.log_dir)]
    }

    /// The section with a function applied to each text.
    pub open spec fn mapped(self, f: spec_fn(Seq<char>) -> Seq<char>) -> PathsSectionView {
        PathsSectionView {
            root_dir: f(self.root_dir),
            run_dir: f(self.run_dir),
            state_dir: f(self.state_dir),
            log_dir: f(self.log_dir),
        }
    }
}

impl LogFileInputView {
    /// The texts of the input, in their order.
    pub open spec fn texts(self) -> Seq<Option<Seq<char>>> {
        seq![
            Some(self.input_id),
            Some(self.path),
            Some(self.startup_position),
            Some(self.multiline_mode),
        ]
    }

    /// The input with a function applied to each text.
    pub open spec fn mapped(self, f: spec_fn(Seq<char>) -> Seq<char>) -> LogFileInputView {
        LogFileInputView {
            input_id: f(self.input_id),
            path: f(self.path),
            startup_position: f(self.startup_position),
            multiline_mode: f(self.multiline_mode),
        }
    }
}

/// The texts of a list of inputs, in their order.
pub open spec fn inputs_texts(inputs: Seq<LogFileInputView>) -> Seq<Option<Seq<char>>>
    decreases inputs.len(),
{
    if inputs.len() == 0 {
        Seq::empty()
    } else {
        inputs_texts(inputs.drop_last()) + inputs.last().texts()
    }
}

/// A list of inputs with a function applied to each text.
pub open spec fn inputs_mapped(
    inputs: Seq<LogFileInputView>,
    f: spec_fn(Seq<char>) -> Seq<char>,
) -> Seq<LogFileInputView> {
    inputs.map_values(|i: LogFileInputView| i.mapped(f))
}

impl LogsSectionView {
    /// The texts of the section before its inputs, in their order.
    pub open spec fn own_texts(self) -> Seq<Option<Seq<char>>> {
        seq![
            Some(self.spool_dir),
            Some(self.output.kind),
            Some(self.output.file_path),
            Some(self.output.tcp_addr),
            Some(self.output.tcp_framing),
        ]
    }

    /// The section with a function applied to each text.
    pub open spec fn mapped(self, f: spec_fn(Seq<char>) -> Seq<char>) -> LogsSectionView {
        LogsSectionView {
            spool_dir: f(self.spool_dir),
            output: LogsOutputSectionView {
                kind: f(self.output.kind),
                file_path: f(self.output.file_path),
                tcp_addr: f(self.output.tcp_addr),
                tcp_framing: f(self.output.tcp_framing),
            },
            file_inputs: inputs_mapped(self.file_inputs, f),
        }
    }
}

impl AgentConfigView {
    /// The texts of the configuration, in their order.
    pub open spec fn texts(self) -> Seq<Option<Seq<char>>> {
        self.agent.texts() + self.control_plane.texts() + self.paths.texts()
            + self.logs.own_texts() + inputs_texts(self.logs.file_inputs)
    }

    /// The configuration with a function applied to each text.
    pub open spec fn mapped(self, f: spec_fn(Seq<char>) -> Seq<char>) -> AgentConfigView {
        AgentConfigView {
            agent: self.agent.mapped(f),
            control_plane: self.control_plane.mapped(f),
            paths: self.paths.mapped(f),
            logs: self.logs.mapped(f),
        }
    }
}

/// The first variable that a list of values refers to and that is not set.
pub open spec fn first_missing(
    values: Seq<Option<Seq<char>>>,
    env: Map<Seq<char>, Seq<char>>,
) -> Option<Seq<char>>
    decreases values.len(),
{
    if values.len() == 0 {
        None
    } else {
        match opt_expanded(values[0], env) {
            Err(missing) => Some(missing),
            Ok(_) => first_missing(values.skip(1), env),
        }
    }
}

/// The expansion of a value in which every variable is set.
pub open spec fn value_expanded(s: Seq<char>, env: Map<Seq<char>, Seq<char>>) -> Seq<char> {
    match expanded(s, env) {
        Ok(text) => text,
        Err(_) => s,
    }
}

/// The expansion of values with some variables.
pub open spec fn expander(env: Map<Seq<char>, Seq<char>>) -> spec_fn(Seq<char>) -> Seq<char> {
    |s: Seq<char>| value_expanded(s, env)
}

proof fn lemma_first_missing_concat(
    a: Seq<Option<Seq<char>>>,
    b: Seq<Option<Seq<char>>>,
    env: Map<Seq<char>, Seq<char>>,
)
    ensures
        first_missing(a + b, env) == (match first_missing(a, env) {
            Some(missing) => Some(missing),
            None => first_missing(b, env),
        }),
    decreases a.len(),
{
    if a.len() == 0 {
        assert(a + b =~= b);
    } else {
        assert((a + b).skip(1) =~= a.skip(1) + b);
        lemma_first_missing_concat(a.skip(1), b, env);
    }
}

/// Expands the first of some optional values, and says what it makes of the rest.
fn expand_next(
    value: &Option<String>,
    env: &EnvSnapshot,
    Ghost(left): Ghost<Seq<Option<Seq<char>>>>,
) -> (out: Result<Option<String>, ConfigError>)
    requires
        left.len() > 0,
        left[0] == opt_text(*value),
    ensures
        match out {
            Ok(text) => opt_text(text) == opt_map(opt_text(*value), expander(env@))
                && first_missing(left, env@) == first_missing(left.skip(1), env@),
            Err(e) => e.reason == ConfigReason::MissingEnvVar && first_missing(left, env@) == Some(
                e.detail@,
            ),
        },
{
    expand_optional(value, env)
}

/// Expands the first of some values, and says what it makes of the rest.
fn expand_next_text(
    value: &String,
    env: &EnvSnapshot,
    Ghost(left): Ghost<Seq<Option<Seq<char>>>>,
) -> (out: Result<String, ConfigError>)
    requires
        left.len() > 0,
        left[0] == Some(value@),
    ensures
        match out {
            Ok(text) => text@ == value_expanded(value@, env@) && first_missing(left, env@)
                == first_missing(left.skip(1), env@),
            Err(e) => e.reason == ConfigReason::MissingEnvVar && first_missing(left, env@) == Some(
                e.detail@,
            ),
        },
{
    expand_string(value.as_str(), env)
}

fn expand_agent(section: &AgentSection, env: &EnvSnapshot) -> (out: Result<
    AgentSection,
    ConfigError,
>)
    ensures
        match out {
            Ok(done) => first_missing(section@.texts(), env@) is None && done@ == section@.mapped(
                expander(env@),
            ),
            Err(e) => e.reason == ConfigReason::MissingEnvVar && first_missing(
                section@.texts(),
                env@,
            ) == Some(e.detail@),
        },
{
    let ghost all = section@.texts();
    let agent_id = match expand_next(&section.agent_id, env, Ghost(all)) {
        Ok(text) => text,
        Err(e) => return Err(e),
    };
    let environment_id = match expand_next(&section.environment_id, env, Ghost(all.skip(1))) {
        Ok(text) => text,
        Err(e) => return Err(e),
    };
    let ghost left = all.skip(1).skip(1);
    let instance_name = match expand_next(&section.instance_name, env, Ghost(left)) {
        Ok(text) => text,
        Err(e) => return Err(e),
    };
    Ok(AgentSection { agent_id, environment_id, instance_name })
}

fn expand_control_plane(section: &ControlPlaneSection, env: &EnvSnapshot) -> (out: Result<
    ControlPlaneSection,
    ConfigError,
>)
    ensures
        match out {
            Ok(done) => first_missing(section@.texts(), env@) is None && done@ == section@.mapped(
                expander(env@),
            ),
            Err(e) => e.reason == ConfigReason::MissingEnvVar && first_missing(
                section@.texts(),
                env@,
            ) == Some(e.detail@),
        },
{
    let ghost mut left = section@.texts();
    let endpoint = match expand_next(&section.endpoint, env, Ghost(left)) {
        Ok(text) => text,
        Err(e) => return Err(e),
    };
    proof {
        left = left.skip(1);
    }
    let enrollment_token = match expand_next(&section.enrollment_token, env, Ghost(left)) {
        Ok(text) => text,
        Err(e) => return Err(e),
    };
    proof {
        left = left.skip(1);
    }
    let credential_request = match expand_next(&section.credential_request, env, Ghost(left)) {
        Ok(text) => text,
        Err(e) => return Err(e),
    };
    proof {
        left = left.skip(1);
    }
    let credential_id = match expand_next(&section.credential_id, env, Ghost(left)) {
        Ok(text) => text,
        Err(e) => return Err(e),
    };
    proof {
        left = left.skip(1);
    }
    let bearer_token = match expand_next(&section.bearer_token, env, Ghost(left)) {
        Ok(text) => text,
        Err(e) => return Err(e),
    };
    proof {
        left = left.skip(1);
    }
    let credential_expires_at = match expand_next(
        &section.credential_expires_at,
        env,
        Ghost(left),
    ) {
        Ok(text) => text,
        Err(e) => return Err(e),
    };
    proof {
        left = left.skip(1);
    }
    let tls_mode = match expand_next(&section.tls_mode, env, Ghost(left)) {
        Ok(text) => text,
        Err(e) => return Err(e),
    };
    proof {
        left = left.skip(1);
    }
    let trust_bundle = match expand_next(&section.trust_bundle, env, Ghost(left)) {
        Ok(text) => text,
        Err(e) => return Err(e),
    };
    proof {
        left = left.skip(1);
    }
    let auth_mode = match expand_next(&section.auth_mode, env, Ghost(left)) {
        Ok(text) => text,
        Err(e) => return Err(e),
    };
    Ok(
        ControlPlaneSection {
            enabled: section.enabled,
            endpoint,
            enrollment_token,
            credential_request,
            credential_id,
            bearer_token,
            credential_expires_at,
            tls_mode,
            trust_bundle,
            auth_mode,
        },
    )
}

fn expand_paths(section: &PathsSection, env: &EnvSnapshot) -> (out: Result<
    PathsSection,
    ConfigError,
>)
    ensures
        match out {
            Ok(done) => first_missing(section@.texts(), env@) is None && done@ == section@.mapped(
                expander(env@),
            ),
            Err(e) => e.reason == ConfigReason::MissingEnvVar && first_missing(
                section@.texts(),
                env@,
            ) == Some(e.detail@),
        },
{
    let ghost mut left = section@.texts();
    let root_dir = match expand_next_text(&section.root_dir, env, Ghost(left)) {
        Ok(text) => text,
        Err(e) => return Err(e),
    };
    proof {
        left = left.skip(1);
    }
    let run_dir = match expand_next_text(&section.run_dir, env, Ghost(left)) {
        Ok(text) => text,
        Err(e) => return Err(e),
    };
    proof {
        left = left.skip(1);
    }
    let state_dir = match expand_next_text(&section.state_dir, env, Ghost(left)) {
        Ok(text) => text,
        Err(e) => return Err(e),
    };
    proof {
        left = left.skip(1);
    }
    let log_dir = match expand_next_text(&section.log_dir, env, Ghost(left)) {
        Ok(text) => text,
        Err(e) => return Err(e),
    };
    Ok(PathsSection { root_dir, run_dir, state_dir, log_dir })
}

fn expand_input(input: &LogFileInput, env: &EnvSnapshot) -> (out: Result<LogFileInput, ConfigError>)
    ensures
        match out {
            Ok(done) => first_missing(input@.texts(), env@) is None && done@ == input@.mapped(
                expander(env@),
            ),
            Err(e) => e.reason == ConfigReason::MissingEnvVar && first_missing(
                input@.texts(),
                env@,
            ) == Some(e.detail@),
        },
{
    let ghost mut left = input@.texts();
    let input_id = match expand_next_text(&input.input_id, env, Ghost(left)) {
        Ok(text) => text,
        Err(e) => return Err(e),
    };
    proof {
        left = left.skip(1);
    }
    let path = match expand_next_text(&input.path, env, Ghost(left)) {
        Ok(text) => text,
        Err(e) => return Err(e),
    };
    proof {
        left = left.skip(1);
    }
    let startup_position = match expand_next_text(&input.startup_position, env, Ghost(left)) {
        Ok(text) => text,
        Err(e) => return Err(e),
    };
    proof {
        left = left.skip(1);
    }
    let multiline_mode = match expand_next_text(&input.multiline_mode, env, Ghost(left)) {
        Ok(text) => text,
        Err(e) => return Err(e),
    };
    Ok(LogFileInput { input_id, path, startup_position, multiline_mode })
}

fn expand_inputs(inputs: &Vec<LogFileInput>, env: &EnvSnapshot) -> (out: Result<
    Vec<LogFileInput>,
    ConfigError,
>)
    ensures
        match out {
            Ok(done) => first_missing(inputs_texts(input_views(inputs@)), env@) is None
                && input_views(done@) == inputs_mapped(input_views(inputs@), expander(env@)),
            Err(e) => e.reason == ConfigReason::MissingEnvVar && first_missing(
                inputs_texts(input_views(inputs@)),
                env@,
            ) == Some(e.detail@),
        },
{
    let ghost all = input_views(inputs@);
    let ghost f = expander(env@);
    let mut done: Vec<LogFileInput> = Vec::new();
    for i in 0..inputs.len()
        invariant
            all == input_views(inputs@),
            f == expander(env@),
            first_missing(inputs_texts(all.take(i as int)), env@) is None,
            input_views(done@) == inputs_mapped(all, f).take(i as int),
    {
        proof {
            assert(all.take(i + 1).drop_last() =~= all.take(i as int));
            assert(all[i as int] == inputs@[i as int]@);
            lemma_first_missing_concat(
                inputs_texts(all.take(i as int)),
                all[i as int].texts(),
                env@,
            );
        }
        match expand_input(&inputs[i], env) {
            Ok(input) => {
                let ghost before = input_views(done@);
                let ghost shown = input@;
                done.push(input);
                proof {
                    assert(input_views(done@) =~= before.push(shown));
                    assert(input_views(done@) =~= inputs_mapped(all, f).take(i + 1));
                }
            },
            Err(e) => {
                proof {
                    lemma_first_missing_prefix(all, i + 1, env@);
                }
                return Err(e);
            },
        }
    }
    proof {
        assert(all.take(all.len() as int) =~= all);
        assert(inputs_mapped(all, f).take(all.len() as int) =~= inputs_mapped(all, f));
    }
    Ok(done)
}

proof fn lemma_first_missing_prefix(
    inputs: Seq<LogFileInputView>,
    n: int,
    env: Map<Seq<char>, Seq<char>>,
)
    requires
        0 <= n <= inputs.len(),
        first_missing(inputs_texts(inputs.take(n)), env) is Some,
    ensures
        first_missing(inputs_texts(inputs), env) == first_missing(
            inputs_texts(inputs.take(n)),
            env,
        ),
    decreases inputs.len(),
{
    if n == inputs.len() {
        assert(inputs.take(n) =~= inputs);
    } else {
        let front = inputs.drop_last();
        assert(front.take(n) =~= inputs.take(n));
        lemma_first_missing_prefix(front, n, env);
        lemma_first_missing_concat(inputs_texts(front), inputs.last().texts(), env);
    }
}

fn expand_logs(section: &LogsSection, env: &EnvSnapshot) -> (out: Result<LogsSection, ConfigError>)
    ensures
        match out {
            Ok(done) => first_missing(
                section@.own_texts() + inputs_texts(section@.file_inputs),
                env@,
            ) is None && done@ == section@.mapped(expander(env@)),
            Err(e) => e.reason == ConfigReason::MissingEnvVar && first_missing(
                section@.own_texts() + inputs_texts(section@.file_inputs),
                env@,
            ) == Some(e.detail@),
        },
{
    let ghost mut left = section@.own_texts();
    proof {
        lemma_first_missing_concat(
            section@.own_texts(),
            inputs_texts(section@.file_inputs),
            env@,
        );
    }
    let spool_dir = match expand_next_text(&section.spool_dir, env, Ghost(left)) {
        Ok(text) => text,
        Err(e) => return Err(e),
    };
    proof {
        left = left.skip(1);
    }
    let kind = match expand_next_text(&section.output.kind, env, Ghost(left)) {
        Ok(text) => text,
        Err(e) => return Err(e),
    };
    proof {
        left = left.skip(1);
    }
    let file_path = match expand_next_text(&section.output.file_path, env, Ghost(left)) {
        Ok(text) => text,
        Err(e) => return Err(e),
    };
    proof {
        left = left.skip(1);
    }
    let tcp_addr = match expand_next_text(&section.output.tcp_addr, env, Ghost(left)) {
        Ok(text) => text,
        Err(e) => return Err(e),
    };
    proof {
        left = left.skip(1);
    }
    let tcp_framing = match expand_next_text(&section.output.tcp_framing, env, Ghost(left)) {
        Ok(text) => text,
        Err(e) => return Err(e),
    };
    let file_inputs = match expand_inputs(&section.file_inputs, env) {
        Ok(inputs) => inputs,
        Err(e) => return Err(e),
    };
    Ok(
        LogsSection {
            spool_dir,
            output: LogsOutputSection { kind, file_path, tcp_addr, tcp_framing },
            file_inputs,
        },
    )
}

/// Replaces the references to variables in every text of a configuration. Where a
/// variable is not set, the first one in the order of the texts is reported.
pub fn expand_env_contract(config: &AgentConfig, env: &EnvSnapshot) -> (out: Result<
    AgentConfig,
    ConfigError,
>)
    ensures
        match out {
            Ok(done) => first_missing(config@.texts(), env@) is None && done@ == config@.mapped(
                expander(env@),
            ),
            Err(e) => e.reason == ConfigReason::MissingEnvVar && first_missing(
                config@.texts(),
                env@,
            ) == Some(e.detail@),
        },
{
    proof {
        let a = config@.agent.texts();
        let c = config@.control_plane.texts();
        let p = config@.paths.texts();
        let l = config@.logs.own_texts();
        let i = inputs_texts(config@.logs.file_inputs);
        assert(config@.texts() =~= a + (c + (p + (l + i))));
        lemma_first_missing_concat(a, c + (p + (l + i)), env@);
        lemma_first_missing_concat(c, p + (l + i), env@);
        lemma_first_missing_concat(p, l + i, env@);
    }
    let agent = match expand_agent(&config.agent, env) {
        Ok(section) => section,
        Err(e) => return Err(e),
    };
    let control_plane = match expand_control_plane(&config.control_plane, env) {
        Ok(section) => section,
        Err(e) => return Err(e),
    };
    let paths = match expand_paths(&config.paths, env) {
        Ok(section) => section,
        Err(e) => return Err(e),
    };
    let logs = match expand_logs(&config.logs, env) {
        Ok(section) => section,
        Err(e) => return Err(e),
    };
    Ok(AgentConfig { agent, control_plane, paths, logs })
}

} // verus!
