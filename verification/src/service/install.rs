//! Installing and removing service definitions.
use crate::error::{error_with, AgentdError, AgentdErrorView, AgentdReason};
use crate::os_text::{display_text, opt_bytes, opt_ref_bytes, OsText};
use crate::paths::parent_path;
use crate::service::systemd::unit_lines;
use crate::service::{
    definition_text, render, ServiceLayout, ServiceLayoutView, ServicePlatform, ServiceSpec,
    ServiceSpecView,
};
use crate::text::{debug_quoted, debug_text, is_single_line, line_seq, single_line};
use vstd::prelude::*;
use vstd::string::*;

verus! {

/// The error for a path that cannot stand in a definition.
pub open spec fn unrepresentable(label: Seq<char>, value: Seq<char>) -> AgentdErrorView {
    error_with(
        AgentdReason::ServicePathUnresolved,
        label + " contains a newline and cannot be written into a service definition: "@
            + debug_quoted(value),
    )
}

/// The first path of a service that cannot stand in a definition. Definitions are made
/// of lines, so a path with a line break would be read as another directive.
pub open spec fn unrepresentable_path(spec: ServiceSpecView) -> Option<AgentdErrorView> {
    if !is_single_line(display_text(spec.bin)) {
        Some(unrepresentable("binary"@, display_text(spec.bin)))
    } else if !is_single_line(display_text(spec.config_dir)) {
        Some(unrepresentable("config dir"@, display_text(spec.config_dir)))
    } else {
        None
    }
}

fn check_representable(label: &str, path: &OsText) -> (out: Result<(), AgentdError>)
    ensures
        match out {
            Ok(_) => is_single_line(display_text(path@)),
            Err(e) => !is_single_line(display_text(path@)) && e@ == unrepresentable(
                label@,
                display_text(path@),
            ),
        },
{
    let value = path.display();
    if single_line(value.as_str()) {
        return Ok(());
    }
    let mut detail = label.to_string();
    detail.append(" contains a newline and cannot be written into a service definition: ");
    detail.append(debug_text(value.as_str()).as_str());
    Err(AgentdError::with_detail(AgentdReason::ServicePathUnresolved, detail))
}

/// Refuses a service whose paths cannot stand in a definition.
pub fn reject_unrepresentable_path(spec: &ServiceSpec) -> (out: Result<(), AgentdError>)
    ensures
        match out {
            Ok(_) => unrepresentable_path(spec@) is None,
            Err(e) => unrepresentable_path(spec@) == Some(e@),
        },
{
    match check_representable("binary", &spec.bin) {
        Ok(_) => check_representable("config dir", &spec.config_dir),
        Err(e) => Err(e),
    }
}

/// A text without the line feed that may end it.
pub open spec fn without_final_newline(s: Seq<char>) -> Seq<char> {
    if s.len() > 0 && s.last() == '\n' {
        s.drop_last()
    } else {
        s
    }
}

fn strip_final_newline(text: &str) -> (out: String)
    ensures
        out@ == without_final_newline(text@),
{
    let mut out = String::new();
    let mut held = false;
    for c in it: text.chars()
        invariant
            it.seq() == text@,
            held == (it.index() > 0 && text@[it.index() - 1] == '\n'),
            out@ == without_final_newline(text@.take(it.index())),
    {
        proof {
            assert(text@.take(it.index() + 1).drop_last() =~= text@.take(it.index()));
            if held {
                assert(text@.take(it.index()).last() == '\n');
                assert(text@.take(it.index()).drop_last().push('\n') =~= text@.take(it.index()));
            }
        }
        if held {
            out.push('\n');
        }
        proof {
            assert(out@ == text@.take(it.index()));
            assert(out@.push(c) =~= text@.take(it.index() + 1));
        }
        held = c == '\n';
        if !held {
            out.push(c);
        }
    }
    proof {
        assert(text@.take(text@.len() as int) =~= text@);
    }
    out
}

/// A step of an installation.
#[derive(Debug, PartialEq, Eq)]
pub enum InstallStep {
    /// Create the directory of the definition, with its parents.
    CreateDefinitionDir(OsText),
    /// Replace the definition as a whole by `body` and a final line feed.
    WriteDefinition { path: OsText, body: String },
    /// Create the directory of the output files, with its parents.
    CreateLogDir(OsText),
}

/// What a step of an installation does.
#[verifier::ext_equal]
pub enum InstallStepView {
    CreateDefinitionDir(Seq<u8>),
    WriteDefinition { path: Seq<u8>, body: Seq<char> },
    CreateLogDir(Seq<u8>),
}

impl View for InstallStep {
    type V = InstallStepView;

    open spec fn view(&self) -> InstallStepView {
        match self {
            InstallStep::CreateDefinitionDir(path) => InstallStepView::CreateDefinitionDir(path@),
            InstallStep::WriteDefinition { path, body } => InstallStepView::WriteDefinition {
                path: path@,
                body: body@,
            },
            InstallStep::CreateLogDir(path) => InstallStepView::CreateLogDir(path@),
        }
    }
}

/// The views of a list of steps.
pub open spec fn step_views(list: Seq<InstallStep>) -> Seq<InstallStepView> {
    list.map_values(|s: InstallStep| s@)
}

/// What is said where a step of an installation fails.
pub open spec fn step_failure_text(step: InstallStepView) -> Seq<char> {
    match step {
        InstallStepView::CreateDefinitionDir(path) => "create service definition dir "@
            + display_text(path),
        InstallStepView::WriteDefinition { path, .. } => "write service definition "@
            + display_text(path),
        InstallStepView::CreateLogDir(path) => "create service log dir "@ + display_text(path),
    }
}

impl InstallStep {
    /// The error where the step fails.
    pub fn failure(&self) -> (err: AgentdError)
        ensures
            err@ == error_with(AgentdReason::SystemError, step_failure_text(self@)),
    {
        let detail = match self {
            InstallStep::CreateDefinitionDir(path) => {
                let mut out = "create service definition dir ".to_string();
                out.append(path.display().as_str());
                out
            },
            InstallStep::WriteDefinition { path, .. } => {
                let mut out = "write service definition ".to_string();
                out.append(path.display().as_str());
                out
            },
            InstallStep::CreateLogDir(path) => {
                let mut out = "create service log dir ".to_string();
                out.append(path.display().as_str());
                out
            },
        };
        AgentdError::with_detail(AgentdReason::SystemError, detail)
    }
}

/// The steps of an installation, or why there is none: paths that cannot be written
/// down, a definition that exists and may not be overwritten, a definition without a
/// directory.
pub open spec fn install_steps(
    layout: ServiceLayoutView,
    spec: ServiceSpecView,
    force: bool,
    existed: bool,
    home: Option<Seq<u8>>,
) -> Result<Seq<InstallStepView>, AgentdErrorView> {
    match unrepresentable_path(spec) {
        Some(e) => Err(e),
        None => if existed && !force {
            Err(
                error_with(
                    AgentdReason::ServiceAlreadyInstalled,
                    "service definition already exists: "@ + display_text(layout.definition_path)
                        + " (pass --force to overwrite)"@,
                ),
            )
        } else {
            match parent_path(layout.definition_path) {
                None => Err(
                    error_with(
                        AgentdReason::ServicePathUnresolved,
                        "no parent directory for "@ + display_text(layout.definition_path),
                    ),
                ),
                Some(parent) => Ok(
                    seq![
                        InstallStepView::CreateDefinitionDir(parent),
                        InstallStepView::WriteDefinition {
                            path: layout.definition_path,
                            body: without_final_newline(definition_text(layout, spec, home)),
                        },
                    ] + (match layout.log_dir {
                        Some(dir) => seq![InstallStepView::CreateLogDir(dir)],
                        None => Seq::empty(),
                    }),
                ),
            }
        },
    }
}

/// Plans an installation. `existed` says whether the definition is there already. A unit
/// that is to be written has exactly the lines that were meant.
pub fn install(
    layout: &ServiceLayout,
    spec: &ServiceSpec,
    force: bool,
    existed: bool,
    home: Option<&OsText>,
) -> (out: Result<Vec<InstallStep>, AgentdError>)
    ensures
        match out {
            Ok(steps) => install_steps(layout@, spec@, force, existed, opt_ref_bytes(home)) == Ok::<
                _,
                AgentdErrorView,
            >(step_views(steps@)),
            Err(e) => install_steps(layout@, spec@, force, existed, opt_ref_bytes(home)) == Err::<
                Seq<InstallStepView>,
                _,
            >(e@),
        },
        out is Ok && layout.platform == ServicePlatform::Systemd ==> line_seq(
            definition_text(layout@, spec@, opt_ref_bytes(home)),
        ) == unit_lines(spec@),
{
    match reject_unrepresentable_path(spec) {
        Ok(_) => {},
        Err(e) => return Err(e),
    }
    if existed && !force {
        let mut detail = "service definition already exists: ".to_string();
        detail.append(layout.definition_path.display().as_str());
        detail.append(" (pass --force to overwrite)");
        return Err(AgentdError::with_detail(AgentdReason::ServiceAlreadyInstalled, detail));
    }
    let parent = match layout.definition_path.parent() {
        Some(parent) => parent,
        None => {
            let mut detail = "no parent directory for ".to_string();
            detail.append(layout.definition_path.display().as_str());
            return Err(AgentdError::with_detail(AgentdReason::ServicePathUnresolved, detail));
        },
    };
    let body = strip_final_newline(render(layout, spec, home).as_str());
    let mut steps: Vec<InstallStep> = vec![
        InstallStep::CreateDefinitionDir(parent),
        InstallStep::WriteDefinition { path: layout.definition_path.clone(), body },
    ];
    if let Some(dir) = &layout.log_dir {
        steps.push(InstallStep::CreateLogDir(dir.clone()));
    }
    proof {
        let wanted = install_steps(layout@, spec@, force, existed, opt_ref_bytes(home));
        assert(step_views(steps@) =~= wanted->Ok_0);
    }
    Ok(steps)
}

/// What an installation has done and found.
#[derive(Debug, PartialEq, Eq)]
pub struct InstallReport {
    pub platform: ServicePlatform,
    pub definition_path: OsText,
    pub overwritten: bool,
    pub bin_present: bool,
    pub exec_bin_present: bool,
    pub log_dir: Option<OsText>,
}

/// What a report says.
#[verifier::ext_equal]
pub struct InstallReportView {
    pub platform: ServicePlatform,
    pub definition_path: Seq<u8>,
    pub overwritten: bool,
    pub bin_present: bool,
    pub exec_bin_present: bool,
    pub log_dir: Option<Seq<u8>>,
}

impl View for InstallReport {
    type V = InstallReportView;

    open spec fn view(&self) -> InstallReportView {
        InstallReportView {
            platform: self.platform,
            definition_path: self.definition_path@,
            overwritten: self.overwritten,
            bin_present: self.bin_present,
            exec_bin_present: self.exec_bin_present,
            log_dir: opt_bytes(self.log_dir),
        }
    }
}

pub(crate) fn copy_opt(value: &Option<OsText>) -> (copy: Option<OsText>)
    ensures
        opt_bytes(copy) == opt_bytes(*value),
{
    match value {
        Some(path) => Some(path.clone()),
        None => None,
    }
}

/// The report on an installation whose steps were taken.
pub open spec fn install_report(
    layout: ServiceLayoutView,
    existed: bool,
    bin_present: bool,
    exec_bin_present: bool,
) -> InstallReportView {
    InstallReportView {
        platform: layout.platform,
        definition_path: layout.definition_path,
        overwritten: existed,
        bin_present,
        exec_bin_present,
        log_dir: layout.log_dir,
    }
}

impl InstallReport {
    /// The report on an installation whose steps were taken.
    pub fn new(
        layout: &ServiceLayout,
        existed: bool,
        bin_present: bool,
        exec_bin_present: bool,
    ) -> (report: InstallReport)
        ensures
            report@ == install_report(layout@, existed, bin_present, exec_bin_present),
    {
        InstallReport {
            platform: layout.platform,
            definition_path: layout.definition_path.clone(),
            overwritten: existed,
            bin_present,
            exec_bin_present,
            log_dir: copy_opt(&layout.log_dir),
        }
    }
}

/// What deleting a file came to.
#[derive(Debug, PartialEq, Eq)]
pub enum FileRemoval {
    Removed,
    NotFound,
    /// It failed, and why.
    Failed(String),
}

/// The error where the file of a definition could not be deleted.
pub open spec fn removal_failure(definition_path: Seq<u8>, cause: Seq<char>) -> AgentdErrorView {
    error_with(
        AgentdReason::SystemError,
        "remove service definition "@ + display_text(definition_path) + ": "@ + cause,
    )
}

/// Whether a definition was removed, from what deleting its file came to. A file that is
/// not there is no failure.
pub open spec fn removal_answer(definition_path: Seq<u8>, removal: FileRemoval) -> Result<
    bool,
    AgentdErrorView,
> {
    match removal {
        FileRemoval::Removed => Ok(true),
        FileRemoval::NotFound => Ok(false),
        FileRemoval::Failed(cause) => Err(removal_failure(definition_path, cause@)),
    }
}

/// Whether a definition was removed, from what deleting its file came to.
pub fn remove(layout: &ServiceLayout, removal: FileRemoval) -> (out: Result<bool, AgentdError>)
    ensures
        match out {
            Ok(removed) => removal_answer(layout@.definition_path, removal) == Ok::<
                _,
                AgentdErrorView,
            >(removed),
            Err(e) => removal_answer(layout@.definition_path, removal) == Err::<bool, _>(e@),
        },
{
    match removal {
        FileRemoval::Removed => Ok(true),
        FileRemoval::NotFound => Ok(false),
        FileRemoval::Failed(cause) => {
            let mut detail = "remove service definition ".to_string();
            detail.append(layout.definition_path.display().as_str());
            detail.append(": ");
            detail.append(cause.as_str());
            Err(AgentdError::with_detail(AgentdReason::SystemError, detail))
        },
    }
}

} // verus!
