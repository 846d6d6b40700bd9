//! From the command line to what the program does.
use crate::config::template::{default_file_config_text, DEFAULT_FILE_CONFIG};
use crate::control::args::{
    args_error_text, parse_command, parsed_args, Command, CommandView, EnrollRequest,
    EnrollRequestView, ParsedArgsView, ServiceRequest, ServiceRequestView,
};
use crate::control::messages::{
    config_root, config_root_for, usage_message, version_line, version_message, USAGE,
};
use crate::error::{error_with, AgentdError, AgentdErrorView, AgentdReason};
use crate::os_text::{byte_strings, opt_bytes, OsText};
use vstd::prelude::*;
use vstd::string::*;

verus! {

/// What the program does.
#[derive(Debug, PartialEq, Eq)]
pub enum EntryAction {
    /// Print a text.
    Print(String),
    /// Print a text and a line feed.
    PrintLine(String),
    /// Run the daemon with this configuration directory.
    RunDaemon(OsText),
    /// Write a configuration file to this directory unless there is one.
    InitConfig(OsText),
    /// Manage the service. The configuration directory is as it was given.
    Service { config_dir: Option<OsText>, request: ServiceRequest },
    /// Enroll with this configuration directory.
    Enroll { config_root: OsText, request: EnrollRequest },
}

/// What the program does.
#[verifier::ext_equal]
pub enum EntryActionView {
    Print(Seq<char>),
    PrintLine(Seq<char>),
    RunDaemon(Seq<u8>),
    InitConfig(Seq<u8>),
    Service { config_dir: Option<Seq<u8>>, request: ServiceRequestView },
    Enroll { config_root: Seq<u8>, request: EnrollRequestView },
}

impl View for EntryAction {
    type V = EntryActionView;

    open spec fn view(&self) -> EntryActionView {
        match self {
            EntryAction::Print(text) => EntryActionView::Print(text@),
            EntryAction::PrintLine(text) => EntryActionView::PrintLine(text@),
            EntryAction::RunDaemon(dir) => EntryActionView::RunDaemon(dir@),
            EntryAction::InitConfig(dir) => EntryActionView::InitConfig(dir@),
            EntryAction::Service { config_dir, request } => EntryActionView::Service {
                config_dir: opt_bytes(*config_dir),
                request: request@,
            },
            EntryAction::Enroll { config_root, request } => EntryActionView::Enroll {
                config_root: config_root@,
                request: request@,
            },
        }
    }
}

/// What the program does for a parsed command line.
pub open spec fn entry_action(root: Seq<u8>, parsed: ParsedArgsView, version: Seq<char>) -> EntryActionView {
    let dir = config_root(root, parsed.config_dir);
    match parsed.command {
        CommandView::Help => EntryActionView::Print(USAGE@),
        CommandView::Version => EntryActionView::PrintLine(version_line(version)),
        CommandView::Run => EntryActionView::RunDaemon(dir),
        CommandView::InitConfig { stdout_only } => if stdout_only {
            EntryActionView::Print(DEFAULT_FILE_CONFIG@)
        } else {
            EntryActionView::InitConfig(dir)
        },
        CommandView::Service(request) => EntryActionView::Service {
            config_dir: parsed.config_dir,
            request,
        },
        CommandView::Enroll(request) => EntryActionView::Enroll { config_root: dir, request },
    }
}

/// What the program does for a command line, from a working directory, or why it does
/// nothing.
pub open spec fn program_action(
    root: Seq<u8>,
    args: Seq<Seq<u8>>,
    version: Seq<char>,
) -> Result<EntryActionView, AgentdErrorView> {
    match parsed_args(args) {
        Ok(parsed) => Ok(entry_action(root, parsed, version)),
        Err(refusal) => Err(error_with(AgentdReason::InvalidArgs, args_error_text(refusal))),
    }
}

/// What the program does for a command line, from a working directory.
pub fn run_from_args(root: &OsText, args: &Vec<OsText>, version: &str) -> (out: Result<
    EntryAction,
    AgentdError,
>)
    ensures
        match out {
            Ok(action) => program_action(root@, byte_strings(args@), version@) == Ok::<
                _,
                AgentdErrorView,
            >(action@),
            Err(e) => program_action(root@, byte_strings(args@), version@) == Err::<
                EntryActionView,
                _,
            >(e@),
        },
{
    let parsed = match parse_command(args) {
        Ok(parsed) => parsed,
        Err(refusal) => {
            return Err(
                AgentdError::with_detail(AgentdReason::InvalidArgs, refusal.message()),
            );
        },
    };
    let dir = config_root_for(root, parsed.config_dir.as_ref());
    match parsed.command {
        Command::Help => Ok(EntryAction::Print(usage_message().to_string())),
        Command::Version => Ok(EntryAction::PrintLine(version_message(version))),
        Command::Run => Ok(EntryAction::RunDaemon(dir)),
        Command::InitConfig { stdout_only } => {
            if stdout_only {
                Ok(EntryAction::Print(default_file_config_text()))
            } else {
                Ok(EntryAction::InitConfig(dir))
            }
        },
        Command::Service(request) => Ok(
            EntryAction::Service { config_dir: parsed.config_dir, request },
        ),
        Command::Enroll(request) => Ok(EntryAction::Enroll { config_root: dir, request }),
    }
}

} // verus!
