//! The command line: commands, their options and the errors of parsing them.
use crate::os_text::{byte_strings, display_text, opt_bytes, text_of, OsText};
use crate::paths::same_path;
use crate::service::{ServicePlatform, ServiceScope};
use crate::text::{opt_text, trim, trimmed};
use vstd::prelude::*;
use vstd::string::*;
use vstd::utf8::*;

verus! {

/// The actions of the `service` command, as they are listed to the user.
pub const SERVICE_ACTIONS: &'static str = "print | install | uninstall | status";

/// What to do with the service.
#[derive(Debug, Clone, Copy, PartialEq, Eq, Structural)]
pub enum ServiceAction {
    Print,
    Install,
    Uninstall,
    Status,
}

/// The options of the `service` command.
#[derive(Debug, PartialEq, Eq)]
pub struct ServiceRequest {
    pub action: ServiceAction,
    pub scope: ServiceScope,
    /// The platform to render for, with `print` only.
    pub platform: Option<ServicePlatform>,
    pub bin: Option<OsText>,
    pub force: bool,
    pub activate: bool,
    /// The one-time token to enroll with before an installation, with `install` only.
    pub enrollment_token: Option<String>,
}

/// The options of the `enroll` command. Without either, the token comes from the
/// configuration.
#[derive(Debug, PartialEq, Eq)]
pub struct EnrollRequest {
    pub token: Option<String>,
    pub token_stdin: bool,
}

/// What the command line asks for.
#[derive(Debug, PartialEq, Eq)]
pub enum Command {
    Help,
    Version,
    Run,
    InitConfig { stdout_only: bool },
    Service(ServiceRequest),
    Enroll(EnrollRequest),
}

/// A parsed command line.
#[derive(Debug, PartialEq, Eq)]
pub struct ParsedArgs {
    pub command: Command,
    pub config_dir: Option<OsText>,
}

/// What a service request asks for.
#[verifier::ext_equal]
pub struct ServiceRequestView {
    pub action: ServiceAction,
    pub scope: ServiceScope,
    pub platform: Option<ServicePlatform>,
    pub bin: Option<Seq<u8>>,
    pub force: bool,
    pub activate: bool,
    pub enrollment_token: Option<Seq<char>>,
}

impl View for ServiceRequest {
    type V = ServiceRequestView;

    open spec fn view(&self) -> ServiceRequestView {
        ServiceRequestView {
            action: self.action,
            scope: self.scope,
            platform: self.platform,
            bin: opt_bytes(self.bin),
            force: self.force,
            activate: self.activate,
            enrollment_token: opt_text(self.enrollment_token),
        }
    }
}

/// What an enroll request asks for.
#[verifier::ext_equal]
pub struct EnrollRequestView {
    pub token: Option<Seq<char>>,
    pub token_stdin: bool,
}

impl View for EnrollRequest {
    type V = EnrollRequestView;

    open spec fn view(&self) -> EnrollRequestView {
        EnrollRequestView { token: opt_text(self.token), token_stdin: self.token_stdin }
    }
}

/// What a command asks for.
#[verifier::ext_equal]
pub enum CommandView {
    Help,
    Version,
    Run,
    InitConfig { stdout_only: bool },
    Service(ServiceRequestView),
    Enroll(EnrollRequestView),
}

impl View for Command {
    type V = CommandView;

    open spec fn view(&self) -> CommandView {
        match self {
            Command::Help => CommandView::Help,
            Command::Version => CommandView::Version,
            Command::Run => CommandView::Run,
            Command::InitConfig { stdout_only } => CommandView::InitConfig {
                stdout_only: *stdout_only,
            },
            Command::Service(request) => CommandView::Service(request@),
            Command::Enroll(request) => CommandView::Enroll(request@),
        }
    }
}

/// What a command line asks for.
#[verifier::ext_equal]
pub struct ParsedArgsView {
    pub command: CommandView,
    pub config_dir: Option<Seq<u8>>,
}

impl View for ParsedArgs {
    type V = ParsedArgsView;

    open spec fn view(&self) -> ParsedArgsView {
        ParsedArgsView { command: self.command@, config_dir: opt_bytes(self.config_dir) }
    }
}

/// An option that an error can name.
#[derive(Debug, Clone, Copy, PartialEq, Eq, Structural)]
pub enum Flag {
    ConfigDir,
    Bin,
    For,
    Force,
    NoActivate,
    Token,
    EnrollmentToken,
}

impl Flag {
    /// The option as it is written on the command line.
    pub open spec fn text(self) -> Seq<char> {
        match self {
            Flag::ConfigDir => "--config-dir"@,
            Flag::Bin => "--bin"@,
            Flag::For => "--for"@,
            Flag::Force => "--force"@,
            Flag::NoActivate => "--no-activate"@,
            Flag::Token => "--token"@,
            Flag::EnrollmentToken => "--enrollment-token"@,
        }
    }

    /// The option as it is written on the command line.
    pub fn as_str(self) -> (out: &'static str)
        ensures
            out@ == self.text(),
    {
        match self {
            Flag::ConfigDir => "--config-dir",
            Flag::Bin => "--bin",
            Flag::For => "--for",
            Flag::Force => "--force",
            Flag::NoActivate => "--no-activate",
            Flag::Token => "--token",
            Flag::EnrollmentToken => "--enrollment-token",
        }
    }
}

/// Why a command line is refused.
#[derive(Debug, PartialEq, Eq)]
pub enum ArgsError {
    /// `help` after another command.
    HelpCombined,
    /// `version` after another command.
    VersionCombined,
    /// A second command.
    MultipleCommands,
    /// `--stdout` without `init-config` before it.
    StdoutWithoutInitConfig,
    /// An argument that is neither a command nor an option here.
    UnknownArgument(OsText),
    /// An option without a value after it.
    MissingValue(Flag),
    /// `service` without an action after it.
    MissingServiceAction,
    /// `service` with something else after it.
    UnknownServiceAction(OsText),
    /// `--for` with another action than `print`.
    ForOnlyWithPrint,
    /// `--for` with an unknown platform.
    UnknownPlatform(OsText),
    /// An option of `service install` with another action.
    OnlyWithInstall(Flag),
    /// Two different configuration directories.
    ConflictingConfigDir(OsText, OsText),
    /// A token that is blank or not UTF-8.
    UnusableToken,
    /// `--token` together with `--token-stdin`.
    TokenFormsExclusive,
}

/// What an error of the command line says.
#[verifier::ext_equal]
pub enum ArgsErrorView {
    HelpCombined,
    VersionCombined,
    MultipleCommands,
    StdoutWithoutInitConfig,
    UnknownArgument(Seq<u8>),
    MissingValue(Flag),
    MissingServiceAction,
    UnknownServiceAction(Seq<u8>),
    ForOnlyWithPrint,
    UnknownPlatform(Seq<u8>),
    OnlyWithInstall(Flag),
    ConflictingConfigDir(Seq<u8>, Seq<u8>),
    UnusableToken,
    TokenFormsExclusive,
}

impl View for ArgsError {
    type V = ArgsErrorView;

    open spec fn view(&self) -> ArgsErrorView {
        match self {
            ArgsError::HelpCombined => ArgsErrorView::HelpCombined,
            ArgsError::VersionCombined => ArgsErrorView::VersionCombined,
            ArgsError::MultipleCommands => ArgsErrorView::MultipleCommands,
            ArgsError::StdoutWithoutInitConfig => ArgsErrorView::StdoutWithoutInitConfig,
            ArgsError::UnknownArgument(arg) => ArgsErrorView::UnknownArgument(arg@),
            ArgsError::MissingValue(flag) => ArgsErrorView::MissingValue(*flag),
            ArgsError::MissingServiceAction => ArgsErrorView::MissingServiceAction,
            ArgsError::UnknownServiceAction(arg) => ArgsErrorView::UnknownServiceAction(arg@),
            ArgsError::ForOnlyWithPrint => ArgsErrorView::ForOnlyWithPrint,
            ArgsError::UnknownPlatform(arg) => ArgsErrorView::UnknownPlatform(arg@),
            ArgsError::OnlyWithInstall(flag) => ArgsErrorView::OnlyWithInstall(*flag),
            ArgsError::ConflictingConfigDir(a, b) => ArgsErrorView::ConflictingConfigDir(a@, b@),
            ArgsError::UnusableToken => ArgsErrorView::UnusableToken,
            ArgsError::TokenFormsExclusive => ArgsErrorView::TokenFormsExclusive,
        }
    }
}

/// The sentence that tells the user of an error.
pub open spec fn args_error_text(err: ArgsErrorView) -> Seq<char> {
    match err {
        ArgsErrorView::HelpCombined => "help cannot be combined with another command"@,
        ArgsErrorView::VersionCombined => "version cannot be combined with another command"@,
        ArgsErrorView::MultipleCommands => "multiple commands are not supported"@,
        ArgsErrorView::StdoutWithoutInitConfig => "--stdout is only supported with init-config"@,
        ArgsErrorView::UnknownArgument(arg) => "unknown argument or command: "@ + display_text(arg)
            + " (supported: help | version | init-config [--stdout] | service <print|install|uninstall|status> | --config-dir <path>)"@,
        ArgsErrorView::MissingValue(flag) => "missing value for "@ + flag.text(),
        ArgsErrorView::MissingServiceAction => "missing service action (supported: "@
            + SERVICE_ACTIONS@ + ")"@,
        ArgsErrorView::UnknownServiceAction(arg) => "unknown service action: "@ + display_text(arg)
            + " (supported: "@ + SERVICE_ACTIONS@ + ")"@,
        ArgsErrorView::ForOnlyWithPrint => "--for is only supported with `service print`"@,
        ArgsErrorView::UnknownPlatform(arg) => "unknown platform for --for: "@ + display_text(arg)
            + " (supported: systemd | launchd)"@,
        ArgsErrorView::OnlyWithInstall(flag) => flag.text()
            + " is only supported with `service install`"@,
        ArgsErrorView::ConflictingConfigDir(a, b) => "conflicting --config-dir: "@ + display_text(a)
            + " vs "@ + display_text(b),
        ArgsErrorView::UnusableToken => "enrollment token must be non-empty UTF-8"@,
        ArgsErrorView::TokenFormsExclusive => "--token and --token-stdin are mutually exclusive"@,
    }
}

impl ArgsError {
    /// The sentence that tells the user of the error.
    pub fn message(&self) -> (out: String)
        ensures
            out@ == args_error_text(self@),
    {
        match self {
            ArgsError::HelpCombined => "help cannot be combined with another command".to_string(),
            ArgsError::VersionCombined => {
                "version cannot be combined with another command".to_string()
            },
            ArgsError::MultipleCommands => "multiple commands are not supported".to_string(),
            ArgsError::StdoutWithoutInitConfig => {
                "--stdout is only supported with init-config".to_string()
            },
            ArgsError::UnknownArgument(arg) => {
                let mut out = "unknown argument or command: ".to_string();
                out.append(arg.display().as_str());
                out.append(
                    " (supported: help | version | init-config [--stdout] | service <print|install|uninstall|status> | --config-dir <path>)",
                );
                out
            },
            ArgsError::MissingValue(flag) => {
                let mut out = "missing value for ".to_string();
                out.append(flag.as_str());
                out
            },
            ArgsError::MissingServiceAction => {
                let mut out = "missing service action (supported: ".to_string();
                out.append(SERVICE_ACTIONS);
                out.append(")");
                out
            },
            ArgsError::UnknownServiceAction(arg) => {
                let mut out = "unknown service action: ".to_string();
                out.append(arg.display().as_str());
                out.append(" (supported: ");
                out.append(SERVICE_ACTIONS);
                out.append(")");
                out
            },
            ArgsError::ForOnlyWithPrint => {
                "--for is only supported with `service print`".to_string()
            },
            ArgsError::UnknownPlatform(arg) => {
                let mut out = "unknown platform for --for: ".to_string();
                out.append(arg.display().as_str());
                out.append(" (supported: systemd | launchd)");
                out
            },
            ArgsError::OnlyWithInstall(flag) => {
                let mut out = flag.as_str().to_string();
                out.append(" is only supported with `service install`");
                out
            },
            ArgsError::ConflictingConfigDir(a, b) => {
                let mut out = "conflicting --config-dir: ".to_string();
                out.append(a.display().as_str());
                out.append(" vs ");
                out.append(b.display().as_str());
                out
            },
            ArgsError::UnusableToken => "enrollment token must be non-empty UTF-8".to_string(),
            ArgsError::TokenFormsExclusive => {
                "--token and --token-stdin are mutually exclusive".to_string()
            },
        }
    }
}

/// An argument that is a given word.
pub open spec fn is_word(arg: Seq<u8>, word: Seq<char>) -> bool {
    arg == encode_utf8(word)
}

/// An argument that would be taken for an option and so is no value.
pub open spec fn is_option_word(arg: Seq<u8>) -> bool {
    ||| is_word(arg, "--help"@)
    ||| is_word(arg, "-h"@)
    ||| is_word(arg, "--version"@)
    ||| is_word(arg, "-V"@)
    ||| is_word(arg, "--stdout"@)
    ||| is_word(arg, "--config-dir"@)
    ||| is_word(arg, "--bin"@)
    ||| is_word(arg, "--for"@)
    ||| is_word(arg, "--token"@)
    ||| is_word(arg, "--token-stdin"@)
    ||| is_word(arg, "--enrollment-token"@)
    ||| is_word(arg, "--system"@)
    ||| is_word(arg, "--user"@)
    ||| is_word(arg, "--force"@)
    ||| is_word(arg, "--no-activate"@)
}

/// Whether an argument would be taken for an option.
pub fn looks_like_option(value: &OsText) -> (yes: bool)
    ensures
        yes == is_option_word(value@),
{
    value.is_text("--help") || value.is_text("-h") || value.is_text("--version") || value.is_text(
        "-V",
    ) || value.is_text("--stdout") || value.is_text("--config-dir") || value.is_text("--bin")
        || value.is_text("--for") || value.is_text("--token") || value.is_text("--token-stdin")
        || value.is_text("--enrollment-token") || value.is_text("--system") || value.is_text(
        "--user",
    ) || value.is_text("--force") || value.is_text("--no-activate")
}

/// The value of an option whose flag is the first of these arguments: the argument
/// after it, unless there is none or it looks like an option.
pub open spec fn flag_value(rest: Seq<Seq<u8>>, flag: Flag) -> Result<Seq<u8>, ArgsErrorView> {
    if rest.len() > 1 && !is_option_word(rest[1]) {
        Ok(rest[1])
    } else {
        Err(ArgsErrorView::MissingValue(flag))
    }
}

/// The argument at `value_index` as the value of an option.
pub fn option_value(args: &Vec<OsText>, value_index: usize, flag: Flag) -> (out: Result<
    &OsText,
    ArgsError,
>)
    ensures
        match out {
            Ok(value) => value_index < args@.len() && value@ == args@[value_index as int]@
                && !is_option_word(value@),
            Err(e) => e@ == ArgsErrorView::MissingValue(flag) && (value_index >= args@.len()
                || is_option_word(args@[value_index as int]@)),
        },
{
    if value_index >= args.len() {
        return Err(ArgsError::MissingValue(flag));
    }
    if looks_like_option(&args[value_index]) {
        return Err(ArgsError::MissingValue(flag));
    }
    Ok(&args[value_index])
}

/// The token in an argument: its text without surrounding white space, where it is
/// UTF-8 and not blank.
pub open spec fn token_of(value: Seq<u8>) -> Option<Seq<char>> {
    match text_of(value) {
        Some(text) => if trimmed(text).len() > 0 {
            Some(trimmed(text))
        } else {
            None
        },
        None => None,
    }
}

/// Reads a token from an argument.
pub fn os_string_to_token(value: &OsText) -> (out: Result<String, ArgsError>)
    ensures
        match out {
            Ok(token) => token_of(value@) == Some(token@),
            Err(e) => token_of(value@) is None && e@ == ArgsErrorView::UnusableToken,
        },
{
    match value.to_text() {
        Some(text) => {
            let token = trim(text.as_str());
            if token.as_str().is_empty() {
                Err(ArgsError::UnusableToken)
            } else {
                Ok(token)
            }
        },
        None => Err(ArgsError::UnusableToken),
    }
}

/// The configuration directory after one more was given: the same path may be given
/// again, another one may not.
pub open spec fn config_dir_after(slot: Option<Seq<u8>>, path: Seq<u8>) -> Result<
    Option<Seq<u8>>,
    ArgsErrorView,
> {
    match slot {
        Some(existing) => if same_path(existing, path) {
            Ok(Some(path))
        } else {
            Err(ArgsErrorView::ConflictingConfigDir(existing, path))
        },
        None => Ok(Some(path)),
    }
}

/// Takes a configuration directory.
pub fn set_config_dir(slot: &mut Option<OsText>, path: OsText) -> (out: Result<(), ArgsError>)
    ensures
        match out {
            Ok(_) => config_dir_after(opt_bytes(*old(slot)), path@) == Ok::<_, ArgsErrorView>(
                opt_bytes(*final(slot)),
            ),
            Err(e) => config_dir_after(opt_bytes(*old(slot)), path@) == Err::<
                Option<Seq<u8>>,
                _,
            >(e@) && *final(slot) == *old(slot),
        },
{
    if let Some(existing) = slot.as_ref() {
        if !existing.same_as(&path) {
            return Err(ArgsError::ConflictingConfigDir(existing.clone(), path));
        }
    }
    *slot = Some(path);
    Ok(())
}

/// The configuration directory after a subcommand that may have given one.
pub open spec fn merged_config_dir(slot: Option<Seq<u8>>, value: Option<Seq<u8>>) -> Result<
    Option<Seq<u8>>,
    ArgsErrorView,
> {
    match value {
        Some(path) => config_dir_after(slot, path),
        None => Ok(slot),
    }
}

/// Takes the configuration directory that a subcommand may have given.
pub fn merge_config_dir(slot: &mut Option<OsText>, value: Option<OsText>) -> (out: Result<
    (),
    ArgsError,
>)
    ensures
        match out {
            Ok(_) => merged_config_dir(opt_bytes(*old(slot)), opt_bytes(value)) == Ok::<
                _,
                ArgsErrorView,
            >(opt_bytes(*final(slot))),
            Err(e) => merged_config_dir(opt_bytes(*old(slot)), opt_bytes(value)) == Err::<
                Option<Seq<u8>>,
                _,
            >(e@) && *final(slot) == *old(slot),
        },
{
    match value {
        Some(path) => set_config_dir(slot, path),
        None => Ok(()),
    }
}

/// Refuses an option of `service install` with another action.
pub fn require_install_action(action: ServiceAction, flag: Flag) -> (out: Result<(), ArgsError>)
    ensures
        match out {
            Ok(_) => action == ServiceAction::Install,
            Err(e) => action != ServiceAction::Install && e@ == ArgsErrorView::OnlyWithInstall(
                flag,
            ),
        },
{
    if action == ServiceAction::Install {
        Ok(())
    } else {
        Err(ArgsError::OnlyWithInstall(flag))
    }
}

/// What the front of an argument list holds.
pub enum OptionRead<O> {
    /// No option of this command.
    End,
    /// An option that is not acceptable.
    Refused(ArgsErrorView),
    /// An option and the number of arguments that it takes up.
    Given { option: O, width: int },
}

/// An option of the `service` command.
pub enum ServiceOption {
    ConfigDir(Seq<u8>),
    Scope(ServiceScope),
    Force,
    NoActivate,
    For(ServicePlatform),
    Bin(Seq<u8>),
    EnrollmentToken(Seq<char>),
}

/// The platform that a value of `--for` names.
pub open spec fn platform_of(value: Seq<u8>) -> Option<ServicePlatform> {
    if is_word(value, "systemd"@) || is_word(value, "linux"@) {
        Some(ServicePlatform::Systemd)
    } else if is_word(value, "launchd"@) || is_word(value, "macos"@) {
        Some(ServicePlatform::Launchd)
    } else {
        None
    }
}

/// The option of `service` at the front of an argument list.
pub open spec fn service_option(action: ServiceAction, rest: Seq<Seq<u8>>) -> OptionRead<
    ServiceOption,
> {
    if rest.len() == 0 {
        OptionRead::End
    } else if is_word(rest[0], "--config-dir"@) {
        match flag_value(rest, Flag::ConfigDir) {
            Ok(value) => OptionRead::Given { option: ServiceOption::ConfigDir(value), width: 2 },
            Err(e) => OptionRead::Refused(e),
        }
    } else if is_word(rest[0], "--system"@) {
        OptionRead::Given { option: ServiceOption::Scope(ServiceScope::System), width: 1 }
    } else if is_word(rest[0], "--user"@) {
        OptionRead::Given { option: ServiceOption::Scope(ServiceScope::User), width: 1 }
    } else if is_word(rest[0], "--force"@) {
        if action == ServiceAction::Install {
            OptionRead::Given { option: ServiceOption::Force, width: 1 }
        } else {
            OptionRead::Refused(ArgsErrorView::OnlyWithInstall(Flag::Force))
        }
    } else if is_word(rest[0], "--no-activate"@) {
        if action == ServiceAction::Install {
            OptionRead::Given { option: ServiceOption::NoActivate, width: 1 }
        } else {
            OptionRead::Refused(ArgsErrorView::OnlyWithInstall(Flag::NoActivate))
        }
    } else if is_word(rest[0], "--for"@) {
        if action != ServiceAction::Print {
            OptionRead::Refused(ArgsErrorView::ForOnlyWithPrint)
        } else {
            match flag_value(rest, Flag::For) {
                Ok(value) => match platform_of(value) {
                    Some(platform) => OptionRead::Given {
                        option: ServiceOption::For(platform),
                        width: 2,
                    },
                    None => OptionRead::Refused(ArgsErrorView::UnknownPlatform(value)),
                },
                Err(e) => OptionRead::Refused(e),
            }
        }
    } else if is_word(rest[0], "--bin"@) {
        match flag_value(rest, Flag::Bin) {
            Ok(value) => OptionRead::Given { option: ServiceOption::Bin(value), width: 2 },
            Err(e) => OptionRead::Refused(e),
        }
    } else if is_word(rest[0], "--enrollment-token"@) {
        if action != ServiceAction::Install {
            OptionRead::Refused(ArgsErrorView::OnlyWithInstall(Flag::EnrollmentToken))
        } else {
            match flag_value(rest, Flag::EnrollmentToken) {
                Ok(value) => match token_of(value) {
                    Some(token) => OptionRead::Given {
                        option: ServiceOption::EnrollmentToken(token),
                        width: 2,
                    },
                    None => OptionRead::Refused(ArgsErrorView::UnusableToken),
                },
                Err(e) => OptionRead::Refused(e),
            }
        }
    } else {
        OptionRead::End
    }
}

/// A service request as far as it has been read, with the configuration directory
/// that was given among its options.
#[verifier::ext_equal]
pub struct ServiceState {
    pub request: ServiceRequestView,
    pub config_dir: Option<Seq<u8>>,
}

/// A service request before its options: for the whole host, activated, nothing
/// overwritten.
pub open spec fn plain_service_state(action: ServiceAction) -> ServiceState {
    ServiceState {
        request: ServiceRequestView {
            action,
            scope: ServiceScope::System,
            platform: None,
            bin: None,
            force: false,
            activate: true,
            enrollment_token: None,
        },
        config_dir: None,
    }
}

/// A service request after one more option.
pub open spec fn with_service_option(state: ServiceState, option: ServiceOption) -> Result<
    ServiceState,
    ArgsErrorView,
> {
    let request = state.request;
    match option {
        ServiceOption::ConfigDir(path) => match config_dir_after(state.config_dir, path) {
            Ok(config_dir) => Ok(ServiceState { config_dir, ..state }),
            Err(e) => Err(e),
        },
        ServiceOption::Scope(scope) => Ok(
            ServiceState { request: ServiceRequestView { scope, ..request }, ..state },
        ),
        ServiceOption::Force => Ok(
            ServiceState { request: ServiceRequestView { force: true, ..request }, ..state },
        ),
        ServiceOption::NoActivate => Ok(
            ServiceState { request: ServiceRequestView { activate: false, ..request }, ..state },
        ),
        ServiceOption::For(platform) => Ok(
            ServiceState {
                request: ServiceRequestView { platform: Some(platform), ..request },
                ..state
            },
        ),
        ServiceOption::Bin(bin) => Ok(
            ServiceState { request: ServiceRequestView { bin: Some(bin), ..request }, ..state },
        ),
        ServiceOption::EnrollmentToken(token) => Ok(
            ServiceState {
                request: ServiceRequestView { enrollment_token: Some(token), ..request },
                ..state
            },
        ),
    }
}

/// The service request that results from the options at the front of an argument
/// list, and the arguments that are left.
pub open spec fn service_options(rest: Seq<Seq<u8>>, state: ServiceState) -> Result<
    (ServiceState, Seq<Seq<u8>>),
    ArgsErrorView,
>
    decreases rest.len(),
{
    match service_option(state.request.action, rest) {
        OptionRead::End => Ok((state, rest)),
        OptionRead::Refused(e) => Err(e),
        OptionRead::Given { option, width } => match with_service_option(state, option) {
            Ok(next) => service_options(rest.skip(width), next),
            Err(e) => Err(e),
        },
    }
}

/// The action that an argument names.
pub open spec fn action_of(arg: Seq<u8>) -> Option<ServiceAction> {
    if is_word(arg, "print"@) {
        Some(ServiceAction::Print)
    } else if is_word(arg, "install"@) {
        Some(ServiceAction::Install)
    } else if is_word(arg, "uninstall"@) {
        Some(ServiceAction::Uninstall)
    } else if is_word(arg, "status"@) {
        Some(ServiceAction::Status)
    } else {
        None
    }
}

/// The service request that an argument list starts with, behind the word
/// `service`, and the arguments that are left.
pub open spec fn service_request(rest: Seq<Seq<u8>>) -> Result<
    (ServiceState, Seq<Seq<u8>>),
    ArgsErrorView,
> {
    if rest.len() == 0 {
        Err(ArgsErrorView::MissingServiceAction)
    } else {
        match action_of(rest[0]) {
            Some(action) => service_options(rest.skip(1), plain_service_state(action)),
            None => Err(ArgsErrorView::UnknownServiceAction(rest[0])),
        }
    }
}

/// An option of the `enroll` command.
pub enum EnrollOption {
    ConfigDir(Seq<u8>),
    Token(Seq<char>),
    TokenStdin,
}

/// The option of `enroll` at the front of an argument list.
pub open spec fn enroll_option(rest: Seq<Seq<u8>>) -> OptionRead<EnrollOption> {
    if rest.len() == 0 {
        OptionRead::End
    } else if is_word(rest[0], "--config-dir"@) {
        match flag_value(rest, Flag::ConfigDir) {
            Ok(value) => OptionRead::Given { option: EnrollOption::ConfigDir(value), width: 2 },
            Err(e) => OptionRead::Refused(e),
        }
    } else if is_word(rest[0], "--token"@) {
        match flag_value(rest, Flag::Token) {
            Ok(value) => match token_of(value) {
                Some(token) => OptionRead::Given { option: EnrollOption::Token(token), width: 2 },
                None => OptionRead::Refused(ArgsErrorView::UnusableToken),
            },
            Err(e) => OptionRead::Refused(e),
        }
    } else if is_word(rest[0], "--token-stdin"@) {
        OptionRead::Given { option: EnrollOption::TokenStdin, width: 1 }
    } else {
        OptionRead::End
    }
}

/// An enroll request as far as it has been read, with the configuration directory
/// that was given among its options.
#[verifier::ext_equal]
pub struct EnrollState {
    pub request: EnrollRequestView,
    pub config_dir: Option<Seq<u8>>,
}

/// An enroll request after one more option.
pub open spec fn with_enroll_option(state: EnrollState, option: EnrollOption) -> Result<
    EnrollState,
    ArgsErrorView,
> {
    let request = state.request;
    match option {
        EnrollOption::ConfigDir(path) => match config_dir_after(state.config_dir, path) {
            Ok(config_dir) => Ok(EnrollState { config_dir, ..state }),
            Err(e) => Err(e),
        },
        EnrollOption::Token(token) => Ok(
            EnrollState { request: EnrollRequestView { token: Some(token), ..request }, ..state },
        ),
        EnrollOption::TokenStdin => Ok(
            EnrollState { request: EnrollRequestView { token_stdin: true, ..request }, ..state },
        ),
    }
}

/// The enroll request that results from the options at the front of an argument
/// list, and the arguments that are left.
pub open spec fn enroll_options(rest: Seq<Seq<u8>>, state: EnrollState) -> Result<
    (EnrollState, Seq<Seq<u8>>),
    ArgsErrorView,
>
    decreases rest.len(),
{
    match enroll_option(rest) {
        OptionRead::End => Ok((state, rest)),
        OptionRead::Refused(e) => Err(e),
        OptionRead::Given { option, width } => match with_enroll_option(state, option) {
            Ok(next) => enroll_options(rest.skip(width), next),
            Err(e) => Err(e),
        },
    }
}

/// An enroll request before its options.
pub open spec fn plain_enroll_state() -> EnrollState {
    EnrollState {
        request: EnrollRequestView { token: None, token_stdin: false },
        config_dir: None,
    }
}

/// The enroll request that an argument list starts with, behind the word `enroll`,
/// and the arguments that are left. At most one form of the token may be given.
pub open spec fn enroll_request(rest: Seq<Seq<u8>>) -> Result<
    (EnrollState, Seq<Seq<u8>>),
    ArgsErrorView,
> {
    match enroll_options(rest, plain_enroll_state()) {
        Ok((state, left)) => if state.request.token is Some && state.request.token_stdin {
            Err(ArgsErrorView::TokenFormsExclusive)
        } else {
            Ok((state, left))
        },
        Err(e) => Err(e),
    }
}

/// A command line as far as it has been read.
#[verifier::ext_equal]
pub struct LineState {
    pub command: CommandView,
    /// Whether the command was given, as opposed to being the default.
    pub explicit: bool,
    pub config_dir: Option<Seq<u8>>,
}

/// Reading the options of a service leaves no more arguments than there were.
pub proof fn lemma_service_options_shrink(rest: Seq<Seq<u8>>, state: ServiceState)
    ensures
        service_options(rest, state) matches Ok((_, left)) ==> left.len() <= rest.len(),
    decreases rest.len(),
{
    match service_option(state.request.action, rest) {
        OptionRead::Given { option, width } => match with_service_option(state, option) {
            Ok(next) => lemma_service_options_shrink(rest.skip(width), next),
            Err(_) => {},
        },
        _ => {},
    }
}

/// Reading the options of an enrollment leaves no more arguments than there were.
pub proof fn lemma_enroll_options_shrink(rest: Seq<Seq<u8>>, state: EnrollState)
    ensures
        enroll_options(rest, state) matches Ok((_, left)) ==> left.len() <= rest.len(),
    decreases rest.len(),
{
    match enroll_option(rest) {
        OptionRead::Given { option, width } => match with_enroll_option(state, option) {
            Ok(next) => lemma_enroll_options_shrink(rest.skip(width), next),
            Err(_) => {},
        },
        _ => {},
    }
}

/// A command line that goes on with a command.
pub open spec fn with_command(state: LineState, command: CommandView) -> LineState {
    LineState { command, explicit: true, ..state }
}

/// What the arguments that are left make of a command line. The configuration
/// directory may be given anywhere; the last one given outside a subcommand wins.
pub open spec fn command_line(rest: Seq<Seq<u8>>, state: LineState) -> Result<
    ParsedArgsView,
    ArgsErrorView,
>
    decreases rest.len(),
{
    if rest.len() == 0 {
        Ok(ParsedArgsView { command: state.command, config_dir: state.config_dir })
    } else if is_word(rest[0], "help"@) || is_word(rest[0], "--help"@) || is_word(rest[0], "-h"@) {
        if state.explicit {
            Err(ArgsErrorView::HelpCombined)
        } else {
            command_line(rest.skip(1), with_command(state, CommandView::Help))
        }
    } else if is_word(rest[0], "version"@) || is_word(rest[0], "--version"@) || is_word(
        rest[0],
        "-V"@,
    ) {
        if state.explicit {
            Err(ArgsErrorView::VersionCombined)
        } else {
            command_line(rest.skip(1), with_command(state, CommandView::Version))
        }
    } else if is_word(rest[0], "service"@) {
        if state.explicit {
            Err(ArgsErrorView::MultipleCommands)
        } else {
            match service_request(rest.skip(1)) {
                Err(e) => Err(e),
                Ok((service, left)) => match merged_config_dir(
                    state.config_dir,
                    service.config_dir,
                ) {
                    Err(e) => Err(e),
                    Ok(config_dir) => {
                        proof {
                            lemma_service_options_shrink(
                                rest.skip(1).skip(1),
                                plain_service_state(action_of(rest.skip(1)[0])->0),
                            );
                        }
                        command_line(
                            left,
                            LineState {
                                config_dir,
                                ..with_command(state, CommandView::Service(service.request))
                            },
                        )
                    },
                },
            }
        }
    } else if is_word(rest[0], "enroll"@) {
        if state.explicit {
            Err(ArgsErrorView::MultipleCommands)
        } else {
            match enroll_request(rest.skip(1)) {
                Err(e) => Err(e),
                Ok((enroll, left)) => match merged_config_dir(state.config_dir, enroll.config_dir) {
                    Err(e) => Err(e),
                    Ok(config_dir) => {
                        proof {
                            lemma_enroll_options_shrink(rest.skip(1), plain_enroll_state());
                        }
                        command_line(
                            left,
                            LineState {
                                config_dir,
                                ..with_command(state, CommandView::Enroll(enroll.request))
                            },
                        )
                    },
                },
            }
        }
    } else if is_word(rest[0], "--config-dir"@) {
        match flag_value(rest, Flag::ConfigDir) {
            Ok(value) => command_line(
                rest.skip(2),
                LineState { config_dir: Some(value), ..state },
            ),
            Err(e) => Err(e),
        }
    } else if is_word(rest[0], "--stdout"@) {
        if state.command is InitConfig {
            command_line(
                rest.skip(1),
                LineState { command: CommandView::InitConfig { stdout_only: true }, ..state },
            )
        } else {
            Err(ArgsErrorView::StdoutWithoutInitConfig)
        }
    } else if is_word(rest[0], "init-config"@) {
        if state.explicit {
            Err(ArgsErrorView::MultipleCommands)
        } else {
            command_line(
                rest.skip(1),
                with_command(state, CommandView::InitConfig { stdout_only: false }),
            )
        }
    } else {
        Err(ArgsErrorView::UnknownArgument(rest[0]))
    }
}

/// A command line before its first argument: run the daemon.
pub open spec fn plain_line_state() -> LineState {
    LineState { command: CommandView::Run, explicit: false, config_dir: None }
}

/// What a whole command line asks for.
pub open spec fn parsed_args(args: Seq<Seq<u8>>) -> Result<ParsedArgsView, ArgsErrorView> {
    command_line(args, plain_line_state())
}

/// The arguments from an index on: none where the index is behind the last one.
pub open spec fn args_from(args: Seq<OsText>, index: int) -> Seq<Seq<u8>> {
    if index <= args.len() {
        byte_strings(args).skip(index)
    } else {
        Seq::empty()
    }
}

proof fn lemma_args_from(args: Seq<OsText>, index: int)
    requires
        0 <= index <= args.len(),
    ensures
        args_from(args, index).len() == args.len() - index,
        index < args.len() ==> args_from(args, index)[0] == args[index]@,
        index + 1 < args.len() ==> args_from(args, index)[1] == args[index + 1]@,
        index + 1 <= args.len() ==> args_from(args, index).skip(1) == args_from(args, index + 1),
        index + 2 <= args.len() ==> args_from(args, index).skip(2) == args_from(args, index + 2),
{
    if index + 1 <= args.len() {
        assert(args_from(args, index).skip(1) =~= args_from(args, index + 1));
    }
    if index + 2 <= args.len() {
        assert(args_from(args, index).skip(2) =~= args_from(args, index + 2));
    }
}

/// Parses `<action> [options]`, which start at `action_index`. Gives the request,
/// the configuration directory among its options and the index of the next
/// argument. Behind the last argument there is no action.
pub fn parse_service_request(args: &Vec<OsText>, action_index: usize) -> (out: Result<
    (ServiceRequest, Option<OsText>, usize),
    ArgsError,
>)
    ensures
        match out {
            Ok((request, config_dir, next)) => next <= args@.len() && service_request(
                args_from(args@, action_index as int),
            ) == Ok::<_, ArgsErrorView>(
                (
                    ServiceState { request: request@, config_dir: opt_bytes(config_dir) },
                    args_from(args@, next as int),
                ),
            ),
            Err(e) => service_request(args_from(args@, action_index as int)) == Err::<
                (ServiceState, Seq<Seq<u8>>),
                _,
            >(e@),
        },
{
    if action_index >= args.len() {
        return Err(ArgsError::MissingServiceAction);
    }
    proof {
        lemma_args_from(args@, action_index as int);
    }
    let word = &args[action_index];
    let action = if word.is_text("print") {
        ServiceAction::Print
    } else if word.is_text("install") {
        ServiceAction::Install
    } else if word.is_text("uninstall") {
        ServiceAction::Uninstall
    } else if word.is_text("status") {
        ServiceAction::Status
    } else {
        return Err(ArgsError::UnknownServiceAction(word.clone()));
    };

    // A resident agent reads restricted paths, so the whole host is the default.
    let mut request = ServiceRequest {
        action,
        scope: ServiceScope::System,
        platform: None,
        bin: None,
        force: false,
        activate: true,
        enrollment_token: None,
    };
    let mut config_dir: Option<OsText> = None;
    let mut index: usize = action_index + 1;
    let ghost wanted = service_request(args_from(args@, action_index as int));
    while index < args.len()
        invariant
            index <= args@.len(),
            request.action == action,
            service_options(
                args_from(args@, index as int),
                ServiceState { request: request@, config_dir: opt_bytes(config_dir) },
            ) == wanted,
            wanted == service_request(args_from(args@, action_index as int)),
        ensures
            index <= args@.len(),
            wanted == Ok::<_, ArgsErrorView>(
                (
                    ServiceState { request: request@, config_dir: opt_bytes(config_dir) },
                    args_from(args@, index as int),
                ),
            ),
        decreases args@.len() - index,
    {
        proof {
            lemma_args_from(args@, index as int);
        }
        let arg = &args[index];
        if arg.is_text("--config-dir") {
            let value = match option_value(args, index + 1, Flag::ConfigDir) {
                Ok(value) => value,
                Err(e) => return Err(e),
            };
            match set_config_dir(&mut config_dir, value.clone()) {
                Ok(_) => {},
                Err(e) => return Err(e),
            }
            index = index + 2;
            continue;
        }
        if arg.is_text("--system") {
            request.scope = ServiceScope::System;
            index = index + 1;
            continue;
        }
        if arg.is_text("--user") {
            request.scope = ServiceScope::User;
            index = index + 1;
            continue;
        }
        if arg.is_text("--force") {
            match require_install_action(action, Flag::Force) {
                Ok(_) => {},
                Err(e) => return Err(e),
            }
            request.force = true;
            index = index + 1;
            continue;
        }
        if arg.is_text("--no-activate") {
            match require_install_action(action, Flag::NoActivate) {
                Ok(_) => {},
                Err(e) => return Err(e),
            }
            request.activate = false;
            index = index + 1;
            continue;
        }
        if arg.is_text("--for") {
            if action != ServiceAction::Print {
                return Err(ArgsError::ForOnlyWithPrint);
            }
            let value = match option_value(args, index + 1, Flag::For) {
                Ok(value) => value,
                Err(e) => return Err(e),
            };
            let platform = if value.is_text("systemd") || value.is_text("linux") {
                ServicePlatform::Systemd
            } else if value.is_text("launchd") || value.is_text("macos") {
                ServicePlatform::Launchd
            } else {
                return Err(ArgsError::UnknownPlatform(value.clone()));
            };
            request.platform = Some(platform);
            index = index + 2;
            continue;
        }
        if arg.is_text("--bin") {
            let value = match option_value(args, index + 1, Flag::Bin) {
                Ok(value) => value,
                Err(e) => return Err(e),
            };
            request.bin = Some(value.clone());
            index = index + 2;
            continue;
        }
        if arg.is_text("--enrollment-token") {
            match require_install_action(action, Flag::EnrollmentToken) {
                Ok(_) => {},
                Err(e) => return Err(e),
            }
            let value = match option_value(args, index + 1, Flag::EnrollmentToken) {
                Ok(value) => value,
                Err(e) => return Err(e),
            };
            let token = match os_string_to_token(value) {
                Ok(token) => token,
                Err(e) => return Err(e),
            };
            request.enrollment_token = Some(token);
            index = index + 2;
            continue;
        }
        break;
    }
    Ok((request, config_dir, index))
}

/// Parses the options of `enroll`, which start at `start_index`. Gives the request,
/// the configuration directory among its options and the index of the next
/// argument. Behind the last argument there are no options, and the index stays.
pub fn parse_enroll_request(args: &Vec<OsText>, start_index: usize) -> (out: Result<
    (EnrollRequest, Option<OsText>, usize),
    ArgsError,
>)
    ensures
        match out {
            Ok((request, config_dir, next)) => {
                &&& if start_index <= args@.len() {
                    next <= args@.len()
                } else {
                    next == start_index
                }
                &&& enroll_request(args_from(args@, start_index as int)) == Ok::<_, ArgsErrorView>(
                    (
                        EnrollState { request: request@, config_dir: opt_bytes(config_dir) },
                        args_from(args@, next as int),
                    ),
                )
            },
            Err(e) => enroll_request(args_from(args@, start_index as int)) == Err::<
                (EnrollState, Seq<Seq<u8>>),
                _,
            >(e@),
        },
{
    let mut request = EnrollRequest { token: None, token_stdin: false };
    let mut config_dir: Option<OsText> = None;
    let mut index: usize = start_index;
    let ghost wanted = enroll_options(args_from(args@, start_index as int), plain_enroll_state());
    while index < args.len()
        invariant
            start_index <= args@.len() ==> index <= args@.len(),
            start_index > args@.len() ==> index == start_index,
            enroll_options(
                args_from(args@, index as int),
                EnrollState { request: request@, config_dir: opt_bytes(config_dir) },
            ) == wanted,
            wanted == enroll_options(args_from(args@, start_index as int), plain_enroll_state()),
        ensures
            start_index <= args@.len() ==> index <= args@.len(),
            start_index > args@.len() ==> index == start_index,
            wanted == Ok::<_, ArgsErrorView>(
                (
                    EnrollState { request: request@, config_dir: opt_bytes(config_dir) },
                    args_from(args@, index as int),
                ),
            ),
        decreases args@.len() - index,
    {
        proof {
            lemma_args_from(args@, index as int);
        }
        let arg = &args[index];
        if arg.is_text("--config-dir") {
            let value = match option_value(args, index + 1, Flag::ConfigDir) {
                Ok(value) => value,
                Err(e) => return Err(e),
            };
            match set_config_dir(&mut config_dir, value.clone()) {
                Ok(_) => {},
                Err(e) => return Err(e),
            }
            index = index + 2;
            continue;
        }
        if arg.is_text("--token") {
            let value = match option_value(args, index + 1, Flag::Token) {
                Ok(value) => value,
                Err(e) => return Err(e),
            };
            let token = match os_string_to_token(value) {
                Ok(token) => token,
                Err(e) => return Err(e),
            };
            request.token = Some(token);
            index = index + 2;
            continue;
        }
        if arg.is_text("--token-stdin") {
            request.token_stdin = true;
            index = index + 1;
            continue;
        }
        break;
    }
    if request.token.is_some() && request.token_stdin {
        return Err(ArgsError::TokenFormsExclusive);
    }
    Ok((request, config_dir, index))
}

/// Parses a command line, without the name of the program.
pub fn parse_command(args: &Vec<OsText>) -> (out: Result<ParsedArgs, ArgsError>)
    ensures
        match out {
            Ok(parsed) => parsed_args(byte_strings(args@)) == Ok::<_, ArgsErrorView>(parsed@),
            Err(e) => parsed_args(byte_strings(args@)) == Err::<ParsedArgsView, _>(e@),
        },
{
    let mut command = Command::Run;
    let mut command_explicit = false;
    let mut config_dir: Option<OsText> = None;
    let mut index: usize = 0;
    let ghost wanted = parsed_args(byte_strings(args@));
    proof {
        assert(args_from(args@, 0) =~= byte_strings(args@));
    }
    while index < args.len()
        invariant
            index <= args@.len(),
            wanted == parsed_args(byte_strings(args@)),
            command_line(
                args_from(args@, index as int),
                LineState {
                    command: command@,
                    explicit: command_explicit,
                    config_dir: opt_bytes(config_dir),
                },
            ) == wanted,
        decreases args@.len() - index,
    {
        proof {
            lemma_args_from(args@, index as int);
        }
        let arg = &args[index];
        if arg.is_text("help") || arg.is_text("--help") || arg.is_text("-h") {
            if command_explicit {
                return Err(ArgsError::HelpCombined);
            }
            command = Command::Help;
            command_explicit = true;
            index = index + 1;
            continue;
        }
        if arg.is_text("version") || arg.is_text("--version") || arg.is_text("-V") {
            if command_explicit {
                return Err(ArgsError::VersionCombined);
            }
            command = Command::Version;
            command_explicit = true;
            index = index + 1;
            continue;
        }
        if arg.is_text("service") {
            if command_explicit {
                return Err(ArgsError::MultipleCommands);
            }
            let (request, sub_config_dir, next) = match parse_service_request(args, index + 1) {
                Ok(parsed) => parsed,
                Err(e) => return Err(e),
            };
            proof {
                let rest = args_from(args@, index + 1);
                lemma_service_options_shrink(
                    rest.skip(1),
                    plain_service_state(action_of(rest[0])->0),
                );
                lemma_args_from(args@, next as int);
            }
            match merge_config_dir(&mut config_dir, sub_config_dir) {
                Ok(_) => {},
                Err(e) => return Err(e),
            }
            command = Command::Service(request);
            command_explicit = true;
            index = next;
            continue;
        }
        if arg.is_text("enroll") {
            if command_explicit {
                return Err(ArgsError::MultipleCommands);
            }
            let (request, sub_config_dir, next) = match parse_enroll_request(args, index + 1) {
                Ok(parsed) => parsed,
                Err(e) => return Err(e),
            };
            proof {
                lemma_enroll_options_shrink(args_from(args@, index + 1), plain_enroll_state());
                lemma_args_from(args@, next as int);
            }
            match merge_config_dir(&mut config_dir, sub_config_dir) {
                Ok(_) => {},
                Err(e) => return Err(e),
            }
            command = Command::Enroll(request);
            command_explicit = true;
            index = next;
            continue;
        }
        if arg.is_text("--config-dir") {
            let value = match option_value(args, index + 1, Flag::ConfigDir) {
                Ok(value) => value,
                Err(e) => return Err(e),
            };
            config_dir = Some(value.clone());
            index = index + 2;
            continue;
        }
        if arg.is_text("--stdout") {
            let init = match &command {
                Command::InitConfig { .. } => true,
                _ => false,
            };
            if !init {
                return Err(ArgsError::StdoutWithoutInitConfig);
            }
            command = Command::InitConfig { stdout_only: true };
            index = index + 1;
            continue;
        }
        if arg.is_text("init-config") {
            if command_explicit {
                return Err(ArgsError::MultipleCommands);
            }
            command = Command::InitConfig { stdout_only: false };
            command_explicit = true;
            index = index + 1;
            continue;
        }
        return Err(ArgsError::UnknownArgument(arg.clone()));
    }
    Ok(ParsedArgs { command, config_dir })
}

} // verus!
