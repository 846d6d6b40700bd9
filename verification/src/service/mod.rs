//! Integration with the service manager of the operating system.
//!
//! The daemon runs in the foreground. Starting it at boot, and again after it ended,
//! is left to systemd on Linux and to launchd on macOS. The modules below render
//! service definitions, plan their installation and removal, and name the commands
//! of the service manager.
use crate::config::SYSTEM_CONFIG_DIR;
use crate::error::{error_with, AgentdError, AgentdErrorView, AgentdReason};
use crate::os_text::{opt_bytes, opt_ref_bytes, OsText};
use crate::paths::{joined_path, sibling_path};
use crate::text::{decimal, decimal_text, line_seq, text_eq, texts};
use vstd::prelude::*;
use vstd::string::*;
use vstd::utf8::*;

pub mod command_laws;
pub mod commands;
pub mod definition_laws;
pub mod install;
pub mod launchd;
pub mod laws;
pub mod status;
pub mod status_laws;
pub mod systemd;

verus! {

/// The name of the service and of its systemd unit.
pub const SERVICE_NAME: &'static str = "wist-agentd";

/// The label of the service in launchd.
pub const LAUNCHD_LABEL: &'static str = "com.dayu-sec.wist-agentd";

/// The name of the configuration directory in the home directory of a user.
pub const USER_CONFIG_DIR_NAME: &'static str = ".wist-agentd";

/// The name of the optional file with environment variables.
pub const ENV_FILE_NAME: &'static str = "agentd.env";

/// The name of the executor, which lies beside the daemon.
pub const EXEC_BIN_NAME: &'static str = "wist-exec";

/// Who a service is installed for.
#[derive(Debug, Clone, Copy, PartialEq, Eq, Structural)]
pub enum ServiceScope {
    /// The whole host: starts at boot and runs as root.
    System,
    /// The current user: starts at login and runs as that user.
    User,
}

impl ServiceScope {
    /// The scope as a word.
    pub open spec fn word(self) -> Seq<char> {
        match self {
            ServiceScope::System => "system"@,
            ServiceScope::User => "user"@,
        }
    }

    /// The scope as a word.
    pub fn as_str(self) -> (out: &'static str)
        ensures
            out@ == self.word(),
    {
        match self {
            ServiceScope::System => "system",
            ServiceScope::User => "user",
        }
    }

    /// Whether the scope is the whole host.
    pub fn is_system(self) -> (yes: bool)
        ensures
            yes == (self == ServiceScope::System),
    {
        match self {
            ServiceScope::System => true,
            ServiceScope::User => false,
        }
    }
}

/// A service manager.
#[derive(Debug, Clone, Copy, PartialEq, Eq, Structural)]
pub enum ServicePlatform {
    Systemd,
    Launchd,
}

impl ServicePlatform {
    /// The service manager of an operating system, as far as it is supported.
    pub open spec fn for_os(target_os: Seq<char>) -> Option<ServicePlatform> {
        if target_os == "linux"@ {
            Some(ServicePlatform::Systemd)
        } else if target_os == "macos"@ {
            Some(ServicePlatform::Launchd)
        } else {
            None
        }
    }

    /// The service manager of the operating system that the daemon was built for.
    pub fn current(target_os: &str) -> (out: Option<ServicePlatform>)
        ensures
            out == ServicePlatform::for_os(target_os@),
    {
        if text_eq(target_os, "linux") {
            Some(ServicePlatform::Systemd)
        } else if text_eq(target_os, "macos") {
            Some(ServicePlatform::Launchd)
        } else {
            None
        }
    }

    /// The service manager as a word.
    pub open spec fn word(self) -> Seq<char> {
        match self {
            ServicePlatform::Systemd => "systemd"@,
            ServicePlatform::Launchd => "launchd"@,
        }
    }

    /// The service manager as a word.
    pub fn as_str(self) -> (out: &'static str)
        ensures
            out@ == self.word(),
    {
        match self {
            ServicePlatform::Systemd => "systemd",
            ServicePlatform::Launchd => "launchd",
        }
    }
}

/// A home directory that can be used: it is set and not empty.
pub open spec fn home_path(home: Option<Seq<u8>>) -> Option<Seq<u8>> {
    match home {
        Some(path) => if path.len() > 0 {
            Some(path)
        } else {
            None
        },
        None => None,
    }
}

/// The error where a home directory is needed and there is none.
pub open spec fn no_home() -> AgentdErrorView {
    error_with(
        AgentdReason::ServicePathUnresolved,
        "HOME is not set; pass --config-dir / --bin explicitly"@,
    )
}

/// A path below the home directory, where there is one.
pub open spec fn below_home(home: Option<Seq<u8>>, path: Seq<u8>) -> Result<
    Seq<u8>,
    AgentdErrorView,
> {
    match home_path(home) {
        Some(dir) => Ok(joined_path(dir, path)),
        None => Err(no_home()),
    }
}

/// What a path computation gives, by its view.
pub open spec fn path_result(out: Result<OsText, AgentdError>) -> Result<Seq<u8>, AgentdErrorView> {
    match out {
        Ok(path) => Ok(path@),
        Err(e) => Err(e@),
    }
}

/// The home directory, from the value of `HOME`.
pub fn home_dir(home: Option<&OsText>) -> (out: Result<OsText, AgentdError>)
    ensures
        path_result(out) == (match home_path(opt_ref_bytes(home)) {
            Some(path) => Ok::<_, AgentdErrorView>(path),
            None => Err(no_home()),
        }),
{
    if let Some(path) = home {
        if !path.is_empty() {
            return Ok(path.clone());
        }
    }
    Err(
        AgentdError::with_detail(
            AgentdReason::ServicePathUnresolved,
            "HOME is not set; pass --config-dir / --bin explicitly".to_string(),
        ),
    )
}

/// The configuration directory that a scope uses where none is given.
pub open spec fn default_config_path(scope: ServiceScope, home: Option<Seq<u8>>) -> Result<
    Seq<u8>,
    AgentdErrorView,
> {
    match scope {
        ServiceScope::System => Ok(encode_utf8(SYSTEM_CONFIG_DIR@)),
        ServiceScope::User => below_home(home, encode_utf8(USER_CONFIG_DIR_NAME@)),
    }
}

/// The configuration directory that a scope uses where none is given.
pub fn default_config_dir(scope: ServiceScope, home: Option<&OsText>) -> (out: Result<
    OsText,
    AgentdError,
>)
    ensures
        path_result(out) == default_config_path(scope, opt_ref_bytes(home)),
{
    match scope {
        ServiceScope::System => Ok(OsText::from_text(SYSTEM_CONFIG_DIR)),
        ServiceScope::User => match home_dir(home) {
            Ok(dir) => Ok(dir.join(&OsText::from_text(USER_CONFIG_DIR_NAME))),
            Err(e) => Err(e),
        },
    }
}

/// The binary that a service runs where none is given: the running executable, in
/// its canonical form where that can be had.
pub open spec fn default_bin_path(exe: Option<Seq<u8>>, canonical: Option<Seq<u8>>) -> Result<
    Seq<u8>,
    AgentdErrorView,
> {
    match exe {
        Some(path) => Ok(
            match canonical {
                Some(resolved) => resolved,
                None => path,
            },
        ),
        None => Err(
            error_with(
                AgentdReason::ServicePathUnresolved,
                "resolve current executable for service install"@,
            ),
        ),
    }
}

/// The binary that a service runs where none is given.
pub fn default_bin(exe: Option<&OsText>, canonical: Option<&OsText>) -> (out: Result<
    OsText,
    AgentdError,
>)
    ensures
        path_result(out) == default_bin_path(opt_ref_bytes(exe), opt_ref_bytes(canonical)),
{
    match exe {
        Some(path) => match canonical {
            Some(resolved) => Ok(resolved.clone()),
            None => Ok(path.clone()),
        },
        None => Err(
            AgentdError::with_detail(
                AgentdReason::ServicePathUnresolved,
                "resolve current executable for service install".to_string(),
            ),
        ),
    }
}

/// Where the definition and the logs of a service lie.
#[derive(Debug, PartialEq, Eq)]
pub struct ServiceLayout {
    pub platform: ServicePlatform,
    pub scope: ServiceScope,
    pub definition_path: OsText,
    /// The directory of the output files; systemd writes to the journal instead.
    pub log_dir: Option<OsText>,
}

/// What a layout says.
#[verifier::ext_equal]
pub struct ServiceLayoutView {
    pub platform: ServicePlatform,
    pub scope: ServiceScope,
    pub definition_path: Seq<u8>,
    pub log_dir: Option<Seq<u8>>,
}

impl View for ServiceLayout {
    type V = ServiceLayoutView;

    open spec fn view(&self) -> ServiceLayoutView {
        ServiceLayoutView {
            platform: self.platform,
            scope: self.scope,
            definition_path: self.definition_path@,
            log_dir: opt_bytes(self.log_dir),
        }
    }
}

/// The standard layout of a platform and a scope.
pub open spec fn standard_layout(
    platform: ServicePlatform,
    scope: ServiceScope,
    home: Option<Seq<u8>>,
) -> Result<ServiceLayoutView, AgentdErrorView> {
    match platform {
        ServicePlatform::Systemd => match systemd::unit_file(scope, home) {
            Ok(definition_path) => Ok(
                ServiceLayoutView { platform, scope, definition_path, log_dir: None },
            ),
            Err(e) => Err(e),
        },
        ServicePlatform::Launchd => match launchd::plist_file(scope, home) {
            Ok(definition_path) => match launchd::log_directory(scope, home) {
                Ok(dir) => Ok(
                    ServiceLayoutView { platform, scope, definition_path, log_dir: Some(dir) },
                ),
                Err(e) => Err(e),
            },
            Err(e) => Err(e),
        },
    }
}

impl ServiceLayout {
    /// The standard layout of a platform and a scope.
    pub fn resolve(
        platform: ServicePlatform,
        scope: ServiceScope,
        home: Option<&OsText>,
    ) -> (out: Result<ServiceLayout, AgentdError>)
        ensures
            match out {
                Ok(layout) => standard_layout(platform, scope, opt_ref_bytes(home)) == Ok::<
                    _,
                    AgentdErrorView,
                >(layout@),
                Err(e) => standard_layout(platform, scope, opt_ref_bytes(home)) == Err::<
                    ServiceLayoutView,
                    _,
                >(e@),
            },
    {
        match platform {
            ServicePlatform::Systemd => match systemd::unit_path(scope, home) {
                Ok(definition_path) => Ok(
                    ServiceLayout { platform, scope, definition_path, log_dir: None },
                ),
                Err(e) => Err(e),
            },
            ServicePlatform::Launchd => {
                let definition_path = match launchd::plist_path(scope, home) {
                    Ok(path) => path,
                    Err(e) => return Err(e),
                };
                match launchd::log_dir(scope, home) {
                    Ok(dir) => Ok(
                        ServiceLayout { platform, scope, definition_path, log_dir: Some(dir) },
                    ),
                    Err(e) => Err(e),
                }
            },
        }
    }

    /// A layout with given paths.
    pub fn for_paths(
        platform: ServicePlatform,
        scope: ServiceScope,
        definition_path: OsText,
        log_dir: Option<OsText>,
    ) -> (layout: ServiceLayout)
        ensures
            layout@ == (ServiceLayoutView {
                platform,
                scope,
                definition_path: definition_path@,
                log_dir: opt_bytes(log_dir),
            }),
    {
        ServiceLayout { platform, scope, definition_path, log_dir }
    }
}

/// What a service runs.
#[derive(Debug, PartialEq, Eq)]
pub struct ServiceSpec {
    pub scope: ServiceScope,
    /// The installed daemon.
    pub bin: OsText,
    /// The configuration directory, as an absolute path.
    pub config_dir: OsText,
}

/// What a service specification says.
#[verifier::ext_equal]
pub struct ServiceSpecView {
    pub scope: ServiceScope,
    pub bin: Seq<u8>,
    pub config_dir: Seq<u8>,
}

impl View for ServiceSpec {
    type V = ServiceSpecView;

    open spec fn view(&self) -> ServiceSpecView {
        ServiceSpecView { scope: self.scope, bin: self.bin@, config_dir: self.config_dir@ }
    }
}

impl ServiceSpecView {
    /// The executor beside the daemon.
    pub open spec fn exec_path(self) -> Seq<u8> {
        sibling_path(self.bin, encode_utf8(EXEC_BIN_NAME@))
    }

    /// The file with environment variables.
    pub open spec fn env_path(self) -> Seq<u8> {
        joined_path(self.config_dir, encode_utf8(ENV_FILE_NAME@))
    }

    /// The arguments by which systemd tools are told of the scope.
    pub open spec fn scope_args(self) -> Seq<Seq<char>> {
        match self.scope {
            ServiceScope::System => Seq::empty(),
            ServiceScope::User => seq!["--user"@],
        }
    }

    /// The domain of the service in launchd.
    pub open spec fn domain(self, uid: u32) -> Seq<char> {
        match self.scope {
            ServiceScope::System => "system"@,
            ServiceScope::User => "gui/"@ + decimal(uid as nat),
        }
    }

    /// The service in launchd: its domain and its label.
    pub open spec fn target(self, uid: u32) -> Seq<char> {
        self.domain(uid) + "/"@ + LAUNCHD_LABEL@
    }
}

impl ServiceSpec {
    /// A service that runs `bin` with `config_dir`.
    pub fn new(scope: ServiceScope, bin: OsText, config_dir: OsText) -> (spec: ServiceSpec)
        ensures
            spec@ == (ServiceSpecView { scope, bin: bin@, config_dir: config_dir@ }),
    {
        ServiceSpec { scope, bin, config_dir }
    }

    /// The executor beside the daemon.
    pub fn exec_bin(&self) -> (path: OsText)
        ensures
            path@ == self@.exec_path(),
    {
        self.bin.with_file_name(&OsText::from_text(EXEC_BIN_NAME))
    }

    /// The file with environment variables.
    pub fn env_file(&self) -> (path: OsText)
        ensures
            path@ == self@.env_path(),
    {
        self.config_dir.join(&OsText::from_text(ENV_FILE_NAME))
    }

    /// The arguments by which systemd tools are told of the scope.
    pub fn systemctl_scope_args(&self) -> (args: Vec<String>)
        ensures
            texts(args@) == self@.scope_args(),
    {
        let mut args: Vec<String> = Vec::new();
        match self.scope {
            ServiceScope::System => {},
            ServiceScope::User => {
                args.push("--user".to_string());
            },
        }
        proof {
            assert(texts(args@) =~= self@.scope_args());
        }
        args
    }

    /// The domain of the service in launchd, for a user id.
    pub fn launchd_domain(&self, uid: u32) -> (out: String)
        ensures
            out@ == self@.domain(uid),
    {
        match self.scope {
            ServiceScope::System => "system".to_string(),
            ServiceScope::User => {
                let mut out = "gui/".to_string();
                out.append(decimal_text(uid as u64).as_str());
                out
            },
        }
    }

    /// The service in launchd, for a user id.
    pub fn launchd_target(&self, uid: u32) -> (out: String)
        ensures
            out@ == self@.target(uid),
    {
        let mut out = self.launchd_domain(uid);
        out.append("/");
        out.append(LAUNCHD_LABEL);
        out
    }
}

/// The text of a service definition.
pub open spec fn definition_text(
    layout: ServiceLayoutView,
    spec: ServiceSpecView,
    home: Option<Seq<u8>>,
) -> Seq<char> {
    match layout.platform {
        ServicePlatform::Systemd => systemd::unit_definition(spec),
        ServicePlatform::Launchd => launchd::plist_definition(spec, layout.log_dir, home),
    }
}

/// Renders a service definition. A unit whose paths have no line break has exactly the
/// lines that were meant.
pub fn render(layout: &ServiceLayout, spec: &ServiceSpec, home: Option<&OsText>) -> (text: String)
    ensures
        text@ == definition_text(layout@, spec@, opt_ref_bytes(home)),
        layout.platform == ServicePlatform::Systemd && install::unrepresentable_path(spec@) is None
            ==> line_seq(text@) == systemd::unit_lines(spec@),
{
    match layout.platform {
        ServicePlatform::Systemd => systemd::unit_text(spec),
        ServicePlatform::Launchd => launchd::plist_text(spec, layout.log_dir.as_ref(), home),
    }
}

} // verus!
