//! What is known of an installed service.
use crate::config::{config_file, resolve_config_path};
use crate::error::{error_with, AgentdError, AgentdErrorView, AgentdReason};
use crate::os_text::{display_text, opt_bytes, OsText};
use crate::paths::joined_path;
use crate::service::launchd::STDERR_FILE;
use crate::service::{
    ServiceLayout, ServiceLayoutView, ServicePlatform, ServiceScope, ServiceSpec, ServiceSpecView,
    SERVICE_NAME,
};
use crate::text::{join, joined, line_seq, lines, opt_text, texts, trim, trimmed};
use vstd::prelude::*;
use vstd::string::*;
use vstd::utf8::*;

verus! {

/// Where the logs of a service are to be read.
pub open spec fn log_hint_text(layout: ServiceLayoutView, spec: ServiceSpecView) -> Result<
    Seq<char>,
    AgentdErrorView,
> {
    match layout.platform {
        ServicePlatform::Systemd => Ok(
            "journalctl "@ + (match spec.scope {
                ServiceScope::System => ""@,
                ServiceScope::User => "--user "@,
            }) + "-u "@ + SERVICE_NAME@ + " -f"@,
        ),
        ServicePlatform::Launchd => match layout.log_dir {
            Some(dir) => Ok(
                "tail -f "@ + display_text(joined_path(dir, encode_utf8(STDERR_FILE@))),
            ),
            None => Err(
                AgentdErrorView { reason: AgentdReason::ServicePathUnresolved, detail: None },
            ),
        },
    }
}

/// Where the logs of a service are to be read: the journal, or the file that standard
/// error goes to.
pub fn log_hint(layout: &ServiceLayout, spec: &ServiceSpec) -> (out: Result<String, AgentdError>)
    ensures
        match out {
            Ok(hint) => log_hint_text(layout@, spec@) == Ok::<_, AgentdErrorView>(hint@),
            Err(e) => log_hint_text(layout@, spec@) == Err::<Seq<char>, _>(e@),
        },
{
    match layout.platform {
        ServicePlatform::Systemd => {
            let mut out = "journalctl ".to_string();
            out.append(
                match spec.scope {
                    ServiceScope::System => "",
                    ServiceScope::User => "--user ",
                },
            );
            out.append("-u ");
            out.append(SERVICE_NAME);
            out.append(" -f");
            Ok(out)
        },
        ServicePlatform::Launchd => match &layout.log_dir {
            Some(dir) => {
                let mut out = "tail -f ".to_string();
                out.append(dir.join(&OsText::from_text(STDERR_FILE)).display().as_str());
                Ok(out)
            },
            None => Err(
                AgentdError { reason: AgentdReason::ServicePathUnresolved, detail: None },
            ),
        },
    }
}

/// The lines of a list that are not blank, without surrounding white space.
pub open spec fn solid_lines(all: Seq<Seq<char>>) -> Seq<Seq<char>>
    decreases all.len(),
{
    if all.len() == 0 {
        Seq::empty()
    } else if trimmed(all.last()).len() > 0 {
        solid_lines(all.drop_last()).push(trimmed(all.last()))
    } else {
        solid_lines(all.drop_last())
    }
}

/// A text in one line: its lines that are not blank, with slashes between them.
pub open spec fn in_one_line(text: Seq<char>) -> Seq<char> {
    joined(solid_lines(line_seq(text)), " / "@)
}

/// Puts a text of several lines into one.
pub fn one_line(text: &str) -> (out: String)
    ensures
        out@ == in_one_line(text@),
{
    let all = lines(text);
    let ghost seq_all = texts(all@);
    let mut kept: Vec<String> = Vec::new();
    assert(texts(kept@) =~= solid_lines(seq_all.take(0)));
    for i in 0..all.len()
        invariant
            seq_all == texts(all@),
            texts(kept@) == solid_lines(seq_all.take(i as int)),
    {
        let ghost before = texts(kept@);
        proof {
            assert(seq_all.take(i + 1).drop_last() =~= seq_all.take(i as int));
            assert(seq_all[i as int] == all@[i as int]@);
        }
        let line = trim(all[i].as_str());
        if !line.as_str().is_empty() {
            let ghost shown = line@;
            kept.push(line);
            proof {
                assert(texts(kept@) =~= before.push(shown));
            }
        }
    }
    proof {
        assert(seq_all.take(seq_all.len() as int) =~= seq_all);
    }
    join(&kept, " / ")
}

/// The directories that a configuration names.
#[derive(Debug, PartialEq, Eq)]
pub struct ConfiguredDirs {
    pub root_dir: String,
    pub run_dir: String,
    pub state_dir: String,
    pub log_dir: String,
}

/// What is found on the host for a status.
#[derive(Debug, PartialEq, Eq)]
pub struct StatusProbe {
    pub definition_present: bool,
    pub bin_present: bool,
    pub exec_bin_present: bool,
    pub config_present: bool,
    /// What loading the configuration gave: its directories, or why it failed. It
    /// counts only where the file is present.
    pub loaded: Result<ConfiguredDirs, String>,
    /// Whether another process holds the lock of the state directory, or why that
    /// could not be found out. It counts only where the configuration was loaded.
    pub lock_held: Result<bool, String>,
}

/// The status of a service.
#[derive(Debug, PartialEq, Eq)]
pub struct ServiceStatus {
    pub platform: ServicePlatform,
    pub scope: ServiceScope,
    pub definition_path: OsText,
    pub definition_present: bool,
    pub bin: OsText,
    pub bin_present: bool,
    pub exec_bin: OsText,
    pub exec_bin_present: bool,
    pub config_path: OsText,
    pub config_present: bool,
    /// Why the configuration could not be loaded, in one line.
    pub config_error: Option<String>,
    pub root_dir: Option<OsText>,
    pub run_dir: Option<OsText>,
    pub state_dir: Option<OsText>,
    pub log_dir: Option<OsText>,
    /// Whether a daemon runs; unknown without a configuration.
    pub running: Option<bool>,
    pub log_hint: String,
}

/// What a status says.
#[verifier::ext_equal]
pub struct ServiceStatusView {
    pub platform: ServicePlatform,
    pub scope: ServiceScope,
    pub definition_path: Seq<u8>,
    pub definition_present: bool,
    pub bin: Seq<u8>,
    pub bin_present: bool,
    pub exec_bin: Seq<u8>,
    pub exec_bin_present: bool,
    pub config_path: Seq<u8>,
    pub config_present: bool,
    pub config_error: Option<Seq<char>>,
    pub root_dir: Option<Seq<u8>>,
    pub run_dir: Option<Seq<u8>>,
    pub state_dir: Option<Seq<u8>>,
    pub log_dir: Option<Seq<u8>>,
    pub running: Option<bool>,
    pub log_hint: Seq<char>,
}

impl View for ServiceStatus {
    type V = ServiceStatusView;

    open spec fn view(&self) -> ServiceStatusView {
        ServiceStatusView {
            platform: self.platform,
            scope: self.scope,
            definition_path: self.definition_path@,
            definition_present: self.definition_present,
            bin: self.bin@,
            bin_present: self.bin_present,
            exec_bin: self.exec_bin@,
            exec_bin_present: self.exec_bin_present,
            config_path: self.config_path@,
            config_present: self.config_present,
            config_error: opt_text(self.config_error),
            root_dir: opt_bytes(self.root_dir),
            run_dir: opt_bytes(self.run_dir),
            state_dir: opt_bytes(self.state_dir),
            log_dir: opt_bytes(self.log_dir),
            running: self.running,
            log_hint: self.log_hint@,
        }
    }
}

impl StatusProbe {
    /// The directories of the configuration, where it is there and could be loaded.
    pub open spec fn dirs(self) -> Option<ConfiguredDirs> {
        match self.loaded {
            Ok(dirs) => if self.config_present {
                Some(dirs)
            } else {
                None
            },
            Err(_) => None,
        }
    }

    /// Why the configuration could not be loaded, where it is there.
    pub open spec fn config_error(self) -> Option<Seq<char>> {
        match self.loaded {
            Err(chain) => if self.config_present {
                Some(in_one_line(chain@))
            } else {
                None
            },
            Ok(_) => None,
        }
    }
}

/// The status of a service.
pub open spec fn status_of(
    layout: ServiceLayoutView,
    spec: ServiceSpecView,
    probe: StatusProbe,
) -> Result<ServiceStatusView, AgentdErrorView> {
    let dirs = probe.dirs();
    if dirs is Some && probe.lock_held is Err {
        Err(
            error_with(
                AgentdReason::SystemError,
                "probe single-instance lock for service status"@,
            ),
        )
    } else {
        match log_hint_text(layout, spec) {
            Err(e) => Err(e),
            Ok(log_hint) => Ok(
                ServiceStatusView {
                    platform: layout.platform,
                    scope: layout.scope,
                    definition_path: layout.definition_path,
                    definition_present: probe.definition_present,
                    bin: spec.bin,
                    bin_present: probe.bin_present,
                    exec_bin: spec.exec_path(),
                    exec_bin_present: probe.exec_bin_present,
                    config_path: config_file(spec.config_dir),
                    config_present: probe.config_present,
                    config_error: probe.config_error(),
                    root_dir: match dirs {
                        Some(d) => Some(encode_utf8(d.root_dir@)),
                        None => None,
                    },
                    run_dir: match dirs {
                        Some(d) => Some(encode_utf8(d.run_dir@)),
                        None => None,
                    },
                    state_dir: match dirs {
                        Some(d) => Some(encode_utf8(d.state_dir@)),
                        None => None,
                    },
                    log_dir: match dirs {
                        Some(d) => Some(encode_utf8(d.log_dir@)),
                        None => None,
                    },
                    running: match (dirs, probe.lock_held) {
                        (Some(_), Ok(held)) => Some(held),
                        _ => None,
                    },
                    log_hint,
                },
            ),
        }
    }
}

/// Puts together the status of a service from what is found on the host.
pub fn status(layout: &ServiceLayout, spec: &ServiceSpec, probe: StatusProbe) -> (out: Result<
    ServiceStatus,
    AgentdError,
>)
    ensures
        match out {
            Ok(status) => status_of(layout@, spec@, probe) == Ok::<_, AgentdErrorView>(status@),
            Err(e) => status_of(layout@, spec@, probe) == Err::<ServiceStatusView, _>(e@),
        },
{
    let mut root_dir: Option<OsText> = None;
    let mut run_dir: Option<OsText> = None;
    let mut state_dir: Option<OsText> = None;
    let mut log_dir: Option<OsText> = None;
    let mut config_error: Option<String> = None;
    let mut running: Option<bool> = None;
    if probe.config_present {
        match &probe.loaded {
            Ok(dirs) => {
                root_dir = Some(OsText::from_text(dirs.root_dir.as_str()));
                run_dir = Some(OsText::from_text(dirs.run_dir.as_str()));
                state_dir = Some(OsText::from_text(dirs.state_dir.as_str()));
                log_dir = Some(OsText::from_text(dirs.log_dir.as_str()));
                match &probe.lock_held {
                    Ok(held) => {
                        running = Some(*held);
                    },
                    Err(_) => {
                        return Err(
                            AgentdError::with_detail(
                                AgentdReason::SystemError,
                                "probe single-instance lock for service status".to_string(),
                            ),
                        );
                    },
                }
            },
            Err(chain) => {
                config_error = Some(one_line(chain.as_str()));
            },
        }
    }
    let hint = match log_hint(layout, spec) {
        Ok(hint) => hint,
        Err(e) => return Err(e),
    };
    Ok(
        ServiceStatus {
            platform: layout.platform,
            scope: layout.scope,
            definition_path: layout.definition_path.clone(),
            definition_present: probe.definition_present,
            bin: spec.bin.clone(),
            bin_present: probe.bin_present,
            exec_bin: spec.exec_bin(),
            exec_bin_present: probe.exec_bin_present,
            config_path: resolve_config_path(&spec.config_dir),
            config_present: probe.config_present,
            config_error,
            root_dir,
            run_dir,
            state_dir,
            log_dir,
            running,
            log_hint: hint,
        },
    )
}

/// A path and whether it is there.
pub open spec fn path_state_text(path: Seq<u8>, present: bool) -> Seq<char> {
    display_text(path) + (if present {
        " (present)"@
    } else {
        " (missing)"@
    })
}

/// A path and whether it is there.
pub fn path_state(path: &OsText, present: bool) -> (out: String)
    ensures
        out@ == path_state_text(path@, present),
{
    let mut out = path.display();
    out.append(
        if present {
            " (present)"
        } else {
            " (missing)"
        },
    );
    out
}

} // verus!
