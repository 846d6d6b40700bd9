//! The configuration: where it lies and how it is completed.
use crate::os_text::OsText;
use crate::paths::joined_path;
use vstd::prelude::*;
use vstd::utf8::*;

pub mod defaults;
pub mod env;
pub mod expansion_laws;
pub mod laws;
pub mod model;
pub mod path_default_laws;
pub mod template;

verus! {

/// The configuration directory of an installation for the whole host.
pub const SYSTEM_CONFIG_DIR: &'static str = "/etc/wist-agentd";

/// Where an installation for the whole host keeps its data.
pub const SYSTEM_DATA_ROOT: &'static str = "/var/lib/wist-agentd";

/// Where an installation for the whole host keeps its logs.
pub const SYSTEM_LOG_DIR: &'static str = "/var/log/wist-agentd";

/// The name of the configuration file.
pub const CONFIG_FILE_NAME: &'static str = "agentd.toml";

/// The configuration file of a configuration directory.
pub open spec fn config_file(config_dir: Seq<u8>) -> Seq<u8> {
    joined_path(config_dir, encode_utf8(CONFIG_FILE_NAME@))
}

/// The configuration file of a configuration directory.
pub fn resolve_config_path(config_dir: &OsText) -> (path: OsText)
    ensures
        path@ == config_file(config_dir@),
{
    config_dir.join(&OsText::from_text(CONFIG_FILE_NAME))
}

} // verus!
