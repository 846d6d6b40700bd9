//! Control surface: the command line and what each command does.
pub mod args;
pub mod args_laws;
pub mod args_read_laws;
pub mod daemon_flow;
pub mod enroll;
pub mod entry_laws;
pub mod exec_bin;
pub mod identity;
pub mod messages;
pub mod runtime_entry;
pub mod service_flow;
pub mod service_laws;
pub mod status_laws;
