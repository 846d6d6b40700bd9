pub mod config;
pub mod control;
pub mod error;
pub mod os_text;
pub mod path_laws;
pub mod path_step_laws;
pub mod paths;
pub mod runtime;
pub mod service;
pub mod single_instance;
pub mod text;
pub mod text_laws;
