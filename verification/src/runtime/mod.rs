//! What the running daemon says of itself.
pub mod line_laws;
pub mod self_observability;
pub mod signature_laws;
pub mod steady_log;
