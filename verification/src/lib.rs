//! A fault-tolerant NATS JetStream output connector core.
//!
//! Records produced by a streaming engine are buffered per batch and published
//! to a durable JetStream subject, tagged with `(step, substep)` positions so
//! that a restarted connector can resume exactly where the log left off.

pub mod config;
pub mod decimal;
pub mod encode;
pub mod endpoint;
pub mod errors;
pub mod headers;
pub mod laws;
pub mod log;
pub mod nonft;
pub mod position;
pub mod recovery;
