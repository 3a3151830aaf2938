//! Rules of a remote endpoint monitor: monitor validation, scheduling of
//! recurring checks, evaluation of probe replies, and a per-device command
//! queue.

pub mod clock;
pub mod commands;
pub mod daemon;
pub mod dispatch;
pub mod error;
pub mod ip;
pub mod monitors;
pub mod routes;
pub mod text;
pub mod types;

pub use error::Error;
