//! Pods, log lines and what is known about them.

pub mod aggregate;
pub mod client;
pub mod ingest;
pub mod log;
pub mod pod;

pub use log::LogEntry;
pub use pod::{PodInfo, PodStatus};
