//! Tails, filters and highlights the log output of the pods of a deployment.

pub mod cli;
pub mod kubernetes;
pub mod log_processor;
pub mod render;
pub mod run;
pub mod utils;
