//! Filtering log entries and laying them out for display.

pub mod expression;
pub mod filter;
pub mod formatter;
pub mod highlight;
pub mod matcher;
pub mod pipe;

pub use filter::{Filter, GrepFilter};
pub use formatter::{LogFormatter, PrefixFormat};
