//! Coordination core of a segmented, replicated log: chain mutations are
//! validated against a metadata snapshot, applied in batches and committed
//! with optimistic concurrency, and every request learns its own outcome.

pub mod error;
pub mod types;
pub mod chain;
pub mod logs;
pub mod request;
pub mod command;
pub mod extender;
pub mod theorems;
pub mod merge;
pub mod option_non_zero;
pub mod service_status;
