//! Federated execution: plan labels, errors, and merging of shard replies.
pub mod cells;
pub mod catalog;
pub mod error;
pub mod merge;
pub mod pg_types;
pub mod scan;

pub use error::FederatedError;
