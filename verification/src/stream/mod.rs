//! Streaming of ILP rows to subscribers.
pub mod control;
pub mod hub;
pub mod row;
pub mod topic;
pub mod ws;

pub use control::{ControlIn, ReplayOut};
pub use row::{parse_ilp_row, IlpField, IlpRow};
pub use topic::{derive_topic, is_broadcastable};
