//! Cluster topology and shard health as seen by the router.
pub mod actor;
pub mod snapshot;

pub use actor::{MetadataActor, MetadataMessage};
pub use snapshot::{ClusterSnapshot, Protocol, ShardHealth};
