//! Ingest of Nautilus catalog objects into QuestDB through the router.
pub mod actor;
pub mod checkpoint;
pub mod events;
pub mod feather;
pub mod http;
pub mod nautilus;
pub mod reconcile;

pub use actor::{IngestActor, IngestSource, ProcessObject};
