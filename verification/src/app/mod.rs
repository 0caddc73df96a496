//! Request routing against the current cluster snapshot.
pub mod state;

pub use state::ResolvedRoute;
