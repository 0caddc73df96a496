//! Pooling of backend PostgreSQL connections: errors and pool sizing.
pub mod error;

pub use error::PoolError;
