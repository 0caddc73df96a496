//! Wire protocols: PostgreSQL statement preparation and ILP forwarding.
pub mod ilp;
pub mod ilp_forward;
pub mod pg_backend;
pub mod pg_handlers;
pub mod pg_hook;
