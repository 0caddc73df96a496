//! Shard routing: SQL classification, ILP key extraction and consistent hashing.
pub mod dialect;
pub mod error;
pub mod keys;
pub mod plan;
pub mod ring;
pub mod router;
pub mod schema;
pub mod sql;
pub mod sql_ast;

pub use dialect::{
    classify_questdb_passthrough, extract_from_table, extract_shard_key_literal,
    extract_shard_key_param, has_questdb_extension,
};
pub use error::{RoutingError, SqlRouteError};
pub use keys::{measurement_from_ilp, measurement_from_ilp_bytes, shard_key_from_ilp};
pub use plan::{AggKind, RoutePlan};
pub use ring::ShardRing;
pub use router::QueryRouter;
pub use schema::TableRegistry;
pub use sql::{analyze_read_sql, classify_sql, plan_sql, SqlClassify, SqlRouteInfo};
