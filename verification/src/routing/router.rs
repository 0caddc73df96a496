//! The interface through which the servers route statements and keys.
use vstd::prelude::*;

use crate::app::state::ResolvedRoute;
use crate::config::ShardConfig;
use crate::metadata::snapshot::Protocol;
use crate::routing::error::RoutingError;
use crate::routing::plan::RoutePlan;

verus! {

/// Routes statements and keys against the current cluster state.
pub trait QueryRouter: Send + Sync {
    /// Where `sql` goes, with its bind parameters when there are any.
    fn resolve_route(&self, sql: &str, params: Option<&[String]>) -> Result<
        ResolvedRoute,
        RoutingError,
    >;

    /// The shard that owns `key` for `protocol`.
    fn route_key(&self, key: &str, protocol: Protocol) -> Result<ShardConfig, RoutingError>;

    /// The execution plan of `sql`.
    fn plan_sql(&self, sql: &str) -> Result<RoutePlan, RoutingError>;
}

} // verus!
