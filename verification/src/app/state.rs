//! Resolving SQL and routing information to shards, against a cluster snapshot.
use vstd::prelude::*;

use crate::config::ShardConfig;
use crate::metadata::snapshot::{shard_result_view, ClusterSnapshot, Protocol};
use crate::routing::error::{RoutingError, RoutingErrorView, SqlRouteError, SqlRouteErrorView};
use crate::routing::plan::{strings_view, PlanView, RoutePlan};
use crate::routing::sql::{classify_sql, classify_spec, classify_view, ClassifyView, SqlClassify, SqlRouteInfo};
use crate::routing::sql_ast::sql_parse;
use crate::text::{append, decimal, u64_to_string};

verus! {

/// Where a statement goes.
#[derive(Debug, Clone)]
pub enum ResolvedRoute {
    Single(ShardConfig),
    Federated(RoutePlan),
    Passthrough,
}

/// The routing error an SQL analysis error becomes.
pub open spec fn routing_view_of(e: SqlRouteErrorView) -> RoutingErrorView {
    match e {
        SqlRouteErrorView::Parse(m) => RoutingErrorView::Parse(m),
        SqlRouteErrorView::Unsupported(m) => RoutingErrorView::Unsupported(m),
    }
}

/// Bind parameters as text.
pub open spec fn params_view(params: Option<&[String]>) -> Option<Seq<Seq<char>>> {
    match params {
        Some(p) => Some(strings_view(p@)),
        None => None,
    }
}

/// The key a single-shard read is routed by: the bound parameter when the key is a
/// placeholder (the table name when that parameter is missing), else the literal
/// key, else the table name.
pub open spec fn route_key_of(
    table: Seq<char>,
    shard_key: Option<Seq<char>>,
    shard_key_param: Option<usize>,
    params: Option<Seq<Seq<char>>>,
) -> Seq<char> {
    match shard_key_param {
        Some(i) => match params {
            Some(ps) => if i < ps.len() {
                ps[i as int]
            } else {
                table
            },
            None => table,
        },
        None => match shard_key {
            Some(k) => k,
            None => table,
        },
    }
}

/// The shard of a route that resolved to one; an error stays an error.
pub open spec fn single_of(r: Result<ResolvedRoute, RoutingError>) -> Result<
    ShardConfig,
    RoutingErrorView,
> {
    match r {
        Ok(ResolvedRoute::Single(s)) => Ok(s),
        Ok(_) => Err(RoutingErrorView::Unsupported(Seq::empty())),
        Err(e) => Err(e@),
    }
}

/// What resolving a statement classified as `cv` returns.
pub open spec fn resolves_as(
    snap: &ClusterSnapshot,
    cv: Result<ClassifyView, SqlRouteErrorView>,
    params: Option<Seq<Seq<char>>>,
    r: Result<ResolvedRoute, RoutingError>,
) -> bool {
    match cv {
        Err(e) => r matches Err(x) && x@ == routing_view_of(e),
        Ok(ClassifyView::Passthrough) => r matches Ok(ResolvedRoute::Passthrough),
        Ok(ClassifyView::Routable(p)) => match p {
            PlanView::SingleShard { table, shard_key, shard_key_param } => {
                &&& (r is Err || r matches Ok(ResolvedRoute::Single(_)))
                &&& snap.key_routing(
                    route_key_of(table, shard_key, shard_key_param, params),
                    Protocol::Pg,
                    single_of(r),
                )
            },
            _ => r matches Ok(ResolvedRoute::Federated(q)) && q@ == p,
        },
    }
}

fn routing_error_of(e: SqlRouteError) -> (r: RoutingError)
    ensures
        r@ == routing_view_of(e@),
{
    RoutingError::from(e)
}

fn unsupported(m: &str) -> (r: RoutingError)
    ensures
        r@ == RoutingErrorView::Unsupported(m@),
{
    RoutingError::Unsupported(String::from_str(m))
}

/// Resolves a classified statement: session SQL passes through, a single-shard read is
/// routed by its key, every other plan is federated.
pub fn resolve_classified(
    snap: &ClusterSnapshot,
    classified: Result<SqlClassify, SqlRouteError>,
    params: Option<&[String]>,
) -> (r: Result<ResolvedRoute, RoutingError>)
    ensures
        resolves_as(snap, classify_view(classified), params_view(params), r),
{
    match classified {
        Err(e) => Err(routing_error_of(e)),
        Ok(SqlClassify::Passthrough) => Ok(ResolvedRoute::Passthrough),
        Ok(SqlClassify::Routable(plan)) => match plan {
            RoutePlan::SingleShard { table, shard_key, shard_key_param } => {
                let key = match shard_key_param {
                    Some(idx) => match params {
                        Some(p) => if idx < p.len() {
                            p[idx].clone()
                        } else {
                            table
                        },
                        None => table,
                    },
                    None => match shard_key {
                        Some(k) => k,
                        None => table,
                    },
                };
                match snap.shard_for_key(key.as_str(), Protocol::Pg) {
                    Ok(s) => Ok(ResolvedRoute::Single(s)),
                    Err(e) => Err(e),
                }
            },
            other => Ok(ResolvedRoute::Federated(other)),
        },
    }
}

/// Classifies `sql` (shard key column `default_shard_key`) and resolves it against
/// `snap`.
pub fn resolve_route(
    snap: &ClusterSnapshot,
    default_shard_key: &str,
    scan_allow_order_by: bool,
    sql: &str,
    params: Option<&[String]>,
) -> (r: Result<ResolvedRoute, RoutingError>)
    ensures
        resolves_as(
            snap,
            classify_spec(sql@, default_shard_key@, scan_allow_order_by, sql_parse(sql@)),
            params_view(params),
            r,
        ),
{
    let c = classify_sql(sql, default_shard_key, snap.table_registry(), scan_allow_order_by);
    resolve_classified(snap, c, params)
}

/// What planning a statement classified as `cv` returns.
pub open spec fn plans_as(cv: Result<ClassifyView, SqlRouteErrorView>, r: Result<RoutePlan, RoutingError>) -> bool {
    match cv {
        Err(e) => r matches Err(x) && x@ == routing_view_of(e),
        Ok(ClassifyView::Passthrough) => r matches Err(x) && x@ == RoutingErrorView::Unsupported(
            "session/transaction SQL is not shard-routable"@,
        ),
        Ok(ClassifyView::Routable(p)) => r matches Ok(q) && q@ == p,
    }
}

/// The execution plan of `sql`; session SQL has none.
pub fn plan_route(
    snap: &ClusterSnapshot,
    default_shard_key: &str,
    scan_allow_order_by: bool,
    sql: &str,
) -> (r: Result<RoutePlan, RoutingError>)
    ensures
        plans_as(classify_spec(sql@, default_shard_key@, scan_allow_order_by, sql_parse(sql@)), r),
{
    match classify_sql(sql, default_shard_key, snap.table_registry(), scan_allow_order_by) {
        Ok(SqlClassify::Routable(plan)) => Ok(plan),
        Ok(SqlClassify::Passthrough) => Err(
            unsupported("session/transaction SQL is not shard-routable"),
        ),
        Err(e) => Err(routing_error_of(e)),
    }
}

/// The text of the error for a missing bind parameter `$n`.
pub open spec fn missing_param_text(idx: usize) -> Seq<char> {
    "missing bind parameter $"@ + decimal((idx + 1) as nat) + " for shard key"@
}

/// The key of a single-shard read: its bound parameter or its literal key; never the
/// table name.
pub open spec fn info_key(info: &SqlRouteInfo, params: Option<Seq<Seq<char>>>) -> Result<
    Seq<char>,
    RoutingErrorView,
> {
    match info.shard_key_param {
        Some(i) => match params {
            Some(ps) => if i < ps.len() {
                Ok(ps[i as int])
            } else {
                Err(RoutingErrorView::Unsupported(missing_param_text(i)))
            },
            None => Err(RoutingErrorView::Unsupported(missing_param_text(i))),
        },
        None => match info.shard_key {
            Some(k) => Ok(k@),
            None => Err(
                RoutingErrorView::Unsupported("query has no shard-key value to route on"@),
            ),
        },
    }
}

fn missing_param(idx: usize) -> (r: RoutingError)
    requires
        idx < usize::MAX,
    ensures
        r@ == RoutingErrorView::Unsupported(missing_param_text(idx)),
{
    let mut m = String::from_str("missing bind parameter $");
    let n = u64_to_string((idx + 1) as u64);
    append(&mut m, n.as_str());
    append(&mut m, " for shard key");
    RoutingError::Unsupported(m)
}

/// Routes a single-shard read by its explicit key: the bound parameter or the literal.
pub fn route_sql_info(
    snap: &ClusterSnapshot,
    info: &SqlRouteInfo,
    params: Option<&[String]>,
) -> (r: Result<ShardConfig, RoutingError>)
    requires
        info.shard_key_param matches Some(i) ==> i < usize::MAX,
    ensures
        match info_key(info, params_view(params)) {
            Err(e) => r matches Err(x) && x@ == e,
            Ok(k) => snap.key_routing(k, Protocol::Pg, shard_result_view(r)),
        },
{
    let key: String = match info.shard_key_param {
        Some(idx) => match params {
            Some(p) => if idx < p.len() {
                p[idx].clone()
            } else {
                return Err(missing_param(idx));
            },
            None => {
                return Err(missing_param(idx));
            },
        },
        None => match &info.shard_key {
            Some(k) => k.clone(),
            None => {
                return Err(unsupported("query has no shard-key value to route on"));
            },
        },
    };
    snap.shard_for_key(key.as_str(), Protocol::Pg)
}

/// Routes `sql` to exactly one shard; session and federated SQL are refused.
pub fn route_sql(
    snap: &ClusterSnapshot,
    default_shard_key: &str,
    scan_allow_order_by: bool,
    sql: &str,
) -> (r: Result<ShardConfig, RoutingError>)
    ensures
        match classify_spec(sql@, default_shard_key@, scan_allow_order_by, sql_parse(sql@)) {
            Err(e) => r matches Err(x) && x@ == routing_view_of(e),
            Ok(ClassifyView::Passthrough) => r matches Err(x) && x@
                == RoutingErrorView::Unsupported("passthrough SQL cannot be shard-routed"@),
            Ok(ClassifyView::Routable(p)) => match p {
                PlanView::SingleShard { table, shard_key, shard_key_param } => snap.key_routing(
                    route_key_of(table, shard_key, shard_key_param, None),
                    Protocol::Pg,
                    shard_result_view(r),
                ),
                _ => r matches Err(x) && x@ == RoutingErrorView::Unsupported(
                    "federated SQL requires federated executor"@,
                ),
            },
        },
{
    match resolve_route(snap, default_shard_key, scan_allow_order_by, sql, None) {
        Ok(ResolvedRoute::Single(shard)) => Ok(shard),
        Ok(ResolvedRoute::Passthrough) => Err(
            unsupported("passthrough SQL cannot be shard-routed"),
        ),
        Ok(ResolvedRoute::Federated(_)) => Err(
            unsupported("federated SQL requires federated executor"),
        ),
        Err(e) => Err(e),
    }
}

/// Ids of the shards usable for PostgreSQL traffic, in configuration order.
pub fn healthy_pg_shard_ids(snap: &ClusterSnapshot) -> (r: Result<Vec<u32>, RoutingError>)
    ensures
        snap.too_few_healthy(Protocol::Pg) ==> r == Err::<Vec<u32>, RoutingError>(
            RoutingError::InsufficientHealthyShards {
                required: snap.min_healthy_shards,
                available: snap.healthy_count_spec(Protocol::Pg) as usize,
            },
        ),
        !snap.too_few_healthy(Protocol::Pg) ==> (r matches Ok(ids) && ids@ == snap.usable_spec(
            Protocol::Pg,
        ).map_values(|s: ShardConfig| s.id)),
{
    match snap.ensure_min_healthy(Protocol::Pg) {
        Err(e) => {
            return Err(e);
        },
        Ok(()) => {},
    }
    let shards = snap.healthy_shards(Protocol::Pg);
    let mut ids: Vec<u32> = Vec::new();
    let mut i: usize = 0;
    while i < shards.len()
        invariant
            0 <= i <= shards.len(),
            ids@ == shards@.take(i as int).map_values(|s: ShardConfig| s.id),
        decreases shards.len() - i,
    {
        ids.push(shards[i].id);
        i = i + 1;
        assert(ids@ =~= shards@.take(i as int).map_values(|s: ShardConfig| s.id));
    }
    assert(shards@.take(i as int) =~= shards@);
    Ok(ids)
}

/// A keyed read whose shard key is the placeholder with 0-based index `i` is routed
/// by the parameter bound at `i`, when one is bound there: the route is the one a
/// lookup of that parameter's text gives.
pub proof fn law_placeholder_routes_by_its_parameter(
    snap: &ClusterSnapshot,
    table: Seq<char>,
    shard_key: Option<Seq<char>>,
    i: usize,
    ps: Seq<Seq<char>>,
    r: Result<ResolvedRoute, RoutingError>,
)
    requires
        i < ps.len(),
        resolves_as(
            snap,
            Ok(ClassifyView::Routable(PlanView::SingleShard { table, shard_key, shard_key_param: Some(i) })),
            Some(ps),
            r,
        ),
    ensures
        r is Err || r matches Ok(ResolvedRoute::Single(_)),
        snap.key_routing(ps[i as int], Protocol::Pg, single_of(r)),
{
}

} // verus!
