//! Which statements the PostgreSQL endpoint routes itself, and what it sends on.
use vstd::prelude::*;

use crate::app::state::{params_view, route_key_of, routing_view_of, single_of, ResolvedRoute};
use crate::metadata::snapshot::{ClusterSnapshot, Protocol};
use crate::protocol::pg_backend::{inline_sql_params, inline_spec, texts};
use crate::routing::error::{RoutingError, RoutingErrorView, SqlRouteError, SqlRouteErrorView};
use crate::routing::plan::{PlanView, RoutePlan};
use crate::routing::sql::{classify_spec, classify_sql, ClassifyView, SqlClassify};
use crate::routing::dialect::has_extension;
use crate::routing::sql_ast::{sql_parse, SqlStatement};
use crate::text::{contains, contains_str, occurs_at};

verus! {

/// The refusal text that marks a write statement.
pub open spec fn read_only_marker() -> Seq<char> {
    "only read queries"@
}

/// What the endpoint does with a statement classified as `cv` (ORDER BY allowed on
/// scans): session SQL passes through and keyed reads go to their shard; refused
/// writes are answered with the refusal; everything else is left to the federated
/// engine (`None`).
pub open spec fn hook_routes_as(
    snap: &ClusterSnapshot,
    cv: Result<ClassifyView, SqlRouteErrorView>,
    params: Option<Seq<Seq<char>>>,
    r: Option<Result<ResolvedRoute, RoutingError>>,
) -> bool {
    match cv {
        Ok(ClassifyView::Passthrough) => r matches Some(Ok(ResolvedRoute::Passthrough)),
        Ok(ClassifyView::Routable(p)) => match p {
            PlanView::SingleShard { table, shard_key, shard_key_param } => match r {
                Some(x) => {
                    &&& (x is Err || x matches Ok(ResolvedRoute::Single(_)))
                    &&& snap.key_routing(
                        route_key_of(table, shard_key, shard_key_param, params),
                        Protocol::Pg,
                        single_of(x),
                    )
                },
                None => false,
            },
            _ => r is None,
        },
        Err(SqlRouteErrorView::Unsupported(m)) => if contains(m, read_only_marker()) {
            r matches Some(Err(e)) && e@ == RoutingErrorView::Unsupported(m)
        } else {
            r is None
        },
        Err(SqlRouteErrorView::Parse(_)) => r is None,
    }
}

/// Classifies `sql` for the PostgreSQL endpoint and routes what it handles itself.
pub fn hook_route(
    snap: &ClusterSnapshot,
    default_shard_key: &str,
    sql: &str,
    params: Option<&[String]>,
) -> (r: Option<Result<ResolvedRoute, RoutingError>>)
    ensures
        hook_routes_as(
            snap,
            classify_spec(sql@, default_shard_key@, true, sql_parse(sql@)),
            params_view(params),
            r,
        ),
{
    let classified = classify_sql(sql, default_shard_key, snap.table_registry(), true);
    match classified {
        Ok(SqlClassify::Passthrough) => Some(Ok(ResolvedRoute::Passthrough)),
        Ok(SqlClassify::Routable(plan)) => match plan {
            RoutePlan::SingleShard { table, shard_key, shard_key_param } => {
                let key = match shard_key_param {
                    Some(idx) => match params {
                        Some(p) => if idx < p.len() {
                            p[idx].clone()
                        } else {
                            table
                        },
                        None => table,
                    },
                    None => match shard_key {
                        Some(k) => k,
                        None => table,
                    },
                };
                match snap.shard_for_key(key.as_str(), Protocol::Pg) {
                    Ok(s) => Some(Ok(ResolvedRoute::Single(s))),
                    Err(e) => Some(Err(e)),
                }
            },
            _ => None,
        },
        Err(SqlRouteError::Unsupported(msg)) => {
            if contains_str(msg.as_str(), "only read queries") {
                Some(Err(RoutingError::Unsupported(msg)))
            } else {
                None
            }
        },
        Err(SqlRouteError::Parse(_)) => None,
    }
}

/// Whether a routing error is the refusal of a write statement.
pub fn is_read_only_refusal(e: &RoutingError) -> (r: bool)
    ensures
        r == (e@ matches RoutingErrorView::Unsupported(m) && contains(m, read_only_marker())),
{
    match e {
        RoutingError::Unsupported(m) => contains_str(m.as_str(), "only read queries"),
        _ => false,
    }
}

/// The SQL sent to the backend: with its bind values inlined when there are any.
pub fn backend_sql(sql: &str, params: Option<&[String]>) -> (r: String)
    ensures
        r@ == (match params {
            Some(ps) => if ps@.len() > 0 {
                inline_spec(sql@, texts(ps@))
            } else {
                sql@
            },
            None => sql@,
        }),
{
    match params {
        Some(ps) => if ps.len() > 0 {
            inline_sql_params(sql, ps)
        } else {
            String::from_str(sql)
        },
        None => String::from_str(sql),
    }
}

/// A statement that is neither a read nor session control (a write, DDL, ...) is
/// refused: the endpoint answers it with the read-only refusal and routes it nowhere.
pub proof fn law_writes_refused(
    snap: &ClusterSnapshot,
    sql: Seq<char>,
    default_shard_key: Seq<char>,
    params: Option<Seq<Seq<char>>>,
    r: Option<Result<ResolvedRoute, RoutingError>>,
)
    requires
        !has_extension(sql),
        sql_parse(sql) == Ok::<Seq<SqlStatement>, Seq<char>>(seq![SqlStatement::Other]),
        hook_routes_as(snap, classify_spec(sql, default_shard_key, true, sql_parse(sql)), params, r),
    ensures
        r matches Some(Err(e)) && e@ == RoutingErrorView::Unsupported(
            "only read queries (SELECT) are routed via SQL parser"@,
        ),
{
    let m = "only read queries (SELECT) are routed via SQL parser"@;
    reveal_strlit("only read queries (SELECT) are routed via SQL parser");
    reveal_strlit("only read queries");
    assert(m.subrange(0, read_only_marker().len() as int) =~= read_only_marker());
    assert(occurs_at(m, read_only_marker(), 0));
    assert(contains(m, read_only_marker()));
}

/// At the PostgreSQL endpoint, a keyed read whose shard key is the placeholder with
/// 0-based index `i` is routed by the parameter bound at `i`, when one is bound there.
pub proof fn law_hook_placeholder_routes_by_its_parameter(
    snap: &ClusterSnapshot,
    table: Seq<char>,
    shard_key: Option<Seq<char>>,
    i: usize,
    ps: Seq<Seq<char>>,
    r: Option<Result<ResolvedRoute, RoutingError>>,
)
    requires
        i < ps.len(),
        hook_routes_as(
            snap,
            Ok(ClassifyView::Routable(PlanView::SingleShard { table, shard_key, shard_key_param: Some(i) })),
            Some(ps),
            r,
        ),
    ensures
        r matches Some(x) && (x is Err || x matches Ok(ResolvedRoute::Single(_))) && snap.key_routing(
            ps[i as int],
            Protocol::Pg,
            single_of(x),
        ),
{
}

} // verus!
