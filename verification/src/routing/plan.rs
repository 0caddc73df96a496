//! Execution plans produced from SQL analysis.
use vstd::prelude::*;

verus! {

/// Aggregate function kinds recognized for federated merge.
#[derive(Debug, Clone, Copy, PartialEq, Eq, Structural)]
pub enum AggKind {
    Count,
    Sum,
    Min,
    Max,
    Avg,
}

/// Execution plan produced from SQL analysis.
#[derive(Debug, Clone, PartialEq, Eq)]
pub enum RoutePlan {
    /// Point read: route to exactly one shard via shard-key hash.
    SingleShard { table: String, shard_key: Option<String>, shard_key_param: Option<usize> },
    /// Full table scan across all shards (`SELECT *` / scan without shard key).
    FullScan { table: String },
    /// Global aggregate without GROUP BY (`SELECT count(*) FROM t`).
    AggregateScan { table: String, agg_kind: AggKind },
    /// Join across one or more tables (federated execution).
    Join { sql: String },
    /// GROUP BY query requiring partial aggregate merge.
    GroupBy { table: String, group_cols: Vec<String>, agg_kinds: Vec<AggKind> },
}

/// The values a plan carries.
pub enum PlanView {
    SingleShard { table: Seq<char>, shard_key: Option<Seq<char>>, shard_key_param: Option<usize> },
    FullScan { table: Seq<char> },
    AggregateScan { table: Seq<char>, agg_kind: AggKind },
    Join { sql: Seq<char> },
    GroupBy { table: Seq<char>, group_cols: Seq<Seq<char>>, agg_kinds: Seq<AggKind> },
}

pub open spec fn strings_view(v: Seq<String>) -> Seq<Seq<char>> {
    Seq::new(v.len(), |i: int| v[i]@)
}

impl View for RoutePlan {
    type V = PlanView;

    open spec fn view(&self) -> PlanView {
        match self {
            RoutePlan::SingleShard { table, shard_key, shard_key_param } => PlanView::SingleShard {
                table: table@,
                shard_key: match shard_key {
                    Some(k) => Some(k@),
                    None => None,
                },
                shard_key_param: *shard_key_param,
            },
            RoutePlan::FullScan { table } => PlanView::FullScan { table: table@ },
            RoutePlan::AggregateScan { table, agg_kind } => PlanView::AggregateScan {
                table: table@,
                agg_kind: *agg_kind,
            },
            RoutePlan::Join { sql } => PlanView::Join { sql: sql@ },
            RoutePlan::GroupBy { table, group_cols, agg_kinds } => PlanView::GroupBy {
                table: table@,
                group_cols: strings_view(group_cols@),
                agg_kinds: agg_kinds@,
            },
        }
    }
}

impl RoutePlan {
    /// Every plan but a single-shard read fans out to several shards.
    pub fn is_federated(&self) -> (r: bool)
        ensures
            r == !(self is SingleShard),
    {
        match self {
            RoutePlan::SingleShard { .. } => false,
            _ => true,
        }
    }
}

} // verus!
