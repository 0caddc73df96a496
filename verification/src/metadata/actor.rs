//! The metadata actor's messages and how it applies them to the snapshot.
use vstd::prelude::*;

use crate::config::ShardConfig;
use crate::metadata::snapshot::{ClusterSnapshot, Protocol, ShardHealth};
use crate::routing::error::RoutingErrorView;

verus! {

/// A message of the metadata actor's mailbox.
#[derive(Debug, Clone, Copy, PartialEq, Eq, Structural)]
pub enum MetadataMessage {
    ReportHealth { shard_id: u32, ilp_ok: bool, pg_ok: bool },
}

/// `r` is what applying the health report `(shard_id, ilp_ok, pg_ok)` to `current`
/// publishes: nothing when the report matches the recorded health (a shard without an
/// entry counts as healthy), else the snapshot with that entry replaced.
pub open spec fn report_applied(
    current: ClusterSnapshot,
    shard_id: u32,
    ilp_ok: bool,
    pg_ok: bool,
    r: Option<ClusterSnapshot>,
) -> bool {
    &&& (r is None <==> (if current.health@.contains_key(shard_id) {
        current.health@[shard_id] == (ShardHealth { ilp_ok, pg_ok })
    } else {
        ilp_ok && pg_ok
    }))
    &&& (r matches Some(n) ==> {
        &&& n.health@ == current.health@.insert(shard_id, ShardHealth { ilp_ok, pg_ok })
        &&& n.ring@ == current.ring@
        &&& n.ring.nodes() == current.ring.nodes()
        &&& n.table_registry@ == current.table_registry@
        &&& n.all_shards@ == current.all_shards@
        &&& n.exclude_unhealthy == current.exclude_unhealthy
        &&& n.min_healthy_shards == current.min_healthy_shards
    })
}

/// The metadata actor: owns the current snapshot and publishes a new one per change.
pub struct MetadataActor;

impl MetadataActor {
    /// The snapshot to publish after `msg`, or `None` when it changes nothing.
    pub fn apply(current: &ClusterSnapshot, msg: MetadataMessage) -> (r: Option<ClusterSnapshot>)
        ensures
            (match msg {
                MetadataMessage::ReportHealth { shard_id, ilp_ok, pg_ok } => report_applied(
                    *current,
                    shard_id,
                    ilp_ok,
                    pg_ok,
                    r,
                ),
            }),
    {
        match msg {
            MetadataMessage::ReportHealth { shard_id, ilp_ok, pg_ok } => current.with_health(
                shard_id,
                ilp_ok,
                pg_ok,
            ),
        }
    }
}

/// A health report repeated on the snapshot it produced publishes nothing.
pub proof fn law_repeated_report_publishes_nothing(
    current: ClusterSnapshot,
    next: ClusterSnapshot,
    shard_id: u32,
    ilp_ok: bool,
    pg_ok: bool,
    again: Option<ClusterSnapshot>,
)
    requires
        report_applied(current, shard_id, ilp_ok, pg_ok, Some(next)),
        report_applied(next, shard_id, ilp_ok, pg_ok, again),
    ensures
        again is None,
{
    assert(next.health@.contains_key(shard_id));
    assert(next.health@[shard_id] == (ShardHealth { ilp_ok, pg_ok }));
}

/// A report publishes a new snapshot exactly when it changes the recorded health,
/// and the recorded health of every other shard stays as it was.
pub proof fn law_report_touches_one_shard(
    current: ClusterSnapshot,
    shard_id: u32,
    ilp_ok: bool,
    pg_ok: bool,
    next: ClusterSnapshot,
    other: u32,
)
    requires
        report_applied(current, shard_id, ilp_ok, pg_ok, Some(next)),
        other != shard_id,
    ensures
        next.health@.contains_key(other) == current.health@.contains_key(other),
        current.health@.contains_key(other) ==> next.health@[other] == current.health@[other],
{
}

/// A health report moves no key whose owning shard stays usable: before and after the
/// report such a key is routed to the same shard.
pub proof fn law_report_keeps_routes(
    current: ClusterSnapshot,
    shard_id: u32,
    ilp_ok: bool,
    pg_ok: bool,
    next: ClusterSnapshot,
    key: Seq<char>,
    p: Protocol,
    before: Result<ShardConfig, RoutingErrorView>,
    after: Result<ShardConfig, RoutingErrorView>,
)
    requires
        report_applied(current, shard_id, ilp_ok, pg_ok, Some(next)),
        current.ring@.len() > 0,
        !current.too_few_healthy(p),
        !next.too_few_healthy(p),
        !current.excluded_spec(p).contains(current.ring.owner(key)),
        !next.excluded_spec(p).contains(next.ring.owner(key)),
        current.key_routing(key, p, before),
        next.key_routing(key, p, after),
    ensures
        before is Ok,
        before == after,
{
}

} // verus!
