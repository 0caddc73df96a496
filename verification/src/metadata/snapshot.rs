//! An immutable view of the cluster: the ring, the table registry and shard health.
use vstd::prelude::*;

use std::collections::{HashMap, HashSet};

use crate::config::ShardConfig;
use crate::routing::error::{RoutingError, RoutingErrorView};
use crate::text::{decimal, u64_to_string};
use crate::routing::ring::{available, has_id, index_of_id, max_vnodes, total_vnodes, ShardRing};
use crate::routing::schema::TableRegistry;

verus! {

broadcast use vstd::std_specs::hash::group_hash_axioms;

/// The backend protocol a request is routed for.
#[derive(Debug, Clone, Copy, PartialEq, Eq, Structural)]
pub enum Protocol {
    Ilp,
    Pg,
}

/// Health of one shard, per protocol.
#[derive(Debug, Clone, Copy, PartialEq, Eq, Structural)]
pub struct ShardHealth {
    pub ilp_ok: bool,
    pub pg_ok: bool,
}

/// Whether `h` reports the shard usable for `p`.
pub open spec fn ok_for(h: ShardHealth, p: Protocol) -> bool {
    match p {
        Protocol::Ilp => h.ilp_ok,
        Protocol::Pg => h.pg_ok,
    }
}

/// A shard counts as healthy only when it has a health entry that is ok for `p`.
pub open spec fn healthy_in(health: Map<u32, ShardHealth>, id: u32, p: Protocol) -> bool {
    health.contains_key(id) && ok_for(health[id], p)
}

/// The shards of `shards` that are healthy for `p`, in order.
pub open spec fn healthy_seq(
    shards: Seq<ShardConfig>,
    health: Map<u32, ShardHealth>,
    p: Protocol,
) -> Seq<ShardConfig>
    decreases shards.len(),
{
    if shards.len() == 0 {
        Seq::empty()
    } else {
        let rest = healthy_seq(shards.drop_last(), health, p);
        if healthy_in(health, shards.last().id, p) {
            rest.push(shards.last())
        } else {
            rest
        }
    }
}

/// A shard lookup with its error taken by its view.
pub open spec fn shard_result_view(r: Result<ShardConfig, RoutingError>) -> Result<
    ShardConfig,
    RoutingErrorView,
> {
    match r {
        Ok(s) => Ok(s),
        Err(e) => Err(e@),
    }
}

/// Health map of a fresh snapshot: every configured shard id is healthy.
pub open spec fn initial_health(shards: Seq<ShardConfig>) -> Map<u32, ShardHealth> {
    Map::new(|id: u32| has_id(shards, id), |id: u32| ShardHealth { ilp_ok: true, pg_ok: true })
}

impl Default for ShardHealth {
    fn default() -> (r: Self)
        ensures
            r == (ShardHealth { ilp_ok: false, pg_ok: false }),
    {
        ShardHealth { ilp_ok: false, pg_ok: false }
    }
}

impl ShardHealth {
    pub fn healthy_all() -> (r: Self)
        ensures
            r == (ShardHealth { ilp_ok: true, pg_ok: true }),
    {
        ShardHealth { ilp_ok: true, pg_ok: true }
    }

    pub fn is_ok_for(&self, protocol: Protocol) -> (r: bool)
        ensures
            r == ok_for(*self, protocol),
    {
        match protocol {
            Protocol::Ilp => self.ilp_ok,
            Protocol::Pg => self.pg_ok,
        }
    }
}

/// Topology, table metadata and health at one point in time.
#[derive(Debug)]
pub struct ClusterSnapshot {
    pub ring: ShardRing,
    pub table_registry: TableRegistry,
    pub health: HashMap<u32, ShardHealth>,
    pub all_shards: Vec<ShardConfig>,
    pub exclude_unhealthy: bool,
    pub min_healthy_shards: usize,
}

impl ClusterSnapshot {
    /// Number of shards usable for `p`: all of them unless unhealthy shards are excluded.
    pub open spec fn healthy_count_spec(&self, p: Protocol) -> nat {
        if !self.exclude_unhealthy {
            self.all_shards@.len()
        } else {
            healthy_seq(self.all_shards@, self.health@, p).len()
        }
    }

    /// Whether `ensure_min_healthy` fails for `p`.
    pub open spec fn too_few_healthy(&self, p: Protocol) -> bool {
        self.exclude_unhealthy && self.healthy_count_spec(p) < self.min_healthy_shards
    }

    /// The ids that routing for `p` must avoid.
    pub open spec fn excluded_spec(&self, p: Protocol) -> Set<u32> {
        if !self.exclude_unhealthy {
            Set::empty()
        } else {
            Set::new(|id: u32| self.health@.contains_key(id) && !ok_for(self.health@[id], p))
        }
    }

    /// A snapshot in which every configured shard is healthy.
    pub fn new(
        shards: Vec<ShardConfig>,
        table_registry: TableRegistry,
        exclude_unhealthy: bool,
        min_healthy_shards: usize,
    ) -> (r: Self)
        requires
            total_vnodes(shards@) < max_vnodes(),
        ensures
            r.ring@ == shards@,
            r.all_shards@ == shards@,
            r.health@ == initial_health(shards@),
            r.table_registry == table_registry,
            r.exclude_unhealthy == exclude_unhealthy,
            r.min_healthy_shards == min_healthy_shards,
    {
        let mut health: HashMap<u32, ShardHealth> = HashMap::new();
        let mut copy: Vec<ShardConfig> = Vec::new();
        let mut i: usize = 0;
        while i < shards.len()
            invariant
                0 <= i <= shards.len(),
                health@ == initial_health(shards@.take(i as int)),
                copy@ == shards@.take(i as int),
            decreases shards.len() - i,
        {
            health.insert(shards[i].id, ShardHealth::healthy_all());
            copy.push(shards[i].copied());
            i = i + 1;
            assert(copy@ =~= shards@.take(i as int));
            assert forall|id: u32|
                has_id(shards@.take(i as int), id) == (has_id(shards@.take(i - 1), id) || id
                    == shards@[i - 1].id) by {
                if has_id(shards@.take(i as int), id) {
                    let j = choose|j: int|
                        0 <= j < i && (#[trigger] shards@.take(i as int)[j]).id == id;
                    if j < i - 1 {
                        assert(shards@.take(i - 1)[j] == shards@.take(i as int)[j]);
                    }
                }
                if has_id(shards@.take(i - 1), id) {
                    let j = choose|j: int|
                        0 <= j < i - 1 && (#[trigger] shards@.take(i - 1)[j]).id == id;
                    assert(shards@.take(i - 1)[j] == shards@.take(i as int)[j]);
                }
                if id == shards@[i - 1].id {
                    assert(shards@.take(i as int)[i - 1] == shards@[i - 1]);
                }
            }
            assert(health@ =~= initial_health(shards@.take(i as int)));
        }
        assert(shards@.take(shards.len() as int) =~= shards@);
        ClusterSnapshot {
            ring: ShardRing::from_shards(copy),
            table_registry,
            health,
            all_shards: shards,
            exclude_unhealthy,
            min_healthy_shards,
        }
    }

    pub fn table_registry(&self) -> (r: &TableRegistry)
        ensures
            *r == self.table_registry,
    {
        &self.table_registry
    }

    fn is_healthy(&self, id: u32, protocol: Protocol) -> (r: bool)
        ensures
            r == healthy_in(self.health@, id, protocol),
    {
        match self.health.get(&id) {
            Some(h) => h.is_ok_for(protocol),
            None => false,
        }
    }

    /// Number of shards usable for `protocol`.
    pub fn healthy_count(&self, protocol: Protocol) -> (r: usize)
        ensures
            r == self.healthy_count_spec(protocol),
    {
        if !self.exclude_unhealthy {
            return self.all_shards.len();
        }
        let mut count: usize = 0;
        let mut i: usize = 0;
        while i < self.all_shards.len()
            invariant
                0 <= i <= self.all_shards.len(),
                count == healthy_seq(self.all_shards@.take(i as int), self.health@, protocol).len(),
                count <= i,
            decreases self.all_shards.len() - i,
        {
            assert(self.all_shards@.take(i + 1).drop_last() =~= self.all_shards@.take(i as int));
            if self.is_healthy(self.all_shards[i].id, protocol) {
                count = count + 1;
            }
            i = i + 1;
        }
        assert(self.all_shards@.take(i as int) =~= self.all_shards@);
        count
    }

    /// Fails when unhealthy shards are excluded and fewer than the configured minimum
    /// remain.
    pub fn ensure_min_healthy(&self, protocol: Protocol) -> (r: Result<(), RoutingError>)
        ensures
            r is Ok <==> !self.too_few_healthy(protocol),
            r matches Err(e) ==> e == (RoutingError::InsufficientHealthyShards {
                required: self.min_healthy_shards,
                available: self.healthy_count_spec(protocol) as usize,
            }),
    {
        if !self.exclude_unhealthy {
            return Ok(());
        }
        let available = self.healthy_count(protocol);
        if available < self.min_healthy_shards {
            return Err(
                RoutingError::InsufficientHealthyShards {
                    required: self.min_healthy_shards,
                    available,
                },
            );
        }
        Ok(())
    }

    /// Shard ids to skip for `protocol`: those whose health entry is not ok for it, when
    /// unhealthy shards are excluded; none otherwise.
    pub fn excluded_for(&self, protocol: Protocol) -> (r: HashSet<u32>)
        ensures
            r@ == self.excluded_spec(protocol),
    {
        let mut out: HashSet<u32> = HashSet::new();
        if !self.exclude_unhealthy {
            assert(out@ =~= self.excluded_spec(protocol));
            return out;
        }
        let ghost m = self.health@;
        let ghost mut seen: Seq<u32> = Seq::empty();
        for id in it: self.health.keys()
            invariant
                m == self.health@,
                it.seq().unref().to_set() == m.dom(),
                seen == it.seq().unref().take(it.index() as int),
                it.index() == it.seq().len() ==> seen.to_set() == m.dom(),
                forall|x: u32|
                    #![trigger out@.contains(x)]
                    out@.contains(x) <==> seen.contains(x) && m.contains_key(x) && !ok_for(
                        m[x],
                        protocol,
                    ),
        {
            let ghost prev = seen;
            proof {
                seen = seen.push(*id);
            }
            if !self.is_healthy_entry(*id, protocol) {
                out.insert(*id);
            }
            proof {
                // Inside the body `it` has not advanced yet: `id` is element `it.index()`.
                assert(*id == *it.seq()[it.index() as int]);
                let k = it.index() + 1;
                assert forall|j: int| 0 <= j < seen.len() implies seen[j] == it.seq().unref().take(
                    k,
                )[j] by {
                    assert(it.seq().unref()[j] == *it.seq()[j]);
                }
                assert(seen =~= it.seq().unref().take(k));
                if k == it.seq().len() {
                    assert(seen =~= it.seq().unref());
                }
                assert(m.contains_key(*id)) by {
                    assert(it.seq().unref()[k - 1] == *id);
                    assert(it.seq().unref().contains(*id));
                }
                assert forall|x: u32| seen.contains(x) <==> (prev.contains(x) || x == *id) by {
                    if seen.contains(x) {
                        let j = choose|j: int| 0 <= j < seen.len() && seen[j] == x;
                        if j < prev.len() {
                            assert(prev[j] == x);
                        }
                    }
                    if prev.contains(x) {
                        let j = choose|j: int| 0 <= j < prev.len() && prev[j] == x;
                        assert(seen[j] == x);
                    }
                    if x == *id {
                        assert(seen[seen.len() - 1] == x);
                    }
                }
            }
        }
        assert(out@ =~= self.excluded_spec(protocol)) by {
            assert forall|x: u32| self.excluded_spec(protocol).contains(x) implies out@.contains(
                x,
            ) by {
                assert(seen.to_set().contains(x));
            }
        }
        out
    }

    /// Whether the health entry of `id` (if any) is ok for `protocol`; a missing entry
    /// counts as ok.
    fn is_healthy_entry(&self, id: u32, protocol: Protocol) -> (r: bool)
        ensures
            r == (!self.health@.contains_key(id) || ok_for(self.health@[id], protocol)),
    {
        match self.health.get(&id) {
            Some(h) => h.is_ok_for(protocol),
            None => true,
        }
    }

    /// What routing `key` for `p` may return: the minimum-health error first; otherwise a
    /// ring shard that is not excluded, exactly when one exists, else "no shard for key".
    pub open spec fn key_routing(
        &self,
        key: Seq<char>,
        p: Protocol,
        r: Result<ShardConfig, RoutingErrorView>,
    ) -> bool {
        if self.too_few_healthy(p) {
            r == Err::<ShardConfig, RoutingErrorView>(
                RoutingErrorView::InsufficientHealthyShards {
                    required: self.min_healthy_shards,
                    available: self.healthy_count_spec(p) as usize,
                },
            )
        } else {
            &&& (r is Ok <==> available(self.ring@, self.excluded_spec(p)))
            &&& (r matches Ok(s) ==> self.ring@.contains(s) && !self.excluded_spec(p).contains(
                s.id,
            ))
            &&& (r matches Err(e) ==> e == RoutingErrorView::ShardNotFound { key })
            &&& (self.ring@.len() > 0 && !self.excluded_spec(p).contains(self.ring.owner(key))
                ==> r == Ok::<ShardConfig, RoutingErrorView>(
                self.ring@[index_of_id(self.ring@, self.ring.owner(key))],
            ))
            &&& r == (match self.ring.pick_id(key, self.excluded_spec(p)) {
                Some(id) => Ok::<ShardConfig, RoutingErrorView>(
                    self.ring@[index_of_id(self.ring@, id)],
                ),
                None => Err(RoutingErrorView::ShardNotFound { key }),
            })
        }
    }

    /// Routes `key` for `protocol` on the ring, skipping excluded shards.
    pub fn shard_for_key(&self, key: &str, protocol: Protocol) -> (r: Result<
        ShardConfig,
        RoutingError,
    >)
        ensures
            self.key_routing(key@, protocol, shard_result_view(r)),
    {
        match self.ensure_min_healthy(protocol) {
            Err(e) => {
                return Err(e);
            },
            Ok(()) => {},
        }
        let excluded = self.excluded_for(protocol);
        match self.ring.shard_by_key_filtered(key, &excluded) {
            Some(s) => Ok(s.copied()),
            None => Err(RoutingError::ShardNotFound { key: String::from_str(key) }),
        }
    }

    /// The shard with id `id`, refused when it is reported unhealthy for `protocol`
    /// (a shard without a health entry counts as healthy here).
    pub fn shard_by_id(&self, id: u32, protocol: Protocol) -> (r: Result<ShardConfig, RoutingError>)
        ensures
            self.too_few_healthy(protocol) ==> r == Err::<ShardConfig, RoutingError>(
                RoutingError::InsufficientHealthyShards {
                    required: self.min_healthy_shards,
                    available: self.healthy_count_spec(protocol) as usize,
                },
            ),
            !self.too_few_healthy(protocol) && !has_id(self.ring@, id) ==> (r matches Err(e)
                && e@ == RoutingErrorView::ShardNotFound { key: decimal(id as nat) }),
            !self.too_few_healthy(protocol) && has_id(self.ring@, id) && self.exclude_unhealthy
                && self.health@.contains_key(id) && !ok_for(self.health@[id], protocol) ==> r
                == Err::<ShardConfig, RoutingError>(RoutingError::ShardUnhealthy { shard_id: id }),
            !self.too_few_healthy(protocol) && has_id(self.ring@, id) && !(self.exclude_unhealthy
                && self.health@.contains_key(id) && !ok_for(self.health@[id], protocol)) ==> r
                == Ok::<ShardConfig, RoutingError>(self.ring@[index_of_id(self.ring@, id)]),
    {
        match self.ensure_min_healthy(protocol) {
            Err(e) => {
                return Err(e);
            },
            Ok(()) => {},
        }
        let shard = match self.ring.shard_by_id(id) {
            Some(s) => s.copied(),
            None => {
                return Err(RoutingError::ShardNotFound { key: u64_to_string(id as u64) });
            },
        };
        if self.exclude_unhealthy {
            if !self.is_healthy_entry(id, protocol) {
                return Err(RoutingError::ShardUnhealthy { shard_id: id });
            }
        }
        Ok(shard)
    }

    /// The configured shards usable for `protocol`, in configuration order.
    pub fn healthy_shards(&self, protocol: Protocol) -> (r: Vec<ShardConfig>)
        ensures
            r@ == (if self.exclude_unhealthy {
                healthy_seq(self.all_shards@, self.health@, protocol)
            } else {
                self.all_shards@
            }),
    {
        let mut out: Vec<ShardConfig> = Vec::new();
        let mut i: usize = 0;
        while i < self.all_shards.len()
            invariant
                0 <= i <= self.all_shards.len(),
                out@ == (if self.exclude_unhealthy {
                    healthy_seq(self.all_shards@.take(i as int), self.health@, protocol)
                } else {
                    self.all_shards@.take(i as int)
                }),
            decreases self.all_shards.len() - i,
        {
            assert(self.all_shards@.take(i + 1).drop_last() =~= self.all_shards@.take(i as int));
            if !self.exclude_unhealthy || self.is_healthy(self.all_shards[i].id, protocol) {
                out.push(self.all_shards[i].copied());
            }
            i = i + 1;
            assert(self.exclude_unhealthy || out@ =~= self.all_shards@.take(i as int));
        }
        assert(self.all_shards@.take(i as int) =~= self.all_shards@);
        out
    }

    /// The first usable shard for `protocol`.
    pub fn default_healthy_shard(&self, protocol: Protocol) -> (r: Result<
        ShardConfig,
        RoutingError,
    >)
        ensures
            self.too_few_healthy(protocol) ==> r == Err::<ShardConfig, RoutingError>(
                RoutingError::InsufficientHealthyShards {
                    required: self.min_healthy_shards,
                    available: self.healthy_count_spec(protocol) as usize,
                },
            ),
            !self.too_few_healthy(protocol) ==> r == (if self.usable_spec(protocol).len() > 0 {
                Ok::<ShardConfig, RoutingError>(self.usable_spec(protocol)[0])
            } else {
                Err(
                    RoutingError::InsufficientHealthyShards {
                        required: if self.min_healthy_shards >= 1 {
                            self.min_healthy_shards
                        } else {
                            1
                        },
                        available: 0,
                    },
                )
            }),
    {
        match self.ensure_min_healthy(protocol) {
            Err(e) => {
                return Err(e);
            },
            Ok(()) => {},
        }
        let mut list = self.healthy_shards(protocol);
        if list.len() > 0 {
            Ok(list.remove(0))
        } else {
            let required = if self.min_healthy_shards >= 1 {
                self.min_healthy_shards
            } else {
                1
            };
            Err(RoutingError::InsufficientHealthyShards { required, available: 0 })
        }
    }

    /// The shards `healthy_shards` returns.
    pub open spec fn usable_spec(&self, p: Protocol) -> Seq<ShardConfig> {
        if self.exclude_unhealthy {
            healthy_seq(self.all_shards@, self.health@, p)
        } else {
            self.all_shards@
        }
    }

    /// A copy of the snapshot.
    pub fn duplicate(&self) -> (r: Self)
        ensures
            r.ring@ == self.ring@,
            r.ring.nodes() == self.ring.nodes(),
            r.table_registry@ == self.table_registry@,
            r.health@ == self.health@,
            r.all_shards@ == self.all_shards@,
            r.exclude_unhealthy == self.exclude_unhealthy,
            r.min_healthy_shards == self.min_healthy_shards,
    {
        let mut all: Vec<ShardConfig> = Vec::new();
        let mut i: usize = 0;
        while i < self.all_shards.len()
            invariant
                0 <= i <= self.all_shards.len(),
                all@ == self.all_shards@.take(i as int),
            decreases self.all_shards.len() - i,
        {
            all.push(self.all_shards[i].copied());
            i = i + 1;
            assert(all@ =~= self.all_shards@.take(i as int));
        }
        assert(self.all_shards@.take(i as int) =~= self.all_shards@);
        ClusterSnapshot {
            ring: self.ring.duplicate(),
            table_registry: self.table_registry.duplicate(),
            health: self.health.clone(),
            all_shards: all,
            exclude_unhealthy: self.exclude_unhealthy,
            min_healthy_shards: self.min_healthy_shards,
        }
    }

    /// The snapshot after a health report for `shard_id`, or `None` when the report
    /// changes nothing (a shard without an entry counts as healthy for both protocols).
    pub fn with_health(&self, shard_id: u32, ilp_ok: bool, pg_ok: bool) -> (r: Option<Self>)
        ensures
            r is None <==> (if self.health@.contains_key(shard_id) {
                self.health@[shard_id] == (ShardHealth { ilp_ok, pg_ok })
            } else {
                ilp_ok && pg_ok
            }),
            r matches Some(n) ==> {
                &&& n.health@ == self.health@.insert(shard_id, ShardHealth { ilp_ok, pg_ok })
                &&& n.ring@ == self.ring@
                &&& n.ring.nodes() == self.ring.nodes()
                &&& n.table_registry@ == self.table_registry@
                &&& n.all_shards@ == self.all_shards@
                &&& n.exclude_unhealthy == self.exclude_unhealthy
                &&& n.min_healthy_shards == self.min_healthy_shards
            },
    {
        let prev = match self.health.get(&shard_id) {
            Some(h) => *h,
            None => ShardHealth::healthy_all(),
        };
        if prev.ilp_ok == ilp_ok && prev.pg_ok == pg_ok {
            return None;
        }
        let mut next = self.duplicate();
        next.health.insert(shard_id, ShardHealth { ilp_ok, pg_ok });
        Some(next)
    }
}

proof fn lemma_all_healthy(shards: Seq<ShardConfig>, health: Map<u32, ShardHealth>, p: Protocol)
    requires
        forall|i: int| 0 <= i < shards.len() ==> healthy_in(health, (#[trigger] shards[i]).id, p),
    ensures
        healthy_seq(shards, health, p) == shards,
    decreases shards.len(),
{
    if shards.len() > 0 {
        let rest = shards.drop_last();
        assert forall|i: int| 0 <= i < rest.len() implies healthy_in(
            health,
            (#[trigger] rest[i]).id,
            p,
        ) by {
            assert(rest[i] == shards[i]);
        }
        lemma_all_healthy(rest, health, p);
        assert(healthy_in(health, shards[shards.len() - 1].id, p));
        assert(rest.push(shards.last()) =~= shards);
    }
}

/// A fresh snapshot (every configured shard healthy) over a non-empty shard list routes
/// every key, for either protocol, unless it demands more healthy shards than exist.
pub proof fn law_fresh_snapshot_routes(snap: &ClusterSnapshot, p: Protocol)
    requires
        snap.all_shards@.len() > 0,
        snap.ring@ == snap.all_shards@,
        snap.health@ == initial_health(snap.all_shards@),
        snap.min_healthy_shards <= snap.all_shards@.len(),
    ensures
        !snap.too_few_healthy(p),
        snap.healthy_count_spec(p) == snap.all_shards@.len(),
        snap.excluded_spec(p) == Set::<u32>::empty(),
        available(snap.ring@, snap.excluded_spec(p)),
{
    let shards = snap.all_shards@;
    assert forall|i: int| 0 <= i < shards.len() implies healthy_in(
        snap.health@,
        (#[trigger] shards[i]).id,
        p,
    ) by {
        assert(has_id(shards, shards[i].id));
    }
    lemma_all_healthy(shards, snap.health@, p);
    assert(snap.excluded_spec(p) =~= Set::<u32>::empty());
    assert(!snap.excluded_spec(p).contains(snap.ring@[0].id));
}

/// Once a shard is reported down for ILP, a snapshot that excludes unhealthy shards
/// never routes ILP traffic to it.
pub proof fn law_down_shard_not_routed(
    snap: &ClusterSnapshot,
    id: u32,
    pg_ok: bool,
    key: Seq<char>,
    r: Result<ShardConfig, RoutingErrorView>,
)
    requires
        snap.exclude_unhealthy,
        snap.health@.contains_key(id),
        snap.health@[id] == (ShardHealth { ilp_ok: false, pg_ok }),
        snap.key_routing(key, Protocol::Ilp, r),
    ensures
        snap.excluded_spec(Protocol::Ilp).contains(id),
        r matches Ok(s) ==> s.id != id,
{
}

/// A key goes to the same shard for ILP writes and for PostgreSQL reads while the
/// shard owning its ring position is usable for both: a keyed read reaches the shard
/// that the keyed writes went to.
pub proof fn law_same_key_same_shard(
    snap: &ClusterSnapshot,
    key: Seq<char>,
    write: Result<ShardConfig, RoutingErrorView>,
    read: Result<ShardConfig, RoutingErrorView>,
)
    requires
        snap.ring@.len() > 0,
        !snap.too_few_healthy(Protocol::Ilp),
        !snap.too_few_healthy(Protocol::Pg),
        !snap.excluded_spec(Protocol::Ilp).contains(snap.ring.owner(key)),
        !snap.excluded_spec(Protocol::Pg).contains(snap.ring.owner(key)),
        snap.key_routing(key, Protocol::Ilp, write),
        snap.key_routing(key, Protocol::Pg, read),
    ensures
        write is Ok,
        write == read,
{
}

/// Routing is repeatable: two lookups of the same key for the same protocol on one
/// snapshot give the same answer, also when the owning shard is excluded and the
/// lookup fails over.
pub proof fn law_lookup_repeatable(
    snap: &ClusterSnapshot,
    key: Seq<char>,
    p: Protocol,
    first: Result<ShardConfig, RoutingErrorView>,
    second: Result<ShardConfig, RoutingErrorView>,
)
    requires
        snap.key_routing(key, p, first),
        snap.key_routing(key, p, second),
    ensures
        first == second,
{
}

} // verus!
