//! Shard selector: consistent hashing over weighted virtual nodes.
use vstd::prelude::*;

use hashring::{DefaultHashBuilder, HashRing};
use std::collections::HashSet;

use crate::config::ShardConfig;

verus! {

broadcast use {vstd::std_specs::hash::group_hash_axioms, vstd::seq_lib::group_to_multiset_ensures};

#[verifier::external_type_specification]
#[verifier::external_body]
#[verifier::reject_recursive_types(T)]
#[verifier::reject_recursive_types(S)]
pub struct ExHashRing<T, S>(HashRing<T, S>);

#[verifier::external_type_specification]
#[verifier::external_body]
pub struct ExDefaultHashBuilder(DefaultHashBuilder);

/// The virtual nodes `(shard id, vnode number)` a ring holds, in the ring's own order
/// (sorted by their hash).
pub uninterp spec fn ring_nodes(ring: HashRing<(u32, u32)>) -> Seq<(u32, u32)>;

/// The node that owns the ring position of `key` on a ring holding `nodes` (in the
/// ring's order): the first node whose hash is not below the key's hash, wrapping to
/// the first node.
pub uninterp spec fn ring_owner(nodes: Seq<(u32, u32)>, key: Seq<char>) -> (u32, u32);

/// The node that a salted probe `(key, attempt)` lands on, on a ring holding `nodes`;
/// the probe's `usize` is hashed at the machine's width of `width` bits.
pub uninterp spec fn ring_probe(nodes: Seq<(u32, u32)>, key: Seq<char>, attempt: usize, width: u32) -> (u32, u32);

/// The hash a ring sorts `node` by: fixed-key SipHash of the node.
pub uninterp spec fn node_key(node: (u32, u32)) -> u64;

/// The nodes are in ascending order of their hash.
pub open spec fn keys_sorted(s: Seq<(u32, u32)>) -> bool {
    forall|i: int, j: int| 0 <= i <= j < s.len() ==> node_key(s[i]) <= node_key(s[j])
}

/// `s` with `node` placed after every node whose hash does not exceed its own.
pub open spec fn sorted_insert(s: Seq<(u32, u32)>, node: (u32, u32)) -> Seq<(u32, u32)> {
    s.insert(
        crate::text::first_from(s, |m: (u32, u32)| node_key(m) > node_key(node), 0),
        node,
    )
}

/// The nodes of a ring that starts empty and has `nodes` added one by one.
pub open spec fn ring_built(nodes: Seq<(u32, u32)>) -> Seq<(u32, u32)>
    decreases nodes.len(),
{
    if nodes.len() == 0 {
        Seq::empty()
    } else {
        sorted_insert(ring_built(nodes.drop_last()), nodes.last())
    }
}

/// The largest number of virtual nodes a ring is built with: the ring keeps its nodes
/// in a `Vec` of 16-byte entries, whose doubling growth must stay within `isize::MAX`
/// bytes.
pub open spec fn max_vnodes() -> nat {
    (isize::MAX as nat) / 32
}

/// `HashRing::new`: a ring without nodes.
#[verifier::external_body]
fn ring_new() -> (r: HashRing<(u32, u32)>)
    ensures
        ring_nodes(r) == Seq::<(u32, u32)>::empty(),
{
    HashRing::new()
}

/// `HashRing::add`: pushes `node` onto the ring's nodes and sorts them (a stable sort)
/// by hash, so the ring holds the nodes it held and `node` once more, in ascending
/// order of hash; on a sorted ring `node` lands after the nodes whose hash does not
/// exceed its own.
#[verifier::external_body]
fn ring_add(ring: &mut HashRing<(u32, u32)>, node: (u32, u32))
    requires
        ring_nodes(*old(ring)).len() < max_vnodes(),
    ensures
        ring_nodes(*final(ring)).to_multiset() == ring_nodes(*old(ring)).to_multiset().insert(
            node,
        ),
        forall|i: int, j: int|
            0 <= i <= j < ring_nodes(*final(ring)).len() ==> node_key(ring_nodes(*final(ring))[i])
                <= node_key(ring_nodes(*final(ring))[j]),
        keys_sorted(ring_nodes(*old(ring))) ==> ring_nodes(*final(ring)) == sorted_insert(
            ring_nodes(*old(ring)),
            node,
        ),
{
    ring.add(node)
}

/// `HashRing::get`: the node that follows the hash of `key` (or of `(key, probe)` for a
/// salted probe) clockwise on the ring. The ring answers exactly when it has nodes, and
/// with one of them. The answer is named: `ring_owner` for the key alone (SipHash with
/// fixed keys over the key's bytes and the nodes' little-endian parts), `ring_probe`
/// for a salted probe, whose `usize` is hashed at the machine's width `usize::BITS`.
#[verifier::external_body]
fn ring_get(ring: &HashRing<(u32, u32)>, key: &str, probe: Option<usize>) -> (r: Option<
    (u32, u32),
>)
    ensures
        r is None <==> ring_nodes(*ring).len() == 0,
        r matches Some(n) ==> ring_nodes(*ring).contains(n),
        probe is None && ring_nodes(*ring).len() > 0 ==> r == Some(
            ring_owner(ring_nodes(*ring), key@),
        ),
        ring_nodes(*ring).len() > 0 ==> (probe matches Some(a) ==> r == Some(
            ring_probe(ring_nodes(*ring), key@, a, usize::BITS),
        )),
{
    match probe {
        None => ring.get(&key).copied(),
        Some(attempt) => ring.get(&(key, attempt)).copied(),
    }
}

/// Virtual nodes of a shard: `max(weight, 1) * max(virtual_nodes, 1)`, saturating.
pub open spec fn vnode_count_of(s: ShardConfig) -> nat {
    let w = if s.weight == 0 {
        1nat
    } else {
        s.weight as nat
    };
    let v = if s.virtual_nodes == 0 {
        1nat
    } else {
        s.virtual_nodes as nat
    };
    if w * v > u32::MAX {
        u32::MAX as nat
    } else {
        w * v
    }
}

pub open spec fn block_of(s: ShardConfig) -> Seq<(u32, u32)> {
    Seq::new(vnode_count_of(s), |v: int| (s.id, v as u32))
}

/// The virtual nodes of `shards`, shard by shard.
pub open spec fn vnodes_of(shards: Seq<ShardConfig>) -> Seq<(u32, u32)>
    decreases shards.len(),
{
    if shards.len() == 0 {
        Seq::empty()
    } else {
        vnodes_of(shards.drop_last()) + block_of(shards.last())
    }
}

pub open spec fn total_vnodes(shards: Seq<ShardConfig>) -> nat {
    vnodes_of(shards).len()
}

/// Position of the first shard with id `id`.
pub open spec fn index_of_id(shards: Seq<ShardConfig>, id: u32) -> int {
    crate::text::first_from(shards, |s: ShardConfig| s.id == id, 0)
}

pub open spec fn has_id(shards: Seq<ShardConfig>, id: u32) -> bool {
    exists|i: int| 0 <= i < shards.len() && (#[trigger] shards[i]).id == id
}

pub open spec fn available(shards: Seq<ShardConfig>, excluded: Set<u32>) -> bool {
    exists|i: int| 0 <= i < shards.len() && !excluded.contains((#[trigger] shards[i]).id)
}

proof fn lemma_block_nonempty(s: ShardConfig)
    ensures
        vnode_count_of(s) >= 1,
{
    let w: nat = if s.weight == 0 {
        1nat
    } else {
        s.weight as nat
    };
    let v: nat = if s.virtual_nodes == 0 {
        1nat
    } else {
        s.virtual_nodes as nat
    };
    assert(w * v >= 1) by (nonlinear_arith)
        requires
            w >= 1,
            v >= 1,
    ;
}

/// Each virtual node belongs to a listed shard; a non-empty shard list has nodes.
pub proof fn lemma_vnodes(shards: Seq<ShardConfig>)
    ensures
        forall|n: (u32, u32)| #[trigger] vnodes_of(shards).contains(n) ==> has_id(shards, n.0),
        (vnodes_of(shards).len() == 0) == (shards.len() == 0),
    decreases shards.len(),
{
    if shards.len() > 0 {
        let p = shards.drop_last();
        lemma_vnodes(p);
        lemma_block_nonempty(shards.last());
        assert forall|n: (u32, u32)| #[trigger] vnodes_of(shards).contains(n) implies has_id(
            shards,
            n.0,
        ) by {
            let k = choose|k: int| 0 <= k < vnodes_of(shards).len() && vnodes_of(shards)[k] == n;
            if k < vnodes_of(p).len() {
                assert(vnodes_of(p).contains(n));
                let j = choose|j: int| 0 <= j < p.len() && (#[trigger] p[j]).id == n.0;
                assert(shards[j] == p[j]);
            } else {
                assert(n.0 == shards.last().id);
                assert(shards[shards.len() - 1] == shards.last());
            }
        }
    }
}

/// The id of the first salted probe, from `attempt` to `last`, that lands on a node whose
/// shard is configured and not excluded.
pub open spec fn probe_pick(
    shards: Seq<ShardConfig>,
    nodes: Seq<(u32, u32)>,
    key: Seq<char>,
    excluded: Set<u32>,
    attempt: int,
    last: int,
) -> Option<u32>
    decreases last + 1 - attempt,
{
    if attempt < 1 || attempt > last || attempt > usize::MAX {
        None
    } else {
        let n = ring_probe(nodes, key, attempt as usize, usize::BITS);
        if !excluded.contains(n.0) && has_id(shards, n.0) {
            Some(n.0)
        } else {
            probe_pick(shards, nodes, key, excluded, attempt + 1, last)
        }
    }
}

/// `id` is the id of a configured shard that is not excluded, and no lower id is.
pub open spec fn is_min_free(shards: Seq<ShardConfig>, excluded: Set<u32>, id: u32) -> bool {
    &&& exists|i: int| 0 <= i < shards.len() && (#[trigger] shards[i]).id == id && !excluded.contains(id)
    &&& forall|j: int|
        0 <= j < shards.len() && !excluded.contains(#[trigger] shards[j].id) ==> id
            <= shards[j].id
}

/// The lowest id among the configured shards that are not excluded.
pub open spec fn min_free_id(shards: Seq<ShardConfig>, excluded: Set<u32>) -> u32 {
    choose|id: u32| #[trigger] is_min_free(shards, excluded, id)
}

/// Sequences with the same elements (counted) have the same length and members.
proof fn lemma_same_nodes(a: Seq<(u32, u32)>, b: Seq<(u32, u32)>)
    requires
        a.to_multiset() == b.to_multiset(),
    ensures
        a.len() == b.len(),
        forall|n: (u32, u32)| a.contains(n) <==> b.contains(n),
{
    a.to_multiset_ensures();
    b.to_multiset_ensures();
    assert forall|n: (u32, u32)| a.contains(n) <==> b.contains(n) by {
        assert(a.contains(n) <==> a.to_multiset().count(n) > 0);
        assert(b.contains(n) <==> b.to_multiset().count(n) > 0);
    }
}

proof fn lemma_vnodes_prefix(shards: Seq<ShardConfig>, i: int)
    requires
        0 <= i < shards.len(),
    ensures
        vnodes_of(shards.take(i + 1)) == vnodes_of(shards.take(i)) + block_of(shards[i]),
        vnodes_of(shards.take(i + 1)).len() <= vnodes_of(shards).len(),
    decreases shards.len() - i,
{
    assert(shards.take(i + 1).drop_last() =~= shards.take(i));
    if i + 1 < shards.len() {
        lemma_vnodes_prefix(shards, i + 1);
    } else {
        assert(shards.take(i + 1) =~= shards);
    }
}

fn effective_vnode_count(shard: &ShardConfig) -> (r: u32)
    ensures
        r == vnode_count_of(*shard),
{
    let w = if shard.weight == 0 {
        1
    } else {
        shard.weight
    };
    let v = if shard.virtual_nodes == 0 {
        1
    } else {
        shard.virtual_nodes
    };
    match w.checked_mul(v) {
        Some(p) => p,
        None => u32::MAX,
    }
}

/// `HashRing::clone`: a ring with the same nodes in the same order.
#[verifier::external_body]
fn ring_clone(ring: &HashRing<(u32, u32)>) -> (r: HashRing<(u32, u32)>)
    ensures
        ring_nodes(r) == ring_nodes(*ring),
{
    ring.clone()
}

/// Shard selector: consistent hashing over weighted virtual nodes.
#[derive(Debug)]
pub struct ShardRing {
    ring: HashRing<(u32, u32)>,
    shards: Vec<ShardConfig>,
}

impl View for ShardRing {
    type V = Seq<ShardConfig>;

    closed spec fn view(&self) -> Seq<ShardConfig> {
        self.shards@
    }
}

impl ShardRing {
    #[verifier::type_invariant]
    spec fn well_formed(self) -> bool {
        &&& ring_nodes(self.ring).to_multiset() == vnodes_of(self.shards@).to_multiset()
        &&& ring_nodes(self.ring) == ring_built(vnodes_of(self.shards@))
        &&& vnodes_of(self.shards@).len() < max_vnodes()
    }

    /// The ring's virtual nodes, in its own order.
    pub closed spec fn nodes(&self) -> Seq<(u32, u32)> {
        ring_nodes(self.ring)
    }

    /// The id of the shard that owns the ring position of `key`.
    pub open spec fn owner(&self, key: Seq<char>) -> u32 {
        ring_owner(self.nodes(), key).0
    }

    /// The shard id a lookup of `key` avoiding `excluded` picks: the owner when it is not
    /// excluded; else the first salted probe (attempts `1` to `max(vnode count, 1)`)
    /// landing on a usable shard; else the lowest usable id.
    pub open spec fn pick_id(&self, key: Seq<char>, excluded: Set<u32>) -> Option<u32> {
        if !available(self@, excluded) {
            None
        } else if !excluded.contains(self.owner(key)) {
            Some(self.owner(key))
        } else {
            let last = if total_vnodes(self@) > 1 {
                total_vnodes(self@) as int
            } else {
                1
            };
            match probe_pick(self@, self.nodes(), key, excluded, 1, last) {
                Some(id) => Some(id),
                None => Some(min_free_id(self@, excluded)),
            }
        }
    }

    /// Whether a ring over `shards` stays within the virtual-node limit.
    pub fn fits(shards: &[ShardConfig]) -> (r: bool)
        ensures
            r == (total_vnodes(shards@) < max_vnodes()),
    {
        let limit: u64 = (isize::MAX as u64) / 32;
        let mut total: u64 = 0;
        let mut i: usize = 0;
        while i < shards.len()
            invariant
                0 <= i <= shards.len(),
                limit == max_vnodes(),
                total == total_vnodes(shards@.take(i as int)),
                total < max_vnodes(),
            decreases shards.len() - i,
        {
            proof {
                lemma_vnodes_prefix(shards@, i as int);
            }
            let count = effective_vnode_count(&shards[i]);
            total = total + count as u64;
            i = i + 1;
            if total >= limit {
                proof {
                    lemma_vnodes_prefix(shards@, (i - 1) as int);
                }
                return false;
            }
        }
        assert(shards@.take(shards.len() as int) =~= shards@);
        true
    }

    /// Builds the ring: `max(weight,1) * max(virtual_nodes,1)` virtual nodes per shard,
    /// added shard by shard; the ring's order of nodes, and so every lookup, is a
    /// function of the shard list.
    pub fn from_shards(shards: Vec<ShardConfig>) -> (r: Self)
        requires
            total_vnodes(shards@) < max_vnodes(),
        ensures
            r@ == shards@,
            r.nodes() == ring_built(vnodes_of(shards@)),
    {
        let mut ring = ring_new();
        let mut i: usize = 0;
        assert(shards@.take(0) =~= Seq::<ShardConfig>::empty());
        while i < shards.len()
            invariant
                0 <= i <= shards.len(),
                total_vnodes(shards@) < max_vnodes(),
                ring_nodes(ring).to_multiset() == vnodes_of(shards@.take(i as int)).to_multiset(),
                ring_nodes(ring) == ring_built(vnodes_of(shards@.take(i as int))),
                keys_sorted(ring_nodes(ring)),
            decreases shards.len() - i,
        {
            let shard = &shards[i];
            let count = effective_vnode_count(shard);
            proof {
                lemma_vnodes_prefix(shards@, i as int);
            }
            let ghost base = vnodes_of(shards@.take(i as int));
            assert(base + block_of(shards@[i as int]).take(0) =~= base);
            let mut v: u32 = 0;
            while v < count
                invariant
                    0 <= v <= count,
                    count == vnode_count_of(shards@[i as int]),
                    *shard == shards@[i as int],
                    base.len() + count <= total_vnodes(shards@),
                    total_vnodes(shards@) < max_vnodes(),
                    ring_nodes(ring).to_multiset() == (base + block_of(shards@[i as int]).take(
                        v as int,
                    )).to_multiset(),
                    ring_nodes(ring) == ring_built(base + block_of(shards@[i as int]).take(v as int)),
                    keys_sorted(ring_nodes(ring)),
                decreases count - v,
            {
                let ghost before = base + block_of(shards@[i as int]).take(v as int);
                proof {
                    lemma_same_nodes(ring_nodes(ring), before);
                }
                ring_add(&mut ring, (shard.id, v));
                v = v + 1;
                assert(base + block_of(shards@[i as int]).take(v as int) =~= before.push(
                    (shard.id, (v - 1) as u32),
                ));
                assert(before.push((shard.id, (v - 1) as u32)).drop_last() =~= before);
            }
            assert(block_of(shards@[i as int]).take(count as int) =~= block_of(shards@[i as int]));
            i = i + 1;
        }
        assert(shards@.take(shards.len() as int) =~= shards@);
        ShardRing { ring, shards }
    }

    /// A copy of the ring.
    pub fn duplicate(&self) -> (r: Self)
        ensures
            r@ == self@,
            r.nodes() == self.nodes(),
    {
        proof {
            use_type_invariant(self);
        }
        let mut shards: Vec<ShardConfig> = Vec::new();
        let mut i: usize = 0;
        while i < self.shards.len()
            invariant
                0 <= i <= self.shards.len(),
                shards@ == self.shards@.take(i as int),
            decreases self.shards.len() - i,
        {
            shards.push(self.shards[i].copied());
            i = i + 1;
            assert(shards@ =~= self.shards@.take(i as int));
        }
        assert(self.shards@.take(self.shards.len() as int) =~= self.shards@);
        ShardRing { ring: ring_clone(&self.ring), shards }
    }

    pub fn shard_count(&self) -> (r: usize)
        ensures
            r == self@.len(),
    {
        self.shards.len()
    }

    pub fn shards(&self) -> (r: &[ShardConfig])
        ensures
            r@ == self@,
    {
        self.shards.as_slice()
    }

    /// Total number of virtual nodes.
    pub fn vnode_count(&self) -> (r: usize)
        ensures
            r == total_vnodes(self@),
    {
        proof {
            use_type_invariant(self);
        }
        let mut total: usize = 0;
        let mut i: usize = 0;
        while i < self.shards.len()
            invariant
                0 <= i <= self.shards.len(),
                total == vnodes_of(self.shards@.take(i as int)).len(),
                vnodes_of(self.shards@).len() < max_vnodes(),
            decreases self.shards.len() - i,
        {
            proof {
                lemma_vnodes_prefix(self.shards@, i as int);
            }
            let c = effective_vnode_count(&self.shards[i]);
            total = total + c as usize;
            i = i + 1;
        }
        assert(self.shards@.take(self.shards.len() as int) =~= self.shards@);
        total
    }

    /// The first shard with id `id`.
    pub fn shard_by_id(&self, id: u32) -> (r: Option<&ShardConfig>)
        ensures
            r is Some == has_id(self@, id),
            r matches Some(s) ==> s.id == id && 0 <= index_of_id(self@, id) < self@.len() && *s
                == self@[index_of_id(self@, id)],
    {
        proof {
            crate::text::lemma_first_from_bounds(self.shards@, |s: ShardConfig| s.id == id, 0);
        }
        let mut i: usize = 0;
        while i < self.shards.len()
            invariant
                0 <= i <= self.shards.len(),
                forall|j: int| 0 <= j < i ==> (#[trigger] self.shards@[j]).id != id,
                index_of_id(self.shards@, id) == crate::text::first_from(
                    self.shards@,
                    |s: ShardConfig| s.id == id,
                    i as int,
                ),
            decreases self.shards.len() - i,
        {
            if self.shards[i].id == id {
                return Some(&self.shards[i]);
            }
            i = i + 1;
        }
        None
    }

    /// The shard owning the ring position of `key`.
    pub fn shard_by_key(&self, key: &str) -> (r: Option<&ShardConfig>)
        ensures
            r is Some == (self@.len() > 0),
            r matches Some(s) ==> 0 <= index_of_id(self@, s.id) < self@.len() && *s == self@[index_of_id(
                self@,
                s.id,
            )],
            self@.len() > 0 ==> has_id(self@, self.owner(key@)) && r == Some(
                &self@[index_of_id(self@, self.owner(key@))],
            ),
            r matches Some(s) ==> s.id == self.owner(key@),
    {
        proof {
            use_type_invariant(self);
            lemma_vnodes(self.shards@);
            lemma_same_nodes(ring_nodes(self.ring), vnodes_of(self.shards@));
        }
        if self.shards.len() == 0 {
            return None;
        }
        match ring_get(&self.ring, key, None) {
            Some(vnode) => self.shard_by_id(vnode.0),
            None => None,
        }
    }

    /// The non-excluded shard with the lowest id (the first such if ids repeat).
    fn lowest_available(&self, excluded: &HashSet<u32>) -> (r: Option<&ShardConfig>)
        ensures
            r is Some == available(self@, excluded@),
            r matches Some(s) ==> self@.contains(*s) && !excluded@.contains(s.id),
            r matches Some(s) ==> forall|j: int|
                0 <= j < self@.len() && !excluded@.contains(#[trigger] self@[j].id) ==> s.id
                    <= self@[j].id,
            r matches Some(s) ==> s.id == min_free_id(self@, excluded@) && 0 <= index_of_id(
                self@,
                s.id,
            ) < self@.len() && *s == self@[index_of_id(self@, s.id)],
    {
        let mut best: Option<usize> = None;
        let mut i: usize = 0;
        while i < self.shards.len()
            invariant
                0 <= i <= self.shards.len(),
                best matches Some(b) ==> b < i && !excluded@.contains(self.shards@[b as int].id),
                best is None ==> forall|j: int|
                    0 <= j < i ==> excluded@.contains(#[trigger] self.shards@[j].id),
                best matches Some(b) ==> forall|j: int|
                    0 <= j < i && !excluded@.contains(#[trigger] self.shards@[j].id)
                        ==> self.shards@[b as int].id <= self.shards@[j].id,
                best matches Some(b) ==> forall|j: int|
                    0 <= j < b ==> (#[trigger] self.shards@[j]).id != self.shards@[b as int].id,
            decreases self.shards.len() - i,
        {
            let id = self.shards[i].id;
            if !excluded.contains(&id) {
                match best {
                    None => {
                        best = Some(i);
                    },
                    Some(b) => {
                        if id < self.shards[b].id {
                            best = Some(i);
                        }
                    },
                }
            }
            i = i + 1;
        }
        match best {
            Some(b) => {
                let ghost id = self.shards@[b as int].id;
                let ghost shards = self.shards@;
                proof {
                    assert(shards[b as int].id == id);
                    assert(is_min_free(shards, excluded@, id));
                    let c = min_free_id(shards, excluded@);
                    assert(is_min_free(shards, excluded@, c));
                    let k = choose|k: int|
                        0 <= k < shards.len() && (#[trigger] shards[k]).id == c
                            && !excluded@.contains(c);
                    assert(id <= shards[k].id);
                    assert(c <= shards[b as int].id);
                    crate::text::lemma_first_from_bounds(shards, |x: ShardConfig| x.id == id, 0);
                    let f = index_of_id(shards, id);
                    if f < b {
                        assert(shards[f].id == id);
                    }
                }
                Some(&self.shards[b])
            },
            None => None,
        }
    }

    /// Consistent-hash lookup skipping shards whose id is in `excluded`.
    ///
    /// When the primary shard is excluded, this walks the ring deterministically using
    /// salted probes to land on the next available shard, then falls back to the lowest
    /// non-excluded shard id.
    pub fn shard_by_key_filtered(&self, key: &str, excluded: &HashSet<u32>) -> (r: Option<
        &ShardConfig,
    >)
        ensures
            r is Some == available(self@, excluded@),
            r matches Some(s) ==> self@.contains(*s) && !excluded@.contains(s.id),
            self@.len() > 0 && !excluded@.contains(self.owner(key@)) ==> r == Some(
                &self@[index_of_id(self@, self.owner(key@))],
            ),
            r == (match self.pick_id(key@, excluded@) {
                Some(id) => Some(&self@[index_of_id(self@, id)]),
                None => None,
            }),
    {
        proof {
            use_type_invariant(self);
            lemma_vnodes(self.shards@);
            lemma_same_nodes(ring_nodes(self.ring), vnodes_of(self.shards@));
        }
        if self.shards.len() == 0 {
            return None;
        }
        if let Some(shard) = self.shard_by_key(key) {
            if !excluded.contains(&shard.id) {
                assert(self@.contains(*shard)) by {
                    assert(self@[index_of_id(self@, shard.id)] == *shard);
                }
                assert(!excluded@.contains(self@[index_of_id(self@, shard.id)].id));
                return Some(shard);
            }
        }
        let count = self.vnode_count();
        let max_probes = if count > 1 {
            count
        } else {
            1
        };
        let ghost last: int = max_probes as int;
        let mut attempt: usize = 1;
        while attempt <= max_probes
            invariant
                1 <= attempt <= max_probes + 1,
                max_probes as int == last,
                last < max_vnodes(),
                last == (if total_vnodes(self@) > 1 {
                    total_vnodes(self@) as int
                } else {
                    1
                }),
                self@.len() > 0,
                ring_nodes(self.ring).len() > 0,
                excluded@.contains(self.owner(key@)),
                probe_pick(self@, self.nodes(), key@, excluded@, 1, last) == probe_pick(
                    self@,
                    self.nodes(),
                    key@,
                    excluded@,
                    attempt as int,
                    last,
                ),
                forall|n: (u32, u32)|
                    #[trigger] ring_nodes(self.ring).contains(n) ==> vnodes_of(
                        self.shards@,
                    ).contains(n),
                forall|n: (u32, u32)|
                    #[trigger] vnodes_of(self.shards@).contains(n) ==> has_id(self.shards@, n.0),
            decreases max_probes + 1 - attempt,
        {
            if let Some(vnode) = ring_get(&self.ring, key, Some(attempt)) {
                if !excluded.contains(&vnode.0) {
                    if let Some(shard) = self.shard_by_id(vnode.0) {
                        assert(self@.contains(*shard)) by {
                            assert(self@[index_of_id(self@, vnode.0)] == *shard);
                        }
                        assert(!excluded@.contains(self@[index_of_id(self@, vnode.0)].id));
                        assert(vnode == ring_probe(self.nodes(), key@, attempt, usize::BITS));
                        assert(probe_pick(self@, self.nodes(), key@, excluded@, attempt as int, last)
                            == Some(vnode.0));
                        assert(available(self@, excluded@)) by {
                            let k = index_of_id(self@, vnode.0);
                            assert(!excluded@.contains(self@[k].id));
                        }
                        assert(self.pick_id(key@, excluded@) == Some(vnode.0));
                        return Some(shard);
                    }
                }
            }
            attempt = attempt + 1;
        }
        self.lowest_available(excluded)
    }
}

/// Two rings built from the same shard list hold their nodes in the same order, so
/// they give every key the same owner and pick the same shard for it under any set of
/// exclusions.
pub proof fn law_rebuilt_ring_routes_alike(
    a: ShardRing,
    b: ShardRing,
    key: Seq<char>,
    excluded: Set<u32>,
)
    requires
        a@ == b@,
        a.nodes() == ring_built(vnodes_of(a@)),
        b.nodes() == ring_built(vnodes_of(b@)),
    ensures
        a.nodes() == b.nodes(),
        a.owner(key) == b.owner(key),
        a.pick_id(key, excluded) == b.pick_id(key, excluded),
{
}

} // verus!
