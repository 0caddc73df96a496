//! ILP forwarding decisions: which shard a line goes to and when a shard buffer is
//! written out.
use vstd::prelude::*;

use crate::config::ShardConfig;
use crate::metadata::snapshot::{shard_result_view, ClusterSnapshot, Protocol};
use crate::routing::error::RoutingError;
use crate::routing::keys::{line_end, measurement_from_ilp_bytes, measurement_of, shard_key_from_ilp, shard_key_of};
use crate::routing::schema::TableRegistry;
use crate::scan::find_byte;
use crate::text::lower_seq;

verus! {

/// A shard's write buffer is written out once it holds at least this many bytes.
pub const SHARD_BUF_FLUSH_BYTES: usize = 262144;

/// The tag that holds the shard key of a line's measurement: the table's own shard
/// key, else the default one (an unreadable measurement counts as the empty name).
pub open spec fn ilp_tag(registry: &TableRegistry, line: Seq<u8>, default_key: Seq<char>) -> Seq<
    char,
> {
    let m = match measurement_of(line) {
        Some(m) => m,
        None => Seq::empty(),
    };
    match registry@.get(lower_seq(m)) {
        Some(t) => match t.shard_key {
            Some(k) => k,
            None => default_key,
        },
        None => default_key,
    }
}

/// Where an ILP line goes: nothing for an empty line, else the routing of its shard key
/// for ILP.
pub fn route_line(snap: &ClusterSnapshot, default_shard_key: &str, line: &[u8]) -> (r: Option<
    Result<ShardConfig, RoutingError>,
>)
    ensures
        r is None <==> line_end(line@) == 0,
        r matches Some(x) ==> snap.key_routing(
            shard_key_of(line@, ilp_tag(&snap.table_registry, line@, default_shard_key@)),
            Protocol::Ilp,
            shard_result_view(x),
        ),
{
    let content_len = find_byte(10u8, line, 0, line.len());
    if content_len == 0 {
        return None;
    }
    let measurement = match measurement_from_ilp_bytes(line) {
        Some(m) => m,
        None => {
            proof {
                reveal_strlit("");
            }
            ""
        },
    };
    let tag_name = snap.table_registry().shard_key_for(measurement, default_shard_key);
    assert(measurement@ == (match measurement_of(line@) {
        Some(m) => m,
        None => Seq::<char>::empty(),
    }));
    assert(tag_name@ == ilp_tag(&snap.table_registry, line@, default_shard_key@));
    let key = shard_key_from_ilp(line, tag_name.as_str());
    assert(key@ == shard_key_of(line@, ilp_tag(&snap.table_registry, line@, default_shard_key@)));
    Some(snap.shard_for_key(key.as_str(), Protocol::Ilp))
}

/// Appends `line` to a shard buffer, with a newline when it has none at its end;
/// answers whether the buffer is now due to be written out.
pub fn buffer_line(buf: &mut Vec<u8>, line: &[u8]) -> (flush: bool)
    requires
        old(buf)@.len() + line@.len() + 1 <= usize::MAX,
    ensures
        final(buf)@ == (if line@.len() > 0 && line@.last() == 10u8 {
            old(buf)@ + line@
        } else {
            old(buf)@ + line@ + seq![10u8]
        }),
        flush == (final(buf)@.len() >= SHARD_BUF_FLUSH_BYTES),
{
    let ghost start = buf@;
    let mut i: usize = 0;
    while i < line.len()
        invariant
            0 <= i <= line@.len(),
            buf@ == start + line@.subrange(0, i as int),
        decreases line.len() - i,
    {
        buf.push(line[i]);
        i = i + 1;
        assert(buf@ =~= start + line@.subrange(0, i as int));
    }
    assert(line@.subrange(0, line@.len() as int) =~= line@);
    if line.len() == 0 || line[line.len() - 1] != 10u8 {
        buf.push(10u8);
    }
    buf.len() >= SHARD_BUF_FLUSH_BYTES
}

} // verus!
