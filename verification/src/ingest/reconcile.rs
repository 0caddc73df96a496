//! Periodic reconciliation: listed objects that the checkpoint does not hold.
use vstd::prelude::*;

use crate::ingest::actor::{IngestSource, ProcessObject};
use crate::ingest::checkpoint::{encoded, CheckpointStore, MetaView};
use crate::ingest::events::opt_text;

verus! {

/// Seconds between scans: the configured interval, at least one.
pub fn scan_interval_secs(interval_secs: u64) -> (r: u64)
    ensures
        r == (if interval_secs >= 1 {
            interval_secs
        } else {
            1
        }),
{
    if interval_secs >= 1 {
        interval_secs
    } else {
        1
    }
}

/// The listed objects (key and etag) that the checkpoint does not hold, in order.
pub open spec fn missing_spec(
    store: Map<Seq<char>, MetaView>,
    bucket: Seq<char>,
    listed: Seq<(String, Option<String>)>,
) -> Seq<(Seq<char>, Option<Seq<char>>)>
    decreases listed.len(),
{
    if listed.len() == 0 {
        Seq::empty()
    } else {
        let pre = missing_spec(store, bucket, listed.drop_last());
        let (k, e) = listed.last();
        if store.contains_key(encoded(bucket, k@)) {
            pre
        } else {
            pre.push((k@, opt_text(e)))
        }
    }
}

/// `o` requests the object `m` (key and etag) of `bucket`, from `source`.
pub open spec fn requests(o: ProcessObject, bucket: Seq<char>, m: (Seq<char>, Option<Seq<char>>), source: IngestSource) -> bool {
    o.bucket@ == bucket && o.key@ == m.0 && opt_text(o.etag) == m.1 && o.source == source
}

/// The listed objects (key and etag) of `bucket` that the checkpoint does not hold, in
/// listing order, as ingest requests from `source`.
pub fn missing_objects(
    checkpoint: &CheckpointStore,
    bucket: &str,
    listed: &[(String, Option<String>)],
    source: IngestSource,
) -> (r: Vec<ProcessObject>)
    ensures
        r@.len() == missing_spec(checkpoint@, bucket@, listed@).len(),
        forall|i: int|
            0 <= i < r@.len() ==> #[trigger] requests(
                r@[i],
                bucket@,
                missing_spec(checkpoint@, bucket@, listed@)[i],
                source,
            ),
{
    let mut out: Vec<ProcessObject> = Vec::new();
    let mut j: usize = 0;
    while j < listed.len()
        invariant
            0 <= j <= listed@.len(),
            out@.len() == missing_spec(checkpoint@, bucket@, listed@.take(j as int)).len(),
            forall|i: int|
                0 <= i < out@.len() ==> #[trigger] requests(
                    out@[i],
                    bucket@,
                    missing_spec(checkpoint@, bucket@, listed@.take(j as int))[i],
                    source,
                ),
        decreases listed.len() - j,
    {
        let ghost prev = missing_spec(checkpoint@, bucket@, listed@.take(j as int));
        let ghost next_in = listed@.take(j + 1);
        assert(next_in.drop_last() =~= listed@.take(j as int));
        assert(next_in.last() == listed@[j as int]);
        let ghost next = missing_spec(checkpoint@, bucket@, next_in);
        let ghost before = out@;
        let (key, etag) = &listed[j];
        if !checkpoint.contains(bucket, key.as_str()) {
            let etag_copy = match etag {
                Some(e) => Some(e.clone()),
                None => None,
            };
            out.push(
                ProcessObject {
                    bucket: String::from_str(bucket),
                    key: key.clone(),
                    etag: etag_copy,
                    source,
                },
            );
            assert(next == prev.push((key@, opt_text(*etag))));
            assert forall|i: int| 0 <= i < out@.len() implies #[trigger] requests(
                out@[i],
                bucket@,
                next[i],
                source,
            ) by {
                if i < before.len() {
                    assert(out@[i] == before[i]);
                    assert(next[i] == prev[i]);
                    assert(requests(before[i], bucket@, prev[i], source));
                } else {
                    assert(out@[i].key@ =~= key@);
                }
            }
        } else {
            assert(next == prev);
        }
        j = j + 1;
    }
    assert(listed@.take(j as int) =~= listed@);
    out
}

} // verus!
