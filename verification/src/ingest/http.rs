//! The ingest webhook: which notified objects are queued.
use vstd::prelude::*;

use crate::ingest::actor::{IngestSource, ProcessObject};
use crate::ingest::events::{matches_prefix, prefix_matches, refs_view, ObjectRef, ObjectRefView};

verus! {

/// The objects under `prefix`, in order.
pub open spec fn under_prefix(refs: Seq<ObjectRefView>, prefix: Seq<char>) -> Seq<ObjectRefView>
    decreases refs.len(),
{
    if refs.len() == 0 {
        Seq::empty()
    } else {
        let pre = under_prefix(refs.drop_last(), prefix);
        if prefix_matches(refs.last().key, prefix) {
            pre.push(refs.last())
        } else {
            pre
        }
    }
}

/// The ingest requests for the notified objects under `prefix`, in order.
pub fn webhook_requests(refs: Vec<ObjectRef>, prefix: &str) -> (r: Vec<ProcessObject>)
    ensures
        r@.len() == under_prefix(refs_view(refs@), prefix@).len(),
        forall|i: int|
            0 <= i < r@.len() ==> {
                let o = #[trigger] under_prefix(refs_view(refs@), prefix@)[i];
                &&& r@[i].bucket@ == o.bucket
                &&& r@[i].key@ == o.key
                &&& crate::ingest::events::opt_text(r@[i].etag) == o.etag
                &&& r@[i].source == IngestSource::Webhook
            },
{
    let ghost all = refs_view(refs@);
    let mut out: Vec<ProcessObject> = Vec::new();
    let n = refs.len();
    let items = refs;
    let mut idx: usize = 0;
    while idx < n
        invariant
            0 <= idx <= n,
            n == all.len(),
            items@.len() == n,
            refs_view(items@) == all,
            out@.len() == under_prefix(all.take(idx as int), prefix@).len(),
            forall|i: int|
                0 <= i < out@.len() ==> {
                    let o = #[trigger] under_prefix(all.take(idx as int), prefix@)[i];
                    &&& out@[i].bucket@ == o.bucket
                    &&& out@[i].key@ == o.key
                    &&& crate::ingest::events::opt_text(out@[i].etag) == o.etag
                    &&& out@[i].source == IngestSource::Webhook
                },
        decreases n - idx,
    {
        let ghost before = out@;
        assert(all.take(idx + 1).drop_last() =~= all.take(idx as int));
        assert(all[idx as int] == items@[idx as int]@);
        let o = &items[idx];
        if matches_prefix(o.key.as_str(), prefix) {
            out.push(
                ProcessObject {
                    bucket: o.bucket.clone(),
                    key: o.key.clone(),
                    etag: match &o.etag {
                        Some(e) => Some(e.clone()),
                        None => None,
                    },
                    source: IngestSource::Webhook,
                },
            );
            assert forall|i: int| 0 <= i < out@.len() - 1 implies out@[i] == before[i] by {}
        }
        idx = idx + 1;
    }
    assert(all.take(idx as int) =~= all);
    out
}

} // verus!
