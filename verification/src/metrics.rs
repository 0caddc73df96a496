//! Label values of the router's metrics.
use vstd::prelude::*;

use crate::ingest::actor::IngestSource;
use crate::text::{decimal, u64_to_string};

verus! {

/// The `shard` label of a request: the shard id, or `unknown`.
pub fn shard_label(shard_id: Option<u32>) -> (r: String)
    ensures
        r@ == (match shard_id {
            Some(id) => decimal(id as nat),
            None => "unknown"@,
        }),
{
    match shard_id {
        Some(id) => u64_to_string(id as u64),
        None => String::from_str("unknown"),
    }
}

/// The `source` label of an ingest event.
pub fn ingest_source_label(source: IngestSource) -> (r: String)
    ensures
        r@ == (match source {
            IngestSource::Webhook => "webhook"@,
            IngestSource::Reconcile => "reconcile"@,
        }),
{
    match source {
        IngestSource::Webhook => String::from_str("webhook"),
        IngestSource::Reconcile => String::from_str("reconcile"),
    }
}

} // verus!
