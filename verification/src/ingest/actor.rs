//! The ingest actor's messages and its per-object decisions.
use vstd::prelude::*;

use crate::ingest::checkpoint::{should_process_spec, CheckpointStore};
use crate::ingest::events::{ingestible, matches_prefix, prefix_matches, should_ingest_key};

verus! {

/// Where an ingest request came from.
#[derive(Debug, Clone, Copy, PartialEq, Eq, Structural)]
pub enum IngestSource {
    Webhook,
    Reconcile,
}

/// A request to ingest one object.
#[derive(Debug, Clone)]
pub struct ProcessObject {
    pub bucket: String,
    pub key: String,
    pub etag: Option<String>,
    pub source: IngestSource,
}

/// A message of the ingest actor's mailbox.
#[derive(Debug)]
pub enum IngestMessage {
    ProcessObject(ProcessObject),
}

/// The ingest actor.
pub struct IngestActor;

/// Attempts made to fetch, decode and forward one object.
pub const MAX_ATTEMPTS: u32 = 3;

/// What the actor does with a requested object.
#[derive(Debug, Clone, Copy, PartialEq, Eq, Structural)]
pub enum IngestStep {
    /// Not a Feather/Arrow object under the configured prefix: dropped silently.
    Ignore,
    /// Already ingested under the same etag.
    AlreadyProcessed,
    Process,
}

/// The step for `object`: ignored unless ingestible and under `prefix`, skipped when
/// the checkpoint holds it with the same etag, else processed.
pub open spec fn step_of(
    key: Seq<char>,
    bucket: Seq<char>,
    etag: Option<Seq<char>>,
    prefix: Seq<char>,
    store: Map<Seq<char>, crate::ingest::checkpoint::MetaView>,
) -> IngestStep {
    if !ingestible(key) || !prefix_matches(key, prefix) {
        IngestStep::Ignore
    } else if !should_process_spec(store, bucket, key, etag) {
        IngestStep::AlreadyProcessed
    } else {
        IngestStep::Process
    }
}

impl IngestActor {
    pub fn step(object: &ProcessObject, prefix: &str, checkpoint: &CheckpointStore) -> (r:
        IngestStep)
        ensures
            r == step_of(
                object.key@,
                object.bucket@,
                crate::ingest::events::opt_text(object.etag),
                prefix@,
                checkpoint@,
            ),
    {
        if !should_ingest_key(object.key.as_str()) {
            return IngestStep::Ignore;
        }
        if !matches_prefix(object.key.as_str(), prefix) {
            return IngestStep::Ignore;
        }
        let etag: Option<&str> = match &object.etag {
            Some(e) => Some(e.as_str()),
            None => None,
        };
        if !checkpoint.should_process(object.bucket.as_str(), object.key.as_str(), etag) {
            return IngestStep::AlreadyProcessed;
        }
        IngestStep::Process
    }

    /// Pause before attempt `attempt` (counted from 0): none before the first, then
    /// 100 ms times 2 to the power of the attempt.
    pub fn retry_delay_ms(attempt: u32) -> (r: Option<u64>)
        requires
            attempt < MAX_ATTEMPTS,
        ensures
            attempt == 0 ==> r is None,
            attempt == 1 ==> r == Some(200u64),
            attempt == 2 ==> r == Some(400u64),
    {
        if attempt == 0 {
            None
        } else {
            let mut factor: u64 = 1;
            let mut i: u32 = 0;
            while i < attempt
                invariant
                    i <= attempt < MAX_ATTEMPTS,
                    factor == (if i == 0 {
                        1u64
                    } else if i == 1 {
                        2u64
                    } else {
                        4u64
                    }),
                decreases attempt - i,
            {
                factor = factor * 2;
                i = i + 1;
            }
            Some(100 * factor)
        }
    }
}

/// Messages waiting in a mailbox of `capacity` slots of which `free` are free.
pub fn mailbox_depth(capacity: usize, free: usize) -> (r: usize)
    ensures
        r == (if capacity >= free {
            capacity - free
        } else {
            0
        }),
{
    capacity.saturating_sub(free)
}

} // verus!
