//! Which catalog objects have been ingested, keyed by bucket and object key.
use vstd::prelude::*;

use crate::ingest::events::opt_text;
use crate::text::{append, push_char, str_eq};

verus! {

/// A UTC instant: seconds since the Unix epoch and the nanoseconds within that second.
#[derive(Debug, Clone, Copy, PartialEq, Eq, Structural)]
pub struct Timestamp {
    pub secs: i64,
    pub nanos: u32,
}

/// An object in the store.
#[derive(Debug, Clone, PartialEq, Eq, Hash)]
pub struct ObjectKey {
    pub bucket: String,
    pub key: String,
}

/// The checkpoint key of an object: bucket, a NUL character, key.
pub open spec fn encoded(bucket: Seq<char>, key: Seq<char>) -> Seq<char> {
    bucket + seq!['\0'] + key
}

impl ObjectKey {
    pub fn encode(bucket: &str, key: &str) -> (r: String)
        ensures
            r@ == encoded(bucket@, key@),
    {
        let mut s = String::from_str(bucket);
        push_char(&mut s, '\0');
        append(&mut s, key);
        s
    }
}

/// What is recorded of an ingested object.
#[derive(Debug)]
pub struct ProcessedMeta {
    pub etag: Option<String>,
    pub processed_at: Timestamp,
    pub rows: u64,
}

pub struct MetaView {
    pub etag: Option<Seq<char>>,
    pub processed_at: Timestamp,
    pub rows: u64,
}

impl View for ProcessedMeta {
    type V = MetaView;

    open spec fn view(&self) -> MetaView {
        MetaView { etag: opt_text(self.etag), processed_at: self.processed_at, rows: self.rows }
    }
}

/// The map that a list of entries stands for: a later entry for a key replaces an
/// earlier one.
pub open spec fn entries_map(s: Seq<(String, ProcessedMeta)>) -> Map<Seq<char>, MetaView>
    decreases s.len(),
{
    if s.len() == 0 {
        Map::empty()
    } else {
        entries_map(s.drop_last()).insert(s.last().0@, s.last().1@)
    }
}

/// Position of the last entry for `k`.
pub open spec fn last_entry(s: Seq<(String, ProcessedMeta)>, k: Seq<char>) -> Option<int>
    decreases s.len(),
{
    if s.len() == 0 {
        None
    } else if s.last().0@ == k {
        Some(s.len() - 1)
    } else {
        last_entry(s.drop_last(), k)
    }
}

proof fn lemma_entries_lookup(s: Seq<(String, ProcessedMeta)>, k: Seq<char>)
    ensures
        last_entry(s, k) matches Some(i) ==> 0 <= i < s.len() && s[i].0@ == k && entries_map(
            s,
        ).contains_key(k) && entries_map(s)[k] == s[i].1@,
        last_entry(s, k) is None ==> !entries_map(s).contains_key(k),
    decreases s.len(),
{
    if s.len() > 0 && s.last().0@ != k {
        lemma_entries_lookup(s.drop_last(), k);
        if let Some(i) = last_entry(s, k) {
            assert(s.drop_last()[i] == s[i]);
        }
    }
}

proof fn lemma_entries_update(
    s: Seq<(String, ProcessedMeta)>,
    i: int,
    e: (String, ProcessedMeta),
)
    requires
        last_entry(s, e.0@) == Some(i),
    ensures
        entries_map(s.update(i, e)) == entries_map(s).insert(e.0@, e.1@),
    decreases s.len(),
{
    lemma_entries_lookup(s, e.0@);
    let t = s.update(i, e);
    if s.last().0@ == e.0@ {
        assert(i == s.len() - 1);
        assert(t.drop_last() =~= s.drop_last());
        assert(t.last() == e);
        assert(entries_map(t) =~= entries_map(s).insert(e.0@, e.1@));
    } else {
        assert(last_entry(s.drop_last(), e.0@) == Some(i));
        lemma_entries_update(s.drop_last(), i, e);
        lemma_entries_lookup(s.drop_last(), e.0@);
        assert(t.drop_last() =~= s.drop_last().update(i, e));
        assert(t.last() == s.last());
        assert(entries_map(t) =~= entries_map(s).insert(e.0@, e.1@));
    }
}

/// Ingested objects, with the metadata of their last ingest.
#[derive(Debug)]
pub struct CheckpointStore {
    entries: Vec<(String, ProcessedMeta)>,
}

impl View for CheckpointStore {
    type V = Map<Seq<char>, MetaView>;

    closed spec fn view(&self) -> Map<Seq<char>, MetaView> {
        entries_map(self.entries@)
    }
}

/// Whether an object is (re)ingested: unless it was ingested under the same etag.
pub open spec fn should_process_spec(
    store: Map<Seq<char>, MetaView>,
    bucket: Seq<char>,
    key: Seq<char>,
    etag: Option<Seq<char>>,
) -> bool {
    let k = encoded(bucket, key);
    if !store.contains_key(k) {
        true
    } else {
        match (store[k].etag, etag) {
            (Some(stored), Some(current)) => stored != current,
            _ => true,
        }
    }
}

impl CheckpointStore {
    pub fn new() -> (r: Self)
        ensures
            r@ == Map::<Seq<char>, MetaView>::empty(),
    {
        CheckpointStore { entries: Vec::new() }
    }

    /// A store holding `entries`; a later entry for a key replaces an earlier one.
    pub fn from_entries(entries: Vec<(String, ProcessedMeta)>) -> (r: Self)
        ensures
            r@ == entries_map(entries@),
    {
        CheckpointStore { entries }
    }

    /// The stored entries, one per object.
    pub fn entries(&self) -> (r: &Vec<(String, ProcessedMeta)>)
        ensures
            entries_map(r@) == self@,
    {
        &self.entries
    }

    fn position(&self, k: &str) -> (r: Option<usize>)
        ensures
            r matches Some(i) ==> last_entry(self.entries@, k@) == Some(i as int),
            r is None ==> last_entry(self.entries@, k@) is None,
    {
        let mut i = self.entries.len();
        assert(self.entries@.take(i as int) =~= self.entries@);
        while i > 0
            invariant
                i <= self.entries@.len(),
                last_entry(self.entries@, k@) == last_entry(self.entries@.take(i as int), k@),
            decreases i,
        {
            assert(self.entries@.take(i as int).drop_last() =~= self.entries@.take(i - 1));
            if str_eq(self.entries[i - 1].0.as_str(), k) {
                return Some(i - 1);
            }
            i = i - 1;
        }
        None
    }

    fn get(&self, k: &str) -> (r: Option<&ProcessedMeta>)
        ensures
            r matches Some(m) ==> self@.contains_key(k@) && self@[k@] == m@,
            r is None ==> !self@.contains_key(k@),
    {
        proof {
            lemma_entries_lookup(self.entries@, k@);
        }
        match self.position(k) {
            Some(i) => Some(&self.entries[i].1),
            None => None,
        }
    }

    /// Records `meta` for the key `k`.
    pub fn insert(&mut self, k: String, meta: ProcessedMeta)
        ensures
            final(self)@ == old(self)@.insert(k@, meta@),
    {
        proof {
            lemma_entries_lookup(self.entries@, k@);
        }
        match self.position(k.as_str()) {
            Some(i) => {
                proof {
                    lemma_entries_update(self.entries@, i as int, (k, meta));
                }
                self.entries.set(i, (k, meta));
            },
            None => {
                let ghost before = self.entries@;
                self.entries.push((k, meta));
                assert(self.entries@.drop_last() =~= before);
            },
        }
    }

    /// Whether the object is to be ingested: unless it was already ingested with the
    /// same etag (an unknown etag on either side always re-ingests).
    pub fn should_process(&self, bucket: &str, key: &str, etag: Option<&str>) -> (r: bool)
        ensures
            r == should_process_spec(
                self@,
                bucket@,
                key@,
                match etag {
                    Some(e) => Some(e@),
                    None => None,
                },
            ),
    {
        let object = ObjectKey::encode(bucket, key);
        match self.get(object.as_str()) {
            None => true,
            Some(meta) => match (&meta.etag, etag) {
                (Some(stored), Some(current)) => !str_eq(stored.as_str(), current),
                _ => true,
            },
        }
    }

    /// Records that the object was ingested at `at`, with `rows` rows.
    pub fn mark_processed(
        &mut self,
        bucket: &str,
        key: &str,
        etag: Option<String>,
        rows: u64,
        at: Timestamp,
    )
        ensures
            final(self)@ == old(self)@.insert(
                encoded(bucket@, key@),
                MetaView { etag: opt_text(etag), processed_at: at, rows },
            ),
    {
        let k = ObjectKey::encode(bucket, key);
        let meta = ProcessedMeta { etag, processed_at: at, rows };
        self.insert(k, meta);
    }

    /// Whether the object was ingested.
    pub fn contains(&self, bucket: &str, key: &str) -> (r: bool)
        ensures
            r == self@.contains_key(encoded(bucket@, key@)),
    {
        let k = ObjectKey::encode(bucket, key);
        self.get(k.as_str()).is_some()
    }
}

/// An object recorded as ingested under an etag is not ingested again under that etag,
/// is ingested again under any other etag, and counts as held by the store.
pub proof fn law_recorded_object_skipped(
    store: Map<Seq<char>, MetaView>,
    bucket: Seq<char>,
    key: Seq<char>,
    etag: Seq<char>,
    other: Seq<char>,
    at: Timestamp,
    rows: u64,
)
    requires
        other != etag,
    ensures
        ({
            let after = store.insert(
                encoded(bucket, key),
                MetaView { etag: Some(etag), processed_at: at, rows },
            );
            &&& !should_process_spec(after, bucket, key, Some(etag))
            &&& should_process_spec(after, bucket, key, Some(other))
            &&& should_process_spec(after, bucket, key, None)
            &&& after.contains_key(encoded(bucket, key))
        }),
{
}

} // verus!
