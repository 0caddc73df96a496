//! Object-created notifications (RustFS / AWS S3 shapes) and which objects they name.
use vstd::prelude::*;

use crate::text::{
    chars_of, contains, ends_with, find, find_vec, lower_seq, replace_all, replace_str,
    starts_with, starts_with_str, string_of, to_lower, ends_with_str,
};

verus! {

/// An object named by a notification.
#[derive(Debug, Clone, PartialEq, Eq)]
pub struct ObjectRef {
    pub bucket: String,
    pub key: String,
    pub etag: Option<String>,
    pub event_name: String,
}

/// The fields of a notification that ingest reads: either `Records`, or a top-level
/// event name and key.
#[derive(Debug, Clone)]
pub struct Notification {
    pub records: Vec<NotificationRecord>,
    pub event_name: Option<String>,
    pub key: Option<String>,
}

/// One record of a notification.
#[derive(Debug, Clone)]
pub struct NotificationRecord {
    pub event_name: Option<String>,
    pub s3: Option<S3Entity>,
}

/// Bucket and object of a record; absent names read as empty.
#[derive(Debug, Clone)]
pub struct S3Entity {
    pub bucket_name: String,
    pub object_key: String,
    pub etag: Option<String>,
}

pub struct ObjectRefView {
    pub bucket: Seq<char>,
    pub key: Seq<char>,
    pub etag: Option<Seq<char>>,
    pub event_name: Seq<char>,
}

pub open spec fn opt_text(o: Option<String>) -> Option<Seq<char>> {
    match o {
        Some(s) => Some(s@),
        None => None,
    }
}

impl View for ObjectRef {
    type V = ObjectRefView;

    open spec fn view(&self) -> ObjectRefView {
        ObjectRefView {
            bucket: self.bucket@,
            key: self.key@,
            etag: opt_text(self.etag),
            event_name: self.event_name@,
        }
    }
}

pub open spec fn refs_view(v: Seq<ObjectRef>) -> Seq<ObjectRefView> {
    Seq::new(v.len(), |i: int| v[i]@)
}

// ---------------------------------------------------------------------------
// Specification
// ---------------------------------------------------------------------------
/// Whether an object key names a complete Feather/Arrow file: not a directory, an
/// `.feather` or `.arrow` suffix in any ASCII case, and no upload-in-progress suffix.
pub open spec fn ingestible(key: Seq<char>) -> bool {
    let lower = lower_seq(key);
    &&& !ends_with(key, "/"@)
    &&& (ends_with(lower, ".feather"@) || ends_with(lower, ".arrow"@))
    &&& !(ends_with(lower, ".part"@) || ends_with(lower, ".tmp"@))
}

pub open spec fn prefix_matches(key: Seq<char>, prefix: Seq<char>) -> bool {
    prefix.len() == 0 || starts_with(key, prefix)
}

/// URL-decoding of the two escapes notifications use for spaces.
pub open spec fn decoded_key(key: Seq<char>) -> Seq<char> {
    replace_all(replace_all(key, "%20"@, " "@), "+"@, " "@)
}

/// `full` split at its first `/` into bucket and key.
pub open spec fn bucket_key_split(full: Seq<char>) -> Option<(Seq<char>, Seq<char>)> {
    match find(full, "/"@) {
        Some(i) => Some((full.subrange(0, i), full.subrange(i + 1, full.len() as int))),
        None => None,
    }
}

/// The object of a created-object event: the bucket comes from the key's first path
/// segment when no bucket is known; other events, a missing bucket, or a key that is
/// not ingestible give none.
pub open spec fn normalized(
    event_name: Seq<char>,
    bucket: Seq<char>,
    key_or_full: Seq<char>,
    etag: Option<Seq<char>>,
) -> Option<ObjectRefView> {
    if !starts_with(event_name, "s3:ObjectCreated:"@) {
        None
    } else {
        let split: Option<(Seq<char>, Seq<char>)> = if contains(key_or_full, "/"@) && bucket.len()
            == 0 {
            bucket_key_split(key_or_full)
        } else if bucket.len() == 0 {
            None
        } else {
            Some((bucket, key_or_full))
        };
        match split {
            Some((b, k)) => if ingestible(k) {
                Some(ObjectRefView { bucket: b, key: k, etag, event_name })
            } else {
                None
            },
            None => None,
        }
    }
}

pub open spec fn opt_ref_seq(o: Option<ObjectRefView>) -> Seq<ObjectRefView> {
    match o {
        Some(r) => seq![r],
        None => Seq::empty(),
    }
}

/// The objects of one record: its bucket (or the default one), its decoded key.
pub open spec fn record_refs(r: NotificationRecord, default_bucket: Seq<char>) -> Seq<
    ObjectRefView,
> {
    match r.s3 {
        Some(s3) => {
            let event = match r.event_name {
                Some(e) => e@,
                None => Seq::empty(),
            };
            let bucket = if s3.bucket_name@.len() == 0 {
                default_bucket
            } else {
                s3.bucket_name@
            };
            opt_ref_seq(normalized(event, bucket, decoded_key(s3.object_key@), opt_text(s3.etag)))
        },
        None => Seq::empty(),
    }
}

pub open spec fn records_refs(rs: Seq<NotificationRecord>, default_bucket: Seq<char>) -> Seq<
    ObjectRefView,
>
    decreases rs.len(),
{
    if rs.len() == 0 {
        Seq::empty()
    } else {
        records_refs(rs.drop_last(), default_bucket) + record_refs(rs.last(), default_bucket)
    }
}

/// The objects a notification names: those of its records, in order; without records,
/// the top-level event and (undecoded) key.
pub open spec fn notification_refs(n: Notification, default_bucket: Seq<char>) -> Seq<
    ObjectRefView,
> {
    if n.records@.len() == 0 {
        match (n.event_name, n.key) {
            (Some(e), Some(k)) => opt_ref_seq(normalized(e@, default_bucket, k@, None)),
            _ => Seq::empty(),
        }
    } else {
        records_refs(n.records@, default_bucket)
    }
}

// ---------------------------------------------------------------------------
// Implementation
// ---------------------------------------------------------------------------
/// Whether an object key names a Feather/Arrow file ready for ingest.
pub fn should_ingest_key(key: &str) -> (r: bool)
    ensures
        r == ingestible(key@),
{
    if ends_with_str(key, "/") {
        return false;
    }
    let lower = to_lower(key);
    if !(ends_with_str(lower.as_str(), ".feather") || ends_with_str(lower.as_str(), ".arrow")) {
        return false;
    }
    if ends_with_str(lower.as_str(), ".part") || ends_with_str(lower.as_str(), ".tmp") {
        return false;
    }
    true
}

/// Whether `key` is under `prefix` (every key is under the empty prefix).
pub fn matches_prefix(key: &str, prefix: &str) -> (r: bool)
    ensures
        r == prefix_matches(key@, prefix@),
{
    if prefix.is_empty() {
        return true;
    }
    starts_with_str(key, prefix)
}

/// `%20` and `+` in an object key read as spaces.
pub fn decode_object_key(key: &str) -> (r: String)
    ensures
        r@ == decoded_key(key@),
{
    proof {
        reveal_strlit("%20");
        reveal_strlit("+");
    }
    let once = replace_str(key, "%20", " ");
    replace_str(once.as_str(), "+", " ")
}

/// Splits `full` at its first `/` into bucket and key.
pub fn split_bucket_key(full: &str) -> (r: Option<(String, String)>)
    ensures
        r matches Some(p) ==> bucket_key_split(full@) == Some((p.0@, p.1@)),
        r is None ==> bucket_key_split(full@) is None,
{
    let v = chars_of(full);
    let slash = chars_of("/");
    match find_vec(&v, &slash) {
        Some(i) => {
            proof {
                reveal_strlit("/");
                crate::text::lemma_find_from_props(v@, slash@, 0);
                assert(slash@.len() == 1);
                assert(crate::text::occurs_at(v@, slash@, i as int));
            }
            let n = v.len();
            assert(i + 1 <= n);
            Some((string_of(&v, 0, i), string_of(&v, i + 1, n)))
        },
        None => None,
    }
}

/// The object of a created-object event, when it is one ingest handles.
pub fn normalize_key(
    event_name: &str,
    bucket: &str,
    key_or_full: &str,
    etag: Option<String>,
) -> (r: Option<ObjectRef>)
    ensures
        r matches Some(o) ==> normalized(event_name@, bucket@, key_or_full@, opt_text(etag))
            == Some(o@),
        r is None ==> normalized(event_name@, bucket@, key_or_full@, opt_text(etag)) is None,
{
    if !starts_with_str(event_name, "s3:ObjectCreated:") {
        return None;
    }
    let (b, k) = if crate::text::contains_str(key_or_full, "/") && bucket.is_empty() {
        match split_bucket_key(key_or_full) {
            Some(p) => p,
            None => {
                return None;
            },
        }
    } else if bucket.is_empty() {
        return None;
    } else {
        (String::from_str(bucket), String::from_str(key_or_full))
    };
    if !should_ingest_key(k.as_str()) {
        return None;
    }
    Some(ObjectRef { bucket: b, key: k, etag, event_name: String::from_str(event_name) })
}

fn copy_opt(o: &Option<String>) -> (r: Option<String>)
    ensures
        opt_text(r) == opt_text(*o),
{
    match o {
        Some(s) => Some(s.clone()),
        None => None,
    }
}

fn refs_of_record(r: &NotificationRecord, default_bucket: &str) -> (out: Option<ObjectRef>)
    ensures
        (match out {
            Some(o) => seq![o@],
            None => Seq::empty(),
        }) == record_refs(*r, default_bucket@),
{
    match &r.s3 {
        Some(s3) => {
            let event = match &r.event_name {
                Some(e) => e.clone(),
                None => String::new(),
            };
            let bucket = if s3.bucket_name.as_str().is_empty() {
                String::from_str(default_bucket)
            } else {
                s3.bucket_name.clone()
            };
            let key = decode_object_key(s3.object_key.as_str());
            normalize_key(event.as_str(), bucket.as_str(), key.as_str(), copy_opt(&s3.etag))
        },
        None => None,
    }
}

/// The objects a notification names, in order.
pub fn refs_from_notification(n: &Notification, default_bucket: &str) -> (r: Vec<ObjectRef>)
    ensures
        refs_view(r@) == notification_refs(*n, default_bucket@),
{
    let mut refs: Vec<ObjectRef> = Vec::new();
    if n.records.len() == 0 {
        match (&n.event_name, &n.key) {
            (Some(e), Some(k)) => {
                match normalize_key(e.as_str(), default_bucket, k.as_str(), None) {
                    Some(o) => refs.push(o),
                    None => {},
                }
            },
            _ => {},
        }
        assert(refs_view(refs@) =~= notification_refs(*n, default_bucket@));
        return refs;
    }
    let mut i: usize = 0;
    while i < n.records.len()
        invariant
            0 <= i <= n.records@.len(),
            refs_view(refs@) == records_refs(n.records@.take(i as int), default_bucket@),
        decreases n.records.len() - i,
    {
        let ghost before = refs@;
        match refs_of_record(&n.records[i], default_bucket) {
            Some(o) => refs.push(o),
            None => {},
        }
        proof {
            assert(n.records@.take(i + 1).drop_last() =~= n.records@.take(i as int));
            assert(refs_view(refs@) =~= refs_view(before) + record_refs(
                n.records@[i as int],
                default_bucket@,
            ));
        }
        i = i + 1;
    }
    assert(n.records@.take(i as int) =~= n.records@);
    refs
}

} // verus!
