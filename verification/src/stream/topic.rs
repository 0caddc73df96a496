//! Topics that streamed rows are published under.
use vstd::prelude::*;

use crate::config::StreamConfig;
use crate::routing::schema::TableRegistry;
use crate::stream::row::{tags_view, IlpRow};
use crate::text::{append, push_char, eq_ignore_case, lower_seq, str_eq_ignore_case};

verus! {

/// Separator between the tag values of a topic key.
pub const TOPIC_SEPARATOR: char = '@';

/// Value of the first tag whose name equals `name` up to ASCII case.
pub open spec fn tag_lookup(tags: Seq<(Seq<char>, Seq<char>)>, name: Seq<char>) -> Option<Seq<char>>
    decreases tags.len(),
{
    if tags.len() == 0 {
        None
    } else if eq_ignore_case(tags[0].0, name) {
        Some(tags[0].1)
    } else {
        tag_lookup(tags.drop_first(), name)
    }
}

/// `parts` joined with `sep` between consecutive parts.
pub open spec fn join(parts: Seq<Seq<char>>, sep: Seq<char>) -> Seq<char>
    decreases parts.len(),
{
    if parts.len() == 0 {
        Seq::empty()
    } else if parts.len() == 1 {
        parts[0]
    } else {
        join(parts.drop_last(), sep) + sep + parts.last()
    }
}

/// For each configured topic tag, the row's value of that tag, or `missing`.
pub open spec fn topic_parts(
    tags: Seq<(Seq<char>, Seq<char>)>,
    topic_tags: Seq<Seq<char>>,
    missing: Seq<char>,
) -> Seq<Seq<char>> {
    Seq::new(
        topic_tags.len(),
        |i: int|
            match tag_lookup(tags, topic_tags[i]) {
                Some(v) => v,
                None => missing,
            },
    )
}

pub open spec fn topic_of(row: &IlpRow, config: &StreamConfig) -> Seq<char> {
    join(
        topic_parts(
            tags_view(row.tags@),
            Seq::new(config.topic_tags@.len(), |i: int| config.topic_tags@[i]@),
            config.topic_missing@,
        ),
        seq![TOPIC_SEPARATOR],
    )
}

fn lookup_tag(tags: &Vec<(String, String)>, name: &str) -> (r: Option<String>)
    ensures
        r matches Some(v) ==> tag_lookup(tags_view(tags@), name@) == Some(v@),
        r is None ==> tag_lookup(tags_view(tags@), name@) is None,
{
    let mut i: usize = 0;
    assert(tags_view(tags@).subrange(0, tags@.len() as int) =~= tags_view(tags@));
    while i < tags.len()
        invariant
            0 <= i <= tags@.len(),
            tag_lookup(tags_view(tags@), name@) == tag_lookup(
                tags_view(tags@).subrange(i as int, tags@.len() as int),
                name@,
            ),
        decreases tags.len() - i,
    {
        let ghost rest = tags_view(tags@).subrange(i as int, tags@.len() as int);
        assert(rest[0] == (tags@[i as int].0@, tags@[i as int].1@));
        if str_eq_ignore_case(tags[i].0.as_str(), name) {
            return Some(tags[i].1.clone());
        }
        assert(rest.drop_first() =~= tags_view(tags@).subrange(i + 1, tags@.len() as int));
        i = i + 1;
    }
    None
}

/// Derive a topic key from a parsed ILP row using the configured tag names: the
/// values of those tags (compared without ASCII case), `topic_missing` for an absent
/// one, joined with `@`.
pub fn derive_topic(row: &IlpRow, config: &StreamConfig) -> (r: String)
    ensures
        r@ == topic_of(row, config),
{
    let ghost names = Seq::new(config.topic_tags@.len(), |i: int| config.topic_tags@[i]@);
    let ghost parts = topic_parts(tags_view(row.tags@), names, config.topic_missing@);
    let mut out = String::new();
    let mut i: usize = 0;
    while i < config.topic_tags.len()
        invariant
            0 <= i <= config.topic_tags@.len(),
            names == Seq::new(config.topic_tags@.len(), |i: int| config.topic_tags@[i]@),
            parts == topic_parts(tags_view(row.tags@), names, config.topic_missing@),
            out@ == join(parts.take(i as int), seq![TOPIC_SEPARATOR]),
        decreases config.topic_tags.len() - i,
    {
        let part = match lookup_tag(&row.tags, config.topic_tags[i].as_str()) {
            Some(v) => v,
            None => config.topic_missing.clone(),
        };
        assert(part@ == parts[i as int]);
        if i > 0 {
            push_char(&mut out, TOPIC_SEPARATOR);
        }
        append(&mut out, part.as_str());
        proof {
            assert(parts.take(i + 1).drop_last() =~= parts.take(i as int));
            if i == 0 {
                assert(out@ =~= parts.take(1)[0]);
            }
        }
        i = i + 1;
    }
    assert(parts.take(i as int) =~= parts);
    out
}

/// Whether rows of `measurement` are streamed: only those of tables configured as
/// sharded.
pub fn is_broadcastable(measurement: &str, registry: &TableRegistry) -> (r: bool)
    ensures
        r == (registry@.contains_key(lower_seq(measurement@)) && registry@[lower_seq(
            measurement@,
        )].sharded),
{
    match registry.get(measurement) {
        Some(t) => t.sharded,
        None => false,
    }
}

} // verus!
