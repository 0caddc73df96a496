//! Preparing statements for a backend shard.
use vstd::prelude::*;

use crate::config::ShardConfig;
use crate::text::{append, decimal, eq_ignore_case, replace_all, replace_str, str_eq_ignore_case, u64_to_string};

verus! {

/// The SQL literal of a bind value: `NULL` for any casing of `null`, else the value
/// quoted with its single quotes doubled.
pub open spec fn sql_literal(v: Seq<char>) -> Seq<char> {
    if eq_ignore_case(v, "null"@) {
        "NULL"@
    } else {
        "'"@ + replace_all(v, "'"@, "''"@) + "'"@
    }
}

/// The placeholder of the bind parameter at position `idx` (`$1` for `idx == 0`).
pub open spec fn placeholder(idx: nat) -> Seq<char> {
    "$"@ + decimal(idx + 1)
}

/// `sql` with `$n`, …, `$1` replaced in turn (highest first) by the literals of the
/// values `params[n-1]`, …, `params[0]`.
pub open spec fn inline_spec(sql: Seq<char>, params: Seq<Seq<char>>) -> Seq<char>
    decreases params.len(),
{
    if params.len() == 0 {
        sql
    } else {
        inline_spec(
            replace_all(sql, placeholder((params.len() - 1) as nat), sql_literal(params.last())),
            params.drop_last(),
        )
    }
}

pub open spec fn texts(v: Seq<String>) -> Seq<Seq<char>> {
    Seq::new(v.len(), |i: int| v[i]@)
}

fn sql_literal_of(value: &str) -> (r: String)
    ensures
        r@ == sql_literal(value@),
{
    proof {
        reveal_strlit("'");
    }
    if str_eq_ignore_case(value, "null") {
        String::from_str("NULL")
    } else {
        let mut lit = String::from_str("'");
        let escaped = replace_str(value, "'", "''");
        append(&mut lit, escaped.as_str());
        append(&mut lit, "'");
        lit
    }
}

fn placeholder_of(idx: usize) -> (r: String)
    requires
        idx < usize::MAX,
    ensures
        r@ == placeholder(idx as nat),
{
    let mut p = String::from_str("$");
    let n = u64_to_string((idx + 1) as u64);
    append(&mut p, n.as_str());
    p
}

/// Replace `$1`, `$2`, … with SQL literals for backend `simple_query` forwarding.
pub fn inline_sql_params(sql: &str, params: &[String]) -> (r: String)
    ensures
        r@ == inline_spec(sql@, texts(params@)),
{
    let mut out = String::from_str(sql);
    let mut i: usize = params.len();
    assert(texts(params@).take(i as int) =~= texts(params@));
    while i > 0
        invariant
            i <= params.len(),
            inline_spec(sql@, texts(params@)) == inline_spec(
                out@,
                texts(params@).take(i as int),
            ),
        decreases i,
    {
        let ghost ps = texts(params@).take(i as int);
        let ph = placeholder_of(i - 1);
        let lit = sql_literal_of(params[i - 1].as_str());
        proof {
            reveal_strlit("$");
            assert(ph@.len() > 0);
            assert(ps.drop_last() =~= texts(params@).take(i - 1));
            assert(ps.last() == params@[i - 1]@);
        }
        out = replace_str(out.as_str(), ph.as_str(), lit.as_str());
        i = i - 1;
    }
    assert(texts(params@).take(0) =~= Seq::<Seq<char>>::empty());
    out
}

/// The shard a passthrough session talks to: the one it is pinned to, else the first
/// configured shard.
pub fn resolve_shard_id(shards: &[ShardConfig], current: Option<u32>) -> (r: u32)
    requires
        current is None ==> shards@.len() > 0,
    ensures
        r == (match current {
            Some(id) => id,
            None => shards@[0].id,
        }),
{
    match current {
        Some(id) => id,
        None => shards[0].id,
    }
}

} // verus!
