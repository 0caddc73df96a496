//! QuestDB dialect keyword fast-path for SQL that the SQL parser cannot parse.
//!
//! `SAMPLE BY` / `LATEST ON` queries are recognised by keyword; the table and the
//! shard-key predicate are read with light text scanning, and keyed queries are routed
//! to a single shard verbatim.
use vstd::prelude::*;

use crate::routing::error::{SqlRouteError, SqlRouteErrorView};
use crate::routing::plan::{PlanView, RoutePlan};
use crate::text::{
    append, chars_of, contains, occurs_at, find, find_vec, first_from, is_digit, is_whitespace, is_ws,
    last_pos_of, lemma_find_from_props, lemma_first_from_bounds, parse_usize, push_char, skip_ws,
    string_of, trim_start, upper_seq, upper_vec, usize_of,
};

verus! {

// ---------------------------------------------------------------------------
// Specification
// ---------------------------------------------------------------------------
/// SQL holds a QuestDB-only clause.
pub open spec fn has_extension(sql: Seq<char>) -> bool {
    contains(upper_seq(sql), "SAMPLE BY"@) || contains(upper_seq(sql), "LATEST ON"@)
}

pub open spec fn is_name_end(c: char) -> bool {
    is_ws(c) || c == ',' || c == ';'
}

/// `s` after its last `.`, or all of `s`.
pub open spec fn after_last_dot(s: Seq<char>) -> Seq<char> {
    match last_pos_of(s, '.') {
        Some(i) => s.subrange(i + 1, s.len() as int),
        None => s,
    }
}

/// The table named after the first ` FROM ` (case-insensitive), without schema.
pub open spec fn from_table(sql: Seq<char>) -> Option<Seq<char>> {
    match find(upper_seq(sql), " FROM "@) {
        None => None,
        Some(p) => {
            let t = trim_start(sql.subrange(p + " FROM "@.len(), sql.len() as int));
            let name = t.subrange(0, first_from(t, |c: char| is_name_end(c), 0));
            if name.len() == 0 || name == "("@ {
                None
            } else {
                Some(after_last_dot(name))
            }
        },
    }
}

/// What follows `= ` at the start of `rest` (leading whitespace skipped).
pub open spec fn after_eq(rest: Seq<char>) -> Option<Seq<char>> {
    let t = trim_start(rest);
    if t.len() > 0 && t[0] == '=' {
        Some(trim_start(t.drop_first()))
    } else {
        None
    }
}

/// Text after `WHERE <column> =`, the column compared without ASCII case.
pub open spec fn after_key_eq(sql: Seq<char>, column: Seq<char>) -> Option<Seq<char>> {
    let pat = "WHERE "@ + upper_seq(column);
    match find(upper_seq(sql), pat) {
        None => None,
        Some(p) => after_eq(sql.subrange(p + pat.len(), sql.len() as int)),
    }
}

/// The body of a quoted literal from position `i` on (`''` stands for one quote).
pub open spec fn literal_body(t: Seq<char>, i: int, acc: Seq<char>) -> Option<Seq<char>>
    decreases t.len() - i,
{
    if i < 0 || i >= t.len() {
        None
    } else if t[i] == '\'' {
        if i + 1 < t.len() && t[i + 1] == '\'' {
            literal_body(t, i + 2, acc.push('\''))
        } else {
            Some(acc)
        }
    } else {
        literal_body(t, i + 1, acc.push(t[i]))
    }
}

/// A single-quoted SQL string literal at the start of `s`.
pub open spec fn string_literal(s: Seq<char>) -> Option<Seq<char>> {
    let t = trim_start(s);
    if t.len() > 0 && t[0] == '\'' {
        literal_body(t, 1, Seq::empty())
    } else {
        None
    }
}

/// `WHERE <column> = 'literal'`.
pub open spec fn key_literal(sql: Seq<char>, column: Seq<char>) -> Option<Seq<char>> {
    match after_key_eq(sql, column) {
        Some(a) => string_literal(a),
        None => None,
    }
}

/// `$N` at the start of `a`, as a 0-based parameter index.
pub open spec fn dollar_param(a: Seq<char>) -> Option<usize> {
    let t = trim_start(a);
    if t.len() > 0 && t[0] == '$' {
        let d = t.subrange(1, first_from(t, |c: char| !is_digit(c), 1));
        match parse_usize(d) {
            Some(n) => if n >= 1 {
                Some((n - 1) as usize)
            } else {
                None
            },
            None => None,
        }
    } else {
        None
    }
}

/// `WHERE <column> = $N`, as a 0-based parameter index.
pub open spec fn key_param(sql: Seq<char>, column: Seq<char>) -> Option<usize> {
    match after_key_eq(sql, column) {
        Some(a) => dollar_param(a),
        None => None,
    }
}

/// Routing of QuestDB dialect SQL: keyed queries go to one shard.
pub open spec fn questdb_plan(sql: Seq<char>, column: Seq<char>) -> Result<
    PlanView,
    SqlRouteErrorView,
> {
    match from_table(sql) {
        None => Err(
            SqlRouteErrorView::Unsupported(
                "questdb dialect: could not extract table from FROM clause"@,
            ),
        ),
        Some(table) => match key_literal(sql, column) {
            Some(lit) => Ok(
                PlanView::SingleShard { table, shard_key: Some(lit), shard_key_param: None },
            ),
            None => match key_param(sql, column) {
                Some(i) => Ok(
                    PlanView::SingleShard { table, shard_key: None, shard_key_param: Some(i) },
                ),
                None => Err(
                    SqlRouteErrorView::Unsupported(
                        "questdb dialect: queries require a shard-key predicate (e.g. WHERE "@
                            + column + " = 'X')"@,
                    ),
                ),
            },
        },
    }
}

pub open spec fn plan_result_view(r: Result<RoutePlan, SqlRouteError>) -> Result<
    PlanView,
    SqlRouteErrorView,
> {
    match r {
        Ok(p) => Ok(p@),
        Err(e) => Err(e@),
    }
}

// ---------------------------------------------------------------------------
// Lemmas
// ---------------------------------------------------------------------------
proof fn lemma_first_from_shift(s: Seq<char>, p: spec_fn(char) -> bool, a: int, i: int)
    requires
        0 <= a <= s.len(),
        0 <= i,
    ensures
        first_from(s.subrange(a, s.len() as int), p, i) + a == first_from(s, p, a + i),
    decreases s.len() - a - i,
{
    if a + i < s.len() {
        assert(s.subrange(a, s.len() as int)[i] == s[a + i]);
        if !p(s[a + i]) {
            lemma_first_from_shift(s, p, a, i + 1);
        }
    }
}

/// Trimming the suffix `s[a..]` is the suffix from the first non-blank after `a`.
proof fn lemma_trim_suffix(s: Seq<char>, a: int)
    requires
        0 <= a <= s.len(),
    ensures
        trim_start(s.subrange(a, s.len() as int)) == s.subrange(
            first_from(s, |c: char| !is_ws(c), a),
            s.len() as int,
        ),
        a <= first_from(s, |c: char| !is_ws(c), a) <= s.len(),
{
    lemma_first_from_shift(s, |c: char| !is_ws(c), a, 0);
    lemma_first_from_bounds(s, |c: char| !is_ws(c), a);
    assert(trim_start(s.subrange(a, s.len() as int)) =~= s.subrange(
        first_from(s, |c: char| !is_ws(c), a),
        s.len() as int,
    ));
}

// ---------------------------------------------------------------------------
// Implementation
// ---------------------------------------------------------------------------
/// Returns true when SQL contains QuestDB-specific extensions the SQL parser cannot handle.
pub fn has_questdb_extension(sql: &str) -> (r: bool)
    ensures
        r == has_extension(sql@),
{
    let upper = upper_vec(&chars_of(sql));
    let sample = chars_of("SAMPLE BY");
    let latest = chars_of("LATEST ON");
    find_vec(&upper, &sample).is_some() || find_vec(&upper, &latest).is_some()
}

/// Extract the primary table name from `FROM <name>`.
pub fn extract_from_table(sql: &str) -> (r: Option<String>)
    ensures
        r matches Some(t) ==> from_table(sql@) == Some(t@),
        r is None ==> from_table(sql@) is None,
{
    let v = chars_of(sql);
    let upper = upper_vec(&v);
    let pat = chars_of(" FROM ");
    let from_pos = match find_vec(&upper, &pat) {
        Some(p) => p,
        None => return None,
    };
    proof {
        lemma_find_from_props(upper@, pat@, 0);
        assert(occurs_at(upper@, pat@, from_pos as int));
        assert(upper@.len() == v@.len());
    }
    assert(from_pos + pat.len() <= v.len());
    let start = skip_ws(&v, from_pos + pat.len());
    proof {
        lemma_trim_suffix(v@, from_pos + pat.len());
        lemma_first_from_shift(v@, |c: char| is_name_end(c), start as int, 0);
        lemma_first_from_bounds(v@, |c: char| is_name_end(c), start as int);
    }
    let ghost t = v@.subrange(start as int, v.len() as int);
    let mut end = start;
    while end < v.len()
        invariant
            start <= end <= v.len(),
            first_from(v@, |c: char| is_name_end(c), start as int) == first_from(
                v@,
                |c: char| is_name_end(c),
                end as int,
            ),
        ensures
            first_from(v@, |c: char| is_name_end(c), start as int) == end,
        decreases v.len() - end,
    {
        let c = v[end];
        if is_whitespace(c) || c == ',' || c == ';' {
            break;
        }
        end = end + 1;
    }
    assert(first_from(v@, |c: char| is_name_end(c), start as int) == end);
    let ghost name = v@.subrange(start as int, end as int);
    assert(t.subrange(0, end - start) =~= name);
    if end == start {
        return None;
    }
    if end == start + 1 && v[start] == '(' {
        assert(name =~= "("@) by {
            reveal_strlit("(");
        }
        return None;
    }
    assert(find(upper_seq(sql@), " FROM "@) == Some(from_pos as int));
    assert(trim_start(sql@.subrange(from_pos + " FROM "@.len(), sql@.len() as int)) == t);
    assert(first_from(t, |c: char| is_name_end(c), 0) == end - start);
    assert(name != "("@) by {
        reveal_strlit("(");
        if name.len() == 1 {
            assert(name[0] == v@[start as int]);
        }
    }
    assert(t.subrange(0, first_from(t, |c: char| is_name_end(c), 0)) == name);
    assert(from_table(sql@) == Some(after_last_dot(name)));
    let mut k = end;
    assert(name.subrange(0, end - start) =~= name);
    while k > start
        invariant
            start <= k <= end <= v.len(),
            last_pos_of(name, '.') == last_pos_of(name.subrange(0, k - start), '.'),
            name == v@.subrange(start as int, end as int),
            from_table(sql@) == Some(after_last_dot(name)),
        decreases k,
    {
        assert(name.subrange(0, k - start).drop_last() =~= name.subrange(0, k - 1 - start));
        assert(name.subrange(0, k - start).last() == v@[k - 1]);
        if v[k - 1] == '.' {
            let r = string_of(&v, k, end);
            assert(r@ =~= after_last_dot(name));
            return Some(r);
        }
        k = k - 1;
    }
    assert(name.subrange(0, 0) =~= Seq::<char>::empty());
    assert(name.subrange(0, end - start) =~= name);
    Some(string_of(&v, start, end))
}

/// Position just after `WHERE <column> =` and the blanks following it.
fn key_value_start(v: &Vec<char>, column: &str) -> (r: Option<usize>)
    ensures
        r matches Some(p) ==> p <= v.len() && after_key_eq(v@, column@) == Some(
            v@.subrange(p as int, v.len() as int),
        ),
        r is None ==> after_key_eq(v@, column@) is None,
{
    let upper = upper_vec(v);
    let mut pat = chars_of("WHERE ");
    let col = upper_vec(&chars_of(column));
    let ghost head = pat@;
    let mut i: usize = 0;
    while i < col.len()
        invariant
            0 <= i <= col.len(),
            pat@ == head + col@.subrange(0, i as int),
        decreases col.len() - i,
    {
        pat.push(col[i]);
        i = i + 1;
        assert(pat@ =~= head + col@.subrange(0, i as int));
    }
    assert(col@.subrange(0, col.len() as int) =~= col@);
    let where_pos = match find_vec(&upper, &pat) {
        Some(p) => p,
        None => return None,
    };
    proof {
        lemma_find_from_props(upper@, pat@, 0);
    }
    proof {
        assert(occurs_at(upper@, pat@, where_pos as int));
        assert(upper@.len() == v@.len());
    }
    assert(where_pos + pat.len() <= v.len());
    let after = where_pos + pat.len();
    let s = skip_ws(v, after);
    proof {
        lemma_trim_suffix(v@, after as int);
    }
    if s < v.len() && v[s] == '=' {
        let e = skip_ws(v, s + 1);
        proof {
            lemma_trim_suffix(v@, s + 1);
            assert(v@.subrange(s as int, v.len() as int).drop_first() =~= v@.subrange(
                s + 1,
                v.len() as int,
            ));
        }
        Some(e)
    } else {
        None
    }
}

/// Reads a single-quoted literal starting at `from` (after blanks).
fn literal_at(v: &Vec<char>, from: usize) -> (r: Option<String>)
    requires
        from <= v.len(),
    ensures
        r matches Some(s) ==> string_literal(v@.subrange(from as int, v.len() as int)) == Some(
            s@,
        ),
        r is None ==> string_literal(v@.subrange(from as int, v.len() as int)) is None,
{
    let s = skip_ws(v, from);
    proof {
        lemma_trim_suffix(v@, from as int);
    }
    let ghost t = v@.subrange(s as int, v.len() as int);
    assert(trim_start(v@.subrange(from as int, v.len() as int)) == t);
    if !(s < v.len() && v[s] == '\'') {
        return None;
    }
    assert(t[0] == v@[s as int]);
    let mut out = String::new();
    let mut i = s + 1;
    while i < v.len()
        invariant
            s < i <= v.len() + 1,
            t == v@.subrange(s as int, v.len() as int),
            from <= v.len(),
            string_literal(v@.subrange(from as int, v.len() as int)) == literal_body(
                t,
                1,
                Seq::empty(),
            ),
            literal_body(t, 1, Seq::empty()) == literal_body(t, i - s, out@),
        decreases v.len() + 1 - i,
    {
        let c = v[i];
        assert(t[i - s] == c);
        if i + 1 < v.len() {
            assert(t[i + 1 - s] == v@[i + 1]);
        }
        if c == '\'' {
            if i + 1 < v.len() && v[i + 1] == '\'' {
                push_char(&mut out, '\'');
                i = i + 2;
            } else {
                assert(literal_body(t, (i - s) as int, out@) == Some(out@));
                return Some(out);
            }
        } else {
            push_char(&mut out, c);
            i = i + 1;
        }
    }
    None
}

/// Extract `WHERE <column> = 'literal'` (case-insensitive column match).
pub fn extract_shard_key_literal(sql: &str, column: &str) -> (r: Option<String>)
    ensures
        r matches Some(s) ==> key_literal(sql@, column@) == Some(s@),
        r is None ==> key_literal(sql@, column@) is None,
{
    let v = chars_of(sql);
    match key_value_start(&v, column) {
        Some(p) => literal_at(&v, p),
        None => None,
    }
}

/// Extract `WHERE <column> = $N` → 0-based parameter index.
pub fn extract_shard_key_param(sql: &str, column: &str) -> (r: Option<usize>)
    ensures
        r == key_param(sql@, column@),
{
    let v = chars_of(sql);
    let p = match key_value_start(&v, column) {
        Some(p) => p,
        None => return None,
    };
    let s = skip_ws(&v, p);
    proof {
        lemma_trim_suffix(v@, p as int);
    }
    let ghost t = v@.subrange(s as int, v.len() as int);
    if !(s < v.len() && v[s] == '$') {
        return None;
    }
    let mut e = s + 1;
    proof {
        lemma_first_from_shift(v@, |c: char| !is_digit(c), s as int, 1);
    }
    while e < v.len()
        invariant
            s < e <= v.len(),
            first_from(v@, |c: char| !is_digit(c), s + 1) == first_from(
                v@,
                |c: char| !is_digit(c),
                e as int,
            ),
        ensures
            first_from(v@, |c: char| !is_digit(c), s + 1) == e,
        decreases v.len() - e,
    {
        if !('0' <= v[e] && v[e] <= '9') {
            break;
        }
        e = e + 1;
    }
    assert(first_from(v@, |c: char| !is_digit(c), s + 1) == e);
    assert(t.subrange(1, e - s) =~= v@.subrange(s + 1, e as int));
    match usize_of(&v, s + 1, e) {
        Some(n) => if n >= 1 {
            Some(n - 1)
        } else {
            None
        },
        None => None,
    }
}

/// Classify QuestDB dialect SQL for shard routing (keyed → single shard).
pub fn classify_questdb_passthrough(sql: &str, shard_key_column: &str) -> (r: Result<
    RoutePlan,
    SqlRouteError,
>)
    ensures
        plan_result_view(r) == questdb_plan(sql@, shard_key_column@),
{
    let table = match extract_from_table(sql) {
        Some(t) => t,
        None => {
            return Err(
                SqlRouteError::Unsupported(
                    String::from_str("questdb dialect: could not extract table from FROM clause"),
                ),
            );
        },
    };
    if let Some(literal) = extract_shard_key_literal(sql, shard_key_column) {
        return Ok(
            RoutePlan::SingleShard { table, shard_key: Some(literal), shard_key_param: None },
        );
    }
    if let Some(param_index) = extract_shard_key_param(sql, shard_key_column) {
        return Ok(
            RoutePlan::SingleShard { table, shard_key: None, shard_key_param: Some(param_index) },
        );
    }
    let mut msg = String::from_str(
        "questdb dialect: queries require a shard-key predicate (e.g. WHERE ",
    );
    append(&mut msg, shard_key_column);
    append(&mut msg, " = 'X')");
    Err(SqlRouteError::Unsupported(msg))
}

/// Recognising the QuestDB extensions ignores ASCII case: upper-casing the text never
/// changes the answer, and text holding `sample by` or `latest on` in any ASCII case
/// (at any position) has an extension.
pub proof fn law_extension_ignores_case(s: Seq<char>, t: Seq<char>, k: int)
    ensures
        has_extension(s) == has_extension(upper_seq(s)),
        occurs_at(s, t, k) && (upper_seq(t) == "SAMPLE BY"@ || upper_seq(t) == "LATEST ON"@)
            ==> has_extension(s),
{
    assert forall|j: int| 0 <= j < s.len() implies #[trigger] upper_seq(upper_seq(s))[j] == upper_seq(
        s,
    )[j] by {
        let c = s[j];
        if 'a' <= c && c <= 'z' {
            assert(65 <= (c as u32) - 32 <= 90);
        }
    }
    assert(upper_seq(upper_seq(s)) =~= upper_seq(s));
    if occurs_at(s, t, k) && (upper_seq(t) == "SAMPLE BY"@ || upper_seq(t) == "LATEST ON"@) {
        let u = upper_seq(s);
        assert(u.subrange(k, k + t.len()) =~= upper_seq(t));
        lemma_find_from_props(u, upper_seq(t), 0);
        assert(occurs_at(u, upper_seq(t), k));
    }
}

} // verus!
