//! Table names in federated SQL.
use vstd::prelude::*;

use crate::routing::sql_ast::{parse_statements, sql_parse, SqlNamePart, SqlStatement, SqlTableRef};
use crate::text::{
    append, chars_of, last_pos_in, last_pos_of, lower_seq, push_char, starts_with, starts_with_str,
    string_of, to_lower,
};

verus! {

/// The last dotted part of a qualified name.
pub open spec fn bare_name(q: Seq<char>) -> Seq<char> {
    match last_pos_of(q, '.') {
        Some(i) => q.subrange(i + 1, q.len() as int),
        None => q,
    }
}

pub fn bare_table_name(qualified: &str) -> (r: String)
    ensures
        r@ == bare_name(qualified@),
{
    let v = chars_of(qualified);
    proof {
        crate::text::lemma_last_pos(v@, '.');
    }
    let n = v.len();
    match last_pos_in(&v, '.') {
        Some(i) => string_of(&v, i + 1, n),
        None => String::from_str(qualified),
    }
}

/// Catalog relations of PostgreSQL clients, which federated SQL leaves alone.
pub open spec fn system_relation(name: Seq<char>) -> bool {
    let l = lower_seq(name);
    starts_with(l, "information_schema"@) || starts_with(l, "pg_catalog"@) || starts_with(
        l,
        "pg_"@,
    )
}

pub fn is_system_relation(name: &str) -> (r: bool)
    ensures
        r == system_relation(name@),
{
    let l = to_lower(name);
    starts_with_str(l.as_str(), "information_schema") || starts_with_str(
        l.as_str(),
        "pg_catalog",
    ) || starts_with_str(l.as_str(), "pg_")
}

// ---------------------------------------------------------------------------
// Table references of a statement
// ---------------------------------------------------------------------------
/// The identifier parts of a dotted name, joined with `.` (other parts are skipped).
pub open spec fn object_name_text(parts: Seq<SqlNamePart>) -> Seq<char>
    decreases parts.len(),
{
    if parts.len() == 0 {
        Seq::empty()
    } else {
        let pre = object_name_text(parts.drop_last());
        match parts.last() {
            SqlNamePart::Identifier(id) => if ident_count(parts.drop_last()) == 0 {
                id@
            } else {
                pre + seq!['.'] + id@
            },
            SqlNamePart::Function => pre,
        }
    }
}

pub open spec fn ident_count(parts: Seq<SqlNamePart>) -> nat
    decreases parts.len(),
{
    if parts.len() == 0 {
        0
    } else {
        ident_count(parts.drop_last()) + match parts.last() {
            SqlNamePart::Identifier(_) => 1nat,
            SqlNamePart::Function => 0nat,
        }
    }
}

pub open spec fn opt_name(n: Option<Vec<SqlNamePart>>) -> Seq<Seq<char>> {
    match n {
        Some(parts) => seq![object_name_text(parts@)],
        None => Seq::empty(),
    }
}

pub open spec fn join_names_of(js: Seq<Option<Vec<SqlNamePart>>>) -> Seq<Seq<char>>
    decreases js.len(),
{
    if js.len() == 0 {
        Seq::empty()
    } else {
        join_names_of(js.drop_last()) + opt_name(js.last())
    }
}

/// The named tables of `FROM` items and of their joins, in order.
pub open spec fn from_names(from: Seq<SqlTableRef>) -> Seq<Seq<char>>
    decreases from.len(),
{
    if from.len() == 0 {
        Seq::empty()
    } else {
        from_names(from.drop_last()) + opt_name(from.last().name) + join_names_of(
            from.last().join_names@,
        )
    }
}

/// The named tables of the plain `SELECT` queries among `stmts`, in order.
pub open spec fn statement_names(stmts: Seq<SqlStatement>) -> Seq<Seq<char>>
    decreases stmts.len(),
{
    if stmts.len() == 0 {
        Seq::empty()
    } else {
        statement_names(stmts.drop_last()) + match stmts.last() {
            SqlStatement::Query(q) => match q.select {
                Some(sel) => from_names(sel.from@),
                None => Seq::empty(),
            },
            _ => Seq::empty(),
        }
    }
}

/// Lexicographic order by character code (the order of UTF-8 strings).
pub open spec fn lex_lt(a: Seq<char>, b: Seq<char>) -> bool
    decreases a.len(),
{
    if b.len() == 0 {
        false
    } else if a.len() == 0 {
        true
    } else if a[0] != b[0] {
        a[0] < b[0]
    } else {
        lex_lt(a.drop_first(), b.drop_first())
    }
}

proof fn lemma_lex_irreflexive(a: Seq<char>)
    ensures
        !lex_lt(a, a),
    decreases a.len(),
{
    if a.len() > 0 {
        lemma_lex_irreflexive(a.drop_first());
    }
}

proof fn lemma_lex_transitive(a: Seq<char>, b: Seq<char>, c: Seq<char>)
    requires
        lex_lt(a, b),
        lex_lt(b, c),
    ensures
        lex_lt(a, c),
    decreases a.len(),
{
    if a.len() > 0 && b.len() > 0 && c.len() > 0 && a[0] == b[0] && b[0] == c[0] {
        lemma_lex_transitive(a.drop_first(), b.drop_first(), c.drop_first());
    }
}

proof fn lemma_lex_total(a: Seq<char>, b: Seq<char>)
    ensures
        a == b || lex_lt(a, b) || lex_lt(b, a),
    decreases a.len(),
{
    if a.len() > 0 && b.len() > 0 && a[0] == b[0] {
        lemma_lex_total(a.drop_first(), b.drop_first());
        if a.drop_first() == b.drop_first() {
            assert(a =~= seq![a[0]] + a.drop_first());
            assert(b =~= seq![b[0]] + b.drop_first());
        }
    } else if a.len() == 0 && b.len() == 0 {
        assert(a =~= b);
    }
}

/// Strictly increasing in lexicographic order (sorted, without duplicates).
pub open spec fn strictly_sorted(v: Seq<Seq<char>>) -> bool {
    forall|i: int, j: int| 0 <= i < j < v.len() ==> lex_lt(#[trigger] v[i], #[trigger] v[j])
}

pub open spec fn texts_of(v: Seq<String>) -> Seq<Seq<char>> {
    Seq::new(v.len(), |i: int| v[i]@)
}

fn lex_less(a: &Vec<char>, b: &Vec<char>) -> (r: bool)
    ensures
        r == lex_lt(a@, b@),
{
    let mut i: usize = 0;
    assert(a@.subrange(0, a@.len() as int) =~= a@);
    assert(b@.subrange(0, b@.len() as int) =~= b@);
    while i < a.len() && i < b.len()
        invariant
            0 <= i <= a@.len(),
            i <= b@.len(),
            lex_lt(a@, b@) == lex_lt(a@.subrange(i as int, a@.len() as int), b@.subrange(
                i as int,
                b@.len() as int,
            )),
        decreases a.len() - i,
    {
        let ghost x = a@.subrange(i as int, a@.len() as int);
        let ghost y = b@.subrange(i as int, b@.len() as int);
        assert(x[0] == a@[i as int] && y[0] == b@[i as int]);
        if a[i] != b[i] {
            return a[i] < b[i];
        }
        assert(x.drop_first() =~= a@.subrange(i + 1, a@.len() as int));
        assert(y.drop_first() =~= b@.subrange(i + 1, b@.len() as int));
        i = i + 1;
    }
    i < b.len()
}

/// Inserts `x` into a strictly sorted list, unless it is already there.
fn insert_sorted(v: &mut Vec<String>, x: String)
    requires
        strictly_sorted(texts_of(old(v)@)),
    ensures
        strictly_sorted(texts_of(final(v)@)),
        texts_of(final(v)@).to_set() == texts_of(old(v)@).to_set().insert(x@),
{
    let xv = chars_of(x.as_str());
    let mut i: usize = 0;
    while i < v.len()
        invariant
            0 <= i <= v@.len(),
            xv@ == x@,
            strictly_sorted(texts_of(v@)),
            forall|k: int| 0 <= k < i ==> lex_lt(#[trigger] texts_of(v@)[k], x@),
        ensures
            0 <= i <= v@.len(),
            xv@ == x@,
            strictly_sorted(texts_of(v@)),
            forall|k: int| 0 <= k < i ==> lex_lt(#[trigger] texts_of(v@)[k], x@),
            i < v@.len() ==> !lex_lt(texts_of(v@)[i as int], x@),
        decreases v.len() - i,
    {
        let cv = chars_of(v[i].as_str());
        if !lex_less(&cv, &xv) {
            break;
        }
        i = i + 1;
    }
    let ghost before = texts_of(v@);
    if i < v.len() {
        let cv = chars_of(v[i].as_str());
        if crate::text::str_eq_vec(&cv, &xv) {
            assert(before.to_set().insert(x@) =~= before.to_set()) by {
                assert(before[i as int] == x@);
            }
            return;
        }
        proof {
            lemma_lex_total(before[i as int], x@);
        }
    }
    let ghost below = i < before.len() ==> lex_lt(x@, before[i as int]);
    assert(below);
    v.insert(i, x);
    proof {
        let after = texts_of(v@);
        assert(after =~= before.insert(i as int, x@));
        assert forall|a: int, b: int| 0 <= a < b < after.len() implies lex_lt(
            #[trigger] after[a],
            #[trigger] after[b],
        ) by {
            if b > i && a == i && b - 1 > i {
                assert(lex_lt(before[i as int], before[b - 1]));
                lemma_lex_transitive(x@, before[i as int], before[b - 1]);
            }
        }
        assert(after.to_set() =~= before.to_set().insert(x@)) by {
            assert forall|s: Seq<char>| after.to_set().contains(s) implies before.to_set().insert(
                x@,
            ).contains(s) by {
                let k = choose|k: int| 0 <= k < after.len() && after[k] == s;
                if k < i {
                    assert(before[k] == s);
                } else if k > i {
                    assert(before[k - 1] == s);
                }
            }
            assert forall|s: Seq<char>| before.to_set().insert(x@).contains(s) implies after.to_set().contains(
                s,
            ) by {
                if s == x@ {
                    assert(after[i as int] == s);
                } else {
                    let k = choose|k: int| 0 <= k < before.len() && before[k] == s;
                    if k < i {
                        assert(after[k] == s);
                    } else {
                        assert(after[k + 1] == s);
                    }
                }
            }
        }
    }
}

proof fn lemma_no_idents(parts: Seq<SqlNamePart>)
    requires
        ident_count(parts) == 0,
    ensures
        object_name_text(parts) == Seq::<char>::empty(),
    decreases parts.len(),
{
    if parts.len() > 0 {
        lemma_no_idents(parts.drop_last());
    }
}

fn object_name(parts: &Vec<SqlNamePart>) -> (r: String)
    ensures
        r@ == object_name_text(parts@),
{
    let mut out = String::new();
    let mut count: usize = 0;
    let mut k: usize = 0;
    while k < parts.len()
        invariant
            0 <= k <= parts@.len(),
            out@ == object_name_text(parts@.take(k as int)),
            count == ident_count(parts@.take(k as int)),
            count <= k,
        decreases parts.len() - k,
    {
        assert(parts@.take(k + 1).drop_last() =~= parts@.take(k as int));
        assert(parts@.take(k + 1).last() == parts@[k as int]);
        proof {
            if count == 0 {
                lemma_no_idents(parts@.take(k as int));
            }
        }
        match &parts[k] {
            SqlNamePart::Identifier(id) => {
                if count > 0 {
                    push_char(&mut out, '.');
                }
                append(&mut out, id.as_str());
                count = count + 1;
            },
            SqlNamePart::Function => {},
        }
        k = k + 1;
    }
    assert(parts@.take(k as int) =~= parts@);
    out
}

proof fn lemma_push_to_set(s: Seq<Seq<char>>, x: Seq<char>)
    ensures
        s.push(x).to_set() == s.to_set().insert(x),
{
    assert forall|y: Seq<char>| s.push(x).to_set().contains(y) <==> s.to_set().insert(x).contains(
        y,
    ) by {
        if s.push(x).to_set().contains(y) {
            let k = choose|k: int| 0 <= k < s.push(x).len() && s.push(x)[k] == y;
            if k < s.len() {
                assert(s[k] == y);
            }
        }
        if s.to_set().contains(y) {
            let k = choose|k: int| 0 <= k < s.len() && s[k] == y;
            assert(s.push(x)[k] == y);
        }
        if y == x {
            assert(s.push(x)[s.len() as int] == y);
        }
    }
    assert(s.push(x).to_set() =~= s.to_set().insert(x));
}

/// Adds the name of `n` (when it names a table) to the sorted set `out`.
fn add_name(out: &mut Vec<String>, n: &Option<Vec<SqlNamePart>>, Ghost(seen): Ghost<Seq<Seq<char>>>)
    requires
        strictly_sorted(texts_of(old(out)@)),
        texts_of(old(out)@).to_set() == seen.to_set(),
    ensures
        strictly_sorted(texts_of(final(out)@)),
        texts_of(final(out)@).to_set() == (seen + opt_name(*n)).to_set(),
{
    match n {
        Some(parts) => {
            let name = object_name(parts);
            let ghost x = name@;
            insert_sorted(out, name);
            proof {
                lemma_push_to_set(seen, x);
                assert(seen + opt_name(*n) =~= seen.push(x));
            }
        },
        None => {
            assert(seen + opt_name(*n) =~= seen);
        },
    }
}

fn add_from_names(out: &mut Vec<String>, from: &Vec<SqlTableRef>, Ghost(seen): Ghost<Seq<Seq<char>>>)
    requires
        strictly_sorted(texts_of(old(out)@)),
        texts_of(old(out)@).to_set() == seen.to_set(),
    ensures
        strictly_sorted(texts_of(final(out)@)),
        texts_of(final(out)@).to_set() == (seen + from_names(from@)).to_set(),
{
    let mut i: usize = 0;
    while i < from.len()
        invariant
            0 <= i <= from@.len(),
            strictly_sorted(texts_of(out@)),
            texts_of(out@).to_set() == (seen + from_names(from@.take(i as int))).to_set(),
        decreases from.len() - i,
    {
        let t = &from[i];
        let ghost base = seen + from_names(from@.take(i as int));
        add_name(out, &t.name, Ghost(base));
        let ghost mid = base + opt_name(t.name);
        let mut j: usize = 0;
        while j < t.join_names.len()
            invariant
                0 <= j <= t.join_names@.len(),
                strictly_sorted(texts_of(out@)),
                texts_of(out@).to_set() == (mid + join_names_of(t.join_names@.take(j as int))).to_set(),
            decreases t.join_names.len() - j,
        {
            let ghost cur = mid + join_names_of(t.join_names@.take(j as int));
            add_name(out, &t.join_names[j], Ghost(cur));
            proof {
                assert(t.join_names@.take(j + 1).drop_last() =~= t.join_names@.take(j as int));
                assert(cur + opt_name(t.join_names@[j as int]) =~= mid + join_names_of(
                    t.join_names@.take(j + 1),
                ));
            }
            j = j + 1;
        }
        proof {
            assert(t.join_names@.take(j as int) =~= t.join_names@);
            assert(from@.take(i + 1).drop_last() =~= from@.take(i as int));
            assert(mid + join_names_of(t.join_names@) =~= seen + from_names(from@.take(i + 1)));
        }
        i = i + 1;
    }
    assert(from@.take(i as int) =~= from@);
}

/// The named tables of `sql` (plain `SELECT` queries: `FROM` items and their joins),
/// sorted and without duplicates; none when the SQL does not parse.
pub fn extract_table_names(sql: &str) -> (r: Vec<String>)
    ensures
        strictly_sorted(texts_of(r@)),
        texts_of(r@).to_set() == (match sql_parse(sql@) {
            Ok(stmts) => statement_names(stmts).to_set(),
            Err(_) => Set::empty(),
        }),
{
    let mut out: Vec<String> = Vec::new();
    assert(texts_of(out@).to_set() =~= Set::<Seq<char>>::empty());
    let stmts = match parse_statements(sql) {
        Ok(s) => s,
        Err(_) => {
            return out;
        },
    };
    assert(Seq::<Seq<char>>::empty().to_set() =~= Set::<Seq<char>>::empty());
    let mut i: usize = 0;
    while i < stmts.len()
        invariant
            0 <= i <= stmts@.len(),
            strictly_sorted(texts_of(out@)),
            texts_of(out@).to_set() == statement_names(stmts@.take(i as int)).to_set(),
        decreases stmts.len() - i,
    {
        let ghost base = statement_names(stmts@.take(i as int));
        assert(stmts@.take(i + 1).drop_last() =~= stmts@.take(i as int));
        match &stmts[i] {
            SqlStatement::Query(q) => match &q.select {
                Some(sel) => {
                    add_from_names(&mut out, &sel.from, Ghost(base));
                },
                None => {
                    assert(base + Seq::<Seq<char>>::empty() =~= base);
                },
            },
            _ => {
                assert(base + Seq::<Seq<char>>::empty() =~= base);
            },
        }
        i = i + 1;
    }
    assert(stmts@.take(i as int) =~= stmts@);
    out
}

} // verus!
