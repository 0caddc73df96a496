//! Rewriting an `AVG` aggregate into per-shard partials that merge exactly.
use vstd::prelude::*;

use crate::ingest::events::opt_text;
use crate::routing::sql_ast::{
    parse_statements, reprint_with_select_list, sql_parse, with_select_list_of, SqlExpr,
    SqlSelectItem, SqlStatement,
};
use crate::text::{append, eq_ignore_case, str_eq_ignore_case};

verus! {

/// The argument text of the last unnamed `avg(..)` item of a select list (the name
/// compared without ASCII case); nothing when there is none or its argument is not a
/// plain expression.
pub open spec fn avg_arg_in(items: Seq<SqlSelectItem>) -> Option<Seq<char>>
    decreases items.len(),
{
    if items.len() == 0 {
        None
    } else {
        match items.last() {
            SqlSelectItem::UnnamedExpr(SqlExpr::Function { name, first_arg }) if eq_ignore_case(
                name@,
                "avg"@,
            ) => opt_text(first_arg),
            _ => avg_arg_in(items.drop_last()),
        }
    }
}

/// The `avg` argument of parsed SQL: exactly one statement, a query whose body is a
/// plain `SELECT`.
pub open spec fn avg_arg_of(parsed: Result<Seq<SqlStatement>, Seq<char>>) -> Option<Seq<char>> {
    match parsed {
        Ok(stmts) => if stmts.len() != 1 {
            None
        } else {
            match stmts[0] {
                SqlStatement::Query(q) => match q.select {
                    Some(sel) => avg_arg_in(sel.projection@),
                    None => None,
                },
                _ => None,
            }
        },
        Err(_) => None,
    }
}

/// The select list that replaces `avg(a)`: `sum(a)` and `count(a)`.
pub open spec fn sum_count_select(a: Seq<char>) -> Seq<char> {
    "SELECT sum("@ + a + ") , count("@ + a + ")"@
}

fn avg_arg_exec(items: &Vec<SqlSelectItem>) -> (r: Option<String>)
    ensures
        opt_text(r) == avg_arg_in(items@),
{
    let mut found: Option<String> = None;
    let mut i: usize = 0;
    while i < items.len()
        invariant
            0 <= i <= items.len(),
            opt_text(found) == avg_arg_in(items@.take(i as int)),
        decreases items.len() - i,
    {
        proof {
            assert(items@.take(i + 1).drop_last() =~= items@.take(i as int));
            assert(items@.take(i + 1).last() == items@[i as int]);
        }
        match &items[i] {
            SqlSelectItem::UnnamedExpr(SqlExpr::Function { name, first_arg }) => {
                if str_eq_ignore_case(name.as_str(), "avg") {
                    proof {
                        reveal_strlit("avg");
                    }
                    found = match first_arg {
                        Some(a) => Some(a.clone()),
                        None => None,
                    };
                }
            },
            _ => {},
        }
        i = i + 1;
    }
    assert(items@.take(items.len() as int) =~= items@);
    found
}

/// Rewrites `SELECT avg(expr) FROM ...` into `SELECT sum(expr) , count(expr) FROM ...`,
/// keeping the rest of the statement, so that per-shard partials merge into the mean.
pub fn rewrite_avg_to_sum_count(sql: &str) -> (r: Option<String>)
    ensures
        match avg_arg_of(sql_parse(sql@)) {
            None => r is None,
            Some(a) => (r is Some <==> with_select_list_of(sql@, sum_count_select(a)) is Some)
                && (r matches Some(s) ==> with_select_list_of(sql@, sum_count_select(a)) == Some(
                s@,
            )),
        },
{
    let stmts = match parse_statements(sql) {
        Ok(v) => v,
        Err(_) => {
            return None;
        },
    };
    if stmts.len() != 1 {
        return None;
    }
    let arg = match &stmts[0] {
        SqlStatement::Query(q) => match &q.select {
            Some(sel) => avg_arg_exec(&sel.projection),
            None => None,
        },
        _ => None,
    };
    match arg {
        Some(a) => {
            let mut select = String::from_str("SELECT sum(");
            append(&mut select, a.as_str());
            append(&mut select, ") , count(");
            append(&mut select, a.as_str());
            append(&mut select, ")");
            proof {
                reveal_strlit("SELECT sum(");
                reveal_strlit(") , count(");
                reveal_strlit(")");
            }
            assert(select@ == sum_count_select(a@));
            reprint_with_select_list(sql, select.as_str())
        },
        None => None,
    }
}

} // verus!
