//! SQL classification for PGWire routing.
use vstd::prelude::*;

use crate::routing::dialect::{
    classify_questdb_passthrough, has_extension, has_questdb_extension, plan_result_view,
    questdb_plan,
};
use crate::routing::error::{SqlRouteError, SqlRouteErrorView};
use crate::routing::plan::{AggKind, PlanView, RoutePlan};
use crate::routing::schema::TableRegistry;
use crate::routing::sql_ast::{
    parse_statements, sql_parse, SqlBinOp, SqlExpr, SqlGroupBy, SqlNamePart, SqlQuery,
    SqlSelect, SqlSelectItem, SqlStatement, SqlTableRef, SqlValue,
};
use crate::text::{
    append, chars_of, eq_ignore_case, eq_ignore_case_vec, first_from, lower_seq, lower_vec,
    parse_usize, push_char, str_eq_vec, string_of, usize_of,
};

verus! {

/// Routing information of a single-shard read.
#[derive(Debug, Clone, PartialEq, Eq)]
pub struct SqlRouteInfo {
    pub table: String,
    pub shard_key: Option<String>,
    /// 0-based bind parameter index when the shard key is a placeholder (`$1` → `0`).
    pub shard_key_param: Option<usize>,
}

/// How PGWire handles a statement.
#[derive(Debug, Clone, PartialEq, Eq)]
pub enum SqlClassify {
    Routable(RoutePlan),
    /// Session/transaction control relayed to the active backend unchanged.
    Passthrough,
}

pub enum ClassifyView {
    Routable(PlanView),
    Passthrough,
}

pub open spec fn classify_view(r: Result<SqlClassify, SqlRouteError>) -> Result<
    ClassifyView,
    SqlRouteErrorView,
> {
    match r {
        Ok(SqlClassify::Routable(p)) => Ok(ClassifyView::Routable(p@)),
        Ok(SqlClassify::Passthrough) => Ok(ClassifyView::Passthrough),
        Err(e) => Err(e@),
    }
}

pub open spec fn unsupported<T>(m: Seq<char>) -> Result<T, SqlRouteErrorView> {
    Err(SqlRouteErrorView::Unsupported(m))
}

// ---------------------------------------------------------------------------
// Specification
// ---------------------------------------------------------------------------
pub open spec fn name_part_text(p: SqlNamePart) -> Seq<char> {
    match p {
        SqlNamePart::Identifier(v) => v@,
        SqlNamePart::Function => "?"@,
    }
}

/// A dotted name's parts joined with `.` (function parts shown as `?`).
pub open spec fn join_name(parts: Seq<SqlNamePart>) -> Seq<char>
    decreases parts.len(),
{
    if parts.len() == 0 {
        Seq::empty()
    } else if parts.len() == 1 {
        name_part_text(parts[0])
    } else {
        join_name(parts.drop_last()) + "."@ + name_part_text(parts.last())
    }
}

/// The single plain table of a non-join `SELECT`.
pub open spec fn primary_table_spec(from: Seq<SqlTableRef>) -> Result<Seq<char>, SqlRouteErrorView> {
    if from.len() != 1 {
        unsupported("exactly one table in FROM is required for non-join queries"@)
    } else if from[0].join_count != 0 {
        unsupported("joins must be handled via federated path"@)
    } else {
        match from[0].name {
            Some(parts) => Ok(join_name(parts@)),
            None => unsupported("only plain table references are supported in FROM"@),
        }
    }
}

/// The expression names `column` (compared without ASCII case).
pub open spec fn column_matches_spec(e: SqlExpr, column: Seq<char>) -> bool {
    match e {
        SqlExpr::Identifier(v) => eq_ignore_case(v@, lower_seq(column)),
        SqlExpr::CompoundIdentifier(parts) => parts@.len() > 0 && eq_ignore_case(
            parts@.last()@,
            lower_seq(column),
        ),
        _ => false,
    }
}

/// `$N` / `:N` placeholder text as a 0-based index.
pub open spec fn placeholder_index_spec(p: Seq<char>) -> Option<usize> {
    let digits = p.subrange(first_from(p, |c: char| c != '$' && c != ':', 0), p.len() as int);
    match parse_usize(digits) {
        Some(n) => if n >= 1 {
            Some((n - 1) as usize)
        } else {
            None
        },
        None => None,
    }
}

pub open spec fn value_text(v: SqlValue) -> Option<Seq<char>> {
    match v {
        SqlValue::Text(s) => Some(s@),
        SqlValue::Number(n) => Some(n@),
        SqlValue::Boolean(b) => Some(
            if b {
                "true"@
            } else {
                "false"@
            },
        ),
        _ => None,
    }
}

/// The shard key a compared expression supplies: literal text or parameter index.
pub open spec fn key_from_expr(e: SqlExpr) -> (Option<Seq<char>>, Option<usize>) {
    match e {
        SqlExpr::Value(SqlValue::Placeholder(p)) => (None, placeholder_index_spec(p@)),
        SqlExpr::Value(v) => (value_text(v), None),
        SqlExpr::Identifier(v) => (Some(v@), None),
        _ => (None, None),
    }
}

pub open spec fn key_found(m: (Option<Seq<char>>, Option<usize>)) -> bool {
    m.0 is Some || m.1 is Some
}

/// The shard key of a `WHERE` clause: `col = value` or `value = col`, searched
/// through `AND` left first.
pub open spec fn key_from_where(e: SqlExpr, column: Seq<char>) -> (Option<Seq<char>>, Option<usize>)
    decreases e,
{
    match e {
        SqlExpr::BinaryOp { left, op, right } => match op {
            SqlBinOp::Eq => if column_matches_spec(*left, column) {
                key_from_expr(*right)
            } else if column_matches_spec(*right, column) {
                key_from_expr(*left)
            } else {
                (None, None)
            },
            SqlBinOp::And => {
                let l = key_from_where(*left, column);
                if key_found(l) {
                    l
                } else {
                    key_from_where(*right, column)
                }
            },
            SqlBinOp::Other => (None, None),
        },
        _ => (None, None),
    }
}

/// Column names listed in `GROUP BY`.
pub open spec fn group_cols_of(es: Seq<SqlExpr>) -> Seq<Seq<char>>
    decreases es.len(),
{
    if es.len() == 0 {
        Seq::empty()
    } else {
        let prev = group_cols_of(es.drop_last());
        match es.last() {
            SqlExpr::Identifier(v) => prev.push(v@),
            SqlExpr::CompoundIdentifier(parts) => if parts@.len() > 0 {
                prev.push(parts@.last()@)
            } else {
                prev
            },
            _ => prev,
        }
    }
}

pub open spec fn group_cols_spec(g: SqlGroupBy) -> Seq<Seq<char>> {
    match g {
        SqlGroupBy::Expressions(es) => group_cols_of(es@),
        SqlGroupBy::All => Seq::empty(),
    }
}

/// The aggregate a function name denotes.
pub open spec fn agg_kind_of(name: Seq<char>) -> Option<AggKind> {
    let n = lower_seq(name);
    if n == "count"@ {
        Some(AggKind::Count)
    } else if n == "sum"@ {
        Some(AggKind::Sum)
    } else if n == "min"@ {
        Some(AggKind::Min)
    } else if n == "max"@ {
        Some(AggKind::Max)
    } else if n == "avg"@ {
        Some(AggKind::Avg)
    } else {
        None
    }
}

/// Aggregates among the projection items, in order.
pub open spec fn agg_kinds_of(items: Seq<SqlSelectItem>) -> Seq<AggKind>
    decreases items.len(),
{
    if items.len() == 0 {
        Seq::empty()
    } else {
        let prev = agg_kinds_of(items.drop_last());
        match items.last() {
            SqlSelectItem::UnnamedExpr(SqlExpr::Function { name, .. }) => match agg_kind_of(name@) {
                Some(k) => prev.push(k),
                None => prev,
            },
            _ => prev,
        }
    }
}

/// The single aggregate of a projection without `GROUP BY`, scanning from item `i`.
pub open spec fn bare_agg_from(items: Seq<SqlSelectItem>, i: int, found: Option<AggKind>) -> Result<
    Option<AggKind>,
    SqlRouteErrorView,
>
    decreases items.len() - i,
{
    if i < 0 || i >= items.len() {
        Ok(found)
    } else {
        match items[i] {
            SqlSelectItem::UnnamedExpr(SqlExpr::Function { name, .. }) => match agg_kind_of(name@) {
                None => unsupported("unsupported aggregate function"@),
                Some(k) => if found is Some {
                    unsupported("multiple bare aggregates not supported in aggregate scan"@)
                } else {
                    bare_agg_from(items, i + 1, Some(k))
                },
            },
            SqlSelectItem::Wildcard => bare_agg_from(items, i + 1, found),
            _ => Ok(None),
        }
    }
}

pub open spec fn bare_aggregate_spec(s: SqlSelect) -> Result<Option<AggKind>, SqlRouteErrorView> {
    let has_group_by = match s.group_by {
        SqlGroupBy::Expressions(es) => es@.len() > 0,
        SqlGroupBy::All => true,
    };
    if has_group_by {
        Ok(None)
    } else {
        bare_agg_from(s.projection@, 0, None)
    }
}

pub open spec fn has_join(from: Seq<SqlTableRef>) -> bool {
    exists|i: int| 0 <= i < from.len() && (#[trigger] from[i]).join_count != 0
}

/// The plan of a `SELECT` query.
pub open spec fn plan_query_spec(q: SqlQuery, sql: Seq<char>, column: Seq<char>, allow: bool) -> Result<
    PlanView,
    SqlRouteErrorView,
> {
    if q.has_with {
        unsupported("CTEs are not supported yet"@)
    } else {
        match q.select {
            None => unsupported("only simple SELECT queries are supported"@),
            Some(s) => if s.from@.len() > 0 && has_join(s.from@) {
                Ok(PlanView::Join { sql })
            } else {
                match primary_table_spec(s.from@) {
                    Err(e) => Err(e),
                    Ok(table) => {
                        let km = match s.selection {
                            Some(e) => key_from_where(e, column),
                            None => (None, None),
                        };
                        if key_found(km) {
                            Ok(
                                PlanView::SingleShard {
                                    table,
                                    shard_key: km.0,
                                    shard_key_param: km.1,
                                },
                            )
                        } else if group_cols_spec(s.group_by).len() > 0 {
                            let kinds = agg_kinds_of(s.projection@);
                            if kinds.len() == 0 {
                                unsupported("GROUP BY requires aggregate functions in SELECT"@)
                            } else {
                                Ok(
                                    PlanView::GroupBy {
                                        table,
                                        group_cols: group_cols_spec(s.group_by),
                                        agg_kinds: kinds,
                                    },
                                )
                            }
                        } else {
                            match bare_aggregate_spec(s) {
                                Err(e) => Err(e),
                                Ok(Some(k)) => Ok(PlanView::AggregateScan { table, agg_kind: k }),
                                Ok(None) => if !allow && q.has_order_by {
                                    unsupported("ORDER BY on full scans is not supported"@)
                                } else if !allow && (q.has_limit || q.has_fetch) {
                                    unsupported("LIMIT/OFFSET on full scans is not supported"@)
                                } else {
                                    Ok(PlanView::FullScan { table })
                                },
                            }
                        }
                    },
                }
            },
        }
    }
}

/// Session and transaction control, which goes to the backend unchanged.
pub open spec fn passthrough_statement(s: SqlStatement) -> bool {
    !(s is Query || s is Other)
}

fn is_passthrough_statement(s: &SqlStatement) -> (r: bool)
    ensures
        r == passthrough_statement(*s),
{
    match s {
        SqlStatement::StartTransaction | SqlStatement::Commit | SqlStatement::Rollback
        | SqlStatement::SetVariable | SqlStatement::ShowVariable | SqlStatement::ShowVariables
        | SqlStatement::Discard | SqlStatement::Deallocate | SqlStatement::Close => true,
        SqlStatement::Query(_) | SqlStatement::Other => false,
    }
}

/// Classification of parsed SQL.
pub open spec fn classify_parsed_spec(
    parsed: Result<Seq<SqlStatement>, Seq<char>>,
    sql: Seq<char>,
    column: Seq<char>,
    allow: bool,
) -> Result<ClassifyView, SqlRouteErrorView> {
    match parsed {
        Err(m) => Err(SqlRouteErrorView::Parse(m)),
        Ok(stmts) => if stmts.len() != 1 {
            unsupported("only single-statement queries are supported"@)
        } else {
            if passthrough_statement(stmts[0]) {
                Ok(ClassifyView::Passthrough)
            } else {
                match stmts[0] {
                    SqlStatement::Query(q) => match plan_query_spec(q, sql, column, allow) {
                        Ok(p) => Ok(ClassifyView::Routable(p)),
                        Err(e) => Err(e),
                    },
                    _ => unsupported("only read queries (SELECT) are routed via SQL parser"@),
                }
            }
        },
    }
}

/// Classification of SQL: QuestDB dialect by keyword, everything else by parsing.
pub open spec fn classify_spec(
    sql: Seq<char>,
    column: Seq<char>,
    allow: bool,
    parsed: Result<Seq<SqlStatement>, Seq<char>>,
) -> Result<ClassifyView, SqlRouteErrorView> {
    if has_extension(sql) {
        match questdb_plan(sql, column) {
            Ok(p) => Ok(ClassifyView::Routable(p)),
            Err(e) => Err(e),
        }
    } else {
        classify_parsed_spec(parsed, sql, column, allow)
    }
}

/// A routable plan, or the refusal of session SQL.
pub open spec fn plan_of(c: Result<ClassifyView, SqlRouteErrorView>) -> Result<
    PlanView,
    SqlRouteErrorView,
> {
    match c {
        Ok(ClassifyView::Routable(p)) => Ok(p),
        Ok(ClassifyView::Passthrough) => unsupported(
            "session/transaction SQL is not shard-routable"@,
        ),
        Err(e) => Err(e),
    }
}


// ---------------------------------------------------------------------------
// Implementation
// ---------------------------------------------------------------------------
fn unsupported_err(m: &str) -> (r: SqlRouteError)
    ensures
        r@ == SqlRouteErrorView::Unsupported(m@),
{
    SqlRouteError::Unsupported(String::from_str(m))
}

fn join_name_exec(parts: &Vec<SqlNamePart>) -> (r: String)
    ensures
        r@ == join_name(parts@),
{
    let mut s = String::new();
    let mut i: usize = 0;
    while i < parts.len()
        invariant
            0 <= i <= parts.len(),
            s@ == join_name(parts@.take(i as int)),
        decreases parts.len() - i,
    {
        if i > 0 {
            append(&mut s, ".");
        }
        match &parts[i] {
            SqlNamePart::Identifier(v) => append(&mut s, v.as_str()),
            SqlNamePart::Function => append(&mut s, "?"),
        }
        proof {
            let t = parts@.take(i + 1);
            assert(t.drop_last() =~= parts@.take(i as int));
            assert(t.last() == parts@[i as int]);
            if i == 0 {
                assert(join_name(parts@.take(0)) =~= Seq::<char>::empty());
            }
        }
        i = i + 1;
    }
    assert(parts@.take(parts.len() as int) =~= parts@);
    s
}

fn primary_table(from: &Vec<SqlTableRef>) -> (r: Result<String, SqlRouteError>)
    ensures
        (match r {
            Ok(t) => Ok::<Seq<char>, SqlRouteErrorView>(t@),
            Err(e) => Err(e@),
        }) == primary_table_spec(from@),
{
    if from.len() != 1 {
        return Err(unsupported_err("exactly one table in FROM is required for non-join queries"));
    }
    if from[0].join_count != 0 {
        return Err(unsupported_err("joins must be handled via federated path"));
    }
    match &from[0].name {
        Some(parts) => Ok(join_name_exec(parts)),
        None => Err(unsupported_err("only plain table references are supported in FROM")),
    }
}

fn column_matches(e: &SqlExpr, column: &str) -> (r: bool)
    ensures
        r == column_matches_spec(*e, column@),
{
    let col = lower_vec(&chars_of(column));
    match e {
        SqlExpr::Identifier(v) => eq_ignore_case_vec(&chars_of(v.as_str()), &col),
        SqlExpr::CompoundIdentifier(parts) => {
            if parts.len() == 0 {
                false
            } else {
                eq_ignore_case_vec(&chars_of(parts[parts.len() - 1].as_str()), &col)
            }
        },
        _ => false,
    }
}

/// Bind parameter index of a `$N` / `:N` placeholder (`$1` → `0`).
fn placeholder_index(p: &str) -> (r: Option<usize>)
    ensures
        r == placeholder_index_spec(p@),
{
    let v = chars_of(p);
    let mut i: usize = 0;
    while i < v.len()
        invariant
            0 <= i <= v.len(),
            first_from(v@, |c: char| c != '$' && c != ':', 0) == first_from(
                v@,
                |c: char| c != '$' && c != ':',
                i as int,
            ),
        ensures
            first_from(v@, |c: char| c != '$' && c != ':', 0) == i,
        decreases v.len() - i,
    {
        if v[i] != '$' && v[i] != ':' {
            break;
        }
        i = i + 1;
    }
    match usize_of(&v, i, v.len()) {
        Some(n) => if n >= 1 {
            Some(n - 1)
        } else {
            None
        },
        None => None,
    }
}

struct ShardKeyMatch {
    literal: Option<String>,
    param_index: Option<usize>,
}

spec fn match_view(m: ShardKeyMatch) -> (Option<Seq<char>>, Option<usize>) {
    (
        match m.literal {
            Some(s) => Some(s@),
            None => None,
        },
        m.param_index,
    )
}

fn no_match() -> (r: ShardKeyMatch)
    ensures
        match_view(r) == (None::<Seq<char>>, None::<usize>),
{
    ShardKeyMatch { literal: None, param_index: None }
}

fn value_to_string(v: &SqlValue) -> (r: Option<String>)
    ensures
        (match r {
            Some(s) => Some(s@),
            None => None,
        }) == value_text(*v),
{
    match v {
        SqlValue::Text(s) => Some(s.clone()),
        SqlValue::Number(n) => Some(n.clone()),
        SqlValue::Boolean(b) => Some(
            if *b {
                String::from_str("true")
            } else {
                String::from_str("false")
            },
        ),
        _ => None,
    }
}

fn shard_key_from_expr(e: &SqlExpr) -> (r: ShardKeyMatch)
    ensures
        match_view(r) == key_from_expr(*e),
{
    match e {
        SqlExpr::Value(SqlValue::Placeholder(p)) => ShardKeyMatch {
            literal: None,
            param_index: placeholder_index(p.as_str()),
        },
        SqlExpr::Value(v) => ShardKeyMatch { literal: value_to_string(v), param_index: None },
        SqlExpr::Identifier(v) => ShardKeyMatch { literal: Some(v.clone()), param_index: None },
        _ => no_match(),
    }
}

fn shard_key_from_where(e: &SqlExpr, column: &str) -> (r: ShardKeyMatch)
    ensures
        match_view(r) == key_from_where(*e, column@),
    decreases e,
{
    match e {
        SqlExpr::BinaryOp { left, op, right } => match op {
            SqlBinOp::Eq => {
                if column_matches(&**left, column) {
                    shard_key_from_expr(&**right)
                } else if column_matches(&**right, column) {
                    shard_key_from_expr(&**left)
                } else {
                    no_match()
                }
            },
            SqlBinOp::And => {
                let l = shard_key_from_where(&**left, column);
                if l.literal.is_some() || l.param_index.is_some() {
                    l
                } else {
                    shard_key_from_where(&**right, column)
                }
            },
            SqlBinOp::Other => no_match(),
        },
        _ => no_match(),
    }
}

fn extract_group_cols(g: &SqlGroupBy) -> (r: Vec<String>)
    ensures
        crate::routing::plan::strings_view(r@) == group_cols_spec(*g),
{
    let mut out: Vec<String> = Vec::new();
    match g {
        SqlGroupBy::All => {
            assert(crate::routing::plan::strings_view(out@) =~= Seq::<Seq<char>>::empty());
            out
        },
        SqlGroupBy::Expressions(es) => {
            let mut i: usize = 0;
            while i < es.len()
                invariant
                    0 <= i <= es.len(),
                    crate::routing::plan::strings_view(out@) == group_cols_of(es@.take(i as int)),
                decreases es.len() - i,
            {
                let ghost before = out@;
                proof {
                    assert(es@.take(i + 1).drop_last() =~= es@.take(i as int));
                    assert(es@.take(i + 1).last() == es@[i as int]);
                }
                match &es[i] {
                    SqlExpr::Identifier(v) => {
                        out.push(v.clone());
                    },
                    SqlExpr::CompoundIdentifier(parts) => {
                        if parts.len() > 0 {
                            out.push(parts[parts.len() - 1].clone());
                        }
                    },
                    _ => {},
                }
                assert(crate::routing::plan::strings_view(out@) =~= group_cols_of(
                    es@.take(i + 1),
                ));
                i = i + 1;
            }
            assert(es@.take(es.len() as int) =~= es@);
            out
        },
    }
}

fn agg_kind_from_name(name: &String) -> (r: Option<AggKind>)
    ensures
        r == agg_kind_of(name@),
{
    let n = lower_vec(&chars_of(name.as_str()));
    if str_eq_vec(&n, &chars_of("count")) {
        Some(AggKind::Count)
    } else if str_eq_vec(&n, &chars_of("sum")) {
        Some(AggKind::Sum)
    } else if str_eq_vec(&n, &chars_of("min")) {
        Some(AggKind::Min)
    } else if str_eq_vec(&n, &chars_of("max")) {
        Some(AggKind::Max)
    } else if str_eq_vec(&n, &chars_of("avg")) {
        Some(AggKind::Avg)
    } else {
        None
    }
}

fn extract_agg_kinds(items: &Vec<SqlSelectItem>) -> (r: Vec<AggKind>)
    ensures
        r@ == agg_kinds_of(items@),
{
    let mut kinds: Vec<AggKind> = Vec::new();
    let mut i: usize = 0;
    while i < items.len()
        invariant
            0 <= i <= items.len(),
            kinds@ == agg_kinds_of(items@.take(i as int)),
        decreases items.len() - i,
    {
        proof {
            assert(items@.take(i + 1).drop_last() =~= items@.take(i as int));
            assert(items@.take(i + 1).last() == items@[i as int]);
        }
        match &items[i] {
            SqlSelectItem::UnnamedExpr(SqlExpr::Function { name, .. }) => {
                match agg_kind_from_name(name) {
                    Some(k) => kinds.push(k),
                    None => {},
                }
            },
            _ => {},
        }
        i = i + 1;
    }
    assert(items@.take(items.len() as int) =~= items@);
    kinds
}

fn detect_bare_aggregate(s: &SqlSelect) -> (r: Result<Option<AggKind>, SqlRouteError>)
    ensures
        (match r {
            Ok(k) => Ok::<Option<AggKind>, SqlRouteErrorView>(k),
            Err(e) => Err(e@),
        }) == bare_aggregate_spec(*s),
{
    let has_group_by = match &s.group_by {
        SqlGroupBy::Expressions(es) => es.len() > 0,
        SqlGroupBy::All => true,
    };
    if has_group_by {
        return Ok(None);
    }
    let mut found: Option<AggKind> = None;
    let mut i: usize = 0;
    while i < s.projection.len()
        invariant
            0 <= i <= s.projection.len(),
            bare_aggregate_spec(*s) == bare_agg_from(s.projection@, i as int, found),
        decreases s.projection.len() - i,
    {
        match &s.projection[i] {
            SqlSelectItem::UnnamedExpr(SqlExpr::Function { name, .. }) => {
                let kind = match agg_kind_from_name(name) {
                    Some(k) => k,
                    None => {
                        return Err(unsupported_err("unsupported aggregate function"));
                    },
                };
                if found.is_some() {
                    return Err(
                        unsupported_err("multiple bare aggregates not supported in aggregate scan"),
                    );
                }
                found = Some(kind);
            },
            SqlSelectItem::Wildcard => {},
            _ => {
                return Ok(None);
            },
        }
        i = i + 1;
    }
    Ok(found)
}

fn any_join(from: &Vec<SqlTableRef>) -> (r: bool)
    ensures
        r == has_join(from@),
{
    let mut i: usize = 0;
    while i < from.len()
        invariant
            0 <= i <= from.len(),
            forall|j: int| 0 <= j < i ==> (#[trigger] from@[j]).join_count == 0,
        decreases from.len() - i,
    {
        if from[i].join_count != 0 {
            return true;
        }
        i = i + 1;
    }
    false
}

fn copy_str(s: &str) -> (r: String)
    ensures
        r@ == s@,
{
    String::from_str(s)
}

fn plan_query(q: &SqlQuery, sql: &str, column: &str, allow: bool) -> (r: Result<
    RoutePlan,
    SqlRouteError,
>)
    ensures
        plan_result_view(r) == plan_query_spec(*q, sql@, column@, allow),
{
    if q.has_with {
        return Err(unsupported_err("CTEs are not supported yet"));
    }
    let select = match &q.select {
        Some(s) => s,
        None => {
            return Err(unsupported_err("only simple SELECT queries are supported"));
        },
    };
    if select.from.len() > 0 && any_join(&select.from) {
        return Ok(RoutePlan::Join { sql: copy_str(sql) });
    }
    let table = match primary_table(&select.from) {
        Ok(t) => t,
        Err(e) => {
            return Err(e);
        },
    };
    let m = match &select.selection {
        Some(e) => shard_key_from_where(e, column),
        None => no_match(),
    };
    if m.literal.is_some() || m.param_index.is_some() {
        return Ok(
            RoutePlan::SingleShard { table, shard_key: m.literal, shard_key_param: m.param_index },
        );
    }
    let group_cols = extract_group_cols(&select.group_by);
    if group_cols.len() > 0 {
        let agg_kinds = extract_agg_kinds(&select.projection);
        if agg_kinds.len() == 0 {
            return Err(unsupported_err("GROUP BY requires aggregate functions in SELECT"));
        }
        return Ok(RoutePlan::GroupBy { table, group_cols, agg_kinds });
    }
    match detect_bare_aggregate(select) {
        Err(e) => {
            return Err(e);
        },
        Ok(Some(agg_kind)) => {
            return Ok(RoutePlan::AggregateScan { table, agg_kind });
        },
        Ok(None) => {},
    }
    if !allow {
        if q.has_order_by {
            return Err(unsupported_err("ORDER BY on full scans is not supported"));
        }
        if q.has_limit || q.has_fetch {
            return Err(unsupported_err("LIMIT/OFFSET on full scans is not supported"));
        }
    }
    Ok(RoutePlan::FullScan { table })
}

/// Classify parsed SQL (the parser's output for `sql`) for PGWire handling.
pub fn classify_parsed(
    parsed: Result<Vec<SqlStatement>, String>,
    sql: &str,
    shard_key_column: &str,
    scan_allow_order_by: bool,
) -> (r: Result<SqlClassify, SqlRouteError>)
    ensures
        classify_view(r) == classify_parsed_spec(
            match parsed {
                Ok(v) => Ok(v@),
                Err(e) => Err(e@),
            },
            sql@,
            shard_key_column@,
            scan_allow_order_by,
        ),
{
    let statements = match parsed {
        Ok(v) => v,
        Err(e) => {
            return Err(SqlRouteError::Parse(e));
        },
    };
    if statements.len() != 1 {
        return Err(unsupported_err("only single-statement queries are supported"));
    }
    if is_passthrough_statement(&statements[0]) {
        return Ok(SqlClassify::Passthrough);
    }
    match &statements[0] {
        SqlStatement::Query(q) => match plan_query(q, sql, shard_key_column, scan_allow_order_by) {
            Ok(p) => Ok(SqlClassify::Routable(p)),
            Err(e) => Err(e),
        },
        _ => Err(unsupported_err("only read queries (SELECT) are routed via SQL parser")),
    }
}

/// Classify SQL for PGWire handling.
pub fn classify_sql(
    sql: &str,
    shard_key_column: &str,
    registry: &TableRegistry,
    scan_allow_order_by: bool,
) -> (r: Result<SqlClassify, SqlRouteError>)
    ensures
        classify_view(r) == classify_spec(
            sql@,
            shard_key_column@,
            scan_allow_order_by,
            sql_parse(sql@),
        ),
{
    if has_questdb_extension(sql) {
        return match classify_questdb_passthrough(sql, shard_key_column) {
            Ok(p) => Ok(SqlClassify::Routable(p)),
            Err(e) => Err(e),
        };
    }
    let parsed = parse_statements(sql);
    classify_parsed(parsed, sql, shard_key_column, scan_allow_order_by)
}

fn routable_plan(c: Result<SqlClassify, SqlRouteError>) -> (r: Result<RoutePlan, SqlRouteError>)
    ensures
        plan_result_view(r) == plan_of(classify_view(c)),
{
    match c {
        Ok(SqlClassify::Routable(plan)) => Ok(plan),
        Ok(SqlClassify::Passthrough) => Err(
            unsupported_err("session/transaction SQL is not shard-routable"),
        ),
        Err(e) => Err(e),
    }
}

pub fn plan_sql(
    sql: &str,
    shard_key_column: &str,
    registry: &TableRegistry,
    scan_allow_order_by: bool,
) -> (r: Result<RoutePlan, SqlRouteError>)
    ensures
        plan_result_view(r) == plan_of(
            classify_spec(sql@, shard_key_column@, scan_allow_order_by, sql_parse(sql@)),
        ),
{
    routable_plan(classify_sql(sql, shard_key_column, registry, scan_allow_order_by))
}

pub open spec fn info_of(p: Result<PlanView, SqlRouteErrorView>) -> Result<
    (Seq<char>, Option<Seq<char>>, Option<usize>),
    SqlRouteErrorView,
> {
    match p {
        Ok(PlanView::SingleShard { table, shard_key, shard_key_param }) => Ok(
            (table, shard_key, shard_key_param),
        ),
        Ok(_) => unsupported("query is not a single-shard route"@),
        Err(e) => Err(e),
    }
}

pub open spec fn info_result_view(r: Result<SqlRouteInfo, SqlRouteError>) -> Result<
    (Seq<char>, Option<Seq<char>>, Option<usize>),
    SqlRouteErrorView,
> {
    match r {
        Ok(i) => Ok(
            (
                i.table@,
                match i.shard_key {
                    Some(k) => Some(k@),
                    None => None,
                },
                i.shard_key_param,
            ),
        ),
        Err(e) => Err(e@),
    }
}

fn route_plan_to_info(r: Result<RoutePlan, SqlRouteError>) -> (out: Result<
    SqlRouteInfo,
    SqlRouteError,
>)
    ensures
        info_result_view(out) == info_of(plan_result_view(r)),
{
    match r {
        Ok(RoutePlan::SingleShard { table, shard_key, shard_key_param }) => Ok(
            SqlRouteInfo { table, shard_key, shard_key_param },
        ),
        Ok(_) => Err(unsupported_err("query is not a single-shard route")),
        Err(e) => Err(e),
    }
}

/// Analyze a read-only SQL statement for shard routing (empty registry, no ORDER BY
/// on scans).
pub fn analyze_read_sql(sql: &str, shard_key_column: &str) -> (r: Result<
    SqlRouteInfo,
    SqlRouteError,
>)
    ensures
        info_result_view(r) == info_of(
            plan_of(classify_spec(sql@, shard_key_column@, false, sql_parse(sql@))),
        ),
{
    let registry = TableRegistry::default();
    route_plan_to_info(routable_plan(classify_sql(sql, shard_key_column, &registry, false)))
}

/// The aggregate a projection function stands for is the one it names, in any ASCII
/// case: `count`, `sum`, `min`, `max` and `avg` give `Count`, `Sum`, `Min`, `Max` and
/// `Avg`.
pub proof fn law_aggregate_kind_is_named_function(name: Seq<char>)
    ensures
        lower_seq(name) == "count"@ ==> agg_kind_of(name) == Some(AggKind::Count),
        lower_seq(name) == "sum"@ ==> agg_kind_of(name) == Some(AggKind::Sum),
        lower_seq(name) == "min"@ ==> agg_kind_of(name) == Some(AggKind::Min),
        lower_seq(name) == "max"@ ==> agg_kind_of(name) == Some(AggKind::Max),
        lower_seq(name) == "avg"@ ==> agg_kind_of(name) == Some(AggKind::Avg),
{
    reveal_strlit("count");
    reveal_strlit("sum");
    reveal_strlit("min");
    reveal_strlit("max");
    reveal_strlit("avg");
    assert("min"@[0] != "sum"@[0]);
    assert("max"@[0] != "sum"@[0]);
    assert("max"@[1] != "min"@[1]);
    assert("avg"@[0] != "sum"@[0]);
    assert("avg"@[0] != "min"@[0]);
    assert("avg"@[0] != "max"@[0]);
}

} // verus!
