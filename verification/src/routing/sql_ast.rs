//! The parts of a parsed SQL statement that routing reads.
//!
//! Statements are parsed by `sqlparser` (generic dialect). The parse result is carried
//! into the crate's own statement shapes, which keep exactly the nodes the planner
//! inspects: statement kind, query clauses, `FROM` items, the `WHERE` tree, `GROUP BY`
//! and the projection.
use vstd::prelude::*;

use sqlparser::ast::{
    BinaryOperator, Expr, FunctionArg, FunctionArgExpr, FunctionArguments, GroupByExpr, ObjectName,
    ObjectNamePart, Query, Select, SelectItem, SetExpr, Statement, TableFactor, TableWithJoins, Value,
};
use sqlparser::dialect::GenericDialect;
use sqlparser::parser::Parser;

verus! {

/// A parsed statement, as far as routing is concerned.
#[derive(Debug)]
pub enum SqlStatement {
    /// `BEGIN` / `START TRANSACTION`.
    StartTransaction,
    Commit,
    Rollback,
    SetVariable,
    /// `SHOW name`.
    ShowVariable,
    /// `SHOW VARIABLES`.
    ShowVariables,
    Discard,
    Deallocate,
    Close,
    /// A query (`SELECT ...`).
    Query(SqlQuery),
    /// Anything else (writes, DDL, ...).
    Other,
}

/// The clauses of a query that routing reads.
#[derive(Debug)]
pub struct SqlQuery {
    /// A `WITH` clause is present.
    pub has_with: bool,
    /// The body, when it is a plain `SELECT`.
    pub select: Option<SqlSelect>,
    pub has_order_by: bool,
    /// A `LIMIT`/`OFFSET` clause is present.
    pub has_limit: bool,
    /// A `FETCH` clause is present.
    pub has_fetch: bool,
}

/// The parts of a `SELECT` that routing reads.
#[derive(Debug)]
pub struct SqlSelect {
    pub from: Vec<SqlTableRef>,
    pub selection: Option<SqlExpr>,
    pub group_by: SqlGroupBy,
    pub projection: Vec<SqlSelectItem>,
}

/// One `FROM` item with the joins attached to it.
#[derive(Debug, Clone)]
pub struct SqlTableRef {
    /// The name parts when the relation is a named table.
    pub name: Option<Vec<SqlNamePart>>,
    pub join_count: usize,
    /// For each join, the name parts of its relation when that is a named table.
    pub join_names: Vec<Option<Vec<SqlNamePart>>>,
}

/// One part of a dotted object name.
#[derive(Debug, Clone)]
pub enum SqlNamePart {
    Identifier(String),
    /// A dialect-specific function producing an identifier.
    Function,
}

#[derive(Debug)]
pub enum SqlGroupBy {
    All,
    Expressions(Vec<SqlExpr>),
}

#[derive(Debug)]
pub enum SqlSelectItem {
    UnnamedExpr(SqlExpr),
    Wildcard,
    Other,
}

/// Expression nodes that routing distinguishes.
#[derive(Debug)]
pub enum SqlExpr {
    Identifier(String),
    CompoundIdentifier(Vec<String>),
    BinaryOp { left: Box<SqlExpr>, op: SqlBinOp, right: Box<SqlExpr> },
    Value(SqlValue),
    /// A function call: its name as SQL text, and the SQL text of its first argument
    /// when the arguments are a plain list whose first one is an unnamed expression.
    Function { name: String, first_arg: Option<String> },
    Other,
}

#[derive(Debug, Clone, Copy, PartialEq, Eq)]
pub enum SqlBinOp {
    Eq,
    And,
    Other,
}

/// Literal values.
#[derive(Debug, Clone)]
pub enum SqlValue {
    /// A single-quoted, double-quoted or escaped string literal.
    Text(String),
    Number(String),
    Boolean(bool),
    Null,
    /// A bind placeholder such as `$1`.
    Placeholder(String),
    Other,
}

#[verifier::external_type_specification]
#[verifier::external_body]
pub struct ExStatement(Statement);

#[verifier::external_type_specification]
#[verifier::external_body]
pub struct ExQuery(Query);

#[verifier::external_type_specification]
#[verifier::external_body]
pub struct ExSelect(Select);

#[verifier::external_type_specification]
#[verifier::external_body]
pub struct ExTableWithJoins(TableWithJoins);

#[verifier::external_type_specification]
#[verifier::external_body]
pub struct ExObjectName(ObjectName);

#[verifier::external_type_specification]
#[verifier::external_body]
pub struct ExTableFactor(TableFactor);

#[verifier::external_type_specification]
#[verifier::external_body]
pub struct ExGroupByExpr(GroupByExpr);

#[verifier::external_type_specification]
#[verifier::external_body]
pub struct ExSelectItem(SelectItem);

#[verifier::external_type_specification]
#[verifier::external_body]
pub struct ExExpr(Expr);

#[verifier::external_type_specification]
#[verifier::external_body]
pub struct ExBinaryOperator(BinaryOperator);

#[verifier::external_type_specification]
#[verifier::external_body]
pub struct ExValue(Value);

#[verifier::external_type_specification]
#[verifier::external_body]
pub struct ExFunctionArguments(FunctionArguments);

/// What `sqlparser`'s generic-dialect parser makes of `sql`: the statements, carried
/// into the crate's shapes, or the parser's error message.
pub uninterp spec fn sql_parse(sql: Seq<char>) -> Result<Seq<SqlStatement>, Seq<char>>;

/// `sqlparser::parser::Parser::parse_sql` with `GenericDialect`. Its result is named
/// `sql_parse` (a function of the SQL text alone); nothing else is claimed of it.
#[verifier::external_body]
pub fn parse_statements(sql: &str) -> (r: Result<Vec<SqlStatement>, String>)
    ensures
        (match r {
            Ok(v) => sql_parse(sql@) == Ok::<Seq<SqlStatement>, Seq<char>>(v@),
            Err(e) => sql_parse(sql@) == Err::<Seq<SqlStatement>, Seq<char>>(e@),
        }),
{
    match Parser::parse_sql(&GenericDialect {}, sql) {
        Ok(stmts) => Ok(stmts.iter().map(statement_shape).collect()),
        Err(e) => Err(e.to_string()),
    }
}

/// What `sqlparser` prints for the first statement of `sql` once the select list of its
/// query is replaced by that of the first statement of `select_sql`; nothing when
/// either does not parse or is not a plain `SELECT` query.
pub uninterp spec fn with_select_list_of(sql: Seq<char>, select_sql: Seq<char>) -> Option<Seq<char>>;

/// `Parser::parse_sql` (generic dialect) of both texts, the projection of the first
/// statement of `select_sql` moved into the first statement of `sql`, and that
/// statement printed (`Display`). The result is named `with_select_list_of`.
#[verifier::external_body]
pub(crate) fn reprint_with_select_list(sql: &str, select_sql: &str) -> (r: Option<String>)
    ensures
        r is Some <==> with_select_list_of(sql@, select_sql@) is Some,
        r matches Some(s) ==> with_select_list_of(sql@, select_sql@) == Some(s@),
{
    let mut stmts = Parser::parse_sql(&GenericDialect {}, sql).ok()?;
    let helper = Parser::parse_sql(&GenericDialect {}, select_sql).ok()?;
    match (stmts.first_mut(), helper.into_iter().next()) {
        (Some(Statement::Query(q)), Some(Statement::Query(h))) => match (q.body.as_mut(), *h.body) {
            (SetExpr::Select(s), SetExpr::Select(hs)) => s.projection = hs.projection,
            _ => return None,
        },
        _ => return None,
    }
    stmts.first().map(|s| s.to_string())
}

/// Carries a parsed statement into its shape (one arm per statement kind).
#[verifier::external_body]
fn statement_shape(s: &Statement) -> SqlStatement {
    match s {
        Statement::StartTransaction { .. } => SqlStatement::StartTransaction,
        Statement::Commit { .. } => SqlStatement::Commit,
        Statement::Rollback { .. } => SqlStatement::Rollback,
        Statement::Set(_) => SqlStatement::SetVariable,
        Statement::ShowVariable { .. } => SqlStatement::ShowVariable,
        Statement::ShowVariables { .. } => SqlStatement::ShowVariables,
        Statement::Discard { .. } => SqlStatement::Discard,
        Statement::Deallocate { .. } => SqlStatement::Deallocate,
        Statement::Close { .. } => SqlStatement::Close,
        Statement::Query(q) => SqlStatement::Query(query_shape(q)),
        _ => SqlStatement::Other,
    }
}

/// Carries a parsed query into its shape.
#[verifier::external_body]
fn query_shape(q: &Query) -> SqlQuery {
    SqlQuery {
        has_with: q.with.is_some(),
        select: match q.body.as_ref() {
            SetExpr::Select(s) => Some(select_shape(s)),
            _ => None,
        },
        has_order_by: q.order_by.is_some(),
        has_limit: q.limit_clause.is_some(),
        has_fetch: q.fetch.is_some(),
    }
}

/// Carries a parsed `SELECT` into its shape.
#[verifier::external_body]
fn select_shape(s: &Select) -> SqlSelect {
    SqlSelect {
        from: s.from.iter().map(table_shape).collect(),
        selection: s.selection.as_ref().map(expr_shape),
        group_by: group_by_shape(&s.group_by),
        projection: s.projection.iter().map(select_item_shape).collect(),
    }
}

/// Carries one `FROM` item into its shape.
#[verifier::external_body]
fn table_shape(t: &TableWithJoins) -> SqlTableRef {
    SqlTableRef {
        name: relation_name(&t.relation),
        join_count: t.joins.len(),
        join_names: t.joins.iter().map(|j| relation_name(&j.relation)).collect(),
    }
}

/// Carries the name of a relation that is a named table.
#[verifier::external_body]
fn relation_name(f: &TableFactor) -> Option<Vec<SqlNamePart>> {
    match f {
        TableFactor::Table { name, .. } => Some(name_shape(name)),
        _ => None,
    }
}

/// Carries the parts of a dotted name.
#[verifier::external_body]
fn name_shape(n: &ObjectName) -> Vec<SqlNamePart> {
    n.0.iter().map(
        |p| match p {
            ObjectNamePart::Identifier(id) => SqlNamePart::Identifier(id.value.clone()),
            ObjectNamePart::Function(_) => SqlNamePart::Function,
        },
    ).collect()
}

/// Carries a `GROUP BY` clause.
#[verifier::external_body]
fn group_by_shape(g: &GroupByExpr) -> SqlGroupBy {
    match g {
        GroupByExpr::All(_) => SqlGroupBy::All,
        GroupByExpr::Expressions(es, _) => SqlGroupBy::Expressions(
            es.iter().map(expr_shape).collect(),
        ),
    }
}

/// Carries one projection item.
#[verifier::external_body]
fn select_item_shape(i: &SelectItem) -> SqlSelectItem {
    match i {
        SelectItem::UnnamedExpr(e) => SqlSelectItem::UnnamedExpr(expr_shape(e)),
        SelectItem::Wildcard(_) => SqlSelectItem::Wildcard,
        _ => SqlSelectItem::Other,
    }
}

/// Carries an expression tree (one arm per node kind routing reads).
#[verifier::external_body]
fn expr_shape(e: &Expr) -> SqlExpr {
    match e {
        Expr::Identifier(id) => SqlExpr::Identifier(id.value.clone()),
        Expr::CompoundIdentifier(ids) => SqlExpr::CompoundIdentifier(
            ids.iter().map(|i| i.value.clone()).collect(),
        ),
        Expr::BinaryOp { left, op, right } => SqlExpr::BinaryOp {
            left: Box::new(expr_shape(left)),
            op: op_shape(op),
            right: Box::new(expr_shape(right)),
        },
        Expr::Value(v) => SqlExpr::Value(value_shape(&v.value)),
        Expr::Function(f) => SqlExpr::Function { name: f.name.to_string(), first_arg: first_arg_text(&f.args) },
        _ => SqlExpr::Other,
    }
}

/// Carries the SQL text of a call's first argument, when the arguments are a plain list
/// whose first one is an unnamed expression.
#[verifier::external_body]
fn first_arg_text(args: &FunctionArguments) -> Option<String> {
    match args {
        FunctionArguments::List(l) => match l.args.first() {
            Some(FunctionArg::Unnamed(FunctionArgExpr::Expr(a))) => Some(a.to_string()),
            _ => None,
        },
        _ => None,
    }
}

/// Carries a binary operator.
#[verifier::external_body]
fn op_shape(op: &BinaryOperator) -> SqlBinOp {
    match op {
        BinaryOperator::Eq => SqlBinOp::Eq,
        BinaryOperator::And => SqlBinOp::And,
        _ => SqlBinOp::Other,
    }
}

/// Carries a literal value.
#[verifier::external_body]
fn value_shape(v: &Value) -> SqlValue {
    match v {
        Value::SingleQuotedString(s) => SqlValue::Text(s.clone()),
        Value::DoubleQuotedString(s) => SqlValue::Text(s.clone()),
        Value::EscapedStringLiteral(s) => SqlValue::Text(s.clone()),
        Value::Number(n, _) => SqlValue::Number(n.clone()),
        Value::Boolean(b) => SqlValue::Boolean(*b),
        Value::Null => SqlValue::Null,
        Value::Placeholder(p) => SqlValue::Placeholder(p.clone()),
        _ => SqlValue::Other,
    }
}

} // verus!
