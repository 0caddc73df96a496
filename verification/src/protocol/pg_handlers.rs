//! State the PostgreSQL handlers keep per session.
use vstd::prelude::*;

use crate::routing::dialect::{has_extension, has_questdb_extension};

verus! {

/// Raw dialect SQL stored during extended-query parse for execute-phase routing.
#[derive(Debug, Default, Clone)]
pub struct DialectSqlStore(pub Option<String>);

impl DialectSqlStore {
    /// What the parse phase keeps of `sql`: the text itself when it uses QuestDB
    /// extensions the SQL parser cannot read, else nothing.
    pub fn for_sql(sql: &str) -> (r: Option<DialectSqlStore>)
        ensures
            r is Some <==> has_extension(sql@),
            r matches Some(s) ==> s.0 matches Some(t) && t@ == sql@,
    {
        if has_questdb_extension(sql) {
            Some(DialectSqlStore(Some(String::from_str(sql))))
        } else {
            None
        }
    }
}

} // verus!
