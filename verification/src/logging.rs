//! Logging settings read from the environment.
use vstd::prelude::*;

use crate::text::{eq_ignore_case, str_eq_ignore_case};

verus! {

/// Whether `QUEST_ROUTER__LOG__FORMAT` asks for JSON output (any ASCII case).
pub fn json_format(value: Option<&str>) -> (r: bool)
    ensures
        r == (match value {
            Some(v) => eq_ignore_case(v@, "json"@),
            None => false,
        }),
{
    match value {
        Some(v) => str_eq_ignore_case(v, "json"),
        None => false,
    }
}

/// The log file of `QUEST_ROUTER__LOG__FILE`, unless unset or empty.
pub fn log_file(value: Option<String>) -> (r: Option<String>)
    ensures
        r == (match value {
            Some(p) => if p@.len() > 0 {
                Some(p)
            } else {
                None
            },
            None => None,
        }),
{
    match value {
        Some(p) => if p.as_str().is_empty() {
            None
        } else {
            Some(p)
        },
        None => None,
    }
}

} // verus!
