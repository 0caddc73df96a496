//! Column types of configured tables and the text values PostgreSQL sends.
use vstd::prelude::*;

use chrono::{DateTime, NaiveDate, NaiveDateTime};
use vstd::utf8::{decode_utf8, encode_utf8, valid_utf8};

use crate::config::ColumnConfig;
use crate::federated::cells::{cell_len, read_len};
use crate::ingest::events::opt_text;
use crate::lexical::i64_of;
use crate::scan::utf8_text;
use crate::text::{append, chars_of, lower_seq, parse_i64, starts_with, starts_with_str, str_eq, string_of, to_lower};

verus! {

/// Column types of federated tables (the Arrow types they are read as).
#[derive(Debug, Clone, Copy, PartialEq, Eq, Structural)]
pub enum ColumnType {
    Utf8,
    Float64,
    Float32,
    Int64,
    Int32,
    Int16,
    Boolean,
    /// Microsecond timestamp without a time zone.
    Timestamp,
    /// Microsecond timestamp in UTC (`+00:00`).
    TimestampTz,
    Date32,
    Binary,
}

/// The column type a configured (QuestDB) type name stands for, compared without ASCII
/// case.
pub open spec fn column_type_of(name: Seq<char>) -> Option<ColumnType> {
    let l = lower_seq(name);
    if l == "symbol"@ || l == "string"@ || l == "varchar"@ || l == "text"@ || l == "char"@ {
        Some(ColumnType::Utf8)
    } else if l == "double"@ || l == "float8"@ {
        Some(ColumnType::Float64)
    } else if l == "float"@ || l == "float4"@ || l == "real"@ {
        Some(ColumnType::Float32)
    } else if l == "long"@ || l == "int8"@ || l == "bigint"@ {
        Some(ColumnType::Int64)
    } else if l == "int"@ || l == "int4"@ || l == "integer"@ {
        Some(ColumnType::Int32)
    } else if l == "short"@ || l == "int2"@ || l == "smallint"@ {
        Some(ColumnType::Int16)
    } else if l == "boolean"@ || l == "bool"@ {
        Some(ColumnType::Boolean)
    } else if l == "timestamp"@ || l == "datetime"@ {
        Some(ColumnType::Timestamp)
    } else if l == "timestamptz"@ {
        Some(ColumnType::TimestampTz)
    } else if l == "date"@ {
        Some(ColumnType::Date32)
    } else if l == "binary"@ || l == "bytea"@ {
        Some(ColumnType::Binary)
    } else {
        None
    }
}

fn any_of(l: &str, names: &Vec<&'static str>) -> (r: bool)
    ensures
        r == exists|i: int| 0 <= i < names@.len() && l@ == names@[i]@,
{
    let mut i: usize = 0;
    while i < names.len()
        invariant
            0 <= i <= names@.len(),
            forall|j: int| 0 <= j < i ==> l@ != names@[j]@,
        decreases names.len() - i,
    {
        if str_eq(l, names[i]) {
            return true;
        }
        i = i + 1;
    }
    false
}

/// Map a config column type name to its column type.
pub fn config_type_to_arrow(ty: &str) -> (r: Result<ColumnType, String>)
    ensures
        r matches Ok(t) ==> column_type_of(ty@) == Some(t),
        r matches Err(m) ==> column_type_of(ty@) is None && m@ == "unsupported column type: "@
            + lower_seq(ty@),
{
    let lower = to_lower(ty);
    let l = lower.as_str();
    if any_of(l, &vec!["symbol", "string", "varchar", "text", "char"]) {
        return Ok(ColumnType::Utf8);
    }
    if any_of(l, &vec!["double", "float8"]) {
        return Ok(ColumnType::Float64);
    }
    if any_of(l, &vec!["float", "float4", "real"]) {
        return Ok(ColumnType::Float32);
    }
    if any_of(l, &vec!["long", "int8", "bigint"]) {
        return Ok(ColumnType::Int64);
    }
    if any_of(l, &vec!["int", "int4", "integer"]) {
        return Ok(ColumnType::Int32);
    }
    if any_of(l, &vec!["short", "int2", "smallint"]) {
        return Ok(ColumnType::Int16);
    }
    if any_of(l, &vec!["boolean", "bool"]) {
        return Ok(ColumnType::Boolean);
    }
    if any_of(l, &vec!["timestamp", "datetime"]) {
        return Ok(ColumnType::Timestamp);
    }
    if str_eq(l, "timestamptz") {
        return Ok(ColumnType::TimestampTz);
    }
    if str_eq(l, "date") {
        return Ok(ColumnType::Date32);
    }
    if any_of(l, &vec!["binary", "bytea"]) {
        return Ok(ColumnType::Binary);
    }
    let mut m = String::from_str("unsupported column type: ");
    append(&mut m, l);
    Err(m)
}

/// The (name, type) columns of a table; a table needs at least one column and every
/// type must be known (the first unknown one is reported).
pub fn schema_from_columns(columns: &[ColumnConfig]) -> (r: Result<Vec<(String, ColumnType)>, String>)
    ensures
        columns@.len() == 0 ==> (r matches Err(m) && m@ == "table must declare at least one column"@),
        r matches Ok(cols) ==> cols@.len() == columns@.len() && forall|i: int|
            0 <= i < cols@.len() ==> cols@[i].0@ == columns@[i].name@ && column_type_of(
                #[trigger] columns@[i].column_type@,
            ) == Some(cols@[i].1),
        columns@.len() > 0 ==> (r matches Err(m) ==> exists|i: int|
            0 <= i < columns@.len() && column_type_of(#[trigger] columns@[i].column_type@) is None
                && m@ == "unsupported column type: "@ + lower_seq(columns@[i].column_type@)
                && forall|k: int| 0 <= k < i ==> column_type_of(columns@[k].column_type@) is Some),
        columns@.len() > 0 && (forall|i: int|
            0 <= i < columns@.len() ==> column_type_of(#[trigger] columns@[i].column_type@)
                is Some) ==> r is Ok,
{
    if columns.len() == 0 {
        return Err(String::from_str("table must declare at least one column"));
    }
    let mut out: Vec<(String, ColumnType)> = Vec::new();
    let mut i: usize = 0;
    while i < columns.len()
        invariant
            0 <= i <= columns@.len(),
            out@.len() == i,
            forall|k: int|
                0 <= k < i ==> out@[k].0@ == columns@[k].name@ && column_type_of(
                    #[trigger] columns@[k].column_type@,
                ) == Some(out@[k].1),
        decreases columns.len() - i,
    {
        match config_type_to_arrow(columns[i].column_type.as_str()) {
            Ok(t) => {
                out.push((columns[i].name.clone(), t));
            },
            Err(e) => {
                assert(column_type_of(columns@[i as int].column_type@) is None);
                assert forall|k: int| 0 <= k < i implies column_type_of(
                    columns@[k].column_type@,
                ) is Some by {
                    assert(column_type_of(columns@[k].column_type@) == Some(out@[k].1));
                }
                return Err(e);
            },
        }
        i = i + 1;
    }
    Ok(out)
}

/// The boolean spellings PostgreSQL text values use.
pub open spec fn pg_bool(s: Seq<char>) -> Option<bool> {
    if s == "t"@ || s == "true"@ || s == "TRUE"@ || s == "1"@ {
        Some(true)
    } else if s == "f"@ || s == "false"@ || s == "FALSE"@ || s == "0"@ {
        Some(false)
    } else {
        None
    }
}

/// A boolean cell from its text.
pub fn parse_bool(s: &str) -> (r: Option<bool>)
    ensures
        r == pg_bool(s@),
{
    if any_of(s, &vec!["t", "true", "TRUE", "1"]) {
        Some(true)
    } else if any_of(s, &vec!["f", "false", "FALSE", "0"]) {
        Some(false)
    } else {
        None
    }
}

/// The texts of `n` cells of a data row starting at `pos`: each cell is a big-endian
/// `i32` length and that many bytes. A cell is absent when fewer than four bytes remain
/// (nothing is consumed), for a NULL (negative length) or a truncated value (the
/// length is consumed), and when its bytes are not UTF-8.
pub open spec fn cells_from(b: Seq<u8>, pos: int, n: nat) -> Seq<Option<Seq<char>>>
    decreases n,
{
    if n == 0 {
        Seq::empty()
    } else {
        match cell_len(b, pos) {
            None => seq![None].add(cells_from(b, pos, (n - 1) as nat)),
            Some(len) => if len < 0 || pos + 4 + len > b.len() {
                seq![None].add(cells_from(b, pos + 4, (n - 1) as nat))
            } else {
                let bytes = b.subrange(pos + 4, pos + 4 + len);
                let cell = if valid_utf8(bytes) {
                    Some(decode_utf8(bytes))
                } else {
                    None
                };
                seq![cell].add(cells_from(b, pos + 4 + len, (n - 1) as nat))
            },
        }
    }
}

pub open spec fn texts_view(v: Seq<Option<String>>) -> Seq<Option<Seq<char>>> {
    Seq::new(v.len(), |i: int| opt_text(v[i]))
}

/// The texts of the first `col_count` cells of a data row.
pub fn decode_row_cells(data: &[u8], col_count: usize) -> (r: Vec<Option<String>>)
    ensures
        texts_view(r@) == cells_from(data@, 0, col_count as nat),
{
    let mut cells: Vec<Option<String>> = Vec::new();
    let mut pos: usize = 0;
    let mut k: usize = 0;
    while k < col_count
        invariant
            0 <= k <= col_count,
            pos <= data@.len(),
            texts_view(cells@) + cells_from(data@, pos as int, (col_count - k) as nat)
                == cells_from(data@, 0, col_count as nat),
        decreases col_count - k,
    {
        let ghost rest = cells_from(data@, pos as int, (col_count - k) as nat);
        let ghost before = cells@;
        let cell: Option<String> = match read_len(data, pos) {
            None => None,
            Some(len) => {
                let n: usize = data.len();
                assert(cell_len(data@, pos as int) is Some);
                assert(pos + 4 <= n);
                let start: usize = pos + 4;
                if len < 0 || len as usize > data.len() - start {
                    pos = start;
                    None
                } else {
                    let end = start + len as usize;
                    let c = match utf8_text(data, start, end) {
                        Some(t) => Some(String::from_str(t)),
                        None => None,
                    };
                    pos = end;
                    c
                }
            },
        };
        cells.push(cell);
        k = k + 1;
        assert(texts_view(cells@) =~= texts_view(before).push(opt_text(cell)));
        assert(rest =~= seq![opt_text(cell)].add(
            cells_from(data@, pos as int, (col_count - k) as nat),
        ));
        assert(texts_view(cells@) + cells_from(data@, pos as int, (col_count - k) as nat)
            =~= texts_view(before) + rest);
    }
    assert(texts_view(cells@) =~= cells_from(data@, 0, col_count as nat));
    cells
}

/// The value of a hexadecimal digit (either case).
pub open spec fn hex_digit(c: char) -> Option<u8> {
    if '0' <= c && c <= '9' {
        Some((c as u32 - '0' as u32) as u8)
    } else if 'a' <= c && c <= 'f' {
        Some((c as u32 - 'a' as u32 + 10) as u8)
    } else if 'A' <= c && c <= 'F' {
        Some((c as u32 - 'A' as u32 + 10) as u8)
    } else {
        None
    }
}

/// The bytes that the hexadecimal text `s` spells: two digits per byte, high digit
/// first; nothing for an odd number of digits or a non-digit.
pub open spec fn hex_bytes(s: Seq<char>) -> Option<Seq<u8>>
    decreases s.len(),
{
    if s.len() == 0 {
        Some(Seq::empty())
    } else if s.len() == 1 {
        None
    } else {
        match (hex_digit(s[0]), hex_digit(s[1]), hex_bytes(s.subrange(2, s.len() as int))) {
            (Some(hi), Some(lo), Some(rest)) => Some(seq![(hi * 16 + lo) as u8].add(rest)),
            _ => None,
        }
    }
}

/// `hex::decode`: the bytes of a hexadecimal string (digits of either case, two per
/// byte), or nothing for an odd length or a non-hex character.
#[verifier::external_body]
fn hex_decode(s: &str) -> (r: Option<Vec<u8>>)
    ensures
        match r {
            Some(v) => hex_bytes(s@) == Some(v@),
            None => hex_bytes(s@) is None,
        },
{
    hex::decode(s).ok()
}

/// A `bytea` value from its text: `\x` followed by hex digits, else the text's bytes.
pub open spec fn bytea_of(s: Seq<char>) -> Option<Seq<u8>> {
    if starts_with(s, "\\x"@) {
        hex_bytes(s.subrange(2, s.len() as int))
    } else {
        Some(encode_utf8(s))
    }
}

pub fn parse_bytea(s: &str) -> (r: Option<Vec<u8>>)
    ensures
        match r {
            Some(v) => bytea_of(s@) == Some(v@),
            None => bytea_of(s@) is None,
        },
{
    if starts_with_str(s, "\\x") {
        proof {
            reveal_strlit("\\x");
        }
        let v = chars_of(s);
        let hex = string_of(&v, 2, v.len());
        hex_decode(hex.as_str())
    } else {
        Some(s.as_bytes_vec())
    }
}

/// What `NaiveDate::parse_from_str(s, fmt)` reads from `s`, as days since 1970-01-01.
pub uninterp spec fn date_days(s: Seq<char>, fmt: Seq<char>) -> Option<i64>;

/// `chrono::NaiveDate::parse_from_str`, then the signed number of days since
/// 1970-01-01 (`signed_duration_since(..).num_days()`). The result is named
/// `date_days`; nothing else is claimed of it.
#[verifier::external_body]
fn parse_date_days(s: &str, fmt: &str) -> (r: Option<i64>)
    ensures
        r == date_days(s@, fmt@),
{
    let epoch = NaiveDate::from_ymd_opt(1970, 1, 1)?;
    NaiveDate::parse_from_str(s, fmt).ok().map(|d| d.signed_duration_since(epoch).num_days())
}

/// A `date` cell: days since 1970-01-01 of a `YYYY-MM-DD` text.
pub fn parse_date32(s: &str) -> (r: Option<i32>)
    ensures
        r == (match date_days(s@, "%Y-%m-%d"@) {
            Some(d) => Some(d as i32),
            None => None,
        }),
{
    match parse_date_days(s, "%Y-%m-%d") {
        Some(d) => Some(#[verifier::truncate] (d as i32)),
        None => None,
    }
}

/// The UTC instant, in microseconds since the epoch, that `DateTime::parse_from_rfc3339`
/// reads from `s`.
pub uninterp spec fn rfc3339_micros(s: Seq<char>) -> Option<i64>;

/// `chrono::DateTime::parse_from_rfc3339`, then `timestamp_micros` (the UTC instant).
/// The result is named `rfc3339_micros`; nothing else is claimed of it.
#[verifier::external_body]
fn parse_rfc3339_micros(s: &str) -> (r: Option<i64>)
    ensures
        r == rfc3339_micros(s@),
{
    DateTime::parse_from_rfc3339(s).ok().map(|dt| dt.timestamp_micros())
}

/// The instant, in microseconds since the epoch, of the date and time that
/// `NaiveDateTime::parse_from_str(s, fmt)` reads from `s`, taken as UTC.
pub uninterp spec fn naive_micros(s: Seq<char>, fmt: Seq<char>) -> Option<i64>;

/// `chrono::NaiveDateTime::parse_from_str`, then `and_utc().timestamp_micros()`. The
/// result is named `naive_micros`; nothing else is claimed of it.
#[verifier::external_body]
fn parse_naive_micros(s: &str, fmt: &str) -> (r: Option<i64>)
    ensures
        r == naive_micros(s@, fmt@),
{
    NaiveDateTime::parse_from_str(s, fmt).ok().map(|n| n.and_utc().timestamp_micros())
}

/// A timestamp cell in microseconds: RFC 3339 (required when the column has a time
/// zone), else `YYYY-MM-DD HH:MM:SS[.f]` or `YYYY-MM-DDTHH:MM:SS[.f]` read as UTC, else
/// an integer count of microseconds.
pub open spec fn timestamp_micros_of(s: Seq<char>, has_tz: bool) -> Option<i64> {
    if has_tz || rfc3339_micros(s) is Some {
        rfc3339_micros(s)
    } else if naive_micros(s, "%Y-%m-%d %H:%M:%S%.f"@) is Some {
        naive_micros(s, "%Y-%m-%d %H:%M:%S%.f"@)
    } else if naive_micros(s, "%Y-%m-%dT%H:%M:%S%.f"@) is Some {
        naive_micros(s, "%Y-%m-%dT%H:%M:%S%.f"@)
    } else {
        parse_i64(s)
    }
}

pub fn parse_timestamp_micros(s: &str, has_tz: bool) -> (r: Option<i64>)
    ensures
        r == timestamp_micros_of(s@, has_tz),
{
    let rfc = parse_rfc3339_micros(s);
    if has_tz || rfc.is_some() {
        return rfc;
    }
    let spaced = parse_naive_micros(s, "%Y-%m-%d %H:%M:%S%.f");
    if spaced.is_some() {
        return spaced;
    }
    let t_sep = parse_naive_micros(s, "%Y-%m-%dT%H:%M:%S%.f");
    if t_sep.is_some() {
        return t_sep;
    }
    i64_of(&chars_of(s))
}

/// Configured integer types keep their width, in any ASCII case: `long`, `int8` and
/// `bigint` are 64-bit, `int`, `int4` and `integer` 32-bit, `short`, `int2` and
/// `smallint` 16-bit; `double`/`float8` are 64-bit floats and `float`/`float4`/`real`
/// 32-bit floats.
pub proof fn law_integer_widths(name: Seq<char>)
    ensures
        (lower_seq(name) == "long"@ || lower_seq(name) == "int8"@ || lower_seq(name) == "bigint"@)
            ==> column_type_of(name) == Some(ColumnType::Int64),
        (lower_seq(name) == "int"@ || lower_seq(name) == "int4"@ || lower_seq(name) == "integer"@)
            ==> column_type_of(name) == Some(ColumnType::Int32),
        (lower_seq(name) == "short"@ || lower_seq(name) == "int2"@ || lower_seq(name)
            == "smallint"@) ==> column_type_of(name) == Some(ColumnType::Int16),
        (lower_seq(name) == "double"@ || lower_seq(name) == "float8"@) ==> column_type_of(name)
            == Some(ColumnType::Float64),
        (lower_seq(name) == "float"@ || lower_seq(name) == "float4"@ || lower_seq(name) == "real"@)
            ==> column_type_of(name) == Some(ColumnType::Float32),
{
    reveal_strlit("symbol");
    reveal_strlit("string");
    reveal_strlit("varchar");
    reveal_strlit("text");
    reveal_strlit("char");
    reveal_strlit("double");
    reveal_strlit("float8");
    reveal_strlit("float");
    reveal_strlit("float4");
    reveal_strlit("real");
    reveal_strlit("long");
    reveal_strlit("int8");
    reveal_strlit("bigint");
    reveal_strlit("int");
    reveal_strlit("int4");
    reveal_strlit("integer");
    reveal_strlit("short");
    reveal_strlit("int2");
    reveal_strlit("smallint");
    let l = lower_seq(name);
    if l == "double"@ {
        assert("double"@[0] != "symbol"@[0]);
        assert("double"@[0] != "string"@[0]);
        assert("double"@.len() != "varchar"@.len());
        assert("double"@.len() != "text"@.len());
        assert("double"@.len() != "char"@.len());
    }
    if l == "float8"@ {
        assert("float8"@[0] != "symbol"@[0]);
        assert("float8"@[0] != "string"@[0]);
        assert("float8"@.len() != "varchar"@.len());
        assert("float8"@.len() != "text"@.len());
        assert("float8"@.len() != "char"@.len());
        assert("float8"@[0] != "double"@[0]);
    }
    if l == "float"@ {
        assert("float"@.len() != "symbol"@.len());
        assert("float"@.len() != "string"@.len());
        assert("float"@.len() != "varchar"@.len());
        assert("float"@.len() != "text"@.len());
        assert("float"@.len() != "char"@.len());
        assert("float"@.len() != "double"@.len());
        assert("float"@.len() != "float8"@.len());
    }
    if l == "float4"@ {
        assert("float4"@[0] != "symbol"@[0]);
        assert("float4"@[0] != "string"@[0]);
        assert("float4"@.len() != "varchar"@.len());
        assert("float4"@.len() != "text"@.len());
        assert("float4"@.len() != "char"@.len());
        assert("float4"@[0] != "double"@[0]);
        assert("float4"@[5] != "float8"@[5]);
        assert("float4"@.len() != "float"@.len());
    }
    if l == "real"@ {
        assert("real"@.len() != "symbol"@.len());
        assert("real"@.len() != "string"@.len());
        assert("real"@.len() != "varchar"@.len());
        assert("real"@[0] != "text"@[0]);
        assert("real"@[0] != "char"@[0]);
        assert("real"@.len() != "double"@.len());
        assert("real"@.len() != "float8"@.len());
        assert("real"@.len() != "float"@.len());
        assert("real"@.len() != "float4"@.len());
    }
    if l == "long"@ {
        assert("long"@.len() != "symbol"@.len());
        assert("long"@.len() != "string"@.len());
        assert("long"@.len() != "varchar"@.len());
        assert("long"@[0] != "text"@[0]);
        assert("long"@[0] != "char"@[0]);
        assert("long"@.len() != "double"@.len());
        assert("long"@.len() != "float8"@.len());
        assert("long"@.len() != "float"@.len());
        assert("long"@.len() != "float4"@.len());
        assert("long"@[0] != "real"@[0]);
    }
    if l == "int8"@ {
        assert("int8"@.len() != "symbol"@.len());
        assert("int8"@.len() != "string"@.len());
        assert("int8"@.len() != "varchar"@.len());
        assert("int8"@[0] != "text"@[0]);
        assert("int8"@[0] != "char"@[0]);
        assert("int8"@.len() != "double"@.len());
        assert("int8"@.len() != "float8"@.len());
        assert("int8"@.len() != "float"@.len());
        assert("int8"@.len() != "float4"@.len());
        assert("int8"@[0] != "real"@[0]);
        assert("int8"@[0] != "long"@[0]);
    }
    if l == "bigint"@ {
        assert("bigint"@[0] != "symbol"@[0]);
        assert("bigint"@[0] != "string"@[0]);
        assert("bigint"@.len() != "varchar"@.len());
        assert("bigint"@.len() != "text"@.len());
        assert("bigint"@.len() != "char"@.len());
        assert("bigint"@[0] != "double"@[0]);
        assert("bigint"@[0] != "float8"@[0]);
        assert("bigint"@.len() != "float"@.len());
        assert("bigint"@[0] != "float4"@[0]);
        assert("bigint"@.len() != "real"@.len());
        assert("bigint"@.len() != "long"@.len());
        assert("bigint"@.len() != "int8"@.len());
    }
    if l == "int"@ {
        assert("int"@.len() != "symbol"@.len());
        assert("int"@.len() != "string"@.len());
        assert("int"@.len() != "varchar"@.len());
        assert("int"@.len() != "text"@.len());
        assert("int"@.len() != "char"@.len());
        assert("int"@.len() != "double"@.len());
        assert("int"@.len() != "float8"@.len());
        assert("int"@.len() != "float"@.len());
        assert("int"@.len() != "float4"@.len());
        assert("int"@.len() != "real"@.len());
        assert("int"@.len() != "long"@.len());
        assert("int"@.len() != "int8"@.len());
        assert("int"@.len() != "bigint"@.len());
    }
    if l == "int4"@ {
        assert("int4"@.len() != "symbol"@.len());
        assert("int4"@.len() != "string"@.len());
        assert("int4"@.len() != "varchar"@.len());
        assert("int4"@[0] != "text"@[0]);
        assert("int4"@[0] != "char"@[0]);
        assert("int4"@.len() != "double"@.len());
        assert("int4"@.len() != "float8"@.len());
        assert("int4"@.len() != "float"@.len());
        assert("int4"@.len() != "float4"@.len());
        assert("int4"@[0] != "real"@[0]);
        assert("int4"@[0] != "long"@[0]);
        assert("int4"@[3] != "int8"@[3]);
        assert("int4"@.len() != "bigint"@.len());
        assert("int4"@.len() != "int"@.len());
    }
    if l == "integer"@ {
        assert("integer"@.len() != "symbol"@.len());
        assert("integer"@.len() != "string"@.len());
        assert("integer"@[0] != "varchar"@[0]);
        assert("integer"@.len() != "text"@.len());
        assert("integer"@.len() != "char"@.len());
        assert("integer"@.len() != "double"@.len());
        assert("integer"@.len() != "float8"@.len());
        assert("integer"@.len() != "float"@.len());
        assert("integer"@.len() != "float4"@.len());
        assert("integer"@.len() != "real"@.len());
        assert("integer"@.len() != "long"@.len());
        assert("integer"@.len() != "int8"@.len());
        assert("integer"@.len() != "bigint"@.len());
        assert("integer"@.len() != "int"@.len());
        assert("integer"@.len() != "int4"@.len());
    }
    if l == "short"@ {
        assert("short"@.len() != "symbol"@.len());
        assert("short"@.len() != "string"@.len());
        assert("short"@.len() != "varchar"@.len());
        assert("short"@.len() != "text"@.len());
        assert("short"@.len() != "char"@.len());
        assert("short"@.len() != "double"@.len());
        assert("short"@.len() != "float8"@.len());
        assert("short"@[0] != "float"@[0]);
        assert("short"@.len() != "float4"@.len());
        assert("short"@.len() != "real"@.len());
        assert("short"@.len() != "long"@.len());
        assert("short"@.len() != "int8"@.len());
        assert("short"@.len() != "bigint"@.len());
        assert("short"@.len() != "int"@.len());
        assert("short"@.len() != "int4"@.len());
        assert("short"@.len() != "integer"@.len());
    }
    if l == "int2"@ {
        assert("int2"@.len() != "symbol"@.len());
        assert("int2"@.len() != "string"@.len());
        assert("int2"@.len() != "varchar"@.len());
        assert("int2"@[0] != "text"@[0]);
        assert("int2"@[0] != "char"@[0]);
        assert("int2"@.len() != "double"@.len());
        assert("int2"@.len() != "float8"@.len());
        assert("int2"@.len() != "float"@.len());
        assert("int2"@.len() != "float4"@.len());
        assert("int2"@[0] != "real"@[0]);
        assert("int2"@[0] != "long"@[0]);
        assert("int2"@[3] != "int8"@[3]);
        assert("int2"@.len() != "bigint"@.len());
        assert("int2"@.len() != "int"@.len());
        assert("int2"@[3] != "int4"@[3]);
        assert("int2"@.len() != "integer"@.len());
        assert("int2"@.len() != "short"@.len());
    }
    if l == "smallint"@ {
        assert("smallint"@.len() != "symbol"@.len());
        assert("smallint"@.len() != "string"@.len());
        assert("smallint"@.len() != "varchar"@.len());
        assert("smallint"@.len() != "text"@.len());
        assert("smallint"@.len() != "char"@.len());
        assert("smallint"@.len() != "double"@.len());
        assert("smallint"@.len() != "float8"@.len());
        assert("smallint"@.len() != "float"@.len());
        assert("smallint"@.len() != "float4"@.len());
        assert("smallint"@.len() != "real"@.len());
        assert("smallint"@.len() != "long"@.len());
        assert("smallint"@.len() != "int8"@.len());
        assert("smallint"@.len() != "bigint"@.len());
        assert("smallint"@.len() != "int"@.len());
        assert("smallint"@.len() != "int4"@.len());
        assert("smallint"@.len() != "integer"@.len());
        assert("smallint"@.len() != "short"@.len());
        assert("smallint"@.len() != "int2"@.len());
    }
}

} // verus!
