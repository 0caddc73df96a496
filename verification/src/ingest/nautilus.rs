//! Nautilus catalog objects: what kind of ticks a key holds, the instrument, and the
//! ILP lines the ticks become.
use vstd::prelude::*;

use crate::config::NautilusIngestConfig;
use crate::text::{
    append, chars_of, contains, contains_str, decimal, find, find_vec, last_pos_in, last_pos_of,
    lemma_find_from_props, lower_seq, lower_vec, parse_u8, replace_all, replace_str, str_eq,
    string_of, to_lower, u64_to_string, u8_of,
};

verus! {

/// The tick kind of a catalog object.
#[derive(Debug, Clone, Copy, PartialEq, Eq, Structural)]
pub enum NautilusDataKind {
    TradeTick,
    QuoteTick,
}

/// Instrument of the ticks in a batch, and the decimal precisions of its fixed-point
/// prices and sizes.
#[derive(Debug, Clone)]
pub struct InstrumentMeta {
    pub symbol: String,
    pub venue: String,
    pub price_precision: u8,
    pub size_precision: u8,
}

// ---------------------------------------------------------------------------
// Specification
// ---------------------------------------------------------------------------
pub open spec fn kind_of_key(key: Seq<char>) -> Option<NautilusDataKind> {
    let lower = lower_seq(key);
    if contains(lower, "/data/trades/"@) {
        Some(NautilusDataKind::TradeTick)
    } else if contains(lower, "/data/quotes/"@) {
        Some(NautilusDataKind::QuoteTick)
    } else {
        None
    }
}

pub open spec fn marker_of(kind: NautilusDataKind) -> Seq<char> {
    match kind {
        NautilusDataKind::TradeTick => "/data/trades/"@,
        NautilusDataKind::QuoteTick => "/data/quotes/"@,
    }
}

/// The path segment after the kind's marker (found without ASCII case), if not empty.
pub open spec fn instrument_of_path(key: Seq<char>, kind: NautilusDataKind) -> Option<Seq<char>> {
    let m = marker_of(kind);
    match find(lower_seq(key), m) {
        Some(idx) => {
            let rest = key.subrange(idx + m.len(), key.len() as int);
            let seg = match find(rest, "/"@) {
                Some(j) => rest.subrange(0, j),
                None => rest,
            };
            if seg.len() == 0 {
                None
            } else {
                Some(seg)
            }
        },
        None => None,
    }
}

/// `SYMBOL.VENUE` split at its last dot; without a dot the venue is `UNKNOWN`.
pub open spec fn instrument_parts(id: Seq<char>) -> (Seq<char>, Seq<char>) {
    match last_pos_of(id, '.') {
        Some(i) => (id.subrange(0, i), id.subrange(i + 1, id.len() as int)),
        None => (id, "UNKNOWN"@),
    }
}

/// A precision from schema metadata: the text as a `u8`, else 8.
pub open spec fn precision_of(text: Option<Seq<char>>) -> u8 {
    match text {
        Some(t) => match parse_u8(t) {
            Some(p) => p,
            None => 8,
        },
        None => 8,
    }
}

pub open spec fn aggressor_text(value: u8) -> Seq<char> {
    if value == 1 {
        "BUYER"@
    } else if value == 2 {
        "SELLER"@
    } else {
        "NO_AGGRESSOR"@
    }
}

/// A tag value with `\`, space, `,` and `=` escaped by a backslash.
pub open spec fn escaped_tag(v: Seq<char>) -> Seq<char> {
    replace_all(
        replace_all(replace_all(replace_all(v, "\\"@, "\\\\"@), " "@, "\\ "@), ","@, "\\,"@),
        "="@,
        "\\="@,
    )
}

/// A string field value with `\` and `"` escaped by a backslash.
pub open spec fn escaped_field(v: Seq<char>) -> Seq<char> {
    replace_all(replace_all(v, "\\"@, "\\\\"@), "\""@, "\\\""@)
}

pub open spec fn tag_section(meta: InstrumentMeta) -> Seq<char> {
    "symbol="@ + escaped_tag(meta.symbol@) + ",venue="@ + escaped_tag(meta.venue@)
}

/// The ILP line of a trade tick; the numbers come as text.
pub open spec fn trade_line_text(
    table: Seq<char>,
    meta: InstrumentMeta,
    price: Seq<char>,
    size: Seq<char>,
    side: u8,
    trade_id: Seq<char>,
    ts: u64,
) -> Seq<char> {
    table + ","@ + tag_section(meta) + " price="@ + price + ",size="@ + size
        + ",aggressor_side=\""@ + escaped_field(aggressor_text(side)) + "\",trade_id=\""@
        + escaped_field(trade_id) + "\" "@ + decimal(ts as nat)
}

/// The ILP line of a quote tick; the numbers come as text.
pub open spec fn quote_line_text(
    table: Seq<char>,
    meta: InstrumentMeta,
    bid: Seq<char>,
    ask: Seq<char>,
    bid_size: Seq<char>,
    ask_size: Seq<char>,
    ts: u64,
) -> Seq<char> {
    table + ","@ + tag_section(meta) + " bid="@ + bid + ",ask="@ + ask + ",bid_size="@ + bid_size
        + ",ask_size="@ + ask_size + " "@ + decimal(ts as nat)
}

// ---------------------------------------------------------------------------
// Implementation
// ---------------------------------------------------------------------------
/// Detect the data kind from a Nautilus catalog object key.
pub fn classify_object_key(key: &str) -> (r: Option<NautilusDataKind>)
    ensures
        r == kind_of_key(key@),
{
    let lower = to_lower(key);
    if contains_str(lower.as_str(), "/data/trades/") {
        Some(NautilusDataKind::TradeTick)
    } else if contains_str(lower.as_str(), "/data/quotes/") {
        Some(NautilusDataKind::QuoteTick)
    } else {
        None
    }
}

/// The instrument named by the path segment after the kind's marker.
pub fn instrument_from_path(key: &str, kind: NautilusDataKind) -> (r: Option<String>)
    ensures
        r matches Some(s) ==> instrument_of_path(key@, kind) == Some(s@),
        r is None ==> instrument_of_path(key@, kind) is None,
{
    let marker = match kind {
        NautilusDataKind::TradeTick => chars_of("/data/trades/"),
        NautilusDataKind::QuoteTick => chars_of("/data/quotes/"),
    };
    let kv = chars_of(key);
    let lower = lower_vec(&kv);
    let idx = match find_vec(&lower, &marker) {
        Some(i) => i,
        None => {
            return None;
        },
    };
    proof {
        lemma_find_from_props(lower@, marker@, 0);
    }
    let n = kv.len();
    assert(lower@.len() == n);
    assert(idx + marker@.len() <= n);
    let start = idx + marker.len();
    let rest = string_of(&kv, start, kv.len());
    let rv = chars_of(rest.as_str());
    let slash = chars_of("/");
    let end = match find_vec(&rv, &slash) {
        Some(j) => {
            proof {
                reveal_strlit("/");
                lemma_find_from_props(rv@, slash@, 0);
            }
            j
        },
        None => rv.len(),
    };
    if end == 0 {
        return None;
    }
    Some(string_of(&rv, 0, end))
}

/// Symbol and venue of an instrument id `SYMBOL.VENUE`.
pub fn parse_instrument_id(instrument_id: &str) -> (r: (String, String))
    ensures
        (r.0@, r.1@) == instrument_parts(instrument_id@),
{
    let v = chars_of(instrument_id);
    proof {
        crate::text::lemma_last_pos(v@, '.');
    }
    let n = v.len();
    match last_pos_in(&v, '.') {
        Some(i) => (string_of(&v, 0, i), string_of(&v, i + 1, n)),
        None => (String::from_str(instrument_id), String::from_str("UNKNOWN")),
    }
}

fn precision(text: Option<&str>) -> (r: u8)
    ensures
        r == precision_of(
            match text {
                Some(t) => Some(t@),
                None => None,
            },
        ),
{
    match text {
        Some(t) => {
            let v = chars_of(t);
            match u8_of(&v, 0, v.len()) {
                Some(p) => {
                    assert(v@.subrange(0, v@.len() as int) =~= v@);
                    p
                },
                None => {
                    assert(v@.subrange(0, v@.len() as int) =~= v@);
                    8
                },
            }
        },
        None => 8,
    }
}

/// Instrument metadata from a batch schema's metadata values: the instrument id
/// (`UNKNOWN`/`UNKNOWN` when absent or empty) and the precisions (8 when absent or
/// not a `u8`).
pub fn instrument_meta(
    instrument_id: Option<&str>,
    price_precision: Option<&str>,
    size_precision: Option<&str>,
) -> (r: InstrumentMeta)
    ensures
        (match instrument_id {
            Some(id) if id@.len() > 0 => (r.symbol@, r.venue@) == instrument_parts(id@),
            _ => r.symbol@ == "UNKNOWN"@ && r.venue@ == "UNKNOWN"@,
        }),
        r.price_precision == precision_of(
            match price_precision {
                Some(t) => Some(t@),
                None => None,
            },
        ),
        r.size_precision == precision_of(
            match size_precision {
                Some(t) => Some(t@),
                None => None,
            },
        ),
{
    let (symbol, venue) = match instrument_id {
        Some(id) => if id.is_empty() {
            (String::from_str("UNKNOWN"), String::from_str("UNKNOWN"))
        } else {
            parse_instrument_id(id)
        },
        None => (String::from_str("UNKNOWN"), String::from_str("UNKNOWN")),
    };
    InstrumentMeta {
        symbol,
        venue,
        price_precision: precision(price_precision),
        size_precision: precision(size_precision),
    }
}

/// A batch's metadata with the instrument taken from the object path when the schema
/// named none.
pub fn with_path_instrument(meta: InstrumentMeta, key: &str, kind: NautilusDataKind) -> (r:
    InstrumentMeta)
    ensures
        r.price_precision == meta.price_precision,
        r.size_precision == meta.size_precision,
        (meta.symbol@ == "UNKNOWN"@ && instrument_of_path(key@, kind) is Some) ==> (r.symbol@,
        r.venue@) == instrument_parts(instrument_of_path(key@, kind)->0),
        !(meta.symbol@ == "UNKNOWN"@ && instrument_of_path(key@, kind) is Some) ==> r.symbol@
            == meta.symbol@ && r.venue@ == meta.venue@,
{
    if str_eq(meta.symbol.as_str(), "UNKNOWN") {
        if let Some(instrument) = instrument_from_path(key, kind) {
            let (symbol, venue) = parse_instrument_id(instrument.as_str());
            return InstrumentMeta {
                symbol,
                venue,
                price_precision: meta.price_precision,
                size_precision: meta.size_precision,
            };
        }
    }
    meta
}

/// The table ticks of `kind` are written to.
pub fn table_for(kind: NautilusDataKind, config: &NautilusIngestConfig) -> (r: String)
    ensures
        r@ == (match kind {
            NautilusDataKind::TradeTick => config.trade_table@,
            NautilusDataKind::QuoteTick => config.quote_table@,
        }),
{
    match kind {
        NautilusDataKind::TradeTick => config.trade_table.clone(),
        NautilusDataKind::QuoteTick => config.quote_table.clone(),
    }
}

/// Name of the aggressor side code.
pub fn aggressor_name(value: u8) -> (r: &'static str)
    ensures
        r@ == aggressor_text(value),
{
    match value {
        1 => "BUYER",
        2 => "SELLER",
        _ => "NO_AGGRESSOR",
    }
}

/// Escapes `\`, space, `,` and `=` in an ILP tag value.
pub fn escape_tag(value: &str) -> (r: String)
    ensures
        r@ == escaped_tag(value@),
{
    proof {
        reveal_strlit("\\");
        reveal_strlit(" ");
        reveal_strlit(",");
        reveal_strlit("=");
    }
    let a = replace_str(value, "\\", "\\\\");
    let b = replace_str(a.as_str(), " ", "\\ ");
    let c = replace_str(b.as_str(), ",", "\\,");
    replace_str(c.as_str(), "=", "\\=")
}

/// Escapes `\` and `"` in an ILP string field value.
pub fn escape_field_string(value: &str) -> (r: String)
    ensures
        r@ == escaped_field(value@),
{
    proof {
        reveal_strlit("\\");
        reveal_strlit("\"");
    }
    let a = replace_str(value, "\\", "\\\\");
    replace_str(a.as_str(), "\"", "\\\"")
}

fn tags_of(meta: &InstrumentMeta) -> (r: String)
    ensures
        r@ == tag_section(*meta),
{
    let mut s = String::from_str("symbol=");
    let sym = escape_tag(meta.symbol.as_str());
    append(&mut s, sym.as_str());
    append(&mut s, ",venue=");
    let venue = escape_tag(meta.venue.as_str());
    append(&mut s, venue.as_str());
    s
}

/// The ILP line of a trade tick whose price and size are already formatted.
pub fn format_trade_line(
    meta: &InstrumentMeta,
    table: &str,
    price: &str,
    size: &str,
    aggressor_side: u8,
    trade_id: &str,
    ts: u64,
) -> (r: String)
    ensures
        r@ == trade_line_text(table@, *meta, price@, size@, aggressor_side, trade_id@, ts),
{
    let mut s = String::from_str(table);
    append(&mut s, ",");
    let tags = tags_of(meta);
    append(&mut s, tags.as_str());
    append(&mut s, " price=");
    append(&mut s, price);
    append(&mut s, ",size=");
    append(&mut s, size);
    append(&mut s, ",aggressor_side=\"");
    let side = escape_field_string(aggressor_name(aggressor_side));
    append(&mut s, side.as_str());
    append(&mut s, "\",trade_id=\"");
    let id = escape_field_string(trade_id);
    append(&mut s, id.as_str());
    append(&mut s, "\" ");
    let t = u64_to_string(ts);
    append(&mut s, t.as_str());
    s
}

/// The ILP line of a quote tick whose prices and sizes are already formatted.
pub fn format_quote_line(
    meta: &InstrumentMeta,
    table: &str,
    bid: &str,
    ask: &str,
    bid_size: &str,
    ask_size: &str,
    ts: u64,
) -> (r: String)
    ensures
        r@ == quote_line_text(table@, *meta, bid@, ask@, bid_size@, ask_size@, ts),
{
    let mut s = String::from_str(table);
    append(&mut s, ",");
    let tags = tags_of(meta);
    append(&mut s, tags.as_str());
    append(&mut s, " bid=");
    append(&mut s, bid);
    append(&mut s, ",ask=");
    append(&mut s, ask);
    append(&mut s, ",bid_size=");
    append(&mut s, bid_size);
    append(&mut s, ",ask_size=");
    append(&mut s, ask_size);
    append(&mut s, " ");
    let t = u64_to_string(ts);
    append(&mut s, t.as_str());
    s
}

} // verus!
