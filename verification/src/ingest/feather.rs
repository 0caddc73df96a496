//! Reading the tick rows of a Nautilus Feather (Arrow IPC stream) object.
//!
//! `arrow` reads the stream into record batches and hands out their columns; which
//! columns a tick needs, their types, the fixed-point cells, the instrument of each
//! batch and the errors are decided here. Rendering a fixed-point value as decimal
//! text is left to the caller.
use vstd::prelude::*;

use std::io::Cursor;

use ::arrow::array::{Array, FixedSizeBinaryArray, StringArray, UInt64Array, UInt8Array};
use ::arrow::ipc::reader::StreamReader;
use ::arrow::record_batch::RecordBatch;

use crate::config::NautilusIngestConfig;
use crate::ingest::events::opt_text;
use crate::ingest::nautilus::{
    classify_object_key, instrument_meta, instrument_of_path, instrument_parts, kind_of_key,
    precision_of, table_for, with_path_instrument, InstrumentMeta, NautilusDataKind,
};
use crate::text::{append, decimal, u64_to_string};

verus! {

/// A record batch as `arrow`'s IPC reader built it. Verus does not read inside it:
/// what it holds is named `batch_contents`.
#[verifier::external_body]
pub struct ArrowBatch {
    batch: RecordBatch,
}

/// The values of one column, by array type.
#[derive(Debug)]
pub enum FeatherColumn {
    FixedBinary(Vec<Vec<u8>>),
    UInt8(Vec<u8>),
    UInt64(Vec<u64>),
    Utf8(Vec<String>),
    /// A column of any other array type.
    Other,
}

pub enum ColumnView {
    FixedBinary(Seq<Seq<u8>>),
    UInt8(Seq<u8>),
    UInt64(Seq<u64>),
    Utf8(Seq<Seq<char>>),
    Other,
}

pub open spec fn bytes_view(v: Seq<Vec<u8>>) -> Seq<Seq<u8>> {
    Seq::new(v.len(), |i: int| v[i]@)
}

pub open spec fn strings_view(v: Seq<String>) -> Seq<Seq<char>> {
    Seq::new(v.len(), |i: int| v[i]@)
}

impl View for FeatherColumn {
    type V = ColumnView;

    open spec fn view(&self) -> ColumnView {
        match self {
            FeatherColumn::FixedBinary(v) => ColumnView::FixedBinary(bytes_view(v@)),
            FeatherColumn::UInt8(v) => ColumnView::UInt8(v@),
            FeatherColumn::UInt64(v) => ColumnView::UInt64(v@),
            FeatherColumn::Utf8(v) => ColumnView::Utf8(strings_view(v@)),
            FeatherColumn::Other => ColumnView::Other,
        }
    }
}

pub open spec fn column_len(c: ColumnView) -> nat {
    match c {
        ColumnView::FixedBinary(v) => v.len(),
        ColumnView::UInt8(v) => v.len(),
        ColumnView::UInt64(v) => v.len(),
        ColumnView::Utf8(v) => v.len(),
        ColumnView::Other => 0,
    }
}

/// What a record batch holds: its schema metadata, its row count, and its named
/// columns in schema order.
pub struct BatchView {
    pub metadata: Map<Seq<char>, Seq<char>>,
    pub num_rows: nat,
    pub columns: Seq<(Seq<char>, ColumnView)>,
}

/// The contents of a record batch.
pub uninterp spec fn batch_contents(b: ArrowBatch) -> BatchView;

/// What `arrow`'s IPC stream reader reads from `bytes`: the contents of the batches
/// read before the first failure, and that failure (whether it came when the stream
/// was opened, and its message) if there is one.
pub uninterp spec fn ipc_read_of(bytes: Seq<u8>) -> (Seq<BatchView>, Option<(bool, Seq<char>)>);

pub open spec fn contents_of(v: Seq<ArrowBatch>) -> Seq<BatchView> {
    Seq::new(v.len(), |i: int| batch_contents(v[i]))
}

pub open spec fn failure_view(f: Option<(bool, String)>) -> Option<(bool, Seq<char>)> {
    match f {
        Some((at_open, m)) => Some((at_open, m@)),
        None => None,
    }
}

pub open spec fn md_get(md: Map<Seq<char>, Seq<char>>, k: Seq<char>) -> Option<Seq<char>> {
    if md.contains_key(k) {
        Some(md[k])
    } else {
        None
    }
}

pub open spec fn opt_column(c: Option<FeatherColumn>) -> Option<ColumnView> {
    match c {
        Some(c) => Some(c@),
        None => None,
    }
}

/// `arrow::ipc::reader::StreamReader` over `bytes`, read to its end or its first
/// error. The batches and the failure are named `ipc_read_of`.
#[verifier::external_body]
fn read_ipc_stream(bytes: &[u8]) -> (r: (Vec<ArrowBatch>, Option<(bool, String)>))
    ensures
        contents_of(r.0@) == ipc_read_of(bytes@).0,
        failure_view(r.1) == ipc_read_of(bytes@).1,
{
    let reader = match StreamReader::try_new(Cursor::new(bytes), None) {
        Ok(reader) => reader,
        Err(e) => return (Vec::new(), Some((true, e.to_string()))),
    };
    let mut out = Vec::new();
    for b in reader {
        match b {
            Ok(batch) => out.push(ArrowBatch { batch }),
            Err(e) => return (out, Some((false, e.to_string()))),
        }
    }
    (out, None)
}

/// `RecordBatch::num_rows`: the row count, as the batch's contents record it.
#[verifier::external_body]
fn batch_rows(b: &ArrowBatch) -> (n: usize)
    ensures
        n == batch_contents(*b).num_rows,
{
    b.batch.num_rows()
}

/// The value of `key` in the batch schema's metadata (`Schema::metadata`), as the
/// batch's contents record it.
#[verifier::external_body]
fn batch_metadata(b: &ArrowBatch, key: &str) -> (r: Option<String>)
    ensures
        opt_text(r) == md_get(batch_contents(*b).metadata, key@),
{
    b.batch.schema().metadata().get(key).cloned()
}

/// `RecordBatch::column_by_name`: the first column named `name`, carried into its
/// values when its array type is one a tick reads. Every column of a record batch
/// holds one value per row (`RecordBatch` checks this when it is built).
#[verifier::external_body]
fn column_named(b: &ArrowBatch, name: &str) -> (r: Option<FeatherColumn>)
    ensures
        opt_column(r) == col_from(batch_contents(*b).columns, name@, 0),
        r matches Some(c) ==> (c@ is Other || column_len(c@) == batch_contents(*b).num_rows),
{
    let a = b.batch.column_by_name(name)?.as_any();
    Some(if let Some(x) = a.downcast_ref::<FixedSizeBinaryArray>() {
        FeatherColumn::FixedBinary((0..x.len()).map(|j| x.value(j).to_vec()).collect())
    } else if let Some(x) = a.downcast_ref::<UInt8Array>() {
        FeatherColumn::UInt8(x.values().to_vec())
    } else if let Some(x) = a.downcast_ref::<UInt64Array>() {
        FeatherColumn::UInt64(x.values().to_vec())
    } else if let Some(x) = a.downcast_ref::<StringArray>() {
        FeatherColumn::Utf8((0..x.len()).map(|j| x.value(j).to_string()).collect())
    } else {
        FeatherColumn::Other
    })
}

/// The cells of one tick; prices and sizes are raw fixed-point values.
#[derive(Debug, Clone, PartialEq)]
pub enum TickCells {
    Trade { price: i64, size: i64, side: u8, trade_id: String, ts: u64 },
    Quote { bid: i64, ask: i64, bid_size: i64, ask_size: i64, ts: u64 },
}

pub enum TickView {
    Trade { price: i64, size: i64, side: u8, trade_id: Seq<char>, ts: u64 },
    Quote { bid: i64, ask: i64, bid_size: i64, ask_size: i64, ts: u64 },
}

impl View for TickCells {
    type V = TickView;

    open spec fn view(&self) -> TickView {
        match self {
            TickCells::Trade { price, size, side, trade_id, ts } => TickView::Trade {
                price: *price,
                size: *size,
                side: *side,
                trade_id: trade_id@,
                ts: *ts,
            },
            TickCells::Quote { bid, ask, bid_size, ask_size, ts } => TickView::Quote {
                bid: *bid,
                ask: *ask,
                bid_size: *bid_size,
                ask_size: *ask_size,
                ts: *ts,
            },
        }
    }
}

/// The ticks of one batch with the instrument they belong to.
#[derive(Debug)]
pub struct FeatherRows {
    pub meta: InstrumentMeta,
    pub ticks: Vec<TickCells>,
}

pub struct RowsView {
    pub symbol: Seq<char>,
    pub venue: Seq<char>,
    pub price_precision: u8,
    pub size_precision: u8,
    pub ticks: Seq<TickView>,
}

pub open spec fn ticks_view(v: Seq<TickCells>) -> Seq<TickView> {
    Seq::new(v.len(), |i: int| v[i]@)
}

impl View for FeatherRows {
    type V = RowsView;

    open spec fn view(&self) -> RowsView {
        RowsView {
            symbol: self.meta.symbol@,
            venue: self.meta.venue@,
            price_precision: self.meta.price_precision,
            size_precision: self.meta.size_precision,
            ticks: ticks_view(self.ticks@),
        }
    }
}

pub open spec fn rows_view(v: Seq<FeatherRows>) -> Seq<RowsView> {
    Seq::new(v.len(), |i: int| v[i]@)
}

pub open spec fn feather_view(r: Result<(String, Vec<FeatherRows>), String>) -> Result<
    (Seq<char>, Seq<RowsView>),
    Seq<char>,
> {
    match r {
        Ok((t, rows)) => Ok((t@, rows_view(rows@))),
        Err(e) => Err(e@),
    }
}

/// The first column named `name`, from position `i` on.
pub open spec fn col_from(cols: Seq<(Seq<char>, ColumnView)>, name: Seq<char>, i: int) -> Option<
    ColumnView,
>
    decreases cols.len() - i,
{
    if i < 0 || i >= cols.len() {
        None
    } else if cols[i].0 == name {
        Some(cols[i].1)
    } else {
        col_from(cols, name, i + 1)
    }
}

pub open spec fn fixed_col(b: BatchView, name: Seq<char>, missing: Seq<char>, wrong: Seq<char>) -> Result<Seq<Seq<u8>>, Seq<char>> {
    match col_from(b.columns, name, 0) {
        None => Err(missing),
        Some(ColumnView::FixedBinary(v)) => Ok(v),
        Some(_) => Err(wrong),
    }
}

pub open spec fn u8_col(b: BatchView, name: Seq<char>, missing: Seq<char>, wrong: Seq<char>) -> Result<Seq<u8>, Seq<char>> {
    match col_from(b.columns, name, 0) {
        None => Err(missing),
        Some(ColumnView::UInt8(v)) => Ok(v),
        Some(_) => Err(wrong),
    }
}

pub open spec fn u64_col(b: BatchView, name: Seq<char>, missing: Seq<char>, wrong: Seq<char>) -> Result<Seq<u64>, Seq<char>> {
    match col_from(b.columns, name, 0) {
        None => Err(missing),
        Some(ColumnView::UInt64(v)) => Ok(v),
        Some(_) => Err(wrong),
    }
}

pub open spec fn utf8_col(b: BatchView, name: Seq<char>, missing: Seq<char>, wrong: Seq<char>) -> Result<Seq<Seq<char>>, Seq<char>> {
    match col_from(b.columns, name, 0) {
        None => Err(missing),
        Some(ColumnView::Utf8(v)) => Ok(v),
        Some(_) => Err(wrong),
    }
}

/// The value of 8 little-endian bytes as a two's-complement `i64`.
pub open spec fn fixed_raw(b: Seq<u8>) -> i64 {
    let u: int = b[0] + 256 * (b[1] + 256 * (b[2] + 256 * (b[3] + 256 * (b[4] + 256 * (b[5]
        + 256 * (b[6] + 256 * b[7]))))));
    (if u >= 0x8000_0000_0000_0000 {
        u - 0x1_0000_0000_0000_0000
    } else {
        u
    }) as i64
}

/// A fixed-point cell: exactly 8 bytes.
pub open spec fn fixed_cell(b: Seq<u8>) -> Result<i64, Seq<char>> {
    if b.len() != 8 {
        Err("expected 8-byte fixed value, got "@ + decimal(b.len()))
    } else {
        Ok(fixed_raw(b))
    }
}

/// The columns a trade tick reads.
pub struct TradeColumns {
    pub price: Seq<Seq<u8>>,
    pub size: Seq<Seq<u8>>,
    pub side: Seq<u8>,
    pub trade_id: Seq<Seq<char>>,
    pub ts: Seq<u64>,
}

/// The columns a quote tick reads.
pub struct QuoteColumns {
    pub bid: Seq<Seq<u8>>,
    pub ask: Seq<Seq<u8>>,
    pub bid_size: Seq<Seq<u8>>,
    pub ask_size: Seq<Seq<u8>>,
    pub ts: Seq<u64>,
}

/// The five trade columns, looked up (and typed) in order.
pub open spec fn trade_columns(b: BatchView) -> Result<TradeColumns, Seq<char>> {
    match fixed_col(b, "price"@, "missing price column"@, "price not fixed binary"@) {
        Err(e) => Err(e),
        Ok(price) => match fixed_col(b, "size"@, "missing size column"@, "size not fixed binary"@) {
            Err(e) => Err(e),
            Ok(size) => match u8_col(
                b,
                "aggressor_side"@,
                "missing aggressor_side column"@,
                "aggressor_side not u8"@,
            ) {
                Err(e) => Err(e),
                Ok(side) => match utf8_col(
                    b,
                    "trade_id"@,
                    "missing trade_id column"@,
                    "trade_id not utf8"@,
                ) {
                    Err(e) => Err(e),
                    Ok(trade_id) => match u64_col(
                        b,
                        "ts_event"@,
                        "missing ts_event column"@,
                        "ts_event not u64"@,
                    ) {
                        Err(e) => Err(e),
                        Ok(ts) => Ok(TradeColumns { price, size, side, trade_id, ts }),
                    },
                },
            },
        },
    }
}

/// The five quote columns, looked up (and typed) in order.
pub open spec fn quote_columns(b: BatchView) -> Result<QuoteColumns, Seq<char>> {
    match fixed_col(b, "bid_price"@, "missing bid_price"@, "bid_price not fixed binary"@) {
        Err(e) => Err(e),
        Ok(bid) => match fixed_col(b, "ask_price"@, "missing ask_price"@, "ask_price not fixed binary"@) {
            Err(e) => Err(e),
            Ok(ask) => match fixed_col(b, "bid_size"@, "missing bid_size"@, "bid_size not fixed binary"@) {
                Err(e) => Err(e),
                Ok(bid_size) => match fixed_col(
                    b,
                    "ask_size"@,
                    "missing ask_size"@,
                    "ask_size not fixed binary"@,
                ) {
                    Err(e) => Err(e),
                    Ok(ask_size) => match u64_col(b, "ts_event"@, "missing ts_event"@, "ts_event not u64"@) {
                        Err(e) => Err(e),
                        Ok(ts) => Ok(QuoteColumns { bid, ask, bid_size, ask_size, ts }),
                    },
                },
            },
        },
    }
}

/// The trade tick of row `r`: its price cell, then its size cell.
pub open spec fn trade_at(c: TradeColumns, r: int) -> Result<TickView, Seq<char>> {
    match fixed_cell(c.price[r]) {
        Err(e) => Err(e),
        Ok(p) => match fixed_cell(c.size[r]) {
            Err(e) => Err(e),
            Ok(s) => Ok(
                TickView::Trade { price: p, size: s, side: c.side[r], trade_id: c.trade_id[r], ts: c.ts[r] },
            ),
        },
    }
}

/// The quote tick of row `r`: its four fixed-point cells in order.
pub open spec fn quote_at(c: QuoteColumns, r: int) -> Result<TickView, Seq<char>> {
    match fixed_cell(c.bid[r]) {
        Err(e) => Err(e),
        Ok(a) => match fixed_cell(c.ask[r]) {
            Err(e) => Err(e),
            Ok(k) => match fixed_cell(c.bid_size[r]) {
                Err(e) => Err(e),
                Ok(d) => match fixed_cell(c.ask_size[r]) {
                    Err(e) => Err(e),
                    Ok(f) => Ok(TickView::Quote { bid: a, ask: k, bid_size: d, ask_size: f, ts: c.ts[r] }),
                },
            },
        },
    }
}

/// The tick of row `r` of a batch: the kind's columns, then the row's cells.
pub open spec fn tick_cells(b: BatchView, kind: NautilusDataKind, r: int) -> Result<TickView, Seq<char>> {
    match kind {
        NautilusDataKind::TradeTick => match trade_columns(b) {
            Err(e) => Err(e),
            Ok(c) => trade_at(c, r),
        },
        NautilusDataKind::QuoteTick => match quote_columns(b) {
            Err(e) => Err(e),
            Ok(c) => quote_at(c, r),
        },
    }
}

/// The ticks of the first `n` rows of a batch, or the first row's error.
pub open spec fn batch_ticks_spec(b: BatchView, kind: NautilusDataKind, n: nat) -> Result<
    Seq<TickView>,
    Seq<char>,
>
    decreases n,
{
    if n == 0 {
        Ok(Seq::empty())
    } else {
        match batch_ticks_spec(b, kind, (n - 1) as nat) {
            Err(e) => Err(e),
            Ok(s) => match tick_cells(b, kind, n - 1) {
                Err(e) => Err(e),
                Ok(t) => Ok(s.push(t)),
            },
        }
    }
}

/// The instrument of a batch: from the schema's `instrument_id` (`UNKNOWN` when absent
/// or empty), replaced by the one in the object path when the schema named none.
pub open spec fn instrument_of(md: Map<Seq<char>, Seq<char>>, key: Seq<char>, kind: NautilusDataKind) -> (Seq<char>, Seq<char>) {
    let base = match md_get(md, "instrument_id"@) {
        Some(id) => if id.len() > 0 {
            instrument_parts(id)
        } else {
            ("UNKNOWN"@, "UNKNOWN"@)
        },
        None => ("UNKNOWN"@, "UNKNOWN"@),
    };
    if base.0 == "UNKNOWN"@ && instrument_of_path(key, kind) is Some {
        instrument_parts(instrument_of_path(key, kind)->0)
    } else {
        base
    }
}

/// The rows of one batch with its instrument and precisions.
pub open spec fn batch_rows_of(b: BatchView, key: Seq<char>, kind: NautilusDataKind) -> Result<RowsView, Seq<char>> {
    match batch_ticks_spec(b, kind, b.num_rows) {
        Err(e) => Err(e),
        Ok(t) => Ok(
            RowsView {
                symbol: instrument_of(b.metadata, key, kind).0,
                venue: instrument_of(b.metadata, key, kind).1,
                price_precision: precision_of(md_get(b.metadata, "price_precision"@)),
                size_precision: precision_of(md_get(b.metadata, "size_precision"@)),
                ticks: t,
            },
        ),
    }
}

/// The rows of the first `k` batches, or the first error.
pub open spec fn rows_of(bs: Seq<BatchView>, key: Seq<char>, kind: NautilusDataKind, k: nat) -> Result<Seq<RowsView>, Seq<char>>
    decreases k,
{
    if k == 0 {
        Ok(Seq::empty())
    } else {
        match rows_of(bs, key, kind, (k - 1) as nat) {
            Err(e) => Err(e),
            Ok(s) => match batch_rows_of(bs[k - 1], key, kind) {
                Err(e) => Err(e),
                Ok(r) => Ok(s.push(r)),
            },
        }
    }
}

pub open spec fn no_ticks(rows: Seq<RowsView>) -> bool {
    forall|i: int| 0 <= i < rows.len() ==> (#[trigger] rows[i]).ticks.len() == 0
}

pub open spec fn table_text(kind: NautilusDataKind, config: NautilusIngestConfig) -> Seq<char> {
    match kind {
        NautilusDataKind::TradeTick => config.trade_table@,
        NautilusDataKind::QuoteTick => config.quote_table@,
    }
}

/// The message of a stream failure.
pub open spec fn failure_text(f: Option<(bool, Seq<char>)>) -> Option<Seq<char>> {
    match f {
        Some((true, m)) => Some("invalid arrow ipc stream: "@ + m),
        Some((false, m)) => Some("read record batch: "@ + m),
        None => None,
    }
}

/// The table and tick rows of a catalog object whose stream read as `bs` (then failed
/// with `failure`, if set): the key must name a tick kind, every row of every batch
/// read must decode, the stream must end cleanly, and some row must exist.
pub open spec fn feather_spec(
    key: Seq<char>,
    bs: Seq<BatchView>,
    failure: Option<(bool, Seq<char>)>,
    config: NautilusIngestConfig,
) -> Result<(Seq<char>, Seq<RowsView>), Seq<char>> {
    match kind_of_key(key) {
        None => Err("unsupported nautilus object key: "@ + key),
        Some(kind) => match rows_of(bs, key, kind, bs.len()) {
            Err(e) => Err(e),
            Ok(rows) => match failure_text(failure) {
                Some(e) => Err(e),
                None => if no_ticks(rows) {
                    Err("no rows decoded from "@ + key)
                } else {
                    Ok((table_text(kind, config), rows))
                },
            },
        },
    }
}

pub open spec fn ticks_result(r: Result<Vec<TickCells>, String>) -> Result<Seq<TickView>, Seq<char>> {
    match r {
        Ok(v) => Ok(ticks_view(v@)),
        Err(e) => Err(e@),
    }
}

// ---------------------------------------------------------------------------
// Lemmas
// ---------------------------------------------------------------------------
/// Once a row fails, the batch fails with that row's error.
proof fn lemma_ticks_err(b: BatchView, kind: NautilusDataKind, m: nat, n: nat)
    requires
        m <= n,
        batch_ticks_spec(b, kind, m) is Err,
    ensures
        batch_ticks_spec(b, kind, n) == batch_ticks_spec(b, kind, m),
    decreases n,
{
    if n > m {
        lemma_ticks_err(b, kind, m, (n - 1) as nat);
    }
}

/// Once a batch fails, the object fails with that batch's error.
proof fn lemma_rows_err(bs: Seq<BatchView>, key: Seq<char>, kind: NautilusDataKind, m: nat, n: nat)
    requires
        m <= n,
        rows_of(bs, key, kind, m) is Err,
    ensures
        rows_of(bs, key, kind, n) == rows_of(bs, key, kind, m),
    decreases n,
{
    if n > m {
        lemma_rows_err(bs, key, kind, m, (n - 1) as nat);
    }
}

// ---------------------------------------------------------------------------
// Implementation
// ---------------------------------------------------------------------------
fn fixed_column(b: &ArrowBatch, name: &str, missing: &str, wrong: &str) -> (r: Result<
    Vec<Vec<u8>>,
    String,
>)
    ensures
        (match r {
            Ok(v) => fixed_col(batch_contents(*b), name@, missing@, wrong@) == Ok::<
                Seq<Seq<u8>>,
                Seq<char>,
            >(bytes_view(v@)) && v@.len() == batch_contents(*b).num_rows,
            Err(e) => fixed_col(batch_contents(*b), name@, missing@, wrong@) == Err::<
                Seq<Seq<u8>>,
                Seq<char>,
            >(e@),
        }),
{
    match column_named(b, name) {
        None => Err(String::from_str(missing)),
        Some(FeatherColumn::FixedBinary(v)) => Ok(v),
        Some(_) => Err(String::from_str(wrong)),
    }
}

fn u8_column(b: &ArrowBatch, name: &str, missing: &str, wrong: &str) -> (r: Result<Vec<u8>, String>)
    ensures
        (match r {
            Ok(v) => u8_col(batch_contents(*b), name@, missing@, wrong@) == Ok::<Seq<u8>, Seq<char>>(
                v@,
            ) && v@.len() == batch_contents(*b).num_rows,
            Err(e) => u8_col(batch_contents(*b), name@, missing@, wrong@) == Err::<
                Seq<u8>,
                Seq<char>,
            >(e@),
        }),
{
    match column_named(b, name) {
        None => Err(String::from_str(missing)),
        Some(FeatherColumn::UInt8(v)) => Ok(v),
        Some(_) => Err(String::from_str(wrong)),
    }
}

fn u64_column(b: &ArrowBatch, name: &str, missing: &str, wrong: &str) -> (r: Result<Vec<u64>, String>)
    ensures
        (match r {
            Ok(v) => u64_col(batch_contents(*b), name@, missing@, wrong@) == Ok::<
                Seq<u64>,
                Seq<char>,
            >(v@) && v@.len() == batch_contents(*b).num_rows,
            Err(e) => u64_col(batch_contents(*b), name@, missing@, wrong@) == Err::<
                Seq<u64>,
                Seq<char>,
            >(e@),
        }),
{
    match column_named(b, name) {
        None => Err(String::from_str(missing)),
        Some(FeatherColumn::UInt64(v)) => Ok(v),
        Some(_) => Err(String::from_str(wrong)),
    }
}

fn utf8_column(b: &ArrowBatch, name: &str, missing: &str, wrong: &str) -> (r: Result<
    Vec<String>,
    String,
>)
    ensures
        (match r {
            Ok(v) => utf8_col(batch_contents(*b), name@, missing@, wrong@) == Ok::<
                Seq<Seq<char>>,
                Seq<char>,
            >(strings_view(v@)) && v@.len() == batch_contents(*b).num_rows,
            Err(e) => utf8_col(batch_contents(*b), name@, missing@, wrong@) == Err::<
                Seq<Seq<char>>,
                Seq<char>,
            >(e@),
        }),
{
    match column_named(b, name) {
        None => Err(String::from_str(missing)),
        Some(FeatherColumn::Utf8(v)) => Ok(v),
        Some(_) => Err(String::from_str(wrong)),
    }
}

/// A fixed-point cell as its raw value: 8 little-endian bytes of a two's-complement
/// integer.
pub fn fixed_value(cell: &Vec<u8>) -> (r: Result<i64, String>)
    ensures
        (match r {
            Ok(x) => fixed_cell(cell@) == Ok::<i64, Seq<char>>(x),
            Err(e) => fixed_cell(cell@) == Err::<i64, Seq<char>>(e@),
        }),
{
    if cell.len() != 8 {
        let mut m = String::from_str("expected 8-byte fixed value, got ");
        let n = u64_to_string(cell.len() as u64);
        append(&mut m, n.as_str());
        return Err(m);
    }
    let u: u128 = cell[0] as u128 + 256 * (cell[1] as u128 + 256 * (cell[2] as u128 + 256 * (
    cell[3] as u128 + 256 * (cell[4] as u128 + 256 * (cell[5] as u128 + 256 * (cell[6] as u128
        + 256 * cell[7] as u128))))));
    let v: i128 = if u >= 0x8000_0000_0000_0000 {
        u as i128 - 0x1_0000_0000_0000_0000
    } else {
        u as i128
    };
    Ok(v as i64)
}

/// The five trade columns of a batch.
fn trade_columns_of(b: &ArrowBatch) -> (r: Result<
    (Vec<Vec<u8>>, Vec<Vec<u8>>, Vec<u8>, Vec<String>, Vec<u64>),
    String,
>)
    ensures
        (match r {
            Ok((p, s, a, t, e)) => {
                &&& trade_columns(batch_contents(*b)) == Ok::<TradeColumns, Seq<char>>(
                    TradeColumns {
                        price: bytes_view(p@),
                        size: bytes_view(s@),
                        side: a@,
                        trade_id: strings_view(t@),
                        ts: e@,
                    },
                )
                &&& p@.len() == batch_contents(*b).num_rows
                &&& s@.len() == batch_contents(*b).num_rows
                &&& a@.len() == batch_contents(*b).num_rows
                &&& t@.len() == batch_contents(*b).num_rows
                &&& e@.len() == batch_contents(*b).num_rows
            },
            Err(m) => trade_columns(batch_contents(*b)) == Err::<TradeColumns, Seq<char>>(m@),
        }),
{
    let price = match fixed_column(b, "price", "missing price column", "price not fixed binary") {
        Ok(v) => v,
        Err(e) => return Err(e),
    };
    let size = match fixed_column(b, "size", "missing size column", "size not fixed binary") {
        Ok(v) => v,
        Err(e) => return Err(e),
    };
    let side = match u8_column(
        b,
        "aggressor_side",
        "missing aggressor_side column",
        "aggressor_side not u8",
    ) {
        Ok(v) => v,
        Err(e) => return Err(e),
    };
    let ids = match utf8_column(b, "trade_id", "missing trade_id column", "trade_id not utf8") {
        Ok(v) => v,
        Err(e) => return Err(e),
    };
    let ts = match u64_column(b, "ts_event", "missing ts_event column", "ts_event not u64") {
        Ok(v) => v,
        Err(e) => return Err(e),
    };
    Ok((price, size, side, ids, ts))
}

/// The five quote columns of a batch.
fn quote_columns_of(b: &ArrowBatch) -> (r: Result<
    (Vec<Vec<u8>>, Vec<Vec<u8>>, Vec<Vec<u8>>, Vec<Vec<u8>>, Vec<u64>),
    String,
>)
    ensures
        (match r {
            Ok((p, q, s, t, e)) => {
                &&& quote_columns(batch_contents(*b)) == Ok::<QuoteColumns, Seq<char>>(
                    QuoteColumns {
                        bid: bytes_view(p@),
                        ask: bytes_view(q@),
                        bid_size: bytes_view(s@),
                        ask_size: bytes_view(t@),
                        ts: e@,
                    },
                )
                &&& p@.len() == batch_contents(*b).num_rows
                &&& q@.len() == batch_contents(*b).num_rows
                &&& s@.len() == batch_contents(*b).num_rows
                &&& t@.len() == batch_contents(*b).num_rows
                &&& e@.len() == batch_contents(*b).num_rows
            },
            Err(m) => quote_columns(batch_contents(*b)) == Err::<QuoteColumns, Seq<char>>(m@),
        }),
{
    let bid = match fixed_column(b, "bid_price", "missing bid_price", "bid_price not fixed binary") {
        Ok(v) => v,
        Err(e) => return Err(e),
    };
    let ask = match fixed_column(b, "ask_price", "missing ask_price", "ask_price not fixed binary") {
        Ok(v) => v,
        Err(e) => return Err(e),
    };
    let bid_size = match fixed_column(b, "bid_size", "missing bid_size", "bid_size not fixed binary") {
        Ok(v) => v,
        Err(e) => return Err(e),
    };
    let ask_size = match fixed_column(b, "ask_size", "missing ask_size", "ask_size not fixed binary") {
        Ok(v) => v,
        Err(e) => return Err(e),
    };
    let ts = match u64_column(b, "ts_event", "missing ts_event", "ts_event not u64") {
        Ok(v) => v,
        Err(e) => return Err(e),
    };
    Ok((bid, ask, bid_size, ask_size, ts))
}

/// The trade ticks of every row of a batch, or the first error.
fn trade_ticks(b: &ArrowBatch) -> (r: Result<Vec<TickCells>, String>)
    ensures
        ticks_result(r) == batch_ticks_spec(
            batch_contents(*b),
            NautilusDataKind::TradeTick,
            batch_contents(*b).num_rows,
        ),
{
    let ghost bv = batch_contents(*b);
    let ghost kind = NautilusDataKind::TradeTick;
    let n = batch_rows(b);
    if n == 0 {
        let none: Vec<TickCells> = Vec::new();
        assert(ticks_view(none@) =~= Seq::<TickView>::empty());
        return Ok(none);
    }
    let (price, size, side, ids, ts) = match trade_columns_of(b) {
        Ok(c) => c,
        Err(e) => {
            proof {
                assert(batch_ticks_spec(bv, kind, 0) == Ok::<Seq<TickView>, Seq<char>>(Seq::empty()));
                lemma_ticks_err(bv, kind, 1, n as nat);
            }
            return Err(e);
        },
    };
    let mut out: Vec<TickCells> = Vec::new();
    let mut row: usize = 0;
    assert(ticks_view(out@) =~= Seq::<TickView>::empty());
    while row < n
        invariant
            row <= n,
            n == bv.num_rows,
            bv == batch_contents(*b),
            kind == NautilusDataKind::TradeTick,
            trade_columns(bv) == Ok::<TradeColumns, Seq<char>>(
                TradeColumns {
                    price: bytes_view(price@),
                    size: bytes_view(size@),
                    side: side@,
                    trade_id: strings_view(ids@),
                    ts: ts@,
                },
            ),
            price@.len() == n,
            size@.len() == n,
            side@.len() == n,
            ids@.len() == n,
            ts@.len() == n,
            batch_ticks_spec(bv, kind, row as nat) == Ok::<Seq<TickView>, Seq<char>>(
                ticks_view(out@),
            ),
        decreases n - row,
    {
        let p = match fixed_value(&price[row]) {
            Ok(x) => x,
            Err(e) => {
                proof {
                    lemma_ticks_err(bv, kind, (row + 1) as nat, n as nat);
                }
                return Err(e);
            },
        };
        let s = match fixed_value(&size[row]) {
            Ok(x) => x,
            Err(e) => {
                proof {
                    lemma_ticks_err(bv, kind, (row + 1) as nat, n as nat);
                }
                return Err(e);
            },
        };
        let tick = TickCells::Trade {
            price: p,
            size: s,
            side: side[row],
            trade_id: ids[row].clone(),
            ts: ts[row],
        };
        let ghost before = out@;
        out.push(tick);
        proof {
            assert(ticks_view(out@) =~= ticks_view(before).push(tick@));
        }
        row = row + 1;
    }
    Ok(out)
}

/// The quote ticks of every row of a batch, or the first error.
fn quote_ticks(b: &ArrowBatch) -> (r: Result<Vec<TickCells>, String>)
    ensures
        ticks_result(r) == batch_ticks_spec(
            batch_contents(*b),
            NautilusDataKind::QuoteTick,
            batch_contents(*b).num_rows,
        ),
{
    let ghost bv = batch_contents(*b);
    let ghost kind = NautilusDataKind::QuoteTick;
    let n = batch_rows(b);
    if n == 0 {
        let none: Vec<TickCells> = Vec::new();
        assert(ticks_view(none@) =~= Seq::<TickView>::empty());
        return Ok(none);
    }
    let (bid, ask, bid_size, ask_size, ts) = match quote_columns_of(b) {
        Ok(c) => c,
        Err(e) => {
            proof {
                assert(batch_ticks_spec(bv, kind, 0) == Ok::<Seq<TickView>, Seq<char>>(Seq::empty()));
                lemma_ticks_err(bv, kind, 1, n as nat);
            }
            return Err(e);
        },
    };
    let mut out: Vec<TickCells> = Vec::new();
    let mut row: usize = 0;
    assert(ticks_view(out@) =~= Seq::<TickView>::empty());
    while row < n
        invariant
            row <= n,
            n == bv.num_rows,
            bv == batch_contents(*b),
            kind == NautilusDataKind::QuoteTick,
            quote_columns(bv) == Ok::<QuoteColumns, Seq<char>>(
                QuoteColumns {
                    bid: bytes_view(bid@),
                    ask: bytes_view(ask@),
                    bid_size: bytes_view(bid_size@),
                    ask_size: bytes_view(ask_size@),
                    ts: ts@,
                },
            ),
            bid@.len() == n,
            ask@.len() == n,
            bid_size@.len() == n,
            ask_size@.len() == n,
            ts@.len() == n,
            batch_ticks_spec(bv, kind, row as nat) == Ok::<Seq<TickView>, Seq<char>>(
                ticks_view(out@),
            ),
        decreases n - row,
    {
        let a = match fixed_value(&bid[row]) {
            Ok(x) => x,
            Err(e) => {
                proof {
                    lemma_ticks_err(bv, kind, (row + 1) as nat, n as nat);
                }
                return Err(e);
            },
        };
        let k = match fixed_value(&ask[row]) {
            Ok(x) => x,
            Err(e) => {
                proof {
                    lemma_ticks_err(bv, kind, (row + 1) as nat, n as nat);
                }
                return Err(e);
            },
        };
        let d = match fixed_value(&bid_size[row]) {
            Ok(x) => x,
            Err(e) => {
                proof {
                    lemma_ticks_err(bv, kind, (row + 1) as nat, n as nat);
                }
                return Err(e);
            },
        };
        let f = match fixed_value(&ask_size[row]) {
            Ok(x) => x,
            Err(e) => {
                proof {
                    lemma_ticks_err(bv, kind, (row + 1) as nat, n as nat);
                }
                return Err(e);
            },
        };
        let tick = TickCells::Quote { bid: a, ask: k, bid_size: d, ask_size: f, ts: ts[row] };
        let ghost before = out@;
        out.push(tick);
        proof {
            assert(ticks_view(out@) =~= ticks_view(before).push(tick@));
        }
        row = row + 1;
    }
    Ok(out)
}

fn opt_str(o: &Option<String>) -> (r: Option<&str>)
    ensures
        (match r {
            Some(t) => Some(t@),
            None => None,
        }) == opt_text(*o),
{
    match o {
        Some(s) => Some(s.as_str()),
        None => None,
    }
}

/// The ticks of one batch with its instrument and precisions.
fn rows_of_batch(b: &ArrowBatch, key: &str, kind: NautilusDataKind) -> (r: Result<
    FeatherRows,
    String,
>)
    ensures
        (match r {
            Ok(x) => batch_rows_of(batch_contents(*b), key@, kind) == Ok::<RowsView, Seq<char>>(x@),
            Err(e) => batch_rows_of(batch_contents(*b), key@, kind) == Err::<RowsView, Seq<char>>(
                e@,
            ),
        }),
{
    let ticks = match kind {
        NautilusDataKind::TradeTick => trade_ticks(b),
        NautilusDataKind::QuoteTick => quote_ticks(b),
    };
    let ticks = match ticks {
        Ok(t) => t,
        Err(e) => return Err(e),
    };
    let id = batch_metadata(b, "instrument_id");
    let pp = batch_metadata(b, "price_precision");
    let sp = batch_metadata(b, "size_precision");
    let meta = instrument_meta(opt_str(&id), opt_str(&pp), opt_str(&sp));
    let meta = with_path_instrument(meta, key, kind);
    Ok(FeatherRows { meta, ticks })
}

/// The table and tick rows of a catalog object under `key`, from the record batches
/// its stream read and the failure that ended the stream, if any: the key must name a
/// tick kind, every row must decode, the stream must have ended cleanly, and some row
/// must exist.
pub fn feather_rows(
    key: &str,
    batches: &Vec<ArrowBatch>,
    failure: Option<(bool, String)>,
    config: &NautilusIngestConfig,
) -> (r: Result<(String, Vec<FeatherRows>), String>)
    ensures
        feather_view(r) == feather_spec(key@, contents_of(batches@), failure_view(failure), *config),
{
    let kind = match classify_object_key(key) {
        Some(k) => k,
        None => {
            let mut m = String::from_str("unsupported nautilus object key: ");
            append(&mut m, key);
            return Err(m);
        },
    };
    let ghost bs = contents_of(batches@);
    let mut out: Vec<FeatherRows> = Vec::new();
    let mut i: usize = 0;
    assert(rows_view(out@) =~= Seq::<RowsView>::empty());
    while i < batches.len()
        invariant
            i <= batches.len(),
            bs == contents_of(batches@),
            kind_of_key(key@) == Some(kind),
            rows_of(bs, key@, kind, i as nat) == Ok::<Seq<RowsView>, Seq<char>>(rows_view(out@)),
        decreases batches.len() - i,
    {
        match rows_of_batch(&batches[i], key, kind) {
            Ok(rows) => {
                let ghost before = out@;
                out.push(rows);
                proof {
                    assert(rows_view(out@) =~= rows_view(before).push(rows@));
                }
            },
            Err(e) => {
                proof {
                    lemma_rows_err(bs, key@, kind, (i + 1) as nat, bs.len());
                }
                return Err(e);
            },
        }
        i = i + 1;
    }
    match failure {
        Some((at_open, m)) => {
            let mut msg = if at_open {
                String::from_str("invalid arrow ipc stream: ")
            } else {
                String::from_str("read record batch: ")
            };
            append(&mut msg, m.as_str());
            return Err(msg);
        },
        None => {},
    }
    let mut found = false;
    let mut j: usize = 0;
    while j < out.len()
        invariant
            j <= out.len(),
            found <==> exists|k: int| 0 <= k < j && (#[trigger] out@[k]).ticks@.len() > 0,
        decreases out.len() - j,
    {
        if out[j].ticks.len() > 0 {
            found = true;
        }
        j = j + 1;
    }
    proof {
        if found {
            let k = choose|k: int| 0 <= k < out@.len() && (#[trigger] out@[k]).ticks@.len() > 0;
            assert(rows_view(out@)[k].ticks.len() > 0);
        }
    }
    if !found {
        let mut m = String::from_str("no rows decoded from ");
        append(&mut m, key);
        return Err(m);
    }
    Ok((table_for(kind, config), out))
}

/// Decodes the tick rows of a catalog object: the key's tick kind is checked first,
/// then `arrow` reads the object's bytes as an IPC stream.
pub fn decode_feather_ticks(key: &str, bytes: &[u8], config: &NautilusIngestConfig) -> (r: Result<
    (String, Vec<FeatherRows>),
    String,
>)
    ensures
        feather_view(r) == feather_spec(key@, ipc_read_of(bytes@).0, ipc_read_of(bytes@).1, *config),
{
    match classify_object_key(key) {
        None => feather_rows(key, &Vec::new(), None, config),
        Some(_) => {
            let (batches, failure) = read_ipc_stream(bytes);
            feather_rows(key, &batches, failure, config)
        },
    }
}

} // verus!
