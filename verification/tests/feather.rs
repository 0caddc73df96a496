use std::collections::HashMap;
use std::sync::Arc;

use arrow::array::{ArrayRef, FixedSizeBinaryArray, StringArray, UInt64Array, UInt8Array};
use arrow::datatypes::{DataType, Field, Schema};
use arrow::ipc::writer::StreamWriter;
use arrow::record_batch::RecordBatch;

use quest_router::config::NautilusIngestConfig;
use quest_router::ingest::feather::{decode_feather_ticks, fixed_value, TickCells};
use quest_router::ingest::nautilus::format_trade_line;

const TRADE_KEY: &str = "live/LIVE/instance/data/trades/BTCUSDT.BITUNIX/chunk.feather";
const QUOTE_KEY: &str = "live/LIVE/instance/data/quotes/ETHUSDT.BITUNIX/chunk.feather";

fn stream_of(fields: Vec<Field>, metadata: HashMap<String, String>, columns: Vec<ArrayRef>) -> Vec<u8> {
    let schema = Schema::new_with_metadata(fields, metadata);
    let batch = RecordBatch::try_new(Arc::new(schema), columns).unwrap();
    let mut buf = Vec::new();
    {
        let mut writer = StreamWriter::try_new(&mut buf, batch.schema().as_ref()).unwrap();
        writer.write(&batch).unwrap();
        writer.finish().unwrap();
    }
    buf
}

fn fixed(values: &[i64]) -> ArrayRef {
    let raws: Vec<[u8; 8]> = values.iter().map(|v| v.to_le_bytes()).collect();
    Arc::new(FixedSizeBinaryArray::try_from_iter(raws.iter().map(|r| r.as_slice())).unwrap())
}

fn trade_metadata() -> HashMap<String, String> {
    HashMap::from([
        ("instrument_id".to_string(), "BTCUSDT.BITUNIX".to_string()),
        ("price_precision".to_string(), "2".to_string()),
        ("size_precision".to_string(), "3".to_string()),
    ])
}

fn write_trade_feather() -> Vec<u8> {
    stream_of(
        vec![
            Field::new("price", DataType::FixedSizeBinary(8), false),
            Field::new("size", DataType::FixedSizeBinary(8), false),
            Field::new("aggressor_side", DataType::UInt8, false),
            Field::new("trade_id", DataType::Utf8, false),
            Field::new("ts_event", DataType::UInt64, false),
            Field::new("ts_init", DataType::UInt64, false),
        ],
        trade_metadata(),
        vec![
            fixed(&[50_000_25]),
            fixed(&[1_000]),
            Arc::new(UInt8Array::from(vec![1u8])),
            Arc::new(StringArray::from(vec!["t1"])),
            Arc::new(UInt64Array::from(vec![1_700_000_000_000_000_000u64])),
            Arc::new(UInt64Array::from(vec![1_700_000_000_000_000_001u64])),
        ],
    )
}

fn fixed_text(raw: i64, precision: u8) -> String {
    (raw as f64 / 10_f64.powi(i32::from(precision))).to_string()
}

#[test]
fn decodes_trade_feather_to_ilp() {
    let bytes = write_trade_feather();
    let config = NautilusIngestConfig::default();
    let (table, batches) = decode_feather_ticks(TRADE_KEY, &bytes, &config).unwrap();
    assert_eq!(table, "trade_ticks");
    let mut lines = Vec::new();
    for rows in &batches {
        for tick in &rows.ticks {
            if let TickCells::Trade { price, size, side, trade_id, ts } = tick {
                lines.push(format_trade_line(
                    &rows.meta,
                    &table,
                    &fixed_text(*price, rows.meta.price_precision),
                    &fixed_text(*size, rows.meta.size_precision),
                    *side,
                    trade_id,
                    *ts,
                ));
            }
        }
    }
    assert_eq!(lines.len(), 1);
    assert!(lines[0].starts_with("trade_ticks,symbol=BTCUSDT,venue=BITUNIX"));
    assert!(lines[0].contains("price=50000.25"));
    assert!(lines[0].contains("trade_id=\"t1\""));
}

#[test]
fn trade_ticks_carry_raw_cells_and_metadata() {
    let bytes = write_trade_feather();
    let (_, batches) = decode_feather_ticks(TRADE_KEY, &bytes, &NautilusIngestConfig::default()).unwrap();
    assert_eq!(batches.len(), 1);
    let rows = &batches[0];
    assert_eq!(rows.meta.symbol, "BTCUSDT");
    assert_eq!(rows.meta.venue, "BITUNIX");
    assert_eq!(rows.meta.price_precision, 2);
    assert_eq!(rows.meta.size_precision, 3);
    assert_eq!(
        rows.ticks,
        vec![TickCells::Trade {
            price: 5_000_025,
            size: 1_000,
            side: 1,
            trade_id: "t1".to_string(),
            ts: 1_700_000_000_000_000_000,
        }]
    );
}

#[test]
fn quote_ticks_take_instrument_from_path() {
    let bytes = stream_of(
        vec![
            Field::new("bid_price", DataType::FixedSizeBinary(8), false),
            Field::new("ask_price", DataType::FixedSizeBinary(8), false),
            Field::new("bid_size", DataType::FixedSizeBinary(8), false),
            Field::new("ask_size", DataType::FixedSizeBinary(8), false),
            Field::new("ts_event", DataType::UInt64, false),
        ],
        HashMap::new(),
        vec![
            fixed(&[150, -2]),
            fixed(&[160, 3]),
            fixed(&[7, 8]),
            fixed(&[9, 10]),
            Arc::new(UInt64Array::from(vec![5u64, 6])),
        ],
    );
    let (table, batches) = decode_feather_ticks(QUOTE_KEY, &bytes, &NautilusIngestConfig::default()).unwrap();
    assert_eq!(table, "quote_ticks");
    let rows = &batches[0];
    assert_eq!((rows.meta.symbol.as_str(), rows.meta.venue.as_str()), ("ETHUSDT", "BITUNIX"));
    assert_eq!((rows.meta.price_precision, rows.meta.size_precision), (8, 8));
    assert_eq!(
        rows.ticks,
        vec![
            TickCells::Quote { bid: 150, ask: 160, bid_size: 7, ask_size: 9, ts: 5 },
            TickCells::Quote { bid: -2, ask: 3, bid_size: 8, ask_size: 10, ts: 6 },
        ]
    );
}

#[test]
fn feather_errors() {
    let config = NautilusIngestConfig::default();
    let bytes = write_trade_feather();
    assert_eq!(
        decode_feather_ticks("live/other/x.feather", &bytes, &config).unwrap_err(),
        "unsupported nautilus object key: live/other/x.feather"
    );
    let garbage = decode_feather_ticks(TRADE_KEY, b"not arrow", &config).unwrap_err();
    assert!(garbage.starts_with("invalid arrow ipc stream: "));
    // A trade stream read under a quote key lacks the quote columns.
    let quote_key = "live/data/quotes/BTCUSDT.BITUNIX/x.feather";
    assert_eq!(decode_feather_ticks(quote_key, &bytes, &config).unwrap_err(), "missing bid_price");
    let wrong_type = stream_of(
        vec![Field::new("price", DataType::UInt64, false)],
        trade_metadata(),
        vec![Arc::new(UInt64Array::from(vec![1u64]))],
    );
    assert_eq!(
        decode_feather_ticks(TRADE_KEY, &wrong_type, &config).unwrap_err(),
        "price not fixed binary"
    );
    let narrow = stream_of(
        vec![
            Field::new("price", DataType::FixedSizeBinary(4), false),
            Field::new("size", DataType::FixedSizeBinary(4), false),
            Field::new("aggressor_side", DataType::UInt8, false),
            Field::new("trade_id", DataType::Utf8, false),
            Field::new("ts_event", DataType::UInt64, false),
        ],
        trade_metadata(),
        vec![
            Arc::new(FixedSizeBinaryArray::try_from_iter(std::iter::once([1u8, 0, 0, 0].as_slice())).unwrap()),
            Arc::new(FixedSizeBinaryArray::try_from_iter(std::iter::once([1u8, 0, 0, 0].as_slice())).unwrap()),
            Arc::new(UInt8Array::from(vec![2u8])),
            Arc::new(StringArray::from(vec!["t2"])),
            Arc::new(UInt64Array::from(vec![1u64])),
        ],
    );
    assert_eq!(
        decode_feather_ticks(TRADE_KEY, &narrow, &config).unwrap_err(),
        "expected 8-byte fixed value, got 4"
    );
    let empty = stream_of(
        vec![Field::new("ts_event", DataType::UInt64, false)],
        trade_metadata(),
        vec![Arc::new(UInt64Array::from(Vec::<u64>::new()))],
    );
    assert_eq!(
        decode_feather_ticks(TRADE_KEY, &empty, &config).unwrap_err(),
        format!("no rows decoded from {TRADE_KEY}")
    );
}

#[test]
fn fixed_values_are_little_endian_twos_complement() {
    assert_eq!(fixed_value(&5_000_025i64.to_le_bytes().to_vec()), Ok(5_000_025));
    assert_eq!(fixed_value(&(-1i64).to_le_bytes().to_vec()), Ok(-1));
    assert_eq!(fixed_value(&i64::MIN.to_le_bytes().to_vec()), Ok(i64::MIN));
    assert_eq!(fixed_value(&vec![1, 2, 3]), Err("expected 8-byte fixed value, got 3".to_string()));
}
