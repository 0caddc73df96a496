use quest_router::config::NautilusIngestConfig;
use quest_router::ingest::actor::{mailbox_depth, IngestStep};
use quest_router::ingest::checkpoint::{CheckpointStore, ObjectKey, Timestamp};
use quest_router::ingest::events::{
    decode_object_key, matches_prefix, normalize_key, refs_from_notification,
    should_ingest_key, split_bucket_key, Notification, NotificationRecord, ObjectRef, S3Entity,
};
use quest_router::ingest::http::webhook_requests;
use quest_router::ingest::nautilus::{
    aggressor_name, classify_object_key, escape_field_string, escape_tag, format_quote_line,
    format_trade_line, instrument_from_path, instrument_meta, parse_instrument_id, table_for,
    with_path_instrument, NautilusDataKind,
};
use quest_router::ingest::reconcile::{missing_objects, scan_interval_secs};
use quest_router::ingest::{IngestActor, IngestSource, ProcessObject};

#[test]
fn filters_non_feather_and_multipart() {
    assert!(!should_ingest_key("live/x.parquet"));
    assert!(!should_ingest_key("live/x.part"));
    assert!(should_ingest_key("live/x.feather"));
}

#[test]
fn prefix_filter() {
    assert!(matches_prefix("live/a.feather", "live/"));
    assert!(!matches_prefix("archive/a.feather", "live/"));
}

#[test]
fn ingestible_keys_ignore_case_and_directories() {
    assert!(should_ingest_key("LIVE/X.FEATHER"));
    assert!(should_ingest_key("a/b.Arrow"));
    assert!(!should_ingest_key("live/dir.feather/"));
    assert!(matches_prefix("anything", ""));
}

#[test]
fn object_keys_decode_spaces() {
    assert_eq!(decode_object_key("a%20b+c.feather"), "a b c.feather");
    assert_eq!(
        split_bucket_key("bucket/live/x.feather"),
        Some(("bucket".to_string(), "live/x.feather".to_string()))
    );
    assert_eq!(split_bucket_key("nokey"), None);
}

#[test]
fn normalize_keeps_created_events_only() {
    assert!(normalize_key("s3:ObjectRemoved:Delete", "b", "k.feather", None).is_none());
    assert!(normalize_key("s3:ObjectCreated:Put", "", "k.feather", None).is_none());
    let o = normalize_key("s3:ObjectCreated:Put", "", "bkt/live/k.feather", Some("e".into())).unwrap();
    assert_eq!(o.bucket, "bkt");
    assert_eq!(o.key, "live/k.feather");
    assert_eq!(o.etag.as_deref(), Some("e"));
    assert!(normalize_key("s3:ObjectCreated:Put", "b", "k.csv", None).is_none());
}

#[test]
fn refs_from_aws_records() {
    let n = Notification {
        records: vec![NotificationRecord {
            event_name: Some("s3:ObjectCreated:Put".into()),
            s3: Some(S3Entity {
                bucket_name: "market-data".into(),
                object_key: "live/data/trades/BTCUSDT.BITUNIX/file.feather".into(),
                etag: Some("abc".into()),
            }),
        }],
        event_name: None,
        key: None,
    };
    let refs = refs_from_notification(&n, "market-data");
    assert_eq!(refs.len(), 1);
    assert_eq!(refs[0].bucket, "market-data");
    assert!(refs[0].key.contains("file.feather"));
    assert_eq!(refs[0].etag.as_deref(), Some("abc"));
}

#[test]
fn refs_from_top_level_fallback() {
    let n = Notification {
        records: vec![],
        event_name: Some("s3:ObjectCreated:Put".into()),
        key: Some("market-data/live/data/trades/BTCUSDT.BITUNIX/x.feather".into()),
    };
    let refs = refs_from_notification(&n, "market-data");
    assert_eq!(refs.len(), 1);
    assert_eq!(refs[0].bucket, "market-data");
}

#[test]
fn checkpoint_skips_unchanged_etag() {
    let mut store = CheckpointStore::new();
    store.mark_processed("b", "k", Some("etag1".into()), 10, Timestamp { secs: 0, nanos: 0 });
    assert!(!store.should_process("b", "k", Some("etag1")));
    assert!(store.should_process("b", "k", Some("etag2")));
    assert!(store.should_process("b", "k", None));
    assert!(store.contains("b", "k"));
    assert!(!store.contains("b", "other"));
    store.mark_processed("b", "k", Some("etag2".into()), 11, Timestamp { secs: 0, nanos: 0 });
    assert!(!store.should_process("b", "k", Some("etag2")));
    assert_eq!(store.entries().len(), 1);
    assert_eq!(ObjectKey::encode("b", "k"), "b\0k");
}

#[test]
fn actor_steps() {
    let mut store = CheckpointStore::new();
    store.mark_processed("b", "live/a.feather", Some("e".into()), 1, Timestamp { secs: 0, nanos: 0 });
    let obj = |key: &str, etag: Option<&str>| ProcessObject {
        bucket: "b".into(),
        key: key.into(),
        etag: etag.map(String::from),
        source: IngestSource::Webhook,
    };
    assert_eq!(IngestActor::step(&obj("live/a.txt", None), "live/", &store), IngestStep::Ignore);
    assert_eq!(IngestActor::step(&obj("old/a.feather", None), "live/", &store), IngestStep::Ignore);
    assert_eq!(
        IngestActor::step(&obj("live/a.feather", Some("e")), "live/", &store),
        IngestStep::AlreadyProcessed
    );
    assert_eq!(
        IngestActor::step(&obj("live/a.feather", Some("f")), "live/", &store),
        IngestStep::Process
    );
    assert_eq!(IngestActor::retry_delay_ms(0), None);
    assert_eq!(IngestActor::retry_delay_ms(1), Some(200));
    assert_eq!(IngestActor::retry_delay_ms(2), Some(400));
    assert_eq!(mailbox_depth(10, 3), 7);
    assert_eq!(mailbox_depth(3, 10), 0);
}

#[test]
fn reconcile_and_webhook_selection() {
    let mut store = CheckpointStore::new();
    store.mark_processed("b", "x.feather", None, 1, Timestamp { secs: 0, nanos: 0 });
    let listed = vec![
        ("x.feather".to_string(), None),
        ("y.feather".to_string(), Some("t".to_string())),
    ];
    let missing = missing_objects(&store, "b", &listed, IngestSource::Reconcile);
    assert_eq!(missing.len(), 1);
    assert_eq!(missing[0].key, "y.feather");
    assert_eq!(missing[0].etag.as_deref(), Some("t"));
    assert_eq!(scan_interval_secs(0), 1);
    assert_eq!(scan_interval_secs(30), 30);
    let refs = vec![
        ObjectRef { bucket: "b".into(), key: "live/a.feather".into(), etag: None, event_name: "e".into() },
        ObjectRef { bucket: "b".into(), key: "old/a.feather".into(), etag: None, event_name: "e".into() },
    ];
    let reqs = webhook_requests(refs, "live/");
    assert_eq!(reqs.len(), 1);
    assert_eq!(reqs[0].key, "live/a.feather");
    assert_eq!(reqs[0].source, IngestSource::Webhook);
}

#[test]
fn nautilus_keys_and_instruments() {
    let key = "live/LIVE/instance/data/trades/BTCUSDT.BITUNIX/chunk.feather";
    assert_eq!(classify_object_key(key), Some(NautilusDataKind::TradeTick));
    assert_eq!(classify_object_key("x/DATA/QUOTES/y"), Some(NautilusDataKind::QuoteTick));
    assert_eq!(classify_object_key("x/other/y"), None);
    assert_eq!(
        instrument_from_path(key, NautilusDataKind::TradeTick).as_deref(),
        Some("BTCUSDT.BITUNIX")
    );
    assert_eq!(instrument_from_path("a/data/trades/", NautilusDataKind::TradeTick), None);
    assert_eq!(
        parse_instrument_id("BTCUSDT.BITUNIX"),
        ("BTCUSDT".to_string(), "BITUNIX".to_string())
    );
    assert_eq!(parse_instrument_id("ABC"), ("ABC".to_string(), "UNKNOWN".to_string()));
    let meta = instrument_meta(None, Some("2"), Some("x"));
    assert_eq!(meta.symbol, "UNKNOWN");
    assert_eq!(meta.price_precision, 2);
    assert_eq!(meta.size_precision, 8);
    let meta = with_path_instrument(meta, key, NautilusDataKind::TradeTick);
    assert_eq!((meta.symbol.as_str(), meta.venue.as_str()), ("BTCUSDT", "BITUNIX"));
    assert_eq!(table_for(NautilusDataKind::QuoteTick, &NautilusIngestConfig::default()), "quote_ticks");
}

#[test]
fn nautilus_lines() {
    let meta = instrument_meta(Some("BTCUSDT.BITUNIX"), Some("2"), Some("3"));
    let line = format_trade_line(&meta, "trade_ticks", "50000.25", "1", 1, "t1", 1700000000000000000);
    assert!(line.starts_with("trade_ticks,symbol=BTCUSDT,venue=BITUNIX"));
    assert!(line.contains("price=50000.25"));
    assert!(line.contains("trade_id=\"t1\""));
    assert_eq!(
        line,
        "trade_ticks,symbol=BTCUSDT,venue=BITUNIX price=50000.25,size=1,aggressor_side=\"BUYER\",trade_id=\"t1\" 1700000000000000000"
    );
    let q = format_quote_line(&meta, "quote_ticks", "1.5", "1.6", "2", "3", 7);
    assert_eq!(
        q,
        "quote_ticks,symbol=BTCUSDT,venue=BITUNIX bid=1.5,ask=1.6,bid_size=2,ask_size=3 7"
    );
    assert_eq!(aggressor_name(2), "SELLER");
    assert_eq!(aggressor_name(0), "NO_AGGRESSOR");
    assert_eq!(escape_tag("a b,c=d\\e"), "a\\ b\\,c\\=d\\\\e");
    assert_eq!(escape_field_string("say \"hi\"\\"), "say \\\"hi\\\"\\\\");
}

#[test]
fn skip_when_etag_unchanged() {
    let mut store = CheckpointStore::new();
    store.mark_processed("b", "k", Some("etag1".into()), 10, Timestamp { secs: 0, nanos: 0 });
    assert!(!store.should_process("b", "k", Some("etag1")));
    assert!(store.should_process("b", "k", Some("etag2")));
}

#[test]
fn reconcile_keeps_listing_order() {
    let mut store = CheckpointStore::new();
    store.mark_processed("b", "k2.feather", None, 1, Timestamp { secs: 0, nanos: 0 });
    let listed = vec![
        ("k3.feather".to_string(), None),
        ("k2.feather".to_string(), Some("e2".to_string())),
        ("k1.feather".to_string(), Some("e1".to_string())),
    ];
    let missing = missing_objects(&store, "b", &listed, IngestSource::Webhook);
    let keys: Vec<&str> = missing.iter().map(|o| o.key.as_str()).collect();
    assert_eq!(keys, vec!["k3.feather", "k1.feather"]);
    assert_eq!(missing[1].etag.as_deref(), Some("e1"));
    assert!(missing.iter().all(|o| o.bucket == "b" && o.source == IngestSource::Webhook));
}

#[test]
fn mark_processed_records_the_given_time() {
    let mut store = CheckpointStore::new();
    let at = Timestamp { secs: 1_700_000_000, nanos: 5 };
    store.mark_processed("b", "k", None, 3, at);
    let (k, meta) = &store.entries()[0];
    assert_eq!(k, &ObjectKey::encode("b", "k"));
    assert_eq!(meta.processed_at, at);
    assert_eq!(meta.rows, 3);
}
