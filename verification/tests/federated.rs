use quest_router::federated::catalog::extract_table_names;
use quest_router::config::ColumnConfig;
use quest_router::federated::cells::{first_cell_string, is_connection_error, is_missing_table_error};
use quest_router::federated::catalog::{bare_table_name, is_system_relation};
use quest_router::federated::merge::{merge_replies, plan_label, MergeError, ShardReply};
use quest_router::federated::pg_types::{
    config_type_to_arrow, decode_row_cells, parse_bool, parse_bytea, parse_date32, parse_timestamp_micros,
    schema_from_columns, ColumnType,
};
use quest_router::federated::FederatedError;
use quest_router::federated::scan::rewrite_avg_to_sum_count;
use quest_router::metrics::{ingest_source_label, shard_label};
use quest_router::ingest::IngestSource;
use quest_router::pool::PoolError;
use quest_router::routing::RoutePlan;

#[test]
fn merges_rows_in_shard_order() {
    let replies = vec![
        ShardReply::Query { fields: vec!["a", "b"], rows: vec![1, 2] },
        ShardReply::EmptyQuery,
        ShardReply::Query { fields: vec!["x", "y"], rows: vec![3] },
        ShardReply::Execution,
    ];
    let (fields, rows) = merge_replies(replies, 10).ok().unwrap();
    assert_eq!(fields, vec!["a", "b"]);
    assert_eq!(rows, vec![1, 2, 3]);
}

#[test]
fn merge_detects_mismatch_and_limit() {
    let replies = vec![
        ShardReply::Query { fields: vec!["a"], rows: vec![1] },
        ShardReply::Query { fields: vec!["a", "b"], rows: vec![2] },
    ];
    assert_eq!(merge_replies(replies, 10).err(), Some(MergeError::SchemaMismatch));
    let replies: Vec<ShardReply<&str, i32>> = vec![
        ShardReply::Query { fields: vec!["a"], rows: vec![1, 2] },
        ShardReply::Query { fields: vec!["a"], rows: vec![3] },
    ];
    let err = merge_replies(replies, 2).err().unwrap();
    assert_eq!(err, MergeError::RowLimitExceeded { max_rows: 2 });
    assert_eq!(err.message(), "federated row limit exceeded (2)");
    let empty: Vec<ShardReply<&str, i32>> = vec![];
    let (f, r) = merge_replies(empty, 0).ok().unwrap();
    assert!(f.is_empty() && r.is_empty());
}

#[test]
fn plan_labels() {
    assert_eq!(plan_label(&RoutePlan::FullScan { table: "t".into() }), "full_scan");
    assert_eq!(plan_label(&RoutePlan::Join { sql: "x".into() }), "join");
}

#[test]
fn federated_error_codes() {
    let e = FederatedError::RowLimitExceeded { limit: 5 };
    assert_eq!(e.code(), "53400");
    assert_eq!(e.message(), "result exceeded max rows (5)");
    let e = FederatedError::ShardQuery { shard_id: 3, message: "boom".into() };
    assert_eq!(e.code(), "XX000");
    assert_eq!(e.message(), "shard 3 query failed: boom");
    assert_eq!(FederatedError::Disabled.code(), "0A000");
    assert_eq!(FederatedError::InsufficientHealthyShards.code(), "08006");
}

#[test]
fn column_types() {
    assert_eq!(config_type_to_arrow("SYMBOL"), Ok(ColumnType::Utf8));
    assert_eq!(config_type_to_arrow("double"), Ok(ColumnType::Float64));
    assert_eq!(config_type_to_arrow("timestamptz"), Ok(ColumnType::TimestampTz));
    assert_eq!(config_type_to_arrow("Geo"), Err("unsupported column type: geo".to_string()));
    assert_eq!(
        schema_from_columns(&[]),
        Err("table must declare at least one column".to_string())
    );
    let cols = vec![
        ColumnConfig { name: "ts".into(), column_type: "timestamp".into() },
        ColumnConfig { name: "px".into(), column_type: "float".into() },
    ];
    assert_eq!(
        schema_from_columns(&cols),
        Ok(vec![("ts".to_string(), ColumnType::Timestamp), ("px".to_string(), ColumnType::Float32)])
    );
    assert_eq!(parse_bool("1"), Some(true));
    assert_eq!(parse_bool("FALSE"), Some(false));
    assert_eq!(parse_bool("yes"), None);
}

#[test]
fn table_names() {
    assert_eq!(bare_table_name("public.trades"), "trades");
    assert_eq!(bare_table_name("trades"), "trades");
    assert!(is_system_relation("PG_CATALOG.pg_class"));
    assert!(is_system_relation("information_schema.tables"));
    assert!(!is_system_relation("trades"));
}

#[test]
fn data_row_cells_and_errors() {
    let mut row = vec![0u8, 0, 0, 3];
    row.extend_from_slice(b"abcrest");
    assert_eq!(first_cell_string(&row).as_deref(), Some("abc"));
    assert_eq!(first_cell_string(&[0xff, 0xff, 0xff, 0xff]), None);
    assert_eq!(first_cell_string(&[0, 0, 0, 9, b'a']), None);
    assert_eq!(first_cell_string(&[0, 0]), None);
    assert!(is_connection_error("Broken Pipe while writing"));
    assert!(!is_connection_error("syntax error"));
    assert!(is_missing_table_error("ERROR: Table does not exist [t]"));
}

#[test]
fn metric_labels_and_pool_errors() {
    assert_eq!(shard_label(Some(12)), "12");
    assert_eq!(shard_label(None), "unknown");
    assert_eq!(ingest_source_label(IngestSource::Reconcile), "reconcile");
    assert_eq!(PoolError::UnknownShard { shard_id: 4 }.message(), "unknown shard 4");
    assert_eq!(
        PoolError::ClientTaken { shard_id: 1 }.message(),
        "client handle already taken for shard 1"
    );
}

#[test]
fn table_names_are_sorted_and_unique() {
    let names = extract_table_names(
        "SELECT * FROM b.trades t JOIN a o ON t.id = o.id JOIN trades x ON t.id = x.id, a",
    );
    assert_eq!(names, vec!["a".to_string(), "b.trades".to_string(), "trades".to_string()]);
    assert!(extract_table_names("NOT SQL AT ALL").is_empty());
    assert!(extract_table_names("INSERT INTO t VALUES (1)").is_empty());
}

#[test]
fn row_cells_decode_nulls_and_truncation() {
    let data = [0u8, 0, 0, 2, b'h', b'i', 0xff, 0xff, 0xff, 0xff, 0, 0, 0, 5, b'a'];
    let cells = decode_row_cells(&data, 4);
    assert_eq!(cells, vec![Some("hi".to_string()), None, None, None]);
    assert_eq!(decode_row_cells(&data, 0), Vec::<Option<String>>::new());
    let bad_utf8 = [0u8, 0, 0, 1, 0xc3, 0, 0, 0, 1, b'z'];
    assert_eq!(decode_row_cells(&bad_utf8, 2), vec![None, Some("z".to_string())]);
}

#[test]
fn bytea_cells() {
    assert_eq!(parse_bytea("\\x0aFF"), Some(vec![10u8, 255]));
    assert_eq!(parse_bytea("\\x"), Some(vec![]));
    assert_eq!(parse_bytea("\\x0"), None);
    assert_eq!(parse_bytea("\\xzz"), None);
    assert_eq!(parse_bytea("abc"), Some(b"abc".to_vec()));
}

#[test]
fn date_and_timestamp_cells() {
    assert_eq!(parse_date32("1970-01-02"), Some(1));
    assert_eq!(parse_date32("1969-12-31"), Some(-1));
    assert_eq!(parse_date32("2024-03-01"), Some(19783));
    assert_eq!(parse_date32("bad"), None);
    assert_eq!(parse_timestamp_micros("1970-01-01T00:00:01Z", true), Some(1_000_000));
    assert_eq!(parse_timestamp_micros("1970-01-01T01:00:01+01:00", false), Some(1_000_000));
    assert_eq!(parse_timestamp_micros("1970-01-01 00:00:01.5", false), Some(1_500_000));
    assert_eq!(parse_timestamp_micros("1970-01-01T00:00:02", false), Some(2_000_000));
    assert_eq!(parse_timestamp_micros("1234", false), Some(1234));
    assert_eq!(parse_timestamp_micros("1234", true), None);
    assert_eq!(parse_timestamp_micros("x", false), None);
}

#[test]
fn rewrites_simple_avg() {
    let out = rewrite_avg_to_sum_count("SELECT avg(price) FROM trades").unwrap();
    let lower = out.to_ascii_lowercase();
    assert!(lower.contains("sum(price)"), "missing sum: {out}");
    assert!(lower.contains("count(price)"), "missing count: {out}");
    assert!(lower.contains("from trades"), "lost FROM: {out}");
}

#[test]
fn preserves_where_clause() {
    let out = rewrite_avg_to_sum_count("SELECT avg(price) FROM trades WHERE side = 'buy'").unwrap();
    assert!(out.to_ascii_lowercase().contains("where side = 'buy'"), "lost WHERE: {out}");
}

#[test]
fn ignores_non_avg() {
    assert!(rewrite_avg_to_sum_count("SELECT sum(price) FROM trades").is_none());
}

#[test]
fn avg_rewrite_takes_last_avg_and_any_case() {
    let out = rewrite_avg_to_sum_count("SELECT AVG(a), avg(b) FROM t").unwrap();
    assert_eq!(out, "SELECT sum(b), count(b) FROM t");
    assert!(rewrite_avg_to_sum_count("SELECT avg(a) FROM t; SELECT 1").is_none());
    assert!(rewrite_avg_to_sum_count("not sql at all").is_none());
}
