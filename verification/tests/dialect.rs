use quest_router::routing::{
    classify_questdb_passthrough, extract_from_table, extract_shard_key_literal,
    extract_shard_key_param, has_questdb_extension, RoutePlan, SqlRouteError,
};

#[test]
fn detects_sample_by() {
    assert!(has_questdb_extension("SELECT 1 SAMPLE BY 1h"));
    assert!(!has_questdb_extension("SELECT 1"));
}

#[test]
fn detects_latest_on() {
    assert!(has_questdb_extension(
        "SELECT * FROM t LATEST ON ts PARTITION BY symbol"
    ));
}

#[test]
fn keyed_sample_by_single_shard() {
    let sql = "SELECT ts, count() FROM trades WHERE symbol = 'BTC' SAMPLE BY 1h";
    let plan = classify_questdb_passthrough(sql, "symbol").unwrap();
    assert_eq!(
        plan,
        RoutePlan::SingleShard {
            table: "trades".into(),
            shard_key: Some("BTC".into()),
            shard_key_param: None,
        }
    );
}

#[test]
fn keyed_sample_by_param() {
    let sql = "SELECT ts FROM trades WHERE symbol = $1 SAMPLE BY 15m";
    let plan = classify_questdb_passthrough(sql, "symbol").unwrap();
    assert_eq!(
        plan,
        RoutePlan::SingleShard {
            table: "trades".into(),
            shard_key: None,
            shard_key_param: Some(0),
        }
    );
}

#[test]
fn unkeyed_sample_by_rejected() {
    let sql = "SELECT ts FROM trades SAMPLE BY 1h";
    let err = classify_questdb_passthrough(sql, "symbol").unwrap_err();
    assert!(matches!(err, SqlRouteError::Unsupported(_)));
    assert!(err.message().contains("questdb dialect:"));
}

#[test]
fn keyed_latest_on_single_shard() {
    let sql = "SELECT symbol, price FROM trades WHERE symbol = 'ETH' LATEST ON ts PARTITION BY symbol";
    let plan = classify_questdb_passthrough(sql, "symbol").unwrap();
    assert_eq!(
        plan,
        RoutePlan::SingleShard {
            table: "trades".into(),
            shard_key: Some("ETH".into()),
            shard_key_param: None,
        }
    );
}

#[test]
fn extract_literal_with_escaped_quote() {
    let sql = "SELECT 1 FROM t WHERE symbol = 'A''B' SAMPLE BY 1h";
    let lit = extract_shard_key_literal(sql, "symbol").unwrap();
    assert_eq!(lit, "A'B");
}

#[test]
fn extract_from_table_strips_schema() {
    let sql = "SELECT * FROM public.trades WHERE symbol = 'X' SAMPLE BY 1h";
    assert_eq!(extract_from_table(sql).as_deref(), Some("trades"));
}

#[test]
fn dialect_param_index_is_zero_based() {
    assert_eq!(
        extract_shard_key_param("SELECT ts FROM t WHERE symbol = $3 SAMPLE BY 1h", "symbol"),
        Some(2)
    );
    assert_eq!(
        extract_shard_key_param("SELECT ts FROM t WHERE symbol = 'X' SAMPLE BY 1h", "symbol"),
        None
    );
}

#[test]
fn dialect_without_from_is_unsupported() {
    let err = classify_questdb_passthrough("SELECT 1 SAMPLE BY 1h", "symbol").unwrap_err();
    assert_eq!(
        err,
        SqlRouteError::Unsupported(
            "questdb dialect: could not extract table from FROM clause".into()
        )
    );
}

#[test]
fn dialect_unkeyed_error_names_the_column() {
    let err = classify_questdb_passthrough("SELECT ts FROM trades SAMPLE BY 1h", "symbol")
        .unwrap_err();
    assert_eq!(
        err,
        SqlRouteError::Unsupported(
            "questdb dialect: queries require a shard-key predicate (e.g. WHERE symbol = 'X')"
                .into()
        )
    );
}
