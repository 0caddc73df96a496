use quest_router::routing::{
    analyze_read_sql, classify_sql, plan_sql, AggKind, RoutePlan, SqlClassify, SqlRouteError,
    TableRegistry,
};

fn registry() -> TableRegistry {
    TableRegistry::default()
}

#[test]
fn select_with_shard_key() {
    let plan = plan_sql(
        "SELECT * FROM trades WHERE symbol = 'ETH-USD'",
        "symbol",
        &registry(),
        false,
    )
    .unwrap();
    assert!(matches!(
        plan,
        RoutePlan::SingleShard {
            shard_key: Some(ref k),
            ..
        } if k == "ETH-USD"
    ));
}

#[test]
fn full_scan_classification() {
    let plan = plan_sql("SELECT * FROM trades", "symbol", &registry(), false).unwrap();
    assert!(matches!(plan, RoutePlan::FullScan { .. }));
}

#[test]
fn aggregate_scan_classification() {
    let plan = plan_sql("SELECT count() FROM trades", "symbol", &registry(), false).unwrap();
    assert!(matches!(
        plan,
        RoutePlan::AggregateScan {
            agg_kind: AggKind::Count,
            ..
        }
    ));
}

#[test]
fn join_classification() {
    let plan = plan_sql(
        "SELECT * FROM trades t JOIN orders o ON t.id = o.trade_id",
        "symbol",
        &registry(),
        false,
    )
    .unwrap();
    assert!(matches!(plan, RoutePlan::Join { .. }));
}

#[test]
fn group_by_classification() {
    let plan = plan_sql(
        "SELECT symbol, count() FROM trades GROUP BY symbol",
        "symbol",
        &registry(),
        false,
    )
    .unwrap();
    assert!(matches!(plan, RoutePlan::GroupBy { .. }));
}

#[test]
fn count_with_shard_key_is_single_shard() {
    let plan = plan_sql(
        "SELECT count() FROM router_test_trades WHERE symbol = 'HEALTH-TEST-SYM'",
        "symbol",
        &registry(),
        false,
    )
    .unwrap();
    assert!(matches!(
        plan,
        RoutePlan::SingleShard {
            shard_key: Some(ref k),
            ..
        } if k == "HEALTH-TEST-SYM"
    ));
}

#[test]
fn rejects_insert() {
    let err = plan_sql("INSERT INTO trades VALUES ('BTC', 1.0)", "symbol", &registry(), false)
        .unwrap_err();
    assert!(matches!(err, SqlRouteError::Unsupported(_)));
}

#[test]
fn sql_begin_is_passthrough() {
    let kind = classify_sql("BEGIN", "symbol", &registry(), false).unwrap();
    assert_eq!(kind, SqlClassify::Passthrough);
}

#[test]
fn questdb_sample_by_keyed_is_single_shard() {
    let plan = plan_sql(
        "SELECT ts, count() FROM trades WHERE symbol = 'BTC' SAMPLE BY 1h",
        "symbol",
        &registry(),
        false,
    )
    .unwrap();
    assert!(matches!(
        plan,
        RoutePlan::SingleShard {
            shard_key: Some(ref k),
            ..
        } if k == "BTC"
    ));
}

#[test]
fn questdb_sample_by_unkeyed_is_unsupported() {
    let err = plan_sql(
        "SELECT ts FROM trades SAMPLE BY 1h",
        "symbol",
        &registry(),
        false,
    )
    .unwrap_err();
    assert!(matches!(err, SqlRouteError::Unsupported(_)));
    assert!(err.message().contains("questdb dialect:"));
}

#[test]
fn questdb_latest_on_keyed_is_single_shard() {
    let plan = plan_sql(
        "SELECT symbol, price FROM trades WHERE symbol = 'ETH' LATEST ON ts PARTITION BY symbol",
        "symbol",
        &registry(),
        false,
    )
    .unwrap();
    assert!(matches!(
        plan,
        RoutePlan::SingleShard {
            shard_key: Some(ref k),
            ..
        } if k == "ETH"
    ));
}

#[test]
fn classify_sql_never_panics_on_arbitrary_input() {
    let registry = TableRegistry::default();
    let samples = [
        "",
        ";;;",
        "SELECT",
        "SELECT * FROM",
        "NOT SQL AT ALL",
        "SELECT 1; SELECT 2",
        "INSERT INTO t VALUES (1)",
        "BEGIN",
        "SELECT * FROM trades WHERE symbol = 'X'",
        "SELECT ts, count() FROM trades WHERE symbol = 'BTC' SAMPLE BY 1h",
        "SELECT symbol, price FROM trades WHERE symbol = 'ETH' LATEST ON ts PARTITION BY symbol",
    ];
    for sql in samples {
        let _ = classify_sql(sql, "symbol", &registry, false);
    }
}

#[test]
fn parameterised_key_is_single_shard() {
    let plan = plan_sql(
        "SELECT * FROM trades WHERE symbol = $2",
        "symbol",
        &registry(),
        false,
    )
    .unwrap();
    assert_eq!(
        plan,
        RoutePlan::SingleShard {
            table: "trades".into(),
            shard_key: None,
            shard_key_param: Some(1),
        }
    );
}

#[test]
fn order_by_on_scan_needs_permission() {
    let err = plan_sql("SELECT * FROM trades ORDER BY ts", "symbol", &registry(), false)
        .unwrap_err();
    assert_eq!(
        err,
        SqlRouteError::Unsupported("ORDER BY on full scans is not supported".into())
    );
    let plan = plan_sql("SELECT * FROM trades ORDER BY ts", "symbol", &registry(), true).unwrap();
    assert_eq!(plan, RoutePlan::FullScan { table: "trades".into() });
}

#[test]
fn multiple_statements_are_refused() {
    let err = classify_sql("SELECT 1; SELECT 2", "symbol", &registry(), false).unwrap_err();
    assert_eq!(
        err,
        SqlRouteError::Unsupported("only single-statement queries are supported".into())
    );
}

#[test]
fn session_sql_has_no_plan() {
    let err = plan_sql("COMMIT", "symbol", &registry(), false).unwrap_err();
    assert_eq!(
        err,
        SqlRouteError::Unsupported("session/transaction SQL is not shard-routable".into())
    );
}

#[test]
fn analyze_read_sql_reports_single_shard_info() {
    let info = analyze_read_sql("SELECT * FROM trades WHERE symbol = 'X'", "symbol").unwrap();
    assert_eq!(info.table, "trades");
    assert_eq!(info.shard_key.as_deref(), Some("X"));
    assert_eq!(info.shard_key_param, None);
    let err = analyze_read_sql("SELECT * FROM trades", "symbol").unwrap_err();
    assert_eq!(
        err,
        SqlRouteError::Unsupported("query is not a single-shard route".into())
    );
}

#[test]
fn parse_errors_are_reported() {
    let err = classify_sql("SELEC x", "symbol", &registry(), false).unwrap_err();
    assert!(matches!(err, SqlRouteError::Parse(_)));
}
