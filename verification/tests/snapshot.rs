use quest_router::app::state::{healthy_pg_shard_ids, resolve_route, route_sql, route_sql_info};
use quest_router::app::ResolvedRoute;
use quest_router::config::{Endpoint, ShardConfig, TableRoutingConfig};
use quest_router::metadata::{ClusterSnapshot, MetadataActor, MetadataMessage, Protocol, ShardHealth};
use quest_router::routing::{RoutePlan, RoutingError, ShardRing, SqlRouteInfo, TableRegistry};

fn test_shard(id: u32) -> ShardConfig {
    ShardConfig {
        id,
        ilp_address: Endpoint(format!("127.0.0.1:900{id}")),
        pg_address: Endpoint(format!("127.0.0.1:881{id}")),
        weight: 1,
        virtual_nodes: 64,
    }
}

fn two_shards(exclude: bool) -> ClusterSnapshot {
    ClusterSnapshot::new(
        vec![test_shard(0), test_shard(1)],
        TableRegistry::default(),
        exclude,
        1,
    )
}

#[test]
fn excludes_unhealthy_primary_shard() {
    let mut snap = two_shards(true);
    snap.health.insert(0, ShardHealth { ilp_ok: false, pg_ok: true });
    let shard = snap.shard_for_key("btc-usdt", Protocol::Ilp).unwrap();
    assert_eq!(shard.id, 1);
}

#[test]
fn fails_when_insufficient_healthy_shards() {
    let mut snap = two_shards(true);
    snap.health.insert(0, ShardHealth { ilp_ok: false, pg_ok: false });
    snap.health.insert(1, ShardHealth { ilp_ok: false, pg_ok: false });
    let err = snap.shard_for_key("x", Protocol::Ilp).unwrap_err();
    assert!(matches!(err, RoutingError::InsufficientHealthyShards { .. }));
}

#[test]
fn unhealthy_shard_skipped_for_ilp_routing() {
    let mut snap = two_shards(true);
    let primary = snap.ring.shard_by_key("BTC-USD").unwrap().id;
    snap.health.insert(primary, ShardHealth { ilp_ok: false, pg_ok: true });
    let routed = snap.shard_for_key("BTC-USD", Protocol::Ilp).unwrap();
    assert_ne!(routed.id, primary);
}

#[test]
fn all_shards_unhealthy_returns_error() {
    let mut snap = two_shards(true);
    snap.health.insert(0, ShardHealth { ilp_ok: false, pg_ok: false });
    snap.health.insert(1, ShardHealth { ilp_ok: false, pg_ok: false });
    let err = snap.shard_for_key("BTC-USD", Protocol::Ilp).unwrap_err();
    assert!(matches!(err, RoutingError::InsufficientHealthyShards { .. }));
}

#[test]
fn healthy_pg_shards_list_excludes_bad_nodes() {
    let mut snap = two_shards(true);
    snap.health.insert(1, ShardHealth { ilp_ok: true, pg_ok: false });
    let healthy = snap.healthy_shards(Protocol::Pg);
    assert_eq!(healthy.len(), 1);
    assert_eq!(healthy[0].id, 0);
}

#[test]
fn insufficient_error_reports_counts() {
    let mut snap = ClusterSnapshot::new(
        vec![test_shard(0), test_shard(1)],
        TableRegistry::default(),
        true,
        2,
    );
    snap.health.insert(0, ShardHealth { ilp_ok: false, pg_ok: true });
    assert_eq!(
        snap.ensure_min_healthy(Protocol::Ilp),
        Err(RoutingError::InsufficientHealthyShards { required: 2, available: 1 })
    );
    assert_eq!(snap.ensure_min_healthy(Protocol::Pg), Ok(()));
    assert_eq!(snap.healthy_count(Protocol::Ilp), 1);
    let excluded = snap.excluded_for(Protocol::Ilp);
    assert!(excluded.contains(&0) && excluded.len() == 1);
}

#[test]
fn health_is_ignored_when_not_excluding() {
    let mut snap = two_shards(false);
    snap.health.insert(0, ShardHealth { ilp_ok: false, pg_ok: false });
    snap.health.insert(1, ShardHealth { ilp_ok: false, pg_ok: false });
    assert!(snap.excluded_for(Protocol::Ilp).is_empty());
    assert_eq!(snap.healthy_count(Protocol::Ilp), 2);
    assert!(snap.shard_for_key("BTC-USD", Protocol::Ilp).is_ok());
    assert_eq!(snap.healthy_shards(Protocol::Pg).len(), 2);
}

#[test]
fn shard_by_id_checks_health() {
    let mut snap = two_shards(true);
    snap.health.insert(1, ShardHealth { ilp_ok: true, pg_ok: false });
    assert_eq!(snap.shard_by_id(0, Protocol::Pg).unwrap().id, 0);
    assert_eq!(
        snap.shard_by_id(1, Protocol::Pg).unwrap_err(),
        RoutingError::ShardUnhealthy { shard_id: 1 }
    );
    assert_eq!(
        snap.shard_by_id(7, Protocol::Pg).unwrap_err(),
        RoutingError::ShardNotFound { key: "7".into() }
    );
    assert_eq!(snap.default_healthy_shard(Protocol::Pg).unwrap().id, 0);
}

#[test]
fn health_report_publishes_only_changes() {
    let snap = two_shards(true);
    assert!(snap.with_health(0, true, true).is_none());
    let next = snap.with_health(0, false, true).unwrap();
    assert!(!next.health.get(&0).unwrap().ilp_ok);
    assert!(next.health.get(&0).unwrap().pg_ok);
    let shard = next.shard_for_key("btc", Protocol::Ilp).unwrap();
    assert_eq!(shard.id, 1);
    assert!(next.with_health(0, false, true).is_none());
}

#[test]
fn resolves_keyed_reads_and_session_sql() {
    let snap = ClusterSnapshot::new(vec![test_shard(0)], TableRegistry::default(), true, 1);
    let route = resolve_route(&snap, "symbol", false, "SELECT * FROM trades WHERE symbol = 'BTC'", None)
        .unwrap();
    assert!(matches!(route, ResolvedRoute::Single(ref s) if s.id == 0));
    let route = resolve_route(&snap, "symbol", false, "BEGIN", None).unwrap();
    assert!(matches!(route, ResolvedRoute::Passthrough));
    let route = resolve_route(&snap, "symbol", false, "SELECT * FROM trades", None).unwrap();
    assert!(matches!(route, ResolvedRoute::Federated(RoutePlan::FullScan { .. })));
    let route = resolve_route(
        &snap,
        "symbol",
        false,
        "SELECT ts, count() FROM trades WHERE symbol = 'BTC' SAMPLE BY 1h",
        None,
    )
    .unwrap();
    assert!(matches!(route, ResolvedRoute::Single(_)));
    let err = resolve_route(&snap, "symbol", false, "INSERT INTO t VALUES (1)", None).unwrap_err();
    assert_eq!(
        err,
        RoutingError::Unsupported("only read queries (SELECT) are routed via SQL parser".into())
    );
}

#[test]
fn routes_by_bound_parameter() {
    let snap = two_shards(false);
    let params = vec!["ETH-USD".to_string()];
    let by_param = resolve_route(
        &snap,
        "symbol",
        false,
        "SELECT * FROM trades WHERE symbol = $1",
        Some(&params),
    )
    .unwrap();
    let direct = snap.shard_for_key("ETH-USD", Protocol::Pg).unwrap();
    assert!(matches!(by_param, ResolvedRoute::Single(ref s) if s.id == direct.id));
}

#[test]
fn route_sql_info_requires_an_explicit_key() {
    let snap = two_shards(false);
    let info = SqlRouteInfo { table: "trades".into(), shard_key: None, shard_key_param: Some(1) };
    let params = vec!["a".to_string()];
    assert_eq!(
        route_sql_info(&snap, &info, Some(&params)).unwrap_err(),
        RoutingError::Unsupported("missing bind parameter $2 for shard key".into())
    );
    let info = SqlRouteInfo { table: "trades".into(), shard_key: None, shard_key_param: None };
    assert_eq!(
        route_sql_info(&snap, &info, None).unwrap_err(),
        RoutingError::Unsupported("query has no shard-key value to route on".into())
    );
    let info = SqlRouteInfo { table: "trades".into(), shard_key: Some("K".into()), shard_key_param: None };
    let shard = route_sql_info(&snap, &info, None).unwrap();
    assert_eq!(shard.id, snap.shard_for_key("K", Protocol::Pg).unwrap().id);
}

#[test]
fn route_sql_refuses_non_single_shard_sql() {
    let snap = two_shards(false);
    assert_eq!(
        route_sql(&snap, "symbol", false, "BEGIN").unwrap_err(),
        RoutingError::Unsupported("passthrough SQL cannot be shard-routed".into())
    );
    assert_eq!(
        route_sql(&snap, "symbol", false, "SELECT * FROM trades").unwrap_err(),
        RoutingError::Unsupported("federated SQL requires federated executor".into())
    );
    assert!(route_sql(&snap, "symbol", false, "SELECT * FROM t WHERE symbol = 'Z'").is_ok());
}

#[test]
fn healthy_pg_shard_ids_in_configuration_order() {
    let mut snap = ClusterSnapshot::new(
        vec![test_shard(2), test_shard(0), test_shard(1)],
        TableRegistry::default(),
        true,
        1,
    );
    snap.health.insert(0, ShardHealth { ilp_ok: true, pg_ok: false });
    assert_eq!(healthy_pg_shard_ids(&snap).unwrap(), vec![2, 1]);
}

#[test]
fn registry_lookup_ignores_case() {
    let reg = TableRegistry::from_config(
        &[TableRoutingConfig {
            name: "Trades".into(),
            sharded: false,
            shard_key: Some("sym".into()),
            columns: vec![],
        }],
        "symbol",
    );
    assert!(reg.get("TRADES").is_some());
    assert!(!reg.is_sharded("trades"));
    assert!(reg.is_sharded("other"));
    assert_eq!(reg.shard_key_for("tRaDeS", "symbol"), "sym");
    assert_eq!(reg.shard_key_for("other", "symbol"), "symbol");
    let _ = ShardRing::from_shards(vec![]);
}

fn one_shard() -> ClusterSnapshot {
    ClusterSnapshot::new(vec![test_shard(0)], TableRegistry::default(), true, 1)
}

#[test]
fn health_update_publishes_new_snapshot() {
    let snap = two_shards(true);
    let report = MetadataMessage::ReportHealth { shard_id: 0, ilp_ok: false, pg_ok: true };
    let snap = MetadataActor::apply(&snap, report).expect("health changed");
    assert!(!snap.health.get(&0).unwrap().ilp_ok);
    assert!(snap.health.get(&0).unwrap().pg_ok);
    let shard = snap.shard_for_key("btc", Protocol::Ilp).unwrap();
    assert_eq!(shard.id, 1);
}

#[test]
fn repeated_health_report_publishes_nothing() {
    let snap = two_shards(true);
    let report = MetadataMessage::ReportHealth { shard_id: 1, ilp_ok: true, pg_ok: false };
    assert!(MetadataActor::apply(&snap, MetadataMessage::ReportHealth { shard_id: 1, ilp_ok: true, pg_ok: true }).is_none());
    let next = MetadataActor::apply(&snap, report).unwrap();
    assert!(MetadataActor::apply(&next, report).is_none());
    assert_eq!(next.health.get(&0), snap.health.get(&0));
}

#[test]
fn keyed_read_resolves_single_shard() {
    let route = resolve_route(&one_shard(), "symbol", false, "SELECT * FROM trades WHERE symbol = 'BTC'", None).unwrap();
    assert!(matches!(route, ResolvedRoute::Single(_)));
}

#[test]
fn router_begin_is_passthrough() {
    let route = resolve_route(&one_shard(), "symbol", false, "BEGIN", None).unwrap();
    assert!(matches!(route, ResolvedRoute::Passthrough));
}

#[test]
fn questdb_dialect_keyed_resolves_single_shard() {
    let route = resolve_route(
        &one_shard(),
        "symbol",
        false,
        "SELECT ts, count() FROM trades WHERE symbol = 'BTC' SAMPLE BY 1h",
        None,
    )
    .unwrap();
    assert!(matches!(route, ResolvedRoute::Single(_)));
}

#[test]
fn ring_capacity_check() {
    assert!(ShardRing::fits(&[test_shard(0), test_shard(1)]));
    let big = ShardConfig { weight: 1 << 16, virtual_nodes: 1 << 16, ..test_shard(2) };
    assert!(ShardRing::fits(&[big.clone(), big]));
    assert!(ShardRing::fits(&[]));
}

#[test]
fn filtered_lookup_keeps_usable_primary() {
    let ring = ShardRing::from_shards(vec![test_shard(0), test_shard(1), test_shard(2)]);
    let none = std::collections::HashSet::new();
    for key in ["BTC", "ETH", "SOL", "DOGE", ""] {
        let primary = ring.shard_by_key(key).unwrap().id;
        assert_eq!(ring.shard_by_key_filtered(key, &none).unwrap().id, primary);
        let mut other = std::collections::HashSet::new();
        other.insert((primary + 1) % 3);
        assert_eq!(ring.shard_by_key_filtered(key, &other).unwrap().id, primary);
    }
}

#[test]
fn keyed_write_and_read_share_a_shard() {
    let snap = two_shards(true);
    for key in ["BTC-USD", "ETH-USD", "AAPL"] {
        let write = snap.shard_for_key(key, Protocol::Ilp).unwrap();
        let read = snap.shard_for_key(key, Protocol::Pg).unwrap();
        assert_eq!(write.id, read.id);
        assert_eq!(write.id, snap.ring.shard_by_key(key).unwrap().id);
    }
}
