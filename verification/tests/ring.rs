use std::collections::HashSet;

use quest_router::config::{Endpoint, ShardConfig};
use quest_router::routing::ShardRing;

fn test_shard(id: u32, port: u16) -> ShardConfig {
    test_shard_weighted(id, port, 1, 64)
}

fn test_shard_weighted(id: u32, port: u16, weight: u32, virtual_nodes: u32) -> ShardConfig {
    ShardConfig {
        id,
        ilp_address: Endpoint(format!("127.0.0.1:{port}")),
        pg_address: Endpoint(format!("127.0.0.1:{}", port + 1000)),
        weight,
        virtual_nodes,
    }
}

fn only(id: u32) -> HashSet<u32> {
    let mut s = HashSet::new();
    s.insert(id);
    s
}

#[test]
fn ring_builds_weighted_vnodes() {
    let ring = ShardRing::from_shards(vec![
        test_shard_weighted(0, 9000, 2, 10),
        test_shard_weighted(1, 9001, 1, 10),
    ]);
    assert_eq!(ring.vnode_count(), 30);
}

#[test]
fn same_key_maps_to_same_shard() {
    let ring = ShardRing::from_shards(vec![test_shard(0, 9000), test_shard(1, 9001)]);
    let a = ring.shard_by_key("sensor_a").unwrap().id;
    let b = ring.shard_by_key("sensor_a").unwrap().id;
    assert_eq!(a, b);
}

#[test]
fn keys_distribute_across_shards() {
    let ring = ShardRing::from_shards(vec![
        test_shard(0, 9000),
        test_shard(1, 9001),
        test_shard(2, 9002),
    ]);
    let ids: Vec<u32> = (0..100)
        .map(|i| ring.shard_by_key(&format!("key_{i}")).unwrap().id)
        .collect();
    assert!(ids.contains(&0));
    assert!(ids.contains(&1));
    assert!(ids.contains(&2));
}

#[test]
fn ohlcv_symbols_use_stable_distinct_shards() {
    let ring = ShardRing::from_shards(vec![test_shard(0, 9000), test_shard(1, 9001)]);
    let btc = ring.shard_by_key("btc-usdt").unwrap().id;
    let eth = ring.shard_by_key("eth-usdt").unwrap().id;
    assert_eq!(ring.shard_by_key("btc-usdt").unwrap().id, btc);
    assert_eq!(ring.shard_by_key("eth-usdt").unwrap().id, eth);
}

#[test]
fn load_test_symbols_split_across_two_shards() {
    let ring = ShardRing::from_shards(vec![test_shard(0, 9000), test_shard(1, 9001)]);
    let mut counts = [0u32; 2];
    for i in 0..32 {
        let id = ring.shard_by_key(&format!("SYM-{i:04}")).unwrap().id as usize;
        counts[id] += 1;
    }
    assert!(counts[0] > 0, "shard 0 empty");
    assert!(counts[1] > 0, "shard 1 empty");
}

#[test]
fn weighted_shard_receives_more_keys() {
    let ring = ShardRing::from_shards(vec![
        test_shard_weighted(0, 9000, 3, 64),
        test_shard_weighted(1, 9001, 1, 64),
    ]);
    let mut counts = [0u32; 2];
    for i in 0..10_000 {
        let id = ring.shard_by_key(&format!("key-{i}")).unwrap().id as usize;
        counts[id] += 1;
    }
    assert!(counts[0] > counts[1], "heavier shard should receive more keys");
    let ratio = counts[0] as f64 / counts[1] as f64;
    assert!(
        (2.0..=4.0).contains(&ratio),
        "expected ~3:1 ratio, got {}:{} ({ratio:.2})",
        counts[0],
        counts[1]
    );
}

#[test]
fn ring_wraps_clockwise_past_last_vnode() {
    let ring = ShardRing::from_shards(vec![test_shard(0, 9000)]);
    assert_eq!(ring.shard_by_key("any-key").unwrap().id, 0);
}

#[test]
fn filtered_lookup_skips_excluded_primary() {
    let ring = ShardRing::from_shards(vec![test_shard(0, 9000), test_shard(1, 9001)]);
    let primary = ring.shard_by_key("btc-usdt").unwrap().id;
    let fallback = ring.shard_by_key_filtered("btc-usdt", &only(primary)).unwrap();
    assert_ne!(fallback.id, primary);
}

#[test]
fn filtered_lookup_is_deterministic_across_calls() {
    let ring = ShardRing::from_shards(vec![
        test_shard(0, 9000),
        test_shard(1, 9001),
        test_shard(2, 9002),
    ]);
    let primary = ring.shard_by_key("btc-usdt").unwrap().id;
    let first = ring
        .shard_by_key_filtered("btc-usdt", &only(primary))
        .unwrap()
        .id;
    for _ in 0..50 {
        let again = ring
            .shard_by_key_filtered("btc-usdt", &only(primary))
            .unwrap()
            .id;
        assert_eq!(again, first, "failover target must be deterministic");
        assert_ne!(again, primary);
    }
}

#[test]
fn filtered_lookup_returns_none_when_all_excluded() {
    let ring = ShardRing::from_shards(vec![test_shard(0, 9000), test_shard(1, 9001)]);
    let mut all = HashSet::new();
    all.insert(0);
    all.insert(1);
    assert!(ring.shard_by_key_filtered("any", &all).is_none());
}

#[test]
fn ring_filtered_lookup_is_deterministic() {
    let ring = ShardRing::from_shards(vec![test_shard(0, 9000), test_shard(1, 9001)]);
    let shard = ring.shard_by_key_filtered("ETH-USD", &only(0)).unwrap();
    assert_eq!(shard.id, 1);
}

#[test]
fn ring_lookups_on_empty_ring_and_by_id() {
    let empty = ShardRing::from_shards(vec![]);
    assert!(empty.shard_by_key("x").is_none());
    assert!(empty.shard_by_key_filtered("x", &HashSet::new()).is_none());
    assert_eq!(empty.vnode_count(), 0);
    let ring = ShardRing::from_shards(vec![test_shard_weighted(4, 9000, 0, 0), test_shard(9, 9001)]);
    assert_eq!(ring.vnode_count(), 65);
    assert_eq!(ring.shard_count(), 2);
    assert_eq!(ring.shard_by_id(9).unwrap().id, 9);
    assert!(ring.shard_by_id(5).is_none());
    assert_eq!(ring.duplicate().shards().len(), 2);
}

#[test]
fn rebuilt_rings_route_alike() {
    let shards = || vec![test_shard_weighted(0, 9000, 2, 8), test_shard(1, 9001), test_shard(2, 9002)];
    let a = ShardRing::from_shards(shards());
    let b = ShardRing::from_shards(shards());
    for key in ["BTC-USD", "ETH-USD", "sensor_a", "x", ""] {
        assert_eq!(a.shard_by_key(key).unwrap().id, b.shard_by_key(key).unwrap().id);
        let primary = a.shard_by_key(key).unwrap().id;
        assert_eq!(
            a.shard_by_key_filtered(key, &only(primary)).unwrap().id,
            b.shard_by_key_filtered(key, &only(primary)).unwrap().id
        );
    }
}
