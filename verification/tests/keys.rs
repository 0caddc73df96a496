use quest_router::routing::{measurement_from_ilp, measurement_from_ilp_bytes, shard_key_from_ilp};

#[test]
fn ilp_tag_extraction() {
    let body = b"trades,symbol=BTC-USD,side=buy price=100 1234567890\n";
    assert_eq!(shard_key_from_ilp(body, "symbol"), "BTC-USD");
}

#[test]
fn ilp_tag_name_is_case_insensitive() {
    let body = b"trades,Symbol=ETH-USD price=100 1234567890\n";
    assert_eq!(shard_key_from_ilp(body, "symbol"), "ETH-USD");
}

#[test]
fn ilp_measurement_extraction() {
    let body = b"router_test_ohlcv,symbol=btc-usdt,interval=5m open=1 1\n";
    assert_eq!(
        measurement_from_ilp(body).as_deref(),
        Some("router_test_ohlcv")
    );
}

#[test]
fn ilp_missing_tag_falls_back_to_tag_name() {
    assert_eq!(shard_key_from_ilp(b"trades,side=buy price=1 1\n", "symbol"), "symbol");
    assert_eq!(shard_key_from_ilp(b"trades price=1 1\n", "symbol"), "symbol");
    assert_eq!(shard_key_from_ilp(b"", "symbol"), "symbol");
}

#[test]
fn ilp_only_first_line_is_read() {
    let body = b"a,x=1 f=1\nb,symbol=S f=1\n";
    assert_eq!(shard_key_from_ilp(body, "symbol"), "symbol");
    assert_eq!(measurement_from_ilp_bytes(body), Some("a"));
}

#[test]
fn ilp_measurement_needs_a_name() {
    assert_eq!(measurement_from_ilp(b",x=1 f=1"), None);
    assert_eq!(measurement_from_ilp(b""), None);
    assert_eq!(measurement_from_ilp(b"cpu f=1").as_deref(), Some("cpu"));
}
