use quest_router::config::{StreamConfig, TableRoutingConfig};
use quest_router::routing::TableRegistry;
use quest_router::stream::hub::{stream_row, ReplayBuffer};
use quest_router::stream::ws::{add_lag, control_ops, lagged_out, release_op, OutboundQueue, SubscriptionOp, OUTBOUND_CAPACITY};
use quest_router::stream::{derive_topic, is_broadcastable, parse_ilp_row, ControlIn, IlpField};

fn config_with_tags(tags: Vec<&str>) -> StreamConfig {
    StreamConfig {
        topic_tags: tags.into_iter().map(String::from).collect(),
        topic_missing: "*".into(),
        ..Default::default()
    }
}

fn registry_with(table: &str, sharded: bool) -> TableRegistry {
    TableRegistry::from_config(
        &[TableRoutingConfig {
            name: table.into(),
            sharded,
            shard_key: None,
            columns: vec![],
        }],
        "symbol",
    )
}

fn float_value(f: &IlpField) -> Option<f64> {
    match f {
        IlpField::Float(text) => text.parse::<f64>().ok(),
        _ => None,
    }
}

#[test]
fn parse_simple_line() {
    let line = b"router_test_trades,symbol=BTC-OHLCV price=100.5 1234567890\n";
    let row = parse_ilp_row(line).unwrap();
    assert_eq!(row.measurement, "router_test_trades");
    assert_eq!(row.tags, vec![("symbol".into(), "BTC-OHLCV".into())]);
    assert_eq!(row.fields.len(), 1);
    assert!(matches!(float_value(&row.fields[0].1), Some(v) if (v - 100.5).abs() < f64::EPSILON));
    assert_eq!(row.timestamp_ns, Some(1234567890));
}

#[test]
fn parse_multiple_tags_and_fields() {
    let line = b"trades,symbol=ETH,exchange=NASDAQ price=1.5,volume=100i,active=t 999\n";
    let row = parse_ilp_row(line).unwrap();
    assert_eq!(row.measurement, "trades");
    assert_eq!(
        row.tags,
        vec![
            ("symbol".into(), "ETH".into()),
            ("exchange".into(), "NASDAQ".into()),
        ]
    );
    assert_eq!(row.fields.len(), 3);
    assert!(matches!(float_value(&row.fields[0].1), Some(v) if (v - 1.5).abs() < f64::EPSILON));
    assert!(matches!(row.fields[1].1, IlpField::Integer(100)));
    assert!(matches!(row.fields[2].1, IlpField::Bool(true)));
    assert_eq!(row.timestamp_ns, Some(999));
}

#[test]
fn parse_string_field() {
    let line = b"events,kind=alert msg=\"hello world\" 1\n";
    let row = parse_ilp_row(line).unwrap();
    assert!(matches!(
        row.fields[0].1,
        IlpField::String(ref s) if s == "hello world"
    ));
}

#[test]
fn parse_no_timestamp() {
    let line = b"trades,symbol=X price=1\n";
    let row = parse_ilp_row(line).unwrap();
    assert_eq!(row.timestamp_ns, None);
}

#[test]
fn parse_empty_returns_none() {
    assert!(parse_ilp_row(b"").is_none());
    assert!(parse_ilp_row(b"\n").is_none());
}

#[test]
fn parse_drops_unreadable_fields() {
    let row = parse_ilp_row(b"m,t=1 a=abc,b=12xi,c=-7i,d=\"\",e=1e3,f=inf,g= 5").unwrap();
    let names: Vec<&str> = row.fields.iter().map(|(n, _)| n.as_str()).collect();
    assert_eq!(names, vec!["c", "d", "e", "f"]);
    assert!(matches!(row.fields[0].1, IlpField::Integer(-7)));
    assert!(matches!(row.fields[1].1, IlpField::String(ref s) if s.is_empty()));
    assert!(matches!(row.fields[2].1, IlpField::Float(ref t) if t == "1e3"));
    assert_eq!(row.timestamp_ns, Some(5));
}

#[test]
fn parse_requires_a_comma_and_a_measurement() {
    assert!(parse_ilp_row(b"cpu value=1 1").is_none());
    assert!(parse_ilp_row(b",t=1 value=1 1").is_none());
    let row = parse_ilp_row(b"cpu,host=a").unwrap();
    assert_eq!(row.tags, vec![("host".into(), "a".into())]);
    assert!(row.fields.is_empty());
    assert_eq!(row.timestamp_ns, None);
}

#[test]
fn single_tag_topic() {
    let row = parse_ilp_row(b"router_test_trades,symbol=BTC-OHLCV price=100 1\n").unwrap();
    let topic = derive_topic(&row, &config_with_tags(vec!["symbol"]));
    assert_eq!(topic, "BTC-OHLCV");
}

#[test]
fn multi_tag_with_missing_fallback() {
    let row = parse_ilp_row(b"router_test_trades,symbol=BTC-OHLCV price=100 1\n").unwrap();
    let topic = derive_topic(&row, &config_with_tags(vec!["symbol", "exchange"]));
    assert_eq!(topic, "BTC-OHLCV@*");
}

#[test]
fn multi_tag_with_exchange() {
    let row = parse_ilp_row(b"router_test_trades,symbol=BTC-OHLCV,exchange=NASDAQ price=100 1\n")
        .unwrap();
    let topic = derive_topic(&row, &config_with_tags(vec!["symbol", "exchange"]));
    assert_eq!(topic, "BTC-OHLCV@NASDAQ");
}

#[test]
fn sharded_table_filter() {
    let reg = registry_with("router_test_trades", true);
    assert!(is_broadcastable("router_test_trades", &reg));
    assert!(!is_broadcastable("unknown_table", &reg));
}

#[test]
fn non_sharded_table_skipped() {
    let reg = registry_with("local_metrics", false);
    assert!(!is_broadcastable("local_metrics", &reg));
}

#[test]
fn tag_lookup_is_case_insensitive() {
    let row = parse_ilp_row(b"trades,Symbol=ETH price=1 1\n").unwrap();
    let topic = derive_topic(&row, &config_with_tags(vec!["symbol"]));
    assert_eq!(topic, "ETH");
}

#[test]
fn hub_roundtrip_for_publish() {
    let registry = registry_with("router_test_trades", true);
    let (row, topic) = stream_row(
        b"router_test_trades,symbol=BTC-OHLCV price=100 1\n",
        &registry,
        &StreamConfig::default(),
    )
    .unwrap();
    assert_eq!(row.measurement, "router_test_trades");
    assert_eq!(topic, "BTC-OHLCV");
    assert!(stream_row(b"other,symbol=X price=1 1\n", &registry, &StreamConfig::default()).is_none());
}

#[test]
fn replay_keeps_the_newest_rows() {
    let mut buf = ReplayBuffer::new();
    for i in 0..5 {
        let line = format!("t,symbol=S v={i}i {i}");
        buf.push(parse_ilp_row(line.as_bytes()).unwrap(), 3);
    }
    assert_eq!(buf.len(), 3);
    let last_two = buf.last(2);
    assert_eq!(last_two.len(), 2);
    assert_eq!(last_two[0].timestamp_ns, Some(3));
    assert_eq!(last_two[1].timestamp_ns, Some(4));
    assert_eq!(buf.last(10).len(), 3);
    let mut none = ReplayBuffer::new();
    none.push(parse_ilp_row(b"t,a=b v=1i").unwrap(), 0);
    assert_eq!(none.len(), 0);
}

#[test]
fn outbound_queue_drops_oldest_when_full() {
    let mut q: OutboundQueue<usize> = OutboundQueue::new();
    for i in 0..OUTBOUND_CAPACITY {
        assert!(!q.enqueue(i));
    }
    assert!(q.enqueue(999));
    assert_eq!(q.len(), OUTBOUND_CAPACITY);
    assert_eq!(q.dequeue(), Some(1));
}

#[test]
fn lag_accounting_saturates() {
    assert_eq!(add_lag(3, 4), 7);
    assert_eq!(add_lag(u32::MAX - 1, 5), u32::MAX);
    assert!(lagged_out(50, 50));
    assert!(!lagged_out(49, 50));
}

#[test]
fn control_messages_become_hub_operations() {
    let ops = control_ops(&ControlIn::Subscribe { topics: vec!["*".into(), "BTC".into()] });
    assert!(matches!(ops[0], SubscriptionOp::SubscribeWildcard));
    assert!(matches!(ops[1], SubscriptionOp::Subscribe(ref t) if t == "BTC"));
    let ops = control_ops(&ControlIn::Unsubscribe { topics: vec!["*".into(), "ETH".into()] });
    assert_eq!(ops.len(), 3);
    assert!(matches!(ops[0], SubscriptionOp::UnsubscribeWildcard));
    assert!(matches!(ops[1], SubscriptionOp::Remove(ref t) if t == "*"));
    assert!(matches!(ops[2], SubscriptionOp::Remove(ref t) if t == "ETH"));
    let ops = control_ops(&ControlIn::Replay { topic: "X".into(), last_n: 4 });
    assert!(matches!(ops[0], SubscriptionOp::Replay { ref topic, last_n: 4 } if topic == "X"));
    assert!(matches!(release_op("*"), SubscriptionOp::UnsubscribeWildcard));
    assert!(matches!(release_op("X"), SubscriptionOp::Remove(_)));
}

#[test]
fn trailing_newline_does_not_change_row() {
    let plain = parse_ilp_row(b"trades,symbol=BTC price=1.5,size=2i,side=\"buy\" 1700");
    let with_nl = parse_ilp_row(b"trades,symbol=BTC price=1.5,size=2i,side=\"buy\" 1700\n");
    assert!(plain.is_some());
    assert_eq!(plain, with_nl);
    assert_eq!(parse_ilp_row(b"\n"), parse_ilp_row(b""));
}
