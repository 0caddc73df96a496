use quest_router::logging::{json_format, log_file};
use quest_router::protocol::ilp::complete_line_len;
use quest_router::config::{Endpoint, ShardConfig, TableRoutingConfig};
use quest_router::metadata::{ClusterSnapshot, Protocol};
use quest_router::protocol::ilp_forward::{buffer_line, route_line, SHARD_BUF_FLUSH_BYTES};
use quest_router::protocol::pg_backend::{inline_sql_params, resolve_shard_id};
use quest_router::protocol::pg_hook::{backend_sql, hook_route, is_read_only_refusal};
use quest_router::app::ResolvedRoute;
use quest_router::routing::{RoutingError, TableRegistry};

fn shard(id: u32) -> ShardConfig {
    ShardConfig {
        id,
        ilp_address: Endpoint(format!("127.0.0.1:900{id}")),
        pg_address: Endpoint(format!("127.0.0.1:881{id}")),
        weight: 1,
        virtual_nodes: 64,
    }
}

#[test]
fn inlines_positional_params_high_to_low() {
    let sql = "SELECT * FROM trades WHERE symbol = $1 AND id > $2";
    let out = inline_sql_params(sql, &["BTC-USD".into(), "42".into()]);
    assert_eq!(
        out,
        "SELECT * FROM trades WHERE symbol = 'BTC-USD' AND id > '42'"
    );
}

#[test]
fn escapes_single_quotes() {
    let sql = "SELECT * FROM trades WHERE symbol = $1";
    let out = inline_sql_params(sql, &["A'B".into()]);
    assert_eq!(out, "SELECT * FROM trades WHERE symbol = 'A''B'");
}

#[test]
fn inlines_null_and_high_placeholders_first() {
    let params: Vec<String> = (1..=10).map(|i| if i == 10 { "NuLl".to_string() } else { format!("v{i}") }).collect();
    let out = inline_sql_params("SELECT $10, $1", &params);
    assert_eq!(out, "SELECT NULL, 'v1'");
    assert_eq!(backend_sql("SELECT $1", Some(&[])), "SELECT $1");
    assert_eq!(backend_sql("SELECT $1", None), "SELECT $1");
    assert_eq!(backend_sql("SELECT $1", Some(&["x".to_string()])), "SELECT 'x'");
}

#[test]
fn passthrough_sessions_stick_to_a_shard() {
    let shards = vec![shard(3), shard(4)];
    assert_eq!(resolve_shard_id(&shards, None), 3);
    assert_eq!(resolve_shard_id(&shards, Some(4)), 4);
}

#[test]
fn ilp_lines_are_routed_by_their_table_key() {
    let registry = TableRegistry::from_config(
        &[TableRoutingConfig {
            name: "trades".into(),
            sharded: true,
            shard_key: Some("sym".into()),
            columns: vec![],
        }],
        "symbol",
    );
    let snap = ClusterSnapshot::new(vec![shard(0), shard(1)], registry, true, 1);
    assert!(route_line(&snap, "symbol", b"").is_none());
    assert!(route_line(&snap, "symbol", b"\nrest").is_none());
    let routed = route_line(&snap, "symbol", b"trades,sym=ABC,symbol=XYZ p=1 1\n").unwrap().unwrap();
    let expected = snap.shard_for_key("ABC", Protocol::Ilp).unwrap();
    assert_eq!(routed.id, expected.id);
}

#[test]
fn shard_buffers_end_lines_with_newlines() {
    let mut buf = Vec::new();
    assert!(!buffer_line(&mut buf, b"a f=1"));
    assert!(!buffer_line(&mut buf, b"b f=2\n"));
    assert_eq!(buf, b"a f=1\nb f=2\n".to_vec());
    let big = vec![b'x'; SHARD_BUF_FLUSH_BYTES];
    assert!(buffer_line(&mut buf, &big));
}

#[test]
fn hook_routes_keyed_reads_and_refuses_writes() {
    let snap = ClusterSnapshot::new(vec![shard(0)], TableRegistry::default(), true, 1);
    assert!(matches!(hook_route(&snap, "symbol", "BEGIN", None), Some(Ok(ResolvedRoute::Passthrough))));
    assert!(matches!(
        hook_route(&snap, "symbol", "SELECT * FROM t WHERE symbol = 'A'", None),
        Some(Ok(ResolvedRoute::Single(_)))
    ));
    assert!(hook_route(&snap, "symbol", "SELECT * FROM t", None).is_none());
    assert!(hook_route(&snap, "symbol", "SELEC nonsense", None).is_none());
    match hook_route(&snap, "symbol", "INSERT INTO t VALUES (1)", None) {
        Some(Err(e)) => assert!(is_read_only_refusal(&e)),
        _ => panic!("write not refused"),
    }
    assert!(!is_read_only_refusal(&RoutingError::Unsupported("other".into())));
}

#[test]
fn ilp_stream_splits_at_newlines() {
    assert_eq!(complete_line_len(b"a f=1\nb"), Some(6));
    assert_eq!(complete_line_len(b"partial"), None);
    assert_eq!(complete_line_len(b"\n"), Some(1));
}

#[test]
fn logging_settings() {
    assert!(json_format(Some("JSON")));
    assert!(!json_format(Some("text")));
    assert!(!json_format(None));
    assert_eq!(log_file(Some(String::new())), None);
    assert_eq!(log_file(Some("/tmp/x.log".into())).as_deref(), Some("/tmp/x.log"));
}
