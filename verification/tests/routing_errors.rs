use quest_router::routing::{classify_sql, RoutingError, SqlRouteError, TableRegistry};

#[test]
fn maps_parse_to_syntax_sqlstate() {
    assert_eq!(RoutingError::Parse("bad".into()).pg_sqlstate().0, "42601");
}

#[test]
fn maps_unhealthy_to_connection_sqlstate() {
    assert_eq!(
        RoutingError::ShardUnhealthy { shard_id: 1 }.pg_sqlstate().0,
        "08006"
    );
}

#[test]
fn routing_errors_map_to_pg_sqlstates() {
    assert_eq!(RoutingError::Parse("bad".into()).pg_sqlstate().0, "42601");
    assert_eq!(
        RoutingError::Unsupported("write".into()).pg_sqlstate().0,
        "42501"
    );
    assert_eq!(
        RoutingError::ShardUnhealthy { shard_id: 2 }.pg_sqlstate().0,
        "08006"
    );
    assert_eq!(
        RoutingError::InsufficientHealthyShards {
            required: 1,
            available: 0,
        }
        .pg_sqlstate()
        .0,
        "08006"
    );
}

#[test]
fn questdb_dialect_unkeyed_maps_to_unsupported() {
    let err = classify_sql(
        "SELECT ts FROM trades SAMPLE BY 1h",
        "symbol",
        &TableRegistry::default(),
        false,
    )
    .unwrap_err();
    assert!(matches!(err, SqlRouteError::Unsupported(_)));
    let routed = RoutingError::from(err);
    assert_eq!(routed.pg_sqlstate().0, "42501");
}

#[test]
fn routing_error_messages() {
    assert_eq!(
        RoutingError::ShardNotFound { key: "missing".into() }.pg_sqlstate(),
        ("XX000", "no shard for key: missing".to_string())
    );
    assert_eq!(
        RoutingError::ShardUnhealthy { shard_id: 7 }.pg_sqlstate().1,
        "shard 7 is unhealthy"
    );
    assert_eq!(
        RoutingError::InsufficientHealthyShards { required: 2, available: 1 }.message(),
        "insufficient healthy shards: need 2, have 1"
    );
    assert_eq!(
        RoutingError::ShardNotFound { key: "k".into() }.message(),
        "no shard found for key: k"
    );
    assert_eq!(
        RoutingError::Parse("x".into()).message(),
        "failed to parse SQL: x"
    );
    assert_eq!(
        SqlRouteError::Unsupported("y".into()).message(),
        "unsupported SQL: y"
    );
}
