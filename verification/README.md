# quest-router

A sharding router for QuestDB: InfluxDB line protocol (ILP) writes are routed to a
shard by consistent hashing of a shard-key tag, PostgreSQL-wire reads are classified
and routed to one shard or fanned out, ILP rows can be streamed to WebSocket
subscribers, and Nautilus catalog files in an S3-compatible store are ingested.

## Layout

- `src/` — the library, verified with Verus. The routing and parsing decisions live
  here with their contracts: SQL classification and planning (`routing`), ILP key
  extraction and the hash ring, cluster snapshots and health (`metadata`), ILP row
  parsing, topics, replay and subscription rules (`stream`), object ingest
  decisions, checkpoints, the decoding of Feather tick batches and ILP line
  formatting (`ingest`), result merging and cell decoding and the `AVG` rewrite
  (`federated`), PostgreSQL statement preparation (`protocol`).
- `app/` — the binary: configuration file, sockets, tasks, WebSocket and HTTP servers,
  the object store, logging and metrics, the floating-point merges of aggregates and
  the decimal text of fixed-point tick values. It calls the library for the routing
  and parsing decisions.
- `tests/` — tests of the library on concrete values.

The laws that the library guarantees across calls are public proof functions whose
names begin with `law_`.
