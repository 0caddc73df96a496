//! Router configuration: shards, routing tables, auth, health checks and streaming.
//!
//! The file format (TOML, environment overrides, socket addresses) is read by the
//! binary; the library holds the values that the routing logic reads.
use vstd::prelude::*;

use crate::text::{chars_of, last_pos_in, last_pos_of, parse_u16_spec, string_of, u16_of};

verus! {

/// One backend QuestDB shard.
#[derive(Debug, Clone)]
pub struct ShardConfig {
    pub id: u32,
    pub ilp_address: Endpoint,
    pub pg_address: Endpoint,
    pub weight: u32,
    pub virtual_nodes: u32,
}

/// Hostname or IP with port (e.g. `questdb-0:9009`, `127.0.0.1:8812`).
#[derive(Debug, Clone)]
pub struct Endpoint(pub String);

/// Why an endpoint string is not `host:port`.
#[derive(Debug, Clone, PartialEq, Eq)]
pub enum EndpointError {
    /// No `:` separates host and port.
    InvalidAddress(String),
    /// The text after the last `:` is not a port number.
    InvalidPort(String),
}

/// Host part of `host:port`: everything before the last `:`.
pub open spec fn endpoint_host(s: Seq<char>) -> Seq<char> {
    match last_pos_of(s, ':') {
        Some(i) => s.subrange(0, i),
        None => s,
    }
}

/// Port text of `host:port`: everything after the last `:`.
pub open spec fn endpoint_port_text(s: Seq<char>) -> Seq<char> {
    match last_pos_of(s, ':') {
        Some(i) => s.subrange(i + 1, s.len() as int),
        None => Seq::empty(),
    }
}

impl Endpoint {
    pub fn as_str(&self) -> (r: &str)
        ensures
            r@ == self.0@,
    {
        self.0.as_str()
    }

    /// Splits `host:port` at the last `:` and parses the port.
    pub fn host_port(&self) -> (r: Result<(String, u16), EndpointError>)
        ensures
            last_pos_of(self.0@, ':') is None ==> (r matches Err(
                EndpointError::InvalidAddress(a),
            ) && a@ == self.0@),
            last_pos_of(self.0@, ':') is Some && parse_u16_spec(endpoint_port_text(self.0@))
                is None ==> (r matches Err(EndpointError::InvalidPort(a)) && a@ == self.0@),
            last_pos_of(self.0@, ':') is Some && parse_u16_spec(endpoint_port_text(self.0@))
                is Some ==> (r matches Ok((h, p)) && h@ == endpoint_host(self.0@) && p
                == parse_u16_spec(endpoint_port_text(self.0@))->0),
    {
        let v = chars_of(self.0.as_str());
        let found = last_pos_in(&v, ':');
        proof {
            crate::text::lemma_last_pos(v@, ':');
        }
        match found {
            None => {
                assert(v@.subrange(0, 0) =~= Seq::<char>::empty());
                Err(EndpointError::InvalidAddress(string_of(&v, 0, v.len())))
            },
            Some(k) => {
                assert(v@.subrange(0, v.len() as int) =~= v@);
                match u16_of(&v, k + 1, v.len()) {
                    Some(port) => Ok((string_of(&v, 0, k), port)),
                    None => Err(EndpointError::InvalidPort(string_of(&v, 0, v.len()))),
                }
            },
        }
    }
}

pub fn default_weight() -> (r: u32)
    ensures
        r == 1,
{
    1
}

pub fn default_vnodes() -> (r: u32)
    ensures
        r == 128,
{
    128
}

/// SQL/ILP routing settings.
#[derive(Debug, Clone)]
pub struct RoutingConfig {
    /// Tag name (ILP) or column name (SQL) used to pick a shard.
    pub shard_key: String,
    pub federated_enabled: bool,
    pub max_federated_rows: u64,
    pub scan_allow_order_by: bool,
    pub pg_pool_size: usize,
    pub tables: Vec<TableRoutingConfig>,
}

/// A column declared for a routed table.
#[derive(Debug, Clone)]
pub struct ColumnConfig {
    pub name: String,
    pub column_type: String,
}

/// Routing metadata of one table.
#[derive(Debug, Clone)]
pub struct TableRoutingConfig {
    pub name: String,
    pub sharded: bool,
    pub shard_key: Option<String>,
    pub columns: Vec<ColumnConfig>,
}

/// The values of a table's routing metadata.
pub struct TableView {
    pub name: Seq<char>,
    pub sharded: bool,
    pub shard_key: Option<Seq<char>>,
    pub columns: Seq<(Seq<char>, Seq<char>)>,
}

pub open spec fn opt_view(o: Option<String>) -> Option<Seq<char>> {
    match o {
        Some(s) => Some(s@),
        None => None,
    }
}

impl View for TableRoutingConfig {
    type V = TableView;

    open spec fn view(&self) -> TableView {
        TableView {
            name: self.name@,
            sharded: self.sharded,
            shard_key: opt_view(self.shard_key),
            columns: Seq::new(
                self.columns@.len(),
                |i: int| (self.columns@[i].name@, self.columns@[i].column_type@),
            ),
        }
    }
}

impl ColumnConfig {
    pub(crate) fn copied(&self) -> (r: Self)
        ensures
            r.name@ == self.name@,
            r.column_type@ == self.column_type@,
    {
        ColumnConfig { name: self.name.clone(), column_type: self.column_type.clone() }
    }
}

pub(crate) fn copy_opt_string(o: &Option<String>) -> (r: Option<String>)
    ensures
        opt_view(r) == opt_view(*o),
{
    match o {
        Some(s) => Some(s.clone()),
        None => None,
    }
}

impl TableRoutingConfig {
    pub(crate) fn copied(&self) -> (r: Self)
        ensures
            r@ == self@,
    {
        let mut cols: Vec<ColumnConfig> = Vec::new();
        let mut i: usize = 0;
        while i < self.columns.len()
            invariant
                0 <= i <= self.columns.len(),
                cols@.len() == i,
                forall|j: int|
                    0 <= j < i ==> (#[trigger] cols@[j]).name@ == self.columns@[j].name@
                        && cols@[j].column_type@ == self.columns@[j].column_type@,
            decreases self.columns.len() - i,
        {
            cols.push(self.columns[i].copied());
            i = i + 1;
        }
        let r = TableRoutingConfig {
            name: self.name.clone(),
            sharded: self.sharded,
            shard_key: copy_opt_string(&self.shard_key),
            columns: cols,
        };
        assert(r@.columns =~= self@.columns);
        r
    }
}

impl ShardConfig {
    pub(crate) fn copied(&self) -> (r: Self)
        ensures
            r == *self,
    {
        ShardConfig {
            id: self.id,
            ilp_address: Endpoint(self.ilp_address.0.clone()),
            pg_address: Endpoint(self.pg_address.0.clone()),
            weight: self.weight,
            virtual_nodes: self.virtual_nodes,
        }
    }
}

pub fn default_table_sharded() -> (r: bool)
    ensures
        r,
{
    true
}

pub fn default_federated_enabled() -> (r: bool)
    ensures
        r,
{
    true
}

pub fn default_max_federated_rows() -> (r: u64)
    ensures
        r == 1_000_000,
{
    1_000_000
}

pub fn default_pg_pool_size() -> (r: usize)
    ensures
        r == 4,
{
    4
}

/// Credentials used when connecting to backend shards.
#[derive(Debug, Clone)]
pub struct PgAuthConfig {
    pub user: String,
    pub password: String,
    pub database: String,
}

impl Default for PgAuthConfig {
    fn default() -> (r: Self)
        ensures
            r.user@ == "admin"@,
            r.password@ == "quest"@,
            r.database@ == "qdb"@,
    {
        PgAuthConfig {
            user: default_pg_user(),
            password: default_pg_password(),
            database: default_pg_database(),
        }
    }
}

pub fn default_pg_user() -> (r: String)
    ensures
        r@ == "admin"@,
{
    String::from_str("admin")
}

pub fn default_pg_password() -> (r: String)
    ensures
        r@ == "quest"@,
{
    String::from_str("quest")
}

pub fn default_pg_database() -> (r: String)
    ensures
        r@ == "qdb"@,
{
    String::from_str("qdb")
}

/// Shard health probing.
#[derive(Debug, Clone)]
pub struct HealthCheckConfig {
    pub interval_secs: u64,
    pub timeout_secs: u64,
    /// Skip shards whose last probe failed when routing.
    pub exclude_unhealthy: bool,
    /// Fewest healthy shards for which routing is still attempted.
    pub min_healthy_shards: usize,
}

pub fn default_health_interval() -> (r: u64)
    ensures
        r == 5,
{
    5
}

pub fn default_health_timeout() -> (r: u64)
    ensures
        r == 2,
{
    2
}

/// Live tick streaming over WebSocket.
#[derive(Debug, Clone)]
pub struct StreamConfig {
    pub enabled: bool,
    pub broadcast_capacity: usize,
    pub replay_window: usize,
    pub topic_tags: Vec<String>,
    pub topic_missing: String,
    pub max_client_lag_drops: u32,
}

impl Default for StreamConfig {
    fn default() -> (r: Self)
        ensures
            !r.enabled,
            r.broadcast_capacity == 1024,
            r.replay_window == 1000,
            r.topic_tags@.len() == 1,
            r.topic_tags@[0]@ == "symbol"@,
            r.topic_missing@ == "*"@,
            r.max_client_lag_drops == 50,
    {
        StreamConfig {
            enabled: false,
            broadcast_capacity: default_broadcast_capacity(),
            replay_window: default_replay_window(),
            topic_tags: default_topic_tags(),
            topic_missing: default_topic_missing(),
            max_client_lag_drops: default_max_client_lag_drops(),
        }
    }
}

pub fn default_broadcast_capacity() -> (r: usize)
    ensures
        r == 1024,
{
    1024
}

pub fn default_replay_window() -> (r: usize)
    ensures
        r == 1000,
{
    1000
}

pub fn default_topic_tags() -> (r: Vec<String>)
    ensures
        r@.len() == 1,
        r@[0]@ == "symbol"@,
{
    let mut v: Vec<String> = Vec::new();
    v.push(String::from_str("symbol"));
    v
}

pub fn default_topic_missing() -> (r: String)
    ensures
        r@ == "*"@,
{
    String::from_str("*")
}

pub fn default_max_client_lag_drops() -> (r: u32)
    ensures
        r == 50,
{
    50
}

/// Tables that decoded Nautilus catalog objects are written to.
#[derive(Debug, Clone)]
pub struct NautilusIngestConfig {
    pub trade_table: String,
    pub quote_table: String,
}

impl Default for NautilusIngestConfig {
    fn default() -> (r: Self)
        ensures
            r.trade_table@ == "trade_ticks"@,
            r.quote_table@ == "quote_ticks"@,
    {
        NautilusIngestConfig {
            trade_table: String::from_str("trade_ticks"),
            quote_table: String::from_str("quote_ticks"),
        }
    }
}

} // verus!
