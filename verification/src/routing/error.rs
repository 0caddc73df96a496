//! Routing errors and their PostgreSQL SQLSTATE mapping.
use vstd::prelude::*;

use crate::text::{append, decimal, u64_to_string};

verus! {

/// Why a request could not be routed.
#[derive(Debug, Clone, PartialEq, Eq)]
pub enum RoutingError {
    Parse(String),
    Unsupported(String),
    ShardNotFound { key: String },
    ShardUnhealthy { shard_id: u32 },
    InsufficientHealthyShards { required: usize, available: usize },
}

/// Why SQL could not be analysed for routing.
#[derive(Debug, Clone, PartialEq, Eq)]
pub enum SqlRouteError {
    Parse(String),
    Unsupported(String),
}

/// The values a routing error carries.
pub enum RoutingErrorView {
    Parse(Seq<char>),
    Unsupported(Seq<char>),
    ShardNotFound { key: Seq<char> },
    ShardUnhealthy { shard_id: u32 },
    InsufficientHealthyShards { required: usize, available: usize },
}

/// The values an SQL analysis error carries.
pub enum SqlRouteErrorView {
    Parse(Seq<char>),
    Unsupported(Seq<char>),
}

impl View for RoutingError {
    type V = RoutingErrorView;

    open spec fn view(&self) -> RoutingErrorView {
        match self {
            RoutingError::Parse(m) => RoutingErrorView::Parse(m@),
            RoutingError::Unsupported(m) => RoutingErrorView::Unsupported(m@),
            RoutingError::ShardNotFound { key } => RoutingErrorView::ShardNotFound { key: key@ },
            RoutingError::ShardUnhealthy { shard_id } => RoutingErrorView::ShardUnhealthy {
                shard_id: *shard_id,
            },
            RoutingError::InsufficientHealthyShards { required, available } =>
                RoutingErrorView::InsufficientHealthyShards {
                required: *required,
                available: *available,
            },
        }
    }
}

impl View for SqlRouteError {
    type V = SqlRouteErrorView;

    open spec fn view(&self) -> SqlRouteErrorView {
        match self {
            SqlRouteError::Parse(m) => SqlRouteErrorView::Parse(m@),
            SqlRouteError::Unsupported(m) => SqlRouteErrorView::Unsupported(m@),
        }
    }
}

/// SQLSTATE reported to PostgreSQL clients for a routing error.
pub open spec fn sqlstate_code(e: RoutingErrorView) -> Seq<char> {
    match e {
        RoutingErrorView::Parse(_) => "42601"@,
        RoutingErrorView::Unsupported(_) => "42501"@,
        RoutingErrorView::ShardNotFound { .. } => "XX000"@,
        RoutingErrorView::ShardUnhealthy { .. } => "08006"@,
        RoutingErrorView::InsufficientHealthyShards { .. } => "08006"@,
    }
}

/// Error message reported to PostgreSQL clients for a routing error.
pub open spec fn sqlstate_message(e: RoutingErrorView) -> Seq<char> {
    match e {
        RoutingErrorView::Parse(m) => m,
        RoutingErrorView::Unsupported(m) => m,
        RoutingErrorView::ShardNotFound { key } => "no shard for key: "@ + key,
        RoutingErrorView::ShardUnhealthy { shard_id } => "shard "@ + decimal(shard_id as nat)
            + " is unhealthy"@,
        RoutingErrorView::InsufficientHealthyShards { required, available } =>
            "insufficient healthy shards: need "@ + decimal(required as nat) + ", have "@
            + decimal(available as nat),
    }
}

/// The human-readable description of a routing error.
pub open spec fn routing_error_text(e: RoutingErrorView) -> Seq<char> {
    match e {
        RoutingErrorView::Parse(m) => "failed to parse SQL: "@ + m,
        RoutingErrorView::Unsupported(m) => "unsupported SQL: "@ + m,
        RoutingErrorView::ShardNotFound { key } => "no shard found for key: "@ + key,
        RoutingErrorView::ShardUnhealthy { shard_id } => "shard "@ + decimal(shard_id as nat)
            + " is unhealthy"@,
        RoutingErrorView::InsufficientHealthyShards { required, available } =>
            "insufficient healthy shards: need "@ + decimal(required as nat) + ", have "@
            + decimal(available as nat),
    }
}

/// The human-readable description of an SQL analysis error.
pub open spec fn sql_route_error_text(e: SqlRouteErrorView) -> Seq<char> {
    match e {
        SqlRouteErrorView::Parse(m) => "failed to parse SQL: "@ + m,
        SqlRouteErrorView::Unsupported(m) => "unsupported SQL: "@ + m,
    }
}

impl RoutingError {
    /// SQLSTATE code and message for PostgreSQL clients.
    pub fn pg_sqlstate(&self) -> (r: (&'static str, String))
        ensures
            r.0@ == sqlstate_code(self@),
            r.1@ == sqlstate_message(self@),
    {
        match self {
            RoutingError::Parse(msg) => ("42601", msg.clone()),
            RoutingError::Unsupported(msg) => ("42501", msg.clone()),
            RoutingError::ShardNotFound { key } => {
                let mut m = String::from_str("no shard for key: ");
                append(&mut m, key.as_str());
                ("XX000", m)
            },
            RoutingError::ShardUnhealthy { shard_id } => {
                let mut m = String::from_str("shard ");
                let d = u64_to_string(*shard_id as u64);
                append(&mut m, d.as_str());
                append(&mut m, " is unhealthy");
                ("08006", m)
            },
            RoutingError::InsufficientHealthyShards { required, available } => {
                let mut m = String::from_str("insufficient healthy shards: need ");
                let a = u64_to_string(*required as u64);
                append(&mut m, a.as_str());
                append(&mut m, ", have ");
                let b = u64_to_string(*available as u64);
                append(&mut m, b.as_str());
                ("08006", m)
            },
        }
    }

    /// The human-readable description of the error.
    pub fn message(&self) -> (r: String)
        ensures
            r@ == routing_error_text(self@),
    {
        match self {
            RoutingError::Parse(msg) => {
                let mut m = String::from_str("failed to parse SQL: ");
                append(&mut m, msg.as_str());
                m
            },
            RoutingError::Unsupported(msg) => {
                let mut m = String::from_str("unsupported SQL: ");
                append(&mut m, msg.as_str());
                m
            },
            RoutingError::ShardNotFound { key } => {
                let mut m = String::from_str("no shard found for key: ");
                append(&mut m, key.as_str());
                m
            },
            _ => {
                let (_, m) = self.pg_sqlstate();
                m
            },
        }
    }
}

impl SqlRouteError {
    /// The human-readable description of the error.
    pub fn message(&self) -> (r: String)
        ensures
            r@ == sql_route_error_text(self@),
    {
        match self {
            SqlRouteError::Parse(msg) => {
                let mut m = String::from_str("failed to parse SQL: ");
                append(&mut m, msg.as_str());
                m
            },
            SqlRouteError::Unsupported(msg) => {
                let mut m = String::from_str("unsupported SQL: ");
                append(&mut m, msg.as_str());
                m
            },
        }
    }
}

impl From<SqlRouteError> for RoutingError {
    fn from(value: SqlRouteError) -> (r: RoutingError) {
        match value {
            SqlRouteError::Parse(s) => RoutingError::Parse(s),
            SqlRouteError::Unsupported(s) => RoutingError::Unsupported(s),
        }
    }
}

impl vstd::std_specs::convert::FromSpecImpl<SqlRouteError> for RoutingError {
    open spec fn obeys_from_spec() -> bool {
        true
    }

    open spec fn from_spec(v: SqlRouteError) -> RoutingError {
        match v {
            SqlRouteError::Parse(s) => RoutingError::Parse(s),
            SqlRouteError::Unsupported(s) => RoutingError::Unsupported(s),
        }
    }
}

} // verus!
