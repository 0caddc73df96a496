//! Errors of federated execution and their SQLSTATE codes.
use vstd::prelude::*;

use crate::text::{append, decimal, u64_to_string};

verus! {

/// Why a federated query failed.
#[derive(Debug, Clone, PartialEq, Eq)]
pub enum FederatedError {
    ShardQuery { shard_id: u32, message: String },
    SchemaMismatch(String),
    RowLimitExceeded { limit: usize },
    Disabled,
    InsufficientHealthyShards,
}

impl FederatedError {
    /// The SQLSTATE reported to PostgreSQL clients.
    pub open spec fn code_spec(&self) -> Seq<char> {
        match self {
            FederatedError::ShardQuery { .. } => "XX000"@,
            FederatedError::SchemaMismatch(_) => "XX000"@,
            FederatedError::RowLimitExceeded { .. } => "53400"@,
            FederatedError::Disabled => "0A000"@,
            FederatedError::InsufficientHealthyShards => "08006"@,
        }
    }

    pub open spec fn message_spec(&self) -> Seq<char> {
        match self {
            FederatedError::ShardQuery { shard_id, message } => "shard "@ + decimal(
                *shard_id as nat,
            ) + " query failed: "@ + message@,
            FederatedError::SchemaMismatch(m) => "schema mismatch across shards: "@ + m@,
            FederatedError::RowLimitExceeded { limit } => "result exceeded max rows ("@ + decimal(
                *limit as nat,
            ) + ")"@,
            FederatedError::Disabled => "federated execution disabled"@,
            FederatedError::InsufficientHealthyShards =>
                "insufficient healthy shards for federated query"@,
        }
    }

    pub fn code(&self) -> (r: &'static str)
        ensures
            r@ == self.code_spec(),
    {
        match self {
            FederatedError::ShardQuery { .. } => "XX000",
            FederatedError::SchemaMismatch(_) => "XX000",
            FederatedError::RowLimitExceeded { .. } => "53400",
            FederatedError::Disabled => "0A000",
            FederatedError::InsufficientHealthyShards => "08006",
        }
    }

    /// The human-readable description of the error.
    pub fn message(&self) -> (r: String)
        ensures
            r@ == self.message_spec(),
    {
        match self {
            FederatedError::ShardQuery { shard_id, message } => {
                let mut m = String::from_str("shard ");
                let id = u64_to_string(*shard_id as u64);
                append(&mut m, id.as_str());
                append(&mut m, " query failed: ");
                append(&mut m, message.as_str());
                m
            },
            FederatedError::SchemaMismatch(msg) => {
                let mut m = String::from_str("schema mismatch across shards: ");
                append(&mut m, msg.as_str());
                m
            },
            FederatedError::RowLimitExceeded { limit } => {
                let mut m = String::from_str("result exceeded max rows (");
                let l = u64_to_string(*limit as u64);
                append(&mut m, l.as_str());
                append(&mut m, ")");
                m
            },
            FederatedError::Disabled => String::from_str("federated execution disabled"),
            FederatedError::InsufficientHealthyShards => String::from_str(
                "insufficient healthy shards for federated query",
            ),
        }
    }
}

} // verus!
