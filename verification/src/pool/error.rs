//! Errors of the backend connection pool.
use vstd::prelude::*;

use crate::text::{append, decimal, u64_to_string};

verus! {

/// Why a pooled backend connection could not be had. A failed connect keeps the
/// text of its cause.
#[derive(Debug, Clone, PartialEq, Eq)]
pub enum PoolError {
    UnknownShard { shard_id: u32 },
    ConnectFailed { shard_id: u32, source: String },
    ClientTaken { shard_id: u32 },
}

impl PoolError {
    pub open spec fn message_spec(&self) -> Seq<char> {
        match self {
            PoolError::UnknownShard { shard_id } => "unknown shard "@ + decimal(*shard_id as nat),
            PoolError::ConnectFailed { shard_id, source } => "shard "@ + decimal(*shard_id as nat)
                + " connection failed: "@ + source@,
            PoolError::ClientTaken { shard_id } => "client handle already taken for shard "@
                + decimal(*shard_id as nat),
        }
    }

    /// The human-readable description of the error.
    pub fn message(&self) -> (r: String)
        ensures
            r@ == self.message_spec(),
    {
        match self {
            PoolError::UnknownShard { shard_id } => {
                let mut m = String::from_str("unknown shard ");
                let id = u64_to_string(*shard_id as u64);
                append(&mut m, id.as_str());
                m
            },
            PoolError::ConnectFailed { shard_id, source } => {
                let mut m = String::from_str("shard ");
                let id = u64_to_string(*shard_id as u64);
                append(&mut m, id.as_str());
                append(&mut m, " connection failed: ");
                append(&mut m, source.as_str());
                m
            },
            PoolError::ClientTaken { shard_id } => {
                let mut m = String::from_str("client handle already taken for shard ");
                let id = u64_to_string(*shard_id as u64);
                append(&mut m, id.as_str());
                m
            },
        }
    }
}

/// Connections kept per shard: the configured number, at least one.
pub fn per_shard_capacity(max_per_shard: usize) -> (r: usize)
    ensures
        r == (if max_per_shard >= 1 {
            max_per_shard
        } else {
            1
        }),
{
    if max_per_shard >= 1 {
        max_per_shard
    } else {
        1
    }
}

/// Whether a released connection is kept: only while fewer than the capacity are idle.
pub fn keep_idle(idle: usize, capacity: usize) -> (r: bool)
    ensures
        r == (idle < capacity),
{
    idle < capacity
}

} // verus!
