//! Control messages of the streaming WebSocket.
use vstd::prelude::*;

use crate::stream::row::IlpRow;

verus! {

/// A client's request on the streaming socket.
#[derive(Debug)]
pub enum ControlIn {
    Subscribe { topics: Vec<String> },
    Unsubscribe { topics: Vec<String> },
    Replay { topic: String, last_n: usize },
}

/// The answer to a replay request.
#[derive(Debug)]
pub struct ReplayOut {
    pub op: &'static str,
    pub topic: String,
    pub rows: Vec<IlpRow>,
}

} // verus!
