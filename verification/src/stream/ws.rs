//! Per-connection decisions of the streaming WebSocket: subscriptions, the bounded
//! outbound queue and lag accounting.
use vstd::prelude::*;

use std::collections::VecDeque;

use crate::stream::control::ControlIn;
use crate::text::str_eq;

verus! {

/// Frames waiting for a slow client beyond this many push out the oldest.
pub const OUTBOUND_CAPACITY: usize = 256;

/// The topic that subscribes to every topic.
pub const WILDCARD_TOPIC: &'static str = "*";

/// A subscription change on the hub.
#[derive(Debug)]
pub enum SubscriptionOp {
    SubscribeWildcard,
    Subscribe(String),
    UnsubscribeWildcard,
    /// Forget the connection's receiver for the topic and release it on the hub.
    Remove(String),
    Replay { topic: String, last_n: usize },
}

pub enum OpView {
    SubscribeWildcard,
    Subscribe(Seq<char>),
    UnsubscribeWildcard,
    Remove(Seq<char>),
    Replay { topic: Seq<char>, last_n: usize },
}

impl View for SubscriptionOp {
    type V = OpView;

    open spec fn view(&self) -> OpView {
        match self {
            SubscriptionOp::SubscribeWildcard => OpView::SubscribeWildcard,
            SubscriptionOp::Subscribe(t) => OpView::Subscribe(t@),
            SubscriptionOp::UnsubscribeWildcard => OpView::UnsubscribeWildcard,
            SubscriptionOp::Remove(t) => OpView::Remove(t@),
            SubscriptionOp::Replay { topic, last_n } => OpView::Replay {
                topic: topic@,
                last_n: *last_n,
            },
        }
    }
}

pub open spec fn ops_view(v: Seq<SubscriptionOp>) -> Seq<OpView> {
    Seq::new(v.len(), |i: int| v[i]@)
}

pub open spec fn subscribe_ops(topics: Seq<Seq<char>>) -> Seq<OpView>
    decreases topics.len(),
{
    if topics.len() == 0 {
        Seq::empty()
    } else {
        let t = topics.last();
        subscribe_ops(topics.drop_last()).push(
            if t == "*"@ {
                OpView::SubscribeWildcard
            } else {
                OpView::Subscribe(t)
            },
        )
    }
}

pub open spec fn unsubscribe_ops(topics: Seq<Seq<char>>) -> Seq<OpView>
    decreases topics.len(),
{
    if topics.len() == 0 {
        Seq::empty()
    } else {
        let t = topics.last();
        let pre = unsubscribe_ops(topics.drop_last());
        if t == "*"@ {
            pre.push(OpView::UnsubscribeWildcard).push(OpView::Remove(t))
        } else {
            pre.push(OpView::Remove(t))
        }
    }
}

pub open spec fn texts_of(v: Seq<String>) -> Seq<Seq<char>> {
    Seq::new(v.len(), |i: int| v[i]@)
}

/// The hub operations a control message asks for, in order.
pub open spec fn control_ops_spec(msg: &ControlIn) -> Seq<OpView> {
    match msg {
        ControlIn::Subscribe { topics } => subscribe_ops(texts_of(topics@)),
        ControlIn::Unsubscribe { topics } => unsubscribe_ops(texts_of(topics@)),
        ControlIn::Replay { topic, last_n } => seq![
            OpView::Replay { topic: topic@, last_n: *last_n },
        ],
    }
}

/// The hub operations for a control message: each subscribed topic (the wildcard
/// `*` on the wildcard channel), each unsubscribed topic released, or one replay.
pub fn control_ops(msg: &ControlIn) -> (r: Vec<SubscriptionOp>)
    ensures
        ops_view(r@) == control_ops_spec(msg),
{
    let mut ops: Vec<SubscriptionOp> = Vec::new();
    match msg {
        ControlIn::Subscribe { topics } => {
            let mut i: usize = 0;
            while i < topics.len()
                invariant
                    0 <= i <= topics@.len(),
                    ops_view(ops@) == subscribe_ops(texts_of(topics@).take(i as int)),
                decreases topics.len() - i,
            {
                let ghost before = ops@;
                if str_eq(topics[i].as_str(), WILDCARD_TOPIC) {
                    ops.push(SubscriptionOp::SubscribeWildcard);
                } else {
                    ops.push(SubscriptionOp::Subscribe(topics[i].clone()));
                }
                proof {
                    assert(texts_of(topics@).take(i + 1).drop_last() =~= texts_of(topics@).take(
                        i as int,
                    ));
                }
                i = i + 1;
                assert(ops_view(ops@) =~= subscribe_ops(texts_of(topics@).take(i as int)));
            }
            assert(texts_of(topics@).take(i as int) =~= texts_of(topics@));
        },
        ControlIn::Unsubscribe { topics } => {
            let mut i: usize = 0;
            while i < topics.len()
                invariant
                    0 <= i <= topics@.len(),
                    ops_view(ops@) == unsubscribe_ops(texts_of(topics@).take(i as int)),
                decreases topics.len() - i,
            {
                if str_eq(topics[i].as_str(), WILDCARD_TOPIC) {
                    ops.push(SubscriptionOp::UnsubscribeWildcard);
                }
                ops.push(SubscriptionOp::Remove(topics[i].clone()));
                proof {
                    assert(texts_of(topics@).take(i + 1).drop_last() =~= texts_of(topics@).take(
                        i as int,
                    ));
                }
                i = i + 1;
                assert(ops_view(ops@) =~= unsubscribe_ops(texts_of(topics@).take(i as int)));
            }
            assert(texts_of(topics@).take(i as int) =~= texts_of(topics@));
        },
        ControlIn::Replay { topic, last_n } => {
            ops.push(SubscriptionOp::Replay { topic: topic.clone(), last_n: *last_n });
            assert(ops_view(ops@) =~= control_ops_spec(msg));
        },
    }
    ops
}

/// Frames waiting to be written to one client, oldest first.
#[derive(Debug)]
pub struct OutboundQueue<T> {
    frames: VecDeque<T>,
}

impl<T> View for OutboundQueue<T> {
    type V = Seq<T>;

    closed spec fn view(&self) -> Seq<T> {
        self.frames@
    }
}

impl<T> OutboundQueue<T> {
    pub fn new() -> (r: Self)
        ensures
            r@ == Seq::<T>::empty(),
    {
        OutboundQueue { frames: VecDeque::new() }
    }

    pub fn len(&self) -> (r: usize)
        ensures
            r == self@.len(),
    {
        self.frames.len()
    }

    /// Queues `frame`; a full queue first drops its oldest frame (reported as `true`).
    pub fn enqueue(&mut self, frame: T) -> (dropped: bool)
        ensures
            dropped == (old(self)@.len() >= OUTBOUND_CAPACITY),
            final(self)@ == (if dropped {
                old(self)@.subrange(1, old(self)@.len() as int)
            } else {
                old(self)@
            }).push(frame),
    {
        let dropped = self.frames.len() >= OUTBOUND_CAPACITY;
        if dropped {
            let _ = self.frames.pop_front();
        }
        self.frames.push_back(frame);
        dropped
    }

    /// The oldest frame.
    pub fn dequeue(&mut self) -> (r: Option<T>)
        ensures
            old(self)@.len() == 0 ==> r is None && final(self)@ == old(self)@,
            old(self)@.len() > 0 ==> r == Some(old(self)@[0]) && final(self)@ == old(
                self,
            )@.subrange(1, old(self)@.len() as int),
    {
        self.frames.pop_front()
    }
}

/// Lag drops after a receiver reports `missed` skipped messages: the count taken as a
/// `u32` (truncated) is added, saturating.
pub fn add_lag(lag_drops: u32, missed: u64) -> (r: u32)
    ensures
        r == (if lag_drops + (missed as u32) > u32::MAX {
            u32::MAX as int
        } else {
            lag_drops + (missed as u32)
        }),
{
    lag_drops.saturating_add(missed as u32)
}

/// Whether a client has lagged too often and is disconnected.
pub fn lagged_out(lag_drops: u32, max_lag_drops: u32) -> (r: bool)
    ensures
        r == (lag_drops >= max_lag_drops),
{
    lag_drops >= max_lag_drops
}

/// The release of a subscription when its connection closes.
pub fn release_op(topic: &str) -> (r: SubscriptionOp)
    ensures
        r@ == (if topic@ == "*"@ {
            OpView::UnsubscribeWildcard
        } else {
            OpView::Remove(topic@)
        }),
{
    if str_eq(topic, WILDCARD_TOPIC) {
        SubscriptionOp::UnsubscribeWildcard
    } else {
        SubscriptionOp::Remove(String::from_str(topic))
    }
}

/// A client's outbound queue never grows past its capacity, and always ends with the
/// frame queued last.
pub proof fn law_outbound_bounded<T>(q: Seq<T>, frame: T)
    requires
        q.len() <= OUTBOUND_CAPACITY,
    ensures
        ({
            let next = (if q.len() >= OUTBOUND_CAPACITY {
                q.subrange(1, q.len() as int)
            } else {
                q
            }).push(frame);
            &&& next.len() <= OUTBOUND_CAPACITY
            &&& next.last() == frame
        }),
{
}

} // verus!
