//! What the broadcast hub publishes, and the rows it keeps per topic for replay.
use vstd::prelude::*;

use std::collections::VecDeque;

use crate::config::StreamConfig;
use crate::routing::keys::{measurement_from_ilp_bytes, measurement_of};
use crate::routing::schema::TableRegistry;
use crate::stream::row::{parse_ilp_row, parse_row, IlpRow, RowView};
use crate::stream::topic::{derive_topic, is_broadcastable, topic_of};
use crate::text::lower_seq;

verus! {

/// The last `w` elements of `s` (all of them when there are fewer).
pub open spec fn keep_last<T>(s: Seq<T>, w: nat) -> Seq<T> {
    if s.len() <= w {
        s
    } else {
        s.subrange(s.len() - w, s.len() as int)
    }
}

/// Rows published on one topic, oldest first, for replay to late subscribers.
#[derive(Debug)]
pub struct ReplayBuffer {
    rows: VecDeque<IlpRow>,
}

impl View for ReplayBuffer {
    type V = Seq<RowView>;

    closed spec fn view(&self) -> Seq<RowView> {
        Seq::new(self.rows@.len(), |i: int| self.rows@[i]@)
    }
}

impl ReplayBuffer {
    pub fn new() -> (r: Self)
        ensures
            r@ == Seq::<RowView>::empty(),
    {
        let r = ReplayBuffer { rows: VecDeque::new() };
        assert(r@ =~= Seq::<RowView>::empty());
        r
    }

    pub fn len(&self) -> (r: usize)
        ensures
            r == self@.len(),
    {
        self.rows.len()
    }

    /// Appends `row`, then drops the oldest rows beyond `window`.
    pub fn push(&mut self, row: IlpRow, window: usize)
        ensures
            final(self)@ == keep_last(old(self)@.push(row@), window as nat),
    {
        let ghost full = self.rows@.push(row);
        self.rows.push_back(row);
        while self.rows.len() > window
            invariant
                full.len() >= self.rows@.len(),
                self.rows@ == full.subrange(full.len() - self.rows@.len(), full.len() as int),
                self.rows@.len() == full.len() || self.rows@.len() >= window,
            decreases self.rows.len(),
        {
            let _ = self.rows.pop_front();
        }
        proof {
            let kept = keep_last(full, window as nat);
            assert(self.rows@ =~= kept);
            assert forall|k: int| 0 <= k < kept.len() implies #[trigger] self@[k] == keep_last(
                old(self)@.push(row@),
                window as nat,
            )[k] by {
                let off = full.len() - kept.len();
                assert(self.rows@[k] == full[off + k]);
                if off + k < old(self)@.len() {
                    assert(full[off + k] == old(self).rows@[off + k]);
                }
            }
            assert(self@ =~= keep_last(old(self)@.push(row@), window as nat));
        }
    }

    /// Copies of the newest `last_n` rows, oldest first.
    pub fn last(&self, last_n: usize) -> (r: Vec<IlpRow>)
        ensures
            Seq::new(r@.len(), |i: int| r@[i]@) == (if self@.len() <= last_n {
                self@
            } else {
                self@.subrange(self@.len() - last_n, self@.len() as int)
            }),
    {
        let n = self.rows.len();
        let start = if n > last_n {
            n - last_n
        } else {
            0
        };
        let mut out: Vec<IlpRow> = Vec::new();
        let mut i = start;
        while i < n
            invariant
                start <= i <= n,
                n == self@.len(),
                Seq::new(out@.len(), |k: int| out@[k]@) == self@.subrange(start as int, i as int),
                out@.len() == i - start,
            decreases n - i,
        {
            let ghost before = out@;
            let row = self.rows[i].duplicate();
            out.push(row);
            i = i + 1;
            assert forall|k: int| 0 <= k < out@.len() implies #[trigger] out@[k]@ == self@.subrange(
                start as int,
                i as int,
            )[k] by {
                if k < out@.len() - 1 {
                    assert(out@[k] == before[k]);
                    assert(Seq::new(before.len(), |m: int| before[m]@)[k] == before[k]@);
                } else {
                    assert(self@[i - 1] == self.rows@[i - 1]@);
                }
            }
            assert(Seq::new(out@.len(), |k: int| out@[k]@) =~= self@.subrange(
                start as int,
                i as int,
            ));
        }
        assert(start == 0 ==> self@.subrange(0, n as int) =~= self@);
        out
    }
}

/// Whether a measurement is streamed under `registry`.
pub open spec fn streamed(registry: &TableRegistry, m: Seq<char>) -> bool {
    registry@.contains_key(lower_seq(m)) && registry@[lower_seq(m)].sharded
}

/// The row of an ingested line and its topic, when the line is streamed: its
/// measurement reads as UTF-8, belongs to a sharded table, and the line parses.
pub fn stream_row(line: &[u8], registry: &TableRegistry, config: &StreamConfig) -> (r: Option<
    (IlpRow, String),
>)
    ensures
        r is Some <==> (measurement_of(line@) matches Some(m) && streamed(registry, m)
            && parse_row(line@) is Some),
        r matches Some((row, topic)) ==> parse_row(line@) == Some(row@) && topic@ == topic_of(
            &row,
            config,
        ),
{
    let measurement = match measurement_from_ilp_bytes(line) {
        Some(m) => m,
        None => {
            return None;
        },
    };
    if !is_broadcastable(measurement, registry) {
        return None;
    }
    let row = match parse_ilp_row(line) {
        Some(row) => row,
        None => {
            return None;
        },
    };
    let topic = derive_topic(&row, config);
    Some((row, topic))
}

/// Replay keeps the newest rows and never more than the window: what `push` leaves is
/// a suffix of the rows seen, of length at most the window, ending with the new row
/// when the window is not zero.
pub proof fn law_replay_window<T>(s: Seq<T>, x: T, w: nat)
    ensures
        keep_last(s.push(x), w).len() <= w,
        keep_last(s.push(x), w).len() == if s.len() + 1 <= w {
            s.len() + 1
        } else {
            w
        },
        w > 0 ==> keep_last(s.push(x), w).last() == x,
        keep_last(s.push(x), w) == s.push(x).subrange(
            s.len() + 1 - keep_last(s.push(x), w).len(),
            s.len() + 1 as int,
        ),
{
    let t = s.push(x);
    if t.len() <= w {
        assert(t.subrange(0, t.len() as int) =~= t);
    }
}

} // verus!
