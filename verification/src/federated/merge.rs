//! Merging the replies of all shards into one result set.
use vstd::prelude::*;

use crate::routing::plan::RoutePlan;
use crate::text::{append, decimal, u64_to_string};

verus! {

/// The metric label of a plan.
pub fn plan_label(plan: &RoutePlan) -> (r: &'static str)
    ensures
        r@ == (match plan {
            RoutePlan::FullScan { .. } => "full_scan"@,
            RoutePlan::AggregateScan { .. } => "aggregate_scan"@,
            RoutePlan::Join { .. } => "join"@,
            RoutePlan::GroupBy { .. } => "group_by"@,
            RoutePlan::SingleShard { .. } => "single_shard"@,
        }),
{
    match plan {
        RoutePlan::FullScan { .. } => "full_scan",
        RoutePlan::AggregateScan { .. } => "aggregate_scan",
        RoutePlan::Join { .. } => "join",
        RoutePlan::GroupBy { .. } => "group_by",
        RoutePlan::SingleShard { .. } => "single_shard",
    }
}

/// One reply of a shard: a result set (column descriptions and rows), an empty query,
/// or a command completion.
pub enum ShardReply<F, R> {
    Query { fields: Vec<F>, rows: Vec<R> },
    EmptyQuery,
    Execution,
}

/// Why shard replies cannot be merged.
#[derive(Debug, Clone, PartialEq, Eq, Structural)]
pub enum MergeError {
    /// A result set has another number of columns than the first one.
    SchemaMismatch,
    /// More rows than the limit.
    RowLimitExceeded { max_rows: u64 },
}

impl MergeError {
    pub open spec fn message_spec(&self) -> Seq<char> {
        match self {
            MergeError::SchemaMismatch => "schema mismatch across shards"@,
            MergeError::RowLimitExceeded { max_rows } => "federated row limit exceeded ("@
                + decimal(*max_rows as nat) + ")"@,
        }
    }

    pub fn message(&self) -> (r: String)
        ensures
            r@ == self.message_spec(),
    {
        match self {
            MergeError::SchemaMismatch => String::from_str("schema mismatch across shards"),
            MergeError::RowLimitExceeded { max_rows } => {
                let mut m = String::from_str("federated row limit exceeded (");
                let n = u64_to_string(*max_rows);
                append(&mut m, n.as_str());
                append(&mut m, ")");
                m
            },
        }
    }
}

/// The shape of a reply: the number of columns and rows of a result set.
pub open spec fn shape<F, R>(r: ShardReply<F, R>) -> Option<(nat, nat)> {
    match r {
        ShardReply::Query { fields, rows } => Some((fields@.len(), rows@.len())),
        _ => None,
    }
}

/// Merging replies in order, from a state of "columns of the first result set, rows
/// so far": the first result set fixes the column count; a later one with another
/// count is a mismatch; a row beyond `max_rows` exceeds the limit.
pub open spec fn merge_outcome(
    shapes: Seq<Option<(nat, nat)>>,
    cols: Option<nat>,
    rows: nat,
    max_rows: nat,
) -> Result<(Option<nat>, nat), MergeError>
    decreases shapes.len(),
{
    if shapes.len() == 0 {
        Ok((cols, rows))
    } else {
        match shapes[0] {
            None => merge_outcome(shapes.drop_first(), cols, rows, max_rows),
            Some((c, n)) => if cols matches Some(k) && k != c {
                Err(MergeError::SchemaMismatch)
            } else if rows + n > max_rows {
                Err(MergeError::RowLimitExceeded { max_rows: max_rows as u64 })
            } else {
                merge_outcome(
                    shapes.drop_first(),
                    if cols is None {
                        Some(c)
                    } else {
                        cols
                    },
                    rows + n,
                    max_rows,
                )
            },
        }
    }
}

pub open spec fn shapes_of<F, R>(replies: Seq<ShardReply<F, R>>) -> Seq<Option<(nat, nat)>> {
    Seq::new(replies.len(), |i: int| shape(replies[i]))
}

/// All rows of all result sets, in reply order.
pub open spec fn all_rows<F, R>(replies: Seq<ShardReply<F, R>>) -> Seq<R>
    decreases replies.len(),
{
    if replies.len() == 0 {
        Seq::empty()
    } else {
        let rest = all_rows(replies.drop_last());
        match replies.last() {
            ShardReply::Query { rows, .. } => rest + rows@,
            _ => rest,
        }
    }
}

/// The column descriptions of the first result set.
pub open spec fn first_fields<F, R>(replies: Seq<ShardReply<F, R>>) -> Option<Seq<F>>
    decreases replies.len(),
{
    if replies.len() == 0 {
        None
    } else {
        match first_fields(replies.drop_last()) {
            Some(f) => Some(f),
            None => match replies.last() {
                ShardReply::Query { fields, .. } => Some(fields@),
                _ => None,
            },
        }
    }
}

pub open spec fn fields_or_empty<F>(f: Option<Seq<F>>) -> Seq<F> {
    match f {
        Some(fs) => fs,
        None => Seq::empty(),
    }
}

/// Concatenates the result sets of all shard replies (in order) under the columns of
/// the first one; fails on a column-count mismatch or beyond `max_rows` rows.
pub fn merge_replies<F, R>(replies: Vec<ShardReply<F, R>>, max_rows: u64) -> (r: Result<
    (Vec<F>, Vec<R>),
    MergeError,
>)
    ensures
        (match merge_outcome(shapes_of(replies@), None, 0, max_rows as nat) {
            Err(e) => r == Err::<(Vec<F>, Vec<R>), MergeError>(e),
            Ok(_) => (r matches Ok((f, rows)) && rows@ == all_rows(replies@) && f@
                == fields_or_empty(first_fields(replies@))),
        }),
{
    let ghost all = replies@;
    let ghost n = all.len();
    let mut fields: Option<Vec<F>> = None;
    let mut out: Vec<R> = Vec::new();
    let mut rest = replies;
    let ghost mut idx: int = 0;
    assert(all.take(0) =~= Seq::<ShardReply<F, R>>::empty());
    assert(shapes_of(all).subrange(0, n as int) =~= shapes_of(all));
    while rest.len() > 0
        invariant
            0 <= idx <= n,
            n == all.len(),
            rest@ == all.subrange(idx, n as int),
            all == replies@,
            out@ == all_rows(all.take(idx)),
            out@.len() <= max_rows,
            (match fields {
                Some(f) => first_fields(all.take(idx)) == Some(f@),
                None => first_fields(all.take(idx)) is None,
            }),
            merge_outcome(shapes_of(all), None, 0, max_rows as nat) == merge_outcome(
                shapes_of(all).subrange(idx, n as int),
                match fields {
                    Some(f) => Some(f@.len()),
                    None => None,
                },
                out@.len(),
                max_rows as nat,
            ),
        decreases rest.len(),
    {
        let ghost sub = shapes_of(all).subrange(idx, n as int);
        assert(sub[0] == shape(all[idx]));
        assert(sub.drop_first() =~= shapes_of(all).subrange(idx + 1, n as int));
        assert(all.take(idx + 1).drop_last() =~= all.take(idx));
        assert(all.take(idx + 1).last() == all[idx]);
        let ghost cols: Option<nat> = match &fields {
            Some(f) => Some(f@.len()),
            None => None,
        };
        let reply = rest.remove(0);
        assert(reply == all[idx]);
        match reply {
            ShardReply::Query { fields: f, rows } => {
                let mut rows = rows;
                let nf = f.len();
                assert(sub[0] == Some((nf as nat, rows@.len())));
                match &fields {
                    Some(existing) => {
                        if existing.len() != nf {
                            assert(merge_outcome(sub, cols, out@.len(), max_rows as nat) == Err::<
                                (Option<nat>, nat),
                                MergeError,
                            >(MergeError::SchemaMismatch));
                            assert(merge_outcome(shapes_of(all), None, 0, max_rows as nat)
                                == Err::<(Option<nat>, nat), MergeError>(
                                MergeError::SchemaMismatch,
                            ));
                            return Err(MergeError::SchemaMismatch);
                        }
                    },
                    None => {},
                }
                let nr = rows.len();
                if nr as u64 > max_rows - out.len() as u64 {
                    assert(merge_outcome(sub, cols, out@.len(), max_rows as nat) == Err::<
                        (Option<nat>, nat),
                        MergeError,
                    >(MergeError::RowLimitExceeded { max_rows }));
                    return Err(MergeError::RowLimitExceeded { max_rows });
                }
                out.append(&mut rows);
                if fields.is_none() {
                    fields = Some(f);
                }
            },
            _ => {},
        }
        proof {
            idx = idx + 1;
        }
    }
    assert(all.take(idx) =~= all);
    let f = match fields {
        Some(f) => f,
        None => Vec::new(),
    };
    Ok((f, out))
}

} // verus!
