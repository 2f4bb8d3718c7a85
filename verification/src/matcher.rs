//! The interval matcher: which records started while the stream was live.

use crate::error::RunError;
use crate::instant::{Instant, TimeInterval};
use crate::record::{stamp_records, stamped_reading, Stamped, Timestamped};
use vstd::prelude::*;

verus! {

/// The test that the matcher applies to each record: its start lies
/// strictly between `start` and `end`.
pub open spec fn started_between<'a, R>(start: Instant, end: Instant) -> spec_fn(
    Stamped<'a, R>,
) -> bool {
    |s: Stamped<'a, R>| start.precedes(s.start) && s.start.precedes(end)
}

/// The test of whether a record started strictly inside `interval`.
pub open spec fn started_within<'a, R>(interval: TimeInterval) -> spec_fn(Stamped<'a, R>) -> bool {
    started_between(interval.opens(), interval.closes())
}

/// Keeps the records that started strictly inside the interval, in the
/// order in which they were given.
pub fn select_within<'a, R>(interval: &TimeInterval, stamped: &Vec<Stamped<'a, R>>) -> (matched:
    Vec<Stamped<'a, R>>)
    ensures
        matched@ == stamped@.filter(started_within(*interval)),
{
    let mut matched: Vec<Stamped<'a, R>> = Vec::new();
    let mut i: usize = 0;
    proof {
        reveal(Seq::filter);
    }
    while i < stamped.len()
        invariant
            0 <= i <= stamped.len(),
            matched@ == stamped@.take(i as int).filter(started_within(*interval)),
        decreases stamped.len() - i,
    {
        proof {
            reveal(Seq::filter);
            assert(stamped@.take(i + 1).drop_last() == stamped@.take(i as int));
        }
        if interval.contains(&stamped[i].start) {
            matched.push(Stamped { record: stamped[i].record, start: stamped[i].start });
        }
        i = i + 1;
    }
    assert(stamped@.take(i as int) == stamped@);
    matched
}

/// What matching gives: the records that started strictly inside the
/// interval, in their order, or `MalformedTimestamp` where the start time
/// of one record, matched or not, is no valid timestamp.
pub open spec fn matching<'a, R: Timestamped>(interval: TimeInterval, records: Seq<R>) -> Result<
    Seq<Stamped<'a, R>>,
    RunError,
> {
    match stamped_reading::<R>(records) {
        Ok(stamped) => Ok(stamped.filter(started_within(interval))),
        Err(e) => Err(e),
    }
}

/// Reads the start time of every record and keeps the records that started
/// strictly inside the interval.
pub fn match_records<'a, R: Timestamped>(interval: &TimeInterval, records: &'a Vec<R>) -> (found:
    Result<Vec<Stamped<'a, R>>, RunError>)
    ensures
        match found {
            Ok(matched) => matching::<R>(*interval, records@) == Ok::<
                Seq<Stamped<'a, R>>,
                RunError,
            >(matched@),
            Err(e) => matching::<R>(*interval, records@) == Err::<Seq<Stamped<'a, R>>, RunError>(e),
        },
{
    match stamp_records(records) {
        Ok(stamped) => Ok(select_within(interval, &stamped)),
        Err(e) => Err(e),
    }
}

/// An instant on either boundary of an interval is outside it.
pub proof fn lemma_boundaries_are_outside(interval: TimeInterval, t: Instant)
    requires
        t == interval.opens() || t == interval.closes(),
    ensures
        !interval.encloses(t),
{
}

/// A record is among the matched ones exactly if it is among the given ones
/// and started strictly inside the interval.
pub proof fn lemma_matched_iff_within<'a, R>(
    interval: TimeInterval,
    stamped: Seq<Stamped<'a, R>>,
    s: Stamped<'a, R>,
)
    ensures
        stamped.filter(started_within(interval)).contains(s) <==> stamped.contains(s)
            && interval.opens().precedes(s.start) && s.start.precedes(interval.closes()),
{
    let pred = started_within::<'a, R>(interval);
    let kept = stamped.filter(pred);
    if kept.contains(s) {
        let k = choose|k: int| 0 <= k < kept.len() && kept[k] == s;
        stamped.lemma_filter_pred(pred, k);
        stamped.lemma_filter_contains_rev(pred, s);
    }
    if stamped.contains(s) && interval.encloses(s.start) {
        let i = choose|i: int| 0 <= i < stamped.len() && stamped[i] == s;
        stamped.lemma_filter_contains(pred, i);
    }
}

/// Matching is a filter: what it keeps stands in the order in which it was
/// given. `positions[k]` is the place among the given records of the `k`-th
/// kept one.
pub proof fn lemma_matching_keeps_order<'a, R>(interval: TimeInterval, stamped: Seq<Stamped<'a, R>>)
    -> (positions: Seq<int>)
    ensures
        positions.len() == stamped.filter(started_within(interval)).len(),
        forall|k: int|
            0 <= k < positions.len() ==> 0 <= #[trigger] positions[k] < stamped.len()
                && stamped.filter(started_within(interval))[k] == stamped[positions[k]],
        forall|j: int, k: int| 0 <= j < k < positions.len() ==> positions[j] < positions[k],
    decreases stamped.len(),
{
    reveal(Seq::filter);
    let pred = started_within::<'a, R>(interval);
    if stamped.len() == 0 {
        Seq::empty()
    } else {
        let before = lemma_matching_keeps_order(interval, stamped.drop_last());
        if pred(stamped.last()) {
            before.push(stamped.len() - 1)
        } else {
            before
        }
    }
}

/// Matching never yields more records than it was given, and of no records
/// it keeps none.
pub proof fn lemma_matching_shrinks<'a, R>(interval: TimeInterval, stamped: Seq<Stamped<'a, R>>)
    ensures
        stamped.filter(started_within(interval)).len() <= stamped.len(),
        stamped.len() == 0 ==> stamped.filter(started_within(interval)).len() == 0,
{
    stamped.lemma_filter_len(started_within(interval));
}

} // verus!
