//! What every kind of record has in common: an id under which the record
//! store knows it, and the time at which it started.

use crate::error::RunError;
use crate::instant::{instant_reading, read_instant, Instant};
use vstd::prelude::*;

verus! {

/// A record with an id and a start time, the latter as RFC 3339 text.
pub trait Timestamped {
    /// The id under which the record store knows the record.
    spec fn id_text(&self) -> Seq<char>;

    /// The record's start time as text.
    spec fn start_text(&self) -> Seq<char>;

    /// The id under which the record store knows the record.
    fn record_id(&self) -> (id: &str)
        ensures
            id@ == self.id_text(),
    ;

    /// The record's start time as RFC 3339 text.
    fn start_iso8601(&self) -> (text: &str)
        ensures
            text@ == self.start_text(),
    ;
}

/// A record together with the instant that its start time denotes.
pub struct Stamped<'a, R> {
    pub record: &'a R,
    pub start: Instant,
}

/// Whether the start time of every record can be read.
pub open spec fn all_readable<R: Timestamped>(records: Seq<R>) -> bool {
    forall|i: int| 0 <= i < records.len() ==> instant_reading(#[trigger] records[i].start_text()) is Ok
}

/// The records in their order, each with the instant that its start time
/// denotes. It speaks of records whose start times can all be read.
pub open spec fn stamping<'a, R: Timestamped>(records: Seq<R>) -> Seq<Stamped<'a, R>> {
    Seq::new(
        records.len(),
        |i: int|
            Stamped {
                record: &records[i],
                start: match instant_reading(records[i].start_text()) {
                    Ok(start) => start,
                    Err(_) => Instant { secs: 0, nanos: 0 },
                },
            },
    )
}

/// What reading the start times of `records` gives: the stamped records,
/// or `MalformedTimestamp` where one start time is no valid timestamp.
pub open spec fn stamped_reading<'a, R: Timestamped>(records: Seq<R>) -> Result<
    Seq<Stamped<'a, R>>,
    RunError,
> {
    if all_readable(records) {
        Ok(stamping(records))
    } else {
        Err(RunError::MalformedTimestamp)
    }
}

/// Reads the start time of every record. One start time that is no valid
/// timestamp fails the whole reading.
pub fn stamp_records<'a, R: Timestamped>(records: &'a Vec<R>) -> (read: Result<
    Vec<Stamped<'a, R>>,
    RunError,
>)
    ensures
        match read {
            Ok(stamped) => stamped_reading::<R>(records@) == Ok::<Seq<Stamped<'a, R>>, RunError>(
                stamped@,
            ),
            Err(e) => stamped_reading::<R>(records@) == Err::<Seq<Stamped<'a, R>>, RunError>(e),
        },
{
    let mut stamped: Vec<Stamped<'a, R>> = Vec::new();
    let mut i: usize = 0;
    while i < records.len()
        invariant
            0 <= i <= records.len(),
            all_readable(records@.take(i as int)),
            stamped@ == stamping::<R>(records@.take(i as int)),
        decreases records.len() - i,
    {
        match read_instant(records[i].start_iso8601()) {
            Ok(start) => {
                stamped.push(Stamped { record: &records[i], start });
            },
            Err(e) => {
                assert(instant_reading(records@[i as int].start_text()) is Err);
                return Err(e);
            },
        }
        proof {
            let longer = records@.take(i + 1);
            assert forall|k: int| 0 <= k < longer.len() implies instant_reading(
                #[trigger] longer[k].start_text(),
            ) is Ok by {
                if k < i {
                    assert(records@.take(i as int)[k] == longer[k]);
                }
            }
            assert(stamped@ =~= stamping::<R>(longer));
        }
        i = i + 1;
    }
    assert(records@.take(i as int) == records@);
    Ok(stamped)
}

} // verus!
