//! Points on the timeline, the window between two of them, and the reading
//! of a timestamp from its RFC 3339 text.

use crate::error::RunError;
use vstd::prelude::*;

verus! {

/// Nanoseconds in one second.
pub const NANOS_PER_SECOND: i128 = 1_000_000_000;

/// Seconds in one day.
pub const SECONDS_PER_DAY: i64 = 86_400;

/// A point in time: whole seconds since the Unix epoch and the nanoseconds
/// that follow them.
///
/// The nanoseconds may be a second or more. The reading of a leap second,
/// written with `60` in its seconds field, comes with the seconds of the
/// second before it and with a thousand million nanoseconds or more. Such
/// an instant lies after every instant of the second before it and before
/// the second that follows (`precedes`); how it is counted in a span is
/// said by `leap_correction`. Order and span are those that `chrono` gives
/// to the date-times it reads.
#[derive(Clone, Copy, Debug, PartialEq, Eq)]
pub struct Instant {
    pub secs: i64,
    pub nanos: u32,
}

/// The whole seconds in a span of nanoseconds, rounded towards zero.
pub open spec fn whole_seconds(nanos: int) -> int {
    if nanos >= 0 {
        nanos / 1_000_000_000
    } else {
        -((-nanos) / 1_000_000_000)
    }
}

/// The seconds that a span from `earlier` to `later` gains or loses for a
/// leap second at one of its ends. Where `later` stands later in its day
/// than `earlier` in its own and `earlier` is in a leap second, that second
/// is counted in; where `later` stands earlier in its day and is itself in
/// a leap second, it is counted out.
pub open spec fn leap_correction(later: Instant, earlier: Instant) -> int {
    if later.second_of_day() > earlier.second_of_day() && earlier.in_leap_second() {
        1
    } else if later.second_of_day() < earlier.second_of_day() && later.in_leap_second() {
        -1
    } else {
        0
    }
}

/// The signed span from `earlier` to `later` in nanoseconds: the difference
/// of the seconds, corrected for a leap second, and the difference of the
/// nanoseconds.
pub open spec fn span_nanos(later: Instant, earlier: Instant) -> int {
    (later.secs - earlier.secs + leap_correction(later, earlier)) * 1_000_000_000 + (later.nanos
        - earlier.nanos)
}

impl Instant {
    /// Whether this instant lies strictly before `other`: its seconds are
    /// fewer, or the seconds are the same and its nanoseconds are fewer.
    pub open spec fn precedes(self, other: Instant) -> bool {
        self.secs < other.secs || (self.secs == other.secs && self.nanos < other.nanos)
    }

    /// The second of its day in which the instant lies, counted from
    /// midnight.
    pub open spec fn second_of_day(self) -> int {
        self.secs as int % 86_400
    }

    /// Whether the instant is the reading of a leap second.
    pub open spec fn in_leap_second(self) -> bool {
        self.nanos >= 1_000_000_000
    }

    /// Nanoseconds since the epoch, for an instant outside a leap second.
    pub open spec fn nanos_since_epoch(self) -> int {
        self.secs as int * 1_000_000_000 + self.nanos as int
    }

    /// The instant `nanos` nanoseconds after the second `secs`.
    pub fn new(secs: i64, nanos: u32) -> (t: Instant)
        ensures
            t.secs == secs,
            t.nanos == nanos,
    {
        Instant { secs, nanos }
    }

    /// The second of its day in which the instant lies.
    pub fn day_second(&self) -> (second: i64)
        ensures
            second == self.second_of_day(),
    {
        let rest: i64 = self.secs % SECONDS_PER_DAY;
        if rest < 0 {
            rest + SECONDS_PER_DAY
        } else {
            rest
        }
    }

    /// Whether this instant lies strictly before `other`.
    pub fn is_before(&self, other: &Instant) -> (before: bool)
        ensures
            before == self.precedes(*other),
    {
        self.secs < other.secs || (self.secs == other.secs && self.nanos < other.nanos)
    }

    /// The signed span from `earlier` to this instant, in nanoseconds.
    pub fn nanos_since(&self, earlier: &Instant) -> (span: i128)
        ensures
            span == span_nanos(*self, *earlier),
    {
        let here: i64 = self.day_second();
        let there: i64 = earlier.day_second();
        let correction: i128 = if here > there && earlier.nanos >= 1_000_000_000 {
            1
        } else if here < there && self.nanos >= 1_000_000_000 {
            -1
        } else {
            0
        };
        let seconds: i128 = (self.secs as i128) - (earlier.secs as i128) + correction;
        seconds * NANOS_PER_SECOND + ((self.nanos as i128) - (earlier.nanos as i128))
    }

    /// The whole seconds from `earlier` to this instant, rounded towards
    /// zero; negative when this instant is the earlier one.
    pub fn seconds_since(&self, earlier: &Instant) -> (seconds: i128)
        ensures
            seconds == whole_seconds(span_nanos(*self, *earlier)),
    {
        self.nanos_since(earlier) / NANOS_PER_SECOND
    }
}

/// Outside leap seconds, instants go by their count of nanoseconds since
/// the epoch: the one with the smaller count comes first, and the span
/// between two is the difference of their counts.
pub proof fn lemma_plain_instants_go_by_the_count(later: Instant, earlier: Instant)
    requires
        !later.in_leap_second(),
        !earlier.in_leap_second(),
    ensures
        earlier.precedes(later) <==> earlier.nanos_since_epoch() < later.nanos_since_epoch(),
        span_nanos(later, earlier) == later.nanos_since_epoch() - earlier.nanos_since_epoch(),
{
}

/// Of two instants that differ, exactly one lies before the other; and
/// what lies before an instant lies before all that comes after it.
pub proof fn lemma_instants_are_in_line(a: Instant, b: Instant, c: Instant)
    ensures
        !a.precedes(a),
        a != b ==> (a.precedes(b) <==> !b.precedes(a)),
        a.precedes(b) && b.precedes(c) ==> a.precedes(c),
{
}

/// Why `chrono` rejected a text. The library hands the value on unread.
#[verifier::external_type_specification]
#[verifier::external_body]
pub struct ExParseError(chrono::format::ParseError);

/// The seconds since the Unix epoch and the nanoseconds after them that
/// `chrono` reads from an RFC 3339 date-and-time text, or `None` where it
/// rejects the text.
pub uninterp spec fn rfc3339_reading(text: Seq<char>) -> Option<(i64, u32)>;

/// Calls `chrono::DateTime::parse_from_rfc3339` and hands back, for an
/// accepted text, the result's `timestamp()` and `timestamp_subsec_nanos()`.
/// The contract claims only that the outcome is determined by the text: it
/// is the one that `rfc3339_reading` names. Nothing is claimed about which
/// texts are accepted or which instant a text denotes.
#[verifier::external_body]
fn parse_rfc3339(text: &str) -> (parsed: Result<Instant, chrono::format::ParseError>)
    ensures
        rfc3339_reading(text@) == match parsed {
            Ok(t) => Some((t.secs, t.nanos)),
            Err(_) => None::<(i64, u32)>,
        },
{
    match chrono::DateTime::parse_from_rfc3339(text) {
        Ok(at) => Ok(Instant { secs: at.timestamp(), nanos: at.timestamp_subsec_nanos() }),
        Err(e) => Err(e),
    }
}

/// What reading a timestamp text gives: the instant that the text denotes,
/// or `MalformedTimestamp` where it denotes none.
pub open spec fn instant_reading(text: Seq<char>) -> Result<Instant, RunError> {
    match rfc3339_reading(text) {
        Some((secs, nanos)) => Ok(Instant { secs, nanos }),
        None => Err(RunError::MalformedTimestamp),
    }
}

/// Reads an RFC 3339 timestamp such as `2023-04-01T10:05:00+09:00`.
pub fn read_instant(text: &str) -> (read: Result<Instant, RunError>)
    ensures
        read == instant_reading(text@),
{
    match parse_rfc3339(text) {
        Ok(t) => Ok(t),
        Err(_) => Err(RunError::MalformedTimestamp),
    }
}

/// The time during which a stream was live. `start` lies strictly before
/// `end`.
#[derive(Clone, Copy, Debug)]
pub struct TimeInterval {
    start: Instant,
    end: Instant,
}

impl TimeInterval {
    #[verifier::type_invariant]
    spec fn ordered(self) -> bool {
        self.start.precedes(self.end)
    }

    /// The instant at which the interval opens.
    pub closed spec fn opens(self) -> Instant {
        self.start
    }

    /// The instant at which the interval closes.
    pub closed spec fn closes(self) -> Instant {
        self.end
    }

    /// Whether `t` lies strictly inside the interval: an instant on either
    /// boundary is outside.
    pub open spec fn encloses(self, t: Instant) -> bool {
        self.opens().precedes(t) && t.precedes(self.closes())
    }

    /// The interval from `start` to `end`, if `start` comes first.
    pub fn new(start: Instant, end: Instant) -> (interval: Option<TimeInterval>)
        ensures
            interval is Some <==> start.precedes(end),
            interval matches Some(i) ==> i.opens() == start && i.closes() == end,
    {
        if start.is_before(&end) {
            Some(TimeInterval { start, end })
        } else {
            None
        }
    }

    /// The instant at which the interval opens.
    pub fn start(&self) -> (t: Instant)
        ensures
            t == self.opens(),
            t.precedes(self.closes()),
    {
        proof {
            use_type_invariant(self);
        }
        self.start
    }

    /// The instant at which the interval closes.
    pub fn end(&self) -> (t: Instant)
        ensures
            t == self.closes(),
            self.opens().precedes(t),
    {
        proof {
            use_type_invariant(self);
        }
        self.end
    }

    /// Whether `t` lies strictly inside the interval.
    pub fn contains(&self, t: &Instant) -> (inside: bool)
        ensures
            inside == self.encloses(*t),
    {
        self.start.is_before(t) && t.is_before(&self.end)
    }
}

} // verus!
