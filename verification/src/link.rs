//! The timestamp-link builder: for a matched record, the link that opens the
//! stream's video at the moment the record started.

use crate::instant::{span_nanos, whole_seconds, Instant};
use crate::record::{Stamped, Timestamped};
use crate::text::{decimal, lemma_decimal_is_injective, push_decimal};
use vstd::prelude::*;

verus! {

/// The kind of record that an update is for.
#[derive(Clone, Copy, Debug, PartialEq, Eq)]
pub enum UpdateKind {
    /// A battle.
    Match,
    /// A Salmon Run shift.
    Run,
}

/// A link to be written to one record of the record store.
#[derive(Debug, Clone, PartialEq, Eq)]
pub struct LinkedUpdate {
    pub record_id: String,
    pub kind: UpdateKind,
    pub link: String,
}

/// A `LinkedUpdate` with its texts as sequences of characters.
pub struct LinkedUpdateView {
    pub record_id: Seq<char>,
    pub kind: UpdateKind,
    pub link: Seq<char>,
}

impl View for LinkedUpdate {
    type V = LinkedUpdateView;

    open spec fn view(&self) -> LinkedUpdateView {
        LinkedUpdateView { record_id: self.record_id@, kind: self.kind, link: self.link@ }
    }
}

impl LinkedUpdate {
    /// A copy of the update with texts of its own.
    pub fn duplicate(&self) -> (copy: LinkedUpdate)
        ensures
            copy@ == self@,
    {
        LinkedUpdate {
            record_id: self.record_id.clone(),
            kind: self.kind,
            link: self.link.clone(),
        }
    }
}

/// The position in the video, in seconds, at which a record started: the
/// whole seconds from the stream's start to the record's start, plus the
/// offset that the user asked for. It may be negative.
pub open spec fn link_seconds(interval_start: Instant, record_start: Instant, offset: int) -> int {
    whole_seconds(span_nanos(record_start, interval_start)) + offset
}

/// The link that opens the video `video_id` at `seconds`.
pub open spec fn link_text(video_id: Seq<char>, seconds: int) -> Seq<char> {
    "https://youtube.com/watch?v="@ + video_id + "&t="@ + decimal(seconds) + "s"@
}

/// The link into the video `video_id` for a record that started at
/// `record_start`, the stream having started at `interval_start`.
pub fn build_link(
    video_id: &str,
    interval_start: &Instant,
    record_start: &Instant,
    offset_seconds: i64,
) -> (link: String)
    ensures
        link@ == link_text(
            video_id@,
            link_seconds(*interval_start, *record_start, offset_seconds as int),
        ),
{
    let seconds: i128 = record_start.seconds_since(interval_start) + (offset_seconds as i128);
    let mut link = String::from_str("https://youtube.com/watch?v=");
    link.append(video_id);
    link.append("&t=");
    push_decimal(&mut link, seconds);
    link.append("s");
    link
}

/// The link moves with the offset, second for second: one second more of
/// offset gives the link of one second later.
pub proof fn lemma_link_follows_offset(
    video_id: Seq<char>,
    interval_start: Instant,
    record_start: Instant,
    offset: int,
)
    ensures
        link_seconds(interval_start, record_start, offset + 1) == link_seconds(
            interval_start,
            record_start,
            offset,
        ) + 1,
        link_text(video_id, link_seconds(interval_start, record_start, offset + 1)) == link_text(
            video_id,
            link_seconds(interval_start, record_start, offset) + 1,
        ),
{
}

/// A link names its second: two links into the same video are the same
/// text only if they open it at the same second.
pub proof fn lemma_link_names_its_second(video_id: Seq<char>, a: int, b: int)
    requires
        link_text(video_id, a) == link_text(video_id, b),
    ensures
        a == b,
{
    let head = "https://youtube.com/watch?v="@ + video_id + "&t="@;
    let tail = "s"@;
    let left = decimal(a);
    let right = decimal(b);
    assert(link_text(video_id, a) == head + left + tail);
    assert(link_text(video_id, b) == head + right + tail);
    assert((head + left + tail).len() == head.len() + left.len() + tail.len());
    assert((head + right + tail).len() == head.len() + right.len() + tail.len());
    assert(left.len() == right.len());
    assert forall|i: int| 0 <= i < left.len() implies left[i] == right[i] by {
        assert((head + left + tail)[head.len() + i] == left[i]);
        assert((head + right + tail)[head.len() + i] == right[i]);
    }
    assert(left =~= right);
    lemma_decimal_is_injective(a, b);
}

/// The update that carries a matched record's link.
pub open spec fn update_for<'a, R: Timestamped>(
    video_id: Seq<char>,
    interval_start: Instant,
    offset: int,
    kind: UpdateKind,
    matched: Stamped<'a, R>,
) -> LinkedUpdateView {
    LinkedUpdateView {
        record_id: matched.record.id_text(),
        kind,
        link: link_text(video_id, link_seconds(interval_start, matched.start, offset)),
    }
}

/// The updates for the matched records: one for each record, in the
/// records' order.
pub open spec fn linking<'a, R: Timestamped>(
    video_id: Seq<char>,
    interval_start: Instant,
    offset: int,
    kind: UpdateKind,
    matched: Seq<Stamped<'a, R>>,
) -> Seq<LinkedUpdateView> {
    matched.map_values(
        |one: Stamped<'a, R>| update_for(video_id, interval_start, offset, kind, one),
    )
}

/// The views of a sequence of updates.
pub open spec fn update_views(updates: Seq<LinkedUpdate>) -> Seq<LinkedUpdateView> {
    updates.map_values(|update: LinkedUpdate| update@)
}

/// One update for each matched record, in the records' order.
pub fn link_updates<'a, R: Timestamped>(
    video_id: &str,
    interval_start: &Instant,
    offset_seconds: i64,
    kind: UpdateKind,
    matched: &Vec<Stamped<'a, R>>,
) -> (updates: Vec<LinkedUpdate>)
    ensures
        update_views(updates@) == linking(
            video_id@,
            *interval_start,
            offset_seconds as int,
            kind,
            matched@,
        ),
{
    let mut updates: Vec<LinkedUpdate> = Vec::new();
    let mut i: usize = 0;
    while i < matched.len()
        invariant
            0 <= i <= matched.len(),
            updates@.len() == i,
            update_views(updates@) == linking(
                video_id@,
                *interval_start,
                offset_seconds as int,
                kind,
                matched@.take(i as int),
            ),
        decreases matched.len() - i,
    {
        let record_id = String::from_str(matched[i].record.record_id());
        let link = build_link(video_id, interval_start, &matched[i].start, offset_seconds);
        let ghost before = updates@;
        updates.push(LinkedUpdate { record_id, kind, link });
        proof {
            let shorter = linking(
                video_id@,
                *interval_start,
                offset_seconds as int,
                kind,
                matched@.take(i as int),
            );
            let longer = linking(
                video_id@,
                *interval_start,
                offset_seconds as int,
                kind,
                matched@.take(i + 1),
            );
            assert forall|k: int| 0 <= k < longer.len() implies update_views(updates@)[k]
                == longer[k] by {
                if k < i {
                    assert(update_views(before)[k] == shorter[k]);
                    assert(matched@.take(i as int)[k] == matched@.take(i + 1)[k]);
                }
            }
            assert(update_views(updates@) =~= longer);
        }
        i = i + 1;
    }
    assert(matched@.take(i as int) == matched@);
    updates
}

} // verus!
