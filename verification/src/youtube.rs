//! What the video platform says of a stream, and how a stream is named.

use crate::error::RunError;
use crate::text::{chars_of, contains_text, find_text};
use vstd::prelude::*;

verus! {

/// The list of videos that answers a query by id.
#[derive(Debug, Clone)]
pub struct YouTubeDataList {
    pub kind: String,
    pub etag: String,
    pub items: Vec<Item>,
    pub page_info: PageInfo,
}

/// One video of the list.
#[derive(Debug, Clone)]
pub struct Item {
    pub kind: String,
    pub etag: String,
    pub id: String,
    pub live_streaming_details: LiveStreamingDetails,
}

/// When a stream was live, as RFC 3339 texts.
#[derive(Debug, Clone)]
pub struct LiveStreamingDetails {
    pub actual_start_time: String,
    pub actual_end_time: String,
    pub scheduled_start_time: String,
}

/// How many videos the query found.
#[derive(Debug, Clone, Copy)]
pub struct PageInfo {
    pub total_results: i64,
    pub results_per_page: i64,
}

impl YouTubeDataList {
    /// The video that the query was for: the first of the list. An empty
    /// list means that the id names no stream.
    pub fn first_item(&self) -> (found: Result<&Item, RunError>)
        ensures
            self.items@.len() == 0 ==> found == Err::<&Item, RunError>(RunError::NotFound),
            self.items@.len() > 0 ==> found == Ok::<&Item, RunError>(&self.items@[0]),
    {
        if self.items.len() == 0 {
            Err(RunError::NotFound)
        } else {
            Ok(&self.items[0])
        }
    }
}

/// What follows the last `mark` in `text`; all of `text` where it holds no
/// `mark`.
pub open spec fn after_last(text: Seq<char>, mark: char) -> Seq<char>
    decreases text.len(),
{
    if text.len() == 0 {
        text
    } else if text.last() == mark {
        Seq::empty()
    } else {
        after_last(text.drop_last(), mark).push(text.last())
    }
}

/// The id of the stream that `address` names. The address of a watch page
/// gives what follows its last `=`, the address of a live page what follows
/// its last `/`; anything else is taken to be the id itself.
pub open spec fn video_id_of(address: Seq<char>) -> Seq<char> {
    if contains_text(address, "youtube.com/watch"@) {
        after_last(address, '=')
    } else if contains_text(address, "youtube.com/live"@) {
        after_last(address, '/')
    } else {
        address
    }
}

proof fn lemma_after_last_is_tail(text: Seq<char>, mark: char, from: int)
    requires
        0 <= from <= text.len(),
        from > 0 ==> text[from - 1] == mark,
        forall|i: int| from <= i < text.len() ==> text[i] != mark,
    ensures
        after_last(text, mark) == text.skip(from),
    decreases text.len() - from,
{
    if from == text.len() {
        assert(text.skip(from) =~= Seq::empty());
    } else {
        let shorter = text.drop_last();
        lemma_after_last_is_tail(shorter, mark, from);
        assert(text.skip(from) =~= shorter.skip(from).push(text.last()));
    }
}

/// What follows the last `mark` in `text`.
fn tail_after<'a>(text: &'a str, chars: &Vec<char>, mark: char) -> (tail: &'a str)
    requires
        chars@ == text@,
    ensures
        tail@ == after_last(text@, mark),
{
    let mut from: usize = chars.len();
    while from > 0 && chars[from - 1] != mark
        invariant
            0 <= from <= chars.len(),
            forall|i: int| from <= i < chars.len() ==> chars[i] != mark,
        decreases from,
    {
        from = from - 1;
    }
    proof {
        lemma_after_last_is_tail(text@, mark, from as int);
    }
    text.substring_char(from, chars.len())
}

/// The id of the stream that `address` names, be it the address of a watch
/// page, the address of a live page or the id itself.
pub fn video_id(address: &str) -> (id: String)
    ensures
        id@ == video_id_of(address@),
{
    let chars = chars_of(address);
    let watch = chars_of("youtube.com/watch");
    let live = chars_of("youtube.com/live");
    let id = if find_text(&chars, &watch).is_some() {
        tail_after(address, &chars, '=')
    } else if find_text(&chars, &live).is_some() {
        tail_after(address, &chars, '/')
    } else {
        address
    };
    String::from_str(id)
}

} // verus!
