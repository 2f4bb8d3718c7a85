//! The summary builder: the header and one line for each matched shift,
//! filed by the shift's place in the stream and put out in that order.

use crate::instant::Instant;
use crate::keys::{lemma_keys_are_ordered, lemma_walk_is_rising, obeys_key_order};
use crate::line::{line_text, order_key, render_line};
use crate::record::Stamped;
use crate::salmon::{RunRecord, TideTable};
use std::collections::BTreeMap;
use vstd::prelude::*;
use vstd::std_specs::btree::increasing_seq;
use vstd::std_specs::iter::IteratorSpec;

verus! {

/// The line that opens every summary.
pub open spec fn header_text() -> Seq<char> {
    "00:00:00 Warming up..."@
}

/// The lines of a summary by their keys. The header stands under key 0;
/// then each shift's line is filed under the shift's key, in the order in
/// which the shifts were given, a later line replacing an earlier one under
/// the same key.
pub open spec fn timeline<'a>(
    runs: Seq<Stamped<'a, RunRecord>>,
    interval_start: Instant,
    offset: int,
    table: TideTable,
) -> Map<int, Seq<char>>
    decreases runs.len(),
{
    if runs.len() == 0 {
        Map::empty().insert(0int, header_text())
    } else {
        let run = runs.last();
        let key = order_key(interval_start, run.start, offset);
        timeline(runs.drop_last(), interval_start, offset, table).insert(
            key,
            line_text(run.record@, key, table),
        )
    }
}

/// Whether each key is smaller than the one after it.
pub open spec fn ascending(keys: Seq<int>) -> bool {
    forall|i: int, j: int| 0 <= i < j < keys.len() ==> keys[i] < keys[j]
}

/// Whether `keys` lists the members of `domain`, smallest first.
pub open spec fn enumerates(keys: Seq<int>, domain: Set<int>) -> bool {
    ascending(keys) && keys.to_set() == domain
}

/// The members of a finite set of keys, smallest first.
pub open spec fn ascending_keys(domain: Set<int>) -> Seq<int> {
    choose|keys: Seq<int>| enumerates(keys, domain)
}

/// The lines of a timeline in the order of their keys.
pub open spec fn summary_lines(lines: Map<int, Seq<char>>) -> Seq<Seq<char>> {
    ascending_keys(lines.dom()).map_values(|key: int| lines[key])
}

/// Lines put together with a line break between one and the next.
pub open spec fn joined(lines: Seq<Seq<char>>) -> Seq<char>
    decreases lines.len(),
{
    if lines.len() == 0 {
        Seq::empty()
    } else if lines.len() == 1 {
        lines[0]
    } else {
        joined(lines.drop_last()) + "\n"@ + lines.last()
    }
}

/// The text of a summary: the lines of the timeline in the order of their
/// keys, one to a line.
pub open spec fn summary_text(lines: Map<int, Seq<char>>) -> Seq<char> {
    joined(summary_lines(lines))
}

/// What a map of lines holds, with keys as integers and lines as sequences
/// of characters.
pub open spec fn texts_of(lines: Map<i128, String>) -> Map<int, Seq<char>> {
    Map::new(
        |key: int| i128::MIN <= key <= i128::MAX && lines.contains_key(key as i128),
        |key: int| lines[key as i128]@,
    )
}

/// The lines of the matched shifts by their keys, under the header.
pub fn build_timeline<'a>(
    runs: &Vec<Stamped<'a, RunRecord>>,
    interval_start: &Instant,
    offset_seconds: i64,
    table: &TideTable,
) -> (lines: BTreeMap<i128, String>)
    ensures
        texts_of(lines@) == timeline(runs@, *interval_start, offset_seconds as int, *table),
{
    proof {
        lemma_keys_are_ordered();
    }
    let mut lines: BTreeMap<i128, String> = BTreeMap::new();
    lines.insert(0, String::from_str("00:00:00 Warming up..."));
    assert(texts_of(lines@) =~= Map::empty().insert(0int, header_text()));
    let mut i: usize = 0;
    while i < runs.len()
        invariant
            0 <= i <= runs.len(),
            obeys_key_order(),
            texts_of(lines@) == timeline(
                runs@.take(i as int),
                *interval_start,
                offset_seconds as int,
                *table,
            ),
        decreases runs.len() - i,
    {
        let line = render_line(&runs[i], interval_start, offset_seconds, table);
        let ghost before = lines@;
        let ghost key = line.order_key;
        let ghost text = line.text@;
        lines.insert(line.order_key, line.text);
        proof {
            assert(texts_of(lines@) =~= texts_of(before).insert(key as int, text));
            assert(runs@.take(i + 1).drop_last() == runs@.take(i as int));
        }
        i = i + 1;
    }
    assert(runs@.take(i as int) == runs@);
    lines
}

/// Two ascending listings of the same set of keys are the same listing.
pub proof fn lemma_enumeration_is_unique(a: Seq<int>, b: Seq<int>)
    requires
        ascending(a),
        ascending(b),
        a.to_set() == b.to_set(),
    ensures
        a == b,
    decreases a.len(),
{
    if a.len() == 0 {
        if b.len() > 0 {
            assert(b.to_set().contains(b[0]));
            assert(a.to_set().contains(b[0]));
        }
        assert(a =~= b);
    } else {
        assert(a.to_set().contains(a.last()));
        assert(b.to_set().contains(a.last()));
        assert(b.len() > 0);
        assert(b.to_set().contains(b.last()));
        assert(a.to_set().contains(b.last()));
        let i = choose|i: int| 0 <= i < a.len() && a[i] == b.last();
        let j = choose|j: int| 0 <= j < b.len() && b[j] == a.last();
        assert(a.last() == b.last());
        let a0 = a.drop_last();
        let b0 = b.drop_last();
        assert forall|k: int| a0.to_set().contains(k) <==> b0.to_set().contains(k) by {
            if a0.to_set().contains(k) {
                let p = choose|p: int| 0 <= p < a0.len() && a0[p] == k;
                assert(a[p] == k);
                assert(a.to_set().contains(k));
                assert(b.to_set().contains(k));
                let q = choose|q: int| 0 <= q < b.len() && b[q] == k;
                assert(q < b.len() - 1);
                assert(b0[q] == k);
            }
            if b0.to_set().contains(k) {
                let q = choose|q: int| 0 <= q < b0.len() && b0[q] == k;
                assert(b[q] == k);
                assert(b.to_set().contains(k));
                assert(a.to_set().contains(k));
                let p = choose|p: int| 0 <= p < a.len() && a[p] == k;
                assert(p < a.len() - 1);
                assert(a0[p] == k);
            }
        }
        assert(a0.to_set() =~= b0.to_set());
        lemma_enumeration_is_unique(a0, b0);
        assert(a =~= a0.push(a.last()));
        assert(b =~= b0.push(b.last()));
    }
}

/// `keys` with `key` put in at its place.
pub open spec fn inserted(keys: Seq<int>, key: int) -> Seq<int>
    decreases keys.len(),
{
    if keys.len() == 0 {
        seq![key]
    } else if keys.last() < key {
        keys.push(key)
    } else {
        inserted(keys.drop_last(), key).push(keys.last())
    }
}

proof fn lemma_inserted(keys: Seq<int>, key: int)
    requires
        ascending(keys),
        !keys.contains(key),
    ensures
        ascending(inserted(keys, key)),
        inserted(keys, key).len() == keys.len() + 1,
        inserted(keys, key).to_set() == keys.to_set().insert(key),
    decreases keys.len(),
{
    let longer = inserted(keys, key);
    if keys.len() == 0 {
        assert(longer.to_set() =~= keys.to_set().insert(key)) by {
            assert(longer[0] == key);
            assert forall|k: int| keys.to_set().insert(key).contains(k) implies longer.to_set().contains(
                k,
            ) by {
                assert(longer[0] == k);
            }
        }
    } else if keys.last() < key {
        assert(longer.to_set() =~= keys.to_set().insert(key)) by {
            assert forall|k: int| longer.to_set().contains(k) implies keys.to_set().insert(
                key,
            ).contains(k) by {
                let i = choose|i: int| 0 <= i < longer.len() && longer[i] == k;
                if i < keys.len() {
                    assert(keys[i] == k);
                }
            }
            assert forall|k: int| keys.to_set().insert(key).contains(k) implies longer.to_set().contains(
                k,
            ) by {
                if k == key {
                    assert(longer[keys.len() as int] == k);
                } else {
                    let i = choose|i: int| 0 <= i < keys.len() && keys[i] == k;
                    assert(longer[i] == k);
                }
            }
        }
    } else {
        let front = keys.drop_last();
        let top = keys.last();
        assert(keys[keys.len() - 1] == top);
        assert(top != key);
        assert(!front.contains(key)) by {
            if front.contains(key) {
                let i = choose|i: int| 0 <= i < front.len() && front[i] == key;
                assert(keys[i] == key);
            }
        }
        lemma_inserted(front, key);
        let grown = inserted(front, key);
        assert forall|i: int| 0 <= i < grown.len() implies grown[i] < top by {
            assert(grown.to_set().contains(grown[i]));
            assert(front.to_set().insert(key).contains(grown[i]));
            if grown[i] != key {
                let j = choose|j: int| 0 <= j < front.len() && front[j] == grown[i];
                assert(keys[j] < keys[keys.len() - 1]);
            }
        }
        assert(longer.to_set() =~= keys.to_set().insert(key)) by {
            assert forall|k: int| longer.to_set().contains(k) implies keys.to_set().insert(
                key,
            ).contains(k) by {
                let i = choose|i: int| 0 <= i < longer.len() && longer[i] == k;
                if i < grown.len() {
                    assert(grown.to_set().contains(grown[i]));
                    if k != key {
                        let j = choose|j: int| 0 <= j < front.len() && front[j] == k;
                        assert(keys[j] == k);
                    }
                } else {
                    assert(keys[keys.len() - 1] == k);
                }
            }
            assert forall|k: int| keys.to_set().insert(key).contains(k) implies longer.to_set().contains(
                k,
            ) by {
                if k == top {
                    assert(longer[grown.len() as int] == k);
                } else {
                    assert(front.to_set().insert(key).contains(k)) by {
                        if k != key {
                            let j = choose|j: int| 0 <= j < keys.len() && keys[j] == k;
                            assert(front[j] == k);
                        }
                    }
                    assert(grown.to_set().contains(k));
                    let i = choose|i: int| 0 <= i < grown.len() && grown[i] == k;
                    assert(longer[i] == k);
                }
            }
        }
    }
}

/// The members of a finite set of keys can be listed smallest first, and
/// `ascending_keys` is that listing.
pub proof fn lemma_ascending_keys_enumerate(domain: Set<int>)
    requires
        domain.finite(),
    ensures
        enumerates(ascending_keys(domain), domain),
    decreases domain.len(),
{
    if domain.len() == 0 {
        let none = Seq::<int>::empty();
        assert(none.to_set() =~= domain);
        assert(enumerates(none, domain));
    } else {
        let key = domain.choose();
        let rest = domain.remove(key);
        lemma_ascending_keys_enumerate(rest);
        let listing = ascending_keys(rest);
        assert(!listing.contains(key)) by {
            if listing.contains(key) {
                assert(listing.to_set().contains(key));
            }
        }
        lemma_inserted(listing, key);
        assert(rest.insert(key) =~= domain);
        assert(enumerates(inserted(listing, key), domain));
    }
}

/// The keys of a timeline are finitely many: 0, under which the header
/// stands unless a shift has taken its place, and the key of every shift.
pub proof fn lemma_timeline_keys<'a>(
    runs: Seq<Stamped<'a, RunRecord>>,
    interval_start: Instant,
    offset: int,
    table: TideTable,
)
    ensures
        timeline(runs, interval_start, offset, table).dom().finite(),
        forall|key: int|
            timeline(runs, interval_start, offset, table).contains_key(key) <==> key == 0
                || exists|i: int|
                0 <= i < runs.len() && key == order_key(
                    interval_start,
                    #[trigger] runs[i].start,
                    offset,
                ),
    decreases runs.len(),
{
    let lines = timeline(runs, interval_start, offset, table);
    if runs.len() > 0 {
        let front = runs.drop_last();
        lemma_timeline_keys(front, interval_start, offset, table);
        let earlier = timeline(front, interval_start, offset, table);
        let last_key = order_key(interval_start, runs.last().start, offset);
        assert forall|key: int| lines.contains_key(key) <==> key == 0 || exists|i: int|
            0 <= i < runs.len() && key == order_key(
                interval_start,
                #[trigger] runs[i].start,
                offset,
            ) by {
            if lines.contains_key(key) && key != 0 {
                if key == last_key {
                    assert(key == order_key(interval_start, runs[runs.len() - 1].start, offset));
                } else {
                    assert(earlier.contains_key(key));
                    let i = choose|i: int|
                        0 <= i < front.len() && key == order_key(
                            interval_start,
                            #[trigger] front[i].start,
                            offset,
                        );
                    assert(key == order_key(interval_start, runs[i].start, offset));
                }
            }
            if exists|i: int|
                0 <= i < runs.len() && key == order_key(
                    interval_start,
                    #[trigger] runs[i].start,
                    offset,
                ) {
                let i = choose|i: int|
                    0 <= i < runs.len() && key == order_key(
                        interval_start,
                        #[trigger] runs[i].start,
                        offset,
                    );
                if i < front.len() {
                    assert(key == order_key(interval_start, front[i].start, offset));
                    assert(earlier.contains_key(key));
                }
            }
        }
    }
}

/// The lines of a summary stand in the order of their keys, each key
/// smaller than the next, and every key of the timeline has its one line.
pub proof fn lemma_summary_is_ascending<'a>(
    runs: Seq<Stamped<'a, RunRecord>>,
    interval_start: Instant,
    offset: int,
    table: TideTable,
)
    ensures
        ({
            let lines = timeline(runs, interval_start, offset, table);
            let keys = ascending_keys(lines.dom());
            &&& ascending(keys)
            &&& keys.to_set() == lines.dom()
            &&& summary_lines(lines).len() == keys.len()
            &&& forall|i: int|
                0 <= i < keys.len() ==> #[trigger] summary_lines(lines)[i] == lines[keys[i]]
        }),
{
    lemma_timeline_keys(runs, interval_start, offset, table);
    lemma_ascending_keys_enumerate(timeline(runs, interval_start, offset, table).dom());
}

/// Of the shifts that share a key, the one that was given last has its line
/// in the summary: a shift's line stands under the shift's key unless a
/// later shift has the same key.
pub proof fn lemma_last_shift_under_a_key_wins<'a>(
    runs: Seq<Stamped<'a, RunRecord>>,
    interval_start: Instant,
    offset: int,
    table: TideTable,
    at: int,
)
    requires
        0 <= at < runs.len(),
        forall|later: int|
            at < later < runs.len() ==> order_key(interval_start, #[trigger] runs[later].start, offset)
                != order_key(interval_start, runs[at].start, offset),
    ensures
        ({
            let key = order_key(interval_start, runs[at].start, offset);
            let lines = timeline(runs, interval_start, offset, table);
            lines.contains_key(key) && lines[key] == line_text(runs[at].record@, key, table)
        }),
    decreases runs.len(),
{
    if at < runs.len() - 1 {
        let front = runs.drop_last();
        assert(front[at] == runs[at]);
        assert forall|later: int| at < later < front.len() implies order_key(
            interval_start,
            #[trigger] front[later].start,
            offset,
        ) != order_key(interval_start, front[at].start, offset) by {
            assert(front[later] == runs[later]);
        }
        lemma_last_shift_under_a_key_wins(front, interval_start, offset, table, at);
        assert(runs.last() == runs[runs.len() - 1]);
    }
}

/// The header keeps its place under the key 0 unless a shift has that key.
pub proof fn lemma_header_stays<'a>(
    runs: Seq<Stamped<'a, RunRecord>>,
    interval_start: Instant,
    offset: int,
    table: TideTable,
)
    requires
        forall|i: int|
            0 <= i < runs.len() ==> order_key(interval_start, #[trigger] runs[i].start, offset) != 0,
    ensures
        timeline(runs, interval_start, offset, table).contains_key(0),
        timeline(runs, interval_start, offset, table)[0] == header_text(),
    decreases runs.len(),
{
    if runs.len() > 0 {
        let front = runs.drop_last();
        assert forall|i: int| 0 <= i < front.len() implies order_key(
            interval_start,
            #[trigger] front[i].start,
            offset,
        ) != 0 by {
            assert(front[i] == runs[i]);
        }
        lemma_header_stays(front, interval_start, offset, table);
        assert(runs.last() == runs[runs.len() - 1]);
    }
}

/// The summary of a stream without matched shifts is the header alone.
pub proof fn lemma_summary_without_shifts_is_header(
    interval_start: Instant,
    offset: int,
    table: TideTable,
)
    ensures
        summary_text(
            timeline(Seq::<Stamped<RunRecord>>::empty(), interval_start, offset, table),
        ) == header_text(),
{
    let lines = timeline(Seq::<Stamped<RunRecord>>::empty(), interval_start, offset, table);
    let only = seq![0int];
    assert(only.to_set() =~= lines.dom()) by {
        assert(only[0] == 0);
    }
    assert(enumerates(only, lines.dom()));
    lemma_enumeration_is_unique(ascending_keys(lines.dom()), only);
    assert(summary_lines(lines) =~= seq![header_text()]);
}

/// The text of the lines that a map holds, in the order of their keys, one
/// to a line.
pub fn join_lines(lines: &BTreeMap<i128, String>) -> (text: String)
    ensures
        text@ == summary_text(texts_of(lines@)),
{
    proof {
        lemma_keys_are_ordered();
    }
    let ghost entries = lines.iter().remaining();
    let ghost keys = entries.map_values(|entry: (&i128, &String)| *entry.0);
    let ghost texts = entries.map_values(|entry: (&i128, &String)| entry.1@);
    let mut text = String::new();
    let mut first = true;
    for entry in walk: lines.iter()
        invariant
            walk.seq() == entries,
            keys == entries.map_values(|entry: (&i128, &String)| *entry.0),
            texts == entries.map_values(|entry: (&i128, &String)| entry.1@),
            increasing_seq(keys),
            first == (walk.index() == 0),
            text@ == joined(texts.take(walk.index())),
    {
        proof {
            let n = walk.index();
            assert(texts.take(n + 1).drop_last() == texts.take(n));
            assert(texts.take(n + 1).last() == texts[n]);
        }
        if first {
            first = false;
        } else {
            text.append("\n");
        }
        text.append(entry.1.as_str());
    }
    proof {
        assert(texts.take(texts.len() as int) == texts);
        lemma_walk_is_rising(keys);
        let held = texts_of(lines@);
        let listing = keys.map_values(|key: i128| key as int);
        assert forall|k: int| held.dom().contains(k) implies listing.to_set().contains(k) by {
            let key = k as i128;
            assert(entries.contains((&key, &lines@[key])));
            let i = choose|i: int| 0 <= i < entries.len() && entries[i] == (&key, &lines@[key]);
            assert(listing[i] == k);
        }
        assert forall|k: int| listing.to_set().contains(k) implies held.dom().contains(k) by {
            let i = choose|i: int| 0 <= i < listing.len() && listing[i] == k;
            assert(lines@.contains_key(*entries[i].0));
        }
        assert(listing.to_set() =~= held.dom());
        assert(enumerates(listing, held.dom()));
        lemma_enumeration_is_unique(ascending_keys(held.dom()), listing);
        assert forall|i: int| 0 <= i < listing.len() implies held[listing[i]] == texts[i] by {
            assert(lines@.contains_key(*entries[i].0));
        }
        assert(summary_lines(held) =~= texts);
    }
    text
}

/// The summary of a stream: the header, then one line for each matched
/// shift, in the order of the shifts' keys.
pub fn build_summary<'a>(
    runs: &Vec<Stamped<'a, RunRecord>>,
    interval_start: &Instant,
    offset_seconds: i64,
    table: &TideTable,
) -> (text: String)
    ensures
        text@ == summary_text(timeline(runs@, *interval_start, offset_seconds as int, *table)),
{
    let lines = build_timeline(runs, interval_start, offset_seconds, table);
    join_lines(&lines)
}

} // verus!
