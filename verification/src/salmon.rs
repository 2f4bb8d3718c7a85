//! Salmon Run shifts as the record store lists them, and the table that
//! abbreviates their tides.

use crate::battle::Time;
use crate::record::Timestamped;
use crate::text::text_equals;
use vstd::prelude::*;

verus! {

/// One wave of a shift.
#[derive(Debug, Clone)]
pub struct WaveRecord {
    /// The key of the wave's water level.
    pub tide_key: String,
    /// Golden eggs delivered in the wave.
    pub golden_delivered: i64,
    /// The key of the wave's special event, if it had one.
    pub event_key: Option<String>,
}

/// A `WaveRecord` with its texts as sequences of characters.
pub struct WaveView {
    pub tide_key: Seq<char>,
    pub golden_delivered: int,
    pub event_key: Option<Seq<char>>,
}

impl View for WaveRecord {
    type V = WaveView;

    open spec fn view(&self) -> WaveView {
        WaveView {
            tide_key: self.tide_key@,
            golden_delivered: self.golden_delivered as int,
            event_key: match self.event_key {
                Some(key) => Some(key@),
                None => None,
            },
        }
    }
}

/// One Salmon Run shift of the player's log. The waves stand in the order
/// in which they were played.
#[derive(Debug, Clone)]
pub struct RunRecord {
    pub id: String,
    pub start_at: Time,
    /// The hazard level in percent, where the record store knows it.
    pub danger_rate: Option<i64>,
    pub golden_eggs: i64,
    pub waves: Vec<WaveRecord>,
}

/// A `RunRecord` with its texts as sequences of characters.
pub struct RunView {
    pub id: Seq<char>,
    pub start_text: Seq<char>,
    pub danger_rate: Option<int>,
    pub golden_eggs: int,
    pub waves: Seq<WaveView>,
}

impl View for RunRecord {
    type V = RunView;

    open spec fn view(&self) -> RunView {
        RunView {
            id: self.id@,
            start_text: self.start_at.iso8601@,
            danger_rate: match self.danger_rate {
                Some(rate) => Some(rate as int),
                None => None,
            },
            golden_eggs: self.golden_eggs as int,
            waves: self.waves@.map_values(|wave: WaveRecord| wave@),
        }
    }
}

impl Timestamped for RunRecord {
    open spec fn id_text(&self) -> Seq<char> {
        self.id@
    }

    open spec fn start_text(&self) -> Seq<char> {
        self.start_at.iso8601@
    }

    fn record_id(&self) -> (id: &str) {
        self.id.as_str()
    }

    fn start_iso8601(&self) -> (text: &str) {
        self.start_at.iso8601.as_str()
    }
}

/// One row of a tide table: a tide key and the short code that stands for
/// it in a summary.
#[derive(Debug, Clone)]
pub struct TideEntry {
    pub key: String,
    pub abbreviation: String,
}

/// The short codes of the tides, and the code for a tide that the table
/// does not list.
#[derive(Debug, Clone)]
pub struct TideTable {
    pub entries: Vec<TideEntry>,
    pub fallback: String,
}

/// The code that the rows from `from` on give to `key`: that of the first
/// row with this key, or `fallback` where no row has it.
pub open spec fn code_among(
    entries: Seq<TideEntry>,
    fallback: Seq<char>,
    key: Seq<char>,
    from: int,
) -> Seq<char>
    decreases entries.len() - from,
{
    if from < 0 || from >= entries.len() {
        fallback
    } else if entries[from].key@ == key {
        entries[from].abbreviation@
    } else {
        code_among(entries, fallback, key, from + 1)
    }
}

impl TideTable {
    /// The code that the table gives to `key`.
    pub open spec fn code_of(&self, key: Seq<char>) -> Seq<char> {
        code_among(self.entries@, self.fallback@, key, 0)
    }

    /// A table without rows, which gives `fallback` to every key.
    pub fn new(fallback: &str) -> (table: TideTable)
        ensures
            table.entries@.len() == 0,
            table.fallback@ == fallback@,
            forall|key: Seq<char>| table.code_of(key) == fallback@,
    {
        TideTable { entries: Vec::new(), fallback: String::from_str(fallback) }
    }

    /// Adds a row after those that the table has. A key that an earlier row
    /// lists keeps the code of that row.
    pub fn add(&mut self, key: &str, abbreviation: &str)
        ensures
            final(self).fallback@ == old(self).fallback@,
            final(self).entries@.len() == old(self).entries@.len() + 1,
            final(self).entries@.drop_last() == old(self).entries@,
            final(self).entries@.last().key@ == key@,
            final(self).entries@.last().abbreviation@ == abbreviation@,
            forall|other: Seq<char>| #[trigger]
                final(self).code_of(other) == if other == key@ && old(self).unlisted(other) {
                    abbreviation@
                } else {
                    old(self).code_of(other)
                },
    {
        let ghost before = self.entries@;
        self.entries.push(
            TideEntry { key: String::from_str(key), abbreviation: String::from_str(abbreviation) },
        );
        proof {
            let after = self.entries@;
            let fallback = self.fallback@;
            assert forall|other: Seq<char>| #[trigger]
                code_among(after, fallback, other, 0) == if other == key@ && unlisted_from(
                    before,
                    other,
                    0,
                ) {
                    abbreviation@
                } else {
                    code_among(before, fallback, other, 0)
                } by {
                lemma_code_after_add(before, after, fallback, other, 0);
            }
        }
    }

    /// Whether no row of the table has `key`.
    pub open spec fn unlisted(&self, key: Seq<char>) -> bool {
        unlisted_from(self.entries@, key, 0)
    }

    /// The short code of the tide `key`: the table's code for it, or the
    /// fallback for a key that the table does not list.
    pub fn abbreviation(&self, key: &str) -> (code: &str)
        ensures
            code@ == self.code_of(key@),
    {
        let mut i: usize = 0;
        while i < self.entries.len()
            invariant
                0 <= i <= self.entries.len(),
                self.code_of(key@) == code_among(self.entries@, self.fallback@, key@, i as int),
            decreases self.entries.len() - i,
        {
            if text_equals(self.entries[i].key.as_str(), key) {
                return self.entries[i].abbreviation.as_str();
            }
            i = i + 1;
        }
        self.fallback.as_str()
    }
}

/// Whether no row from `from` on has `key`.
pub open spec fn unlisted_from(entries: Seq<TideEntry>, key: Seq<char>, from: int) -> bool {
    forall|i: int| from <= i < entries.len() && 0 <= i ==> (#[trigger] entries[i]).key@ != key
}

proof fn lemma_code_after_add(
    before: Seq<TideEntry>,
    after: Seq<TideEntry>,
    fallback: Seq<char>,
    key: Seq<char>,
    from: int,
)
    requires
        0 <= from <= before.len(),
        after.len() == before.len() + 1,
        forall|i: int| 0 <= i < before.len() ==> after[i] == before[i],
    ensures
        code_among(after, fallback, key, from) == if after.last().key@ == key && unlisted_from(
            before,
            key,
            from,
        ) {
            after.last().abbreviation@
        } else {
            code_among(before, fallback, key, from)
        },
    decreases before.len() - from,
{
    if from < before.len() {
        if before[from].key@ == key {
        } else {
            lemma_code_after_add(before, after, fallback, key, from + 1);
        }
    } else {
        assert(code_among(after, fallback, key, from + 1) == fallback);
    }
}

} // verus!
