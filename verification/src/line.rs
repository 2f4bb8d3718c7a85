//! What a summary says of one shift: when it started, how hard it was, how
//! many golden eggs it brought, and how its first waves went.

use crate::instant::{span_nanos, whole_seconds, Instant, NANOS_PER_SECOND};
use crate::record::Stamped;
use crate::salmon::{RunRecord, RunView, TideTable, WaveRecord, WaveView};
use crate::text::{decimal, push_decimal, push_two_digits, text_equals, two_digits};
use vstd::prelude::*;

verus! {

/// `a / b` rounded towards zero, for a positive `b`.
pub open spec fn quotient(a: int, b: int) -> int {
    if a >= 0 {
        a / b
    } else {
        -((-a) / b)
    }
}

/// What `quotient` leaves: `a - quotient(a, b) * b`, which has the sign of
/// `a`.
pub open spec fn remainder(a: int, b: int) -> int {
    if a >= 0 {
        a % b
    } else {
        -((-a) % b)
    }
}

/// A count of seconds as hours, minutes and seconds, each with at least two
/// characters.
pub open spec fn clock_text(seconds: int) -> Seq<char> {
    two_digits(quotient(seconds, 3600)) + ":"@ + two_digits(remainder(quotient(seconds, 60), 60))
        + ":"@ + two_digits(remainder(seconds, 60))
}

/// The key under which a shift's line is filed: the whole seconds from the
/// stream's start to the shift's start moved by the offset.
pub open spec fn order_key(interval_start: Instant, record_start: Instant, offset: int) -> int {
    whole_seconds(span_nanos(record_start, interval_start) + offset * 1_000_000_000)
}

/// What a wave's special event is called in a summary, the tide's code
/// being `tide`. A key that names no known event is called
/// `UNKNOWN EVENT`.
pub open spec fn event_phrase(key: Seq<char>, tide: Seq<char>) -> Seq<char> {
    if key == "tornado"@ {
        "Tornado"@
    } else if key == "rush"@ {
        "Rush"@
    } else if key == "cohock_charge"@ {
        "Cohock"@
    } else if key == "mothership"@ {
        "Mothership"@
    } else if key == "griller"@ {
        "Griller"@
    } else if key == "fog"@ {
        tide + " Fog"@
    } else if key == "goldie_seeking"@ {
        tide + " Seeking"@
    } else if key == "mudmouth_eruption"@ {
        tide + " Mudmouth"@
    } else {
        "UNKNOWN EVENT"@
    }
}

/// What a summary says of one wave: the event's phrase, or the tide's code
/// for a wave without event, then the golden eggs delivered.
pub open spec fn wave_text(wave: WaveView, table: TideTable) -> Seq<char> {
    let tide = table.code_of(wave.tide_key);
    let phrase = match wave.event_key {
        Some(key) => event_phrase(key, tide),
        None => tide,
    };
    phrase + " "@ + decimal(wave.golden_delivered)
}

/// How many waves of a shift a summary shows: the first three at most.
pub open spec fn shown_waves(count: int) -> int {
    if count < 3 {
        count
    } else {
        3
    }
}

/// The first `shown` waves, each as `wave_text` puts it, with `", "`
/// between one and the next.
pub open spec fn waves_text(waves: Seq<WaveView>, table: TideTable, shown: int) -> Seq<char>
    decreases shown,
{
    if shown <= 0 {
        Seq::empty()
    } else if shown == 1 {
        wave_text(waves[0], table)
    } else {
        waves_text(waves, table, shown - 1) + ", "@ + wave_text(waves[shown - 1], table)
    }
}

/// The line of a shift that is filed under `key`.
pub open spec fn line_text(run: RunView, key: int, table: TideTable) -> Seq<char> {
    let rate = match run.danger_rate {
        Some(rate) => rate,
        None => 0,
    };
    clock_text(key) + " SR "@ + decimal(rate) + "% "@ + decimal(run.golden_eggs) + " ("@
        + waves_text(run.waves, table, shown_waves(run.waves.len() as int)) + ")"@
}

/// One line of a summary and the key that orders it.
#[derive(Debug, Clone, PartialEq, Eq)]
pub struct SummaryLine {
    pub order_key: i128,
    pub text: String,
}

/// Appends `seconds` as hours, minutes and seconds to `out`.
pub fn push_clock(out: &mut String, seconds: i128)
    ensures
        final(out)@ == old(out)@ + clock_text(seconds as int),
{
    push_two_digits(out, seconds / 3600);
    out.append(":");
    push_two_digits(out, (seconds / 60) % 60);
    out.append(":");
    push_two_digits(out, seconds % 60);
}

/// Appends what a summary says of `wave` to `out`.
pub fn push_wave(out: &mut String, wave: &WaveRecord, table: &TideTable)
    ensures
        final(out)@ == old(out)@ + wave_text(wave@, *table),
{
    let tide = table.abbreviation(wave.tide_key.as_str());
    let delivered: i128 = wave.golden_delivered as i128;
    match &wave.event_key {
        Some(key) => {
            let key = key.as_str();
            if text_equals(key, "tornado") {
                out.append("Tornado");
            } else if text_equals(key, "rush") {
                out.append("Rush");
            } else if text_equals(key, "cohock_charge") {
                out.append("Cohock");
            } else if text_equals(key, "mothership") {
                out.append("Mothership");
            } else if text_equals(key, "griller") {
                out.append("Griller");
            } else if text_equals(key, "fog") {
                out.append(tide);
                out.append(" Fog");
            } else if text_equals(key, "goldie_seeking") {
                out.append(tide);
                out.append(" Seeking");
            } else if text_equals(key, "mudmouth_eruption") {
                out.append(tide);
                out.append(" Mudmouth");
            } else {
                out.append("UNKNOWN EVENT");
            }
        },
        None => {
            out.append(tide);
        },
    }
    out.append(" ");
    push_decimal(out, delivered);
}

/// The line of the shift `run`, the stream having started at
/// `interval_start`.
pub fn render_line<'a>(
    run: &Stamped<'a, RunRecord>,
    interval_start: &Instant,
    offset_seconds: i64,
    table: &TideTable,
) -> (line: SummaryLine)
    ensures
        line.order_key == order_key(*interval_start, run.start, offset_seconds as int),
        line.text@ == line_text(run.record@, line.order_key as int, *table),
{
    let span: i128 = run.start.nanos_since(interval_start) + (offset_seconds as i128)
        * NANOS_PER_SECOND;
    let key: i128 = span / NANOS_PER_SECOND;
    let record = run.record;
    let rate: i64 = match record.danger_rate {
        Some(rate) => rate,
        None => 0,
    };
    let mut text = String::new();
    push_clock(&mut text, key);
    text.append(" SR ");
    push_decimal(&mut text, rate as i128);
    text.append("% ");
    push_decimal(&mut text, record.golden_eggs as i128);
    text.append(" (");
    let ghost head = text@;
    let ghost waves = record@.waves;
    let shown: usize = if record.waves.len() < 3 {
        record.waves.len()
    } else {
        3
    };
    let mut i: usize = 0;
    while i < shown
        invariant
            0 <= i <= shown <= record.waves.len(),
            waves == record@.waves,
            text@ == head + waves_text(waves, *table, i as int),
        decreases shown - i,
    {
        if i > 0 {
            text.append(", ");
        }
        push_wave(&mut text, &record.waves[i], table);
        i = i + 1;
    }
    text.append(")");
    SummaryLine { order_key: key, text }
}

} // verus!
