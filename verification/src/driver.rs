//! The plan of a run: from what the two services sent to the updates that
//! are to be made and the summary that is to be shown.

use crate::battle::Log;
use crate::error::{ExitStatus, RunError};
use crate::instant::{instant_reading, read_instant, Instant, TimeInterval};
use crate::link::{link_updates, linking, update_views, LinkedUpdate, LinkedUpdateView, UpdateKind};
use crate::matcher::{select_within, started_between};
use crate::record::{stamp_records, stamped_reading, Stamped};
use crate::salmon::{RunRecord, TideTable};
use crate::summary::{build_summary, summary_text, timeline};
use crate::youtube::LiveStreamingDetails;
use vstd::prelude::*;

verus! {

/// What the user asks of one run.
#[derive(Debug, Clone)]
pub struct RunRequest {
    /// The id of the stream's video.
    pub video_id: String,
    /// Seconds by which every link and every summary line is moved, to make
    /// up for the stream's delay.
    pub offset_seconds: i64,
    /// Whether the updates are only announced.
    pub dry_run: bool,
    /// Whether a summary of the stream is wanted.
    pub generate_summary: bool,
}

/// What a run is to do.
#[derive(Debug, Clone, PartialEq, Eq)]
pub struct RunPlan {
    /// The updates to be made: those of the shifts, then those of the
    /// battles, each kind in the order of its log.
    pub updates: Vec<LinkedUpdate>,
    /// The summary of the stream, where one was asked for.
    pub summary: Option<String>,
}

/// A `RunPlan` with its texts as sequences of characters.
pub struct RunPlanView {
    pub updates: Seq<LinkedUpdateView>,
    pub summary: Option<Seq<char>>,
}

impl View for RunPlan {
    type V = RunPlanView;

    open spec fn view(&self) -> RunPlanView {
        RunPlanView {
            updates: update_views(self.updates@),
            summary: match self.summary {
                Some(text) => Some(text@),
                None => None,
            },
        }
    }
}

/// When the stream started and ended, as its details say; or
/// `MalformedTimestamp` where one of the two is no valid timestamp.
pub open spec fn window_reading(details: LiveStreamingDetails) -> Result<
    (Instant, Instant),
    RunError,
> {
    match instant_reading(details.actual_start_time@) {
        Ok(start) => match instant_reading(details.actual_end_time@) {
            Ok(end) => Ok((start, end)),
            Err(e) => Err(e),
        },
        Err(e) => Err(e),
    }
}

/// The plan that follows from the stamped records of both logs, the stream
/// having been live from `start` to `end`. A stream during which no record
/// of either kind started leaves no plan. The updates of the shifts come
/// before those of the battles, and the summary is written only where the
/// request asks for it.
pub open spec fn plan_from<'a>(
    request: RunRequest,
    start: Instant,
    end: Instant,
    battles: Seq<Stamped<'a, Log>>,
    runs: Seq<Stamped<'a, RunRecord>>,
    table: TideTable,
) -> Result<RunPlanView, RunError> {
    let offset = request.offset_seconds as int;
    let matched_battles = battles.filter(started_between(start, end));
    let matched_runs = runs.filter(started_between(start, end));
    if matched_battles.len() == 0 && matched_runs.len() == 0 {
        Err(RunError::NoMatches)
    } else {
        Ok(
            RunPlanView {
                updates: linking(request.video_id@, start, offset, UpdateKind::Run, matched_runs)
                    + linking(request.video_id@, start, offset, UpdateKind::Match, matched_battles),
                summary: if request.generate_summary {
                    Some(summary_text(timeline(matched_runs, start, offset, table)))
                } else {
                    None
                },
            },
        )
    }
}

/// The plan that follows from what the services sent. A time that cannot be
/// read, be it the stream's or that of any record, leaves no plan; what
/// follows from the times once they are read is `plan_from`.
pub open spec fn plan_of(
    request: RunRequest,
    details: LiveStreamingDetails,
    battles: Seq<Log>,
    runs: Seq<RunRecord>,
    table: TideTable,
) -> Result<RunPlanView, RunError> {
    match window_reading(details) {
        Err(e) => Err(e),
        Ok((start, end)) => match stamped_reading::<Log>(battles) {
            Err(e) => Err(e),
            Ok(stamped_battles) => match stamped_reading::<RunRecord>(runs) {
                Err(e) => Err(e),
                Ok(stamped_runs) => plan_from(
                    request,
                    start,
                    end,
                    stamped_battles,
                    stamped_runs,
                    table,
                ),
            },
        },
    }
}

/// Reads when the stream started and ended.
pub fn read_window(details: &LiveStreamingDetails) -> (read: Result<(Instant, Instant), RunError>)
    ensures
        read == window_reading(*details),
{
    let start = match read_instant(details.actual_start_time.as_str()) {
        Ok(start) => start,
        Err(e) => {
            return Err(e);
        },
    };
    match read_instant(details.actual_end_time.as_str()) {
        Ok(end) => Ok((start, end)),
        Err(e) => Err(e),
    }
}

/// No instant lies strictly between a start and an end that does not come
/// after it.
proof fn lemma_nothing_between<'a, R>(start: Instant, end: Instant, stamped: Seq<Stamped<'a, R>>)
    requires
        !start.precedes(end),
    ensures
        stamped.filter(started_between(start, end)).len() == 0,
    decreases stamped.len(),
{
    reveal(Seq::filter);
    if stamped.len() > 0 {
        lemma_nothing_between(start, end, stamped.drop_last());
    }
}

/// Plans a run from records whose start times were read: keeps the records
/// of both logs that started while the stream was live, links each of them
/// into the video, and writes the summary if one is wanted.
pub fn plan_stamped<'a>(
    request: &RunRequest,
    start: &Instant,
    end: &Instant,
    battles: &Vec<Stamped<'a, Log>>,
    runs: &Vec<Stamped<'a, RunRecord>>,
    table: &TideTable,
) -> (planned: Result<RunPlan, RunError>)
    ensures
        match planned {
            Ok(plan) => plan_from(*request, *start, *end, battles@, runs@, *table) == Ok::<
                RunPlanView,
                RunError,
            >(plan@),
            Err(e) => plan_from(*request, *start, *end, battles@, runs@, *table) == Err::<
                RunPlanView,
                RunError,
            >(e),
        },
{
    let interval = match TimeInterval::new(*start, *end) {
        Some(interval) => interval,
        None => {
            proof {
                lemma_nothing_between(*start, *end, battles@);
                lemma_nothing_between(*start, *end, runs@);
            }
            return Err(RunError::NoMatches);
        },
    };
    let matched_battles = select_within(&interval, battles);
    let matched_runs = select_within(&interval, runs);
    if matched_battles.len() == 0 && matched_runs.len() == 0 {
        return Err(RunError::NoMatches);
    }
    let video_id = request.video_id.as_str();
    let offset = request.offset_seconds;
    let mut updates = link_updates(video_id, start, offset, UpdateKind::Run, &matched_runs);
    let mut battle_updates = link_updates(
        video_id,
        start,
        offset,
        UpdateKind::Match,
        &matched_battles,
    );
    let ghost run_part = updates@;
    let ghost battle_part = battle_updates@;
    updates.append(&mut battle_updates);
    assert(update_views(updates@) =~= update_views(run_part) + update_views(battle_part));
    let summary = if request.generate_summary {
        Some(build_summary(&matched_runs, start, offset, table))
    } else {
        None
    };
    Ok(RunPlan { updates, summary })
}

/// Plans a run: reads the times of the stream and of every record of both
/// logs, then plans from them as `plan_stamped` does.
pub fn plan_run(
    request: &RunRequest,
    details: &LiveStreamingDetails,
    battles: &Vec<Log>,
    runs: &Vec<RunRecord>,
    table: &TideTable,
) -> (planned: Result<RunPlan, RunError>)
    ensures
        match planned {
            Ok(plan) => plan_of(*request, *details, battles@, runs@, *table) == Ok::<
                RunPlanView,
                RunError,
            >(plan@),
            Err(e) => plan_of(*request, *details, battles@, runs@, *table) == Err::<
                RunPlanView,
                RunError,
            >(e),
        },
{
    let (start, end) = match read_window(details) {
        Ok(window) => window,
        Err(e) => {
            return Err(e);
        },
    };
    let stamped_battles = match stamp_records(battles) {
        Ok(stamped) => stamped,
        Err(e) => {
            return Err(e);
        },
    };
    let stamped_runs = match stamp_records(runs) {
        Ok(stamped) => stamped,
        Err(e) => {
            return Err(e);
        },
    };
    plan_stamped(request, &start, &end, &stamped_battles, &stamped_runs, table)
}

/// What is shown once the updates are through: the summary, unless an
/// update failed.
pub fn closing_summary(plan: &RunPlan, status: ExitStatus) -> (shown: Option<&str>)
    ensures
        match shown {
            Some(text) => status == ExitStatus::Success && plan@.summary == Some(text@),
            None => status == ExitStatus::Fatal || plan@.summary is None,
        },
{
    match status {
        ExitStatus::Fatal => None,
        ExitStatus::Success => match &plan.summary {
            Some(text) => Some(text.as_str()),
            None => None,
        },
    }
}

} // verus!
