//! The update dispatcher: which update is handed out next, when to wait for
//! the updates under way, and how the run ends once all of them are back.
//!
//! The dispatcher does no work of its own. Its owner carries out each
//! `Action` and reports back with an `Event`.

use crate::error::ExitStatus;
use crate::link::{update_views, LinkedUpdate, LinkedUpdateView, UpdateKind};
use vstd::prelude::*;

verus! {

/// How one update task ended.
#[derive(Debug, Clone, PartialEq, Eq)]
pub struct TaskReport {
    pub record_id: String,
    pub succeeded: bool,
}

/// A `TaskReport` with its id as a sequence of characters.
pub struct TaskReportView {
    pub record_id: Seq<char>,
    pub succeeded: bool,
}

impl View for TaskReport {
    type V = TaskReportView;

    open spec fn view(&self) -> TaskReportView {
        TaskReportView { record_id: self.record_id@, succeeded: self.succeeded }
    }
}

/// What the dispatcher's owner tells it.
#[derive(Debug, Clone, PartialEq, Eq)]
pub enum Event {
    /// The last action was carried out.
    Resume,
    /// An update task came back.
    Finished(TaskReport),
}

/// An `Event` with its texts as sequences of characters.
pub enum EventView {
    Resume,
    Finished(TaskReportView),
}

impl View for Event {
    type V = EventView;

    open spec fn view(&self) -> EventView {
        match self {
            Event::Resume => EventView::Resume,
            Event::Finished(report) => EventView::Finished(report@),
        }
    }
}

/// What the dispatcher asks of its owner.
#[derive(Debug, Clone, PartialEq, Eq)]
pub enum Action {
    /// Log this line and start no task: the run is a dry run.
    Announce(String),
    /// Start a task of its own for this update.
    Spawn(LinkedUpdate),
    /// Wait until one of the tasks under way comes back.
    Wait,
    /// Log that the update of the record with this id failed. The other
    /// tasks go on.
    Report(String),
    /// End the run with this status.
    Exit(ExitStatus),
}

/// An `Action` with its texts as sequences of characters.
pub enum ActionView {
    Announce(Seq<char>),
    Spawn(LinkedUpdateView),
    Wait,
    Report(Seq<char>),
    Exit(ExitStatus),
}

impl View for Action {
    type V = ActionView;

    open spec fn view(&self) -> ActionView {
        match self {
            Action::Announce(line) => ActionView::Announce(line@),
            Action::Spawn(update) => ActionView::Spawn(update@),
            Action::Wait => ActionView::Wait,
            Action::Report(id) => ActionView::Report(id@),
            Action::Exit(status) => ActionView::Exit(*status),
        }
    }
}

/// The state of a dispatcher.
pub struct DispatcherView {
    /// Whether updates are announced and not applied.
    pub dry_run: bool,
    /// The updates of the run, in the order in which they are handed out.
    pub updates: Seq<LinkedUpdateView>,
    /// How many of the updates have been handed out.
    pub next: nat,
    /// How many tasks were started and have not come back.
    pub in_flight: nat,
    /// The ids of the records whose update failed, in the order in which
    /// the failures came in.
    pub failed: Seq<Seq<char>>,
}

/// The state before anything was handed out.
pub open spec fn initial(updates: Seq<LinkedUpdateView>, dry_run: bool) -> DispatcherView {
    DispatcherView { dry_run, updates, next: 0, in_flight: 0, failed: Seq::empty() }
}

/// What a kind of record is called in a log line.
pub open spec fn kind_word(kind: UpdateKind) -> Seq<char> {
    match kind {
        UpdateKind::Match => "battle"@,
        UpdateKind::Run => "run"@,
    }
}

/// The line that a dry run logs in place of an update.
pub open spec fn notice_text(update: LinkedUpdateView) -> Seq<char> {
    "Will modify "@ + kind_word(update.kind) + " "@ + update.record_id + " with URL "@
        + update.link
}

/// The state after an event was taken in. A report counts one task as back
/// and, where the task failed, notes its record; a report that no task under
/// way can have sent changes nothing.
pub open spec fn absorb(state: DispatcherView, event: EventView) -> DispatcherView {
    match event {
        EventView::Resume => state,
        EventView::Finished(report) => if state.in_flight == 0 {
            state
        } else {
            DispatcherView {
                in_flight: (state.in_flight - 1) as nat,
                failed: if report.succeeded {
                    state.failed
                } else {
                    state.failed.push(report.record_id)
                },
                ..state
            }
        },
    }
}

/// The status with which a run ends in which these updates failed.
pub open spec fn status_of(failed: Seq<Seq<char>>) -> ExitStatus {
    if failed.len() == 0 {
        ExitStatus::Success
    } else {
        ExitStatus::Fatal
    }
}

/// What comes next in a state, and the state after it. While updates are
/// left, the next one is handed out: announced in a dry run, started as a
/// task otherwise. Then the dispatcher waits as long as a task is under way,
/// and ends the run when none is.
pub open spec fn decide(state: DispatcherView) -> (DispatcherView, ActionView) {
    if state.next < state.updates.len() {
        let update = state.updates[state.next as int];
        if state.dry_run {
            (
                DispatcherView { next: state.next + 1, ..state },
                ActionView::Announce(notice_text(update)),
            )
        } else {
            (
                DispatcherView { next: state.next + 1, in_flight: state.in_flight + 1, ..state },
                ActionView::Spawn(update),
            )
        }
    } else if state.in_flight > 0 {
        (state, ActionView::Wait)
    } else {
        (state, ActionView::Exit(status_of(state.failed)))
    }
}

/// One step of the dispatcher: the event is taken in, then the next action
/// is decided. The report of a failed task is answered by the request to
/// log the failure; what comes next is decided when the run is resumed.
pub open spec fn step(state: DispatcherView, event: EventView) -> (DispatcherView, ActionView) {
    match event {
        EventView::Finished(report) if state.in_flight > 0 && !report.succeeded => (
            absorb(state, event),
            ActionView::Report(report.record_id),
        ),
        _ => decide(absorb(state, event)),
    }
}

/// The line that a dry run logs in place of `update`.
pub fn notice(update: &LinkedUpdate) -> (line: String)
    ensures
        line@ == notice_text(update@),
{
    let mut line = String::from_str("Will modify ");
    match update.kind {
        UpdateKind::Match => line.append("battle"),
        UpdateKind::Run => line.append("run"),
    }
    line.append(" ");
    line.append(update.record_id.as_str());
    line.append(" with URL ");
    line.append(update.link.as_str());
    line
}

/// How far a run has come: how many updates were handed out, and how many
/// of the tasks that were started for them have not come back.
struct Progress {
    next: usize,
    in_flight: usize,
}

impl Progress {
    #[verifier::type_invariant]
    spec fn counts_fit(self) -> bool {
        self.in_flight <= self.next
    }
}

/// Hands out the updates of a run and keeps count of the tasks under way.
pub struct Dispatcher {
    dry_run: bool,
    updates: Vec<LinkedUpdate>,
    progress: Progress,
    failed: Vec<String>,
}

impl View for Dispatcher {
    type V = DispatcherView;

    closed spec fn view(&self) -> DispatcherView {
        DispatcherView {
            dry_run: self.dry_run,
            updates: update_views(self.updates@),
            next: self.progress.next as nat,
            in_flight: self.progress.in_flight as nat,
            failed: self.failed@.map_values(|id: String| id@),
        }
    }
}

impl Dispatcher {
    /// A dispatcher for the updates of one run.
    pub fn new(updates: Vec<LinkedUpdate>, dry_run: bool) -> (dispatcher: Dispatcher)
        ensures
            dispatcher@ == initial(update_views(updates@), dry_run),
    {
        let dispatcher = Dispatcher {
            dry_run,
            updates,
            progress: Progress { next: 0, in_flight: 0 },
            failed: Vec::new(),
        };
        assert(dispatcher.failed@.map_values(|id: String| id@) =~= Seq::empty());
        dispatcher
    }

    /// Takes in an event and says what to do next.
    pub fn advance(&mut self, event: Event) -> (action: Action)
        ensures
            (final(self)@, action@) == step(old(self)@, event@),
    {
        proof {
            use_type_invariant(&self.progress);
        }
        match event {
            Event::Resume => {},
            Event::Finished(report) => {
                if self.progress.in_flight > 0 {
                    self.progress.in_flight = self.progress.in_flight - 1;
                    if !report.succeeded {
                        let ghost before = self.failed@;
                        let id = report.record_id;
                        self.failed.push(id.clone());
                        assert(self.failed@.map_values(|id: String| id@) =~= before.map_values(
                            |id: String| id@,
                        ).push(id@));
                        return Action::Report(id);
                    }
                }
            },
        }
        if self.progress.next < self.updates.len() {
            let update = self.updates[self.progress.next].duplicate();
            self.progress.next = self.progress.next + 1;
            if self.dry_run {
                Action::Announce(notice(&update))
            } else {
                self.progress.in_flight = self.progress.in_flight + 1;
                Action::Spawn(update)
            }
        } else if self.progress.in_flight > 0 {
            Action::Wait
        } else if self.failed.len() == 0 {
            Action::Exit(ExitStatus::Success)
        } else {
            Action::Exit(ExitStatus::Fatal)
        }
    }

    /// The ids of the records whose update failed so far.
    pub fn failed_ids(&self) -> (ids: &Vec<String>)
        ensures
            ids@.map_values(|id: String| id@) == self@.failed,
    {
        &self.failed
    }
}

/// The actions of a run from `state` on: each action is carried out and
/// answered, a `Wait` by the next of `reports` and every other action by
/// `Resume`. The run is over with `Exit`, or with a `Wait` that no report
/// is left to answer.
pub open spec fn run(state: DispatcherView, event: EventView, reports: Seq<TaskReportView>) -> Seq<
    ActionView,
>
    decreases state.updates.len() - state.next, reports.len(), (event is Finished) as int,
{
    let (after, action) = step(state, event);
    match action {
        ActionView::Exit(_) => seq![action],
        ActionView::Wait => if reports.len() == 0 {
            seq![action]
        } else {
            seq![action] + run(after, EventView::Finished(reports[0]), reports.drop_first())
        },
        _ => seq![action] + run(after, EventView::Resume, reports),
    }
}

/// Whether every task of `reports` went through.
pub open spec fn all_succeeded(reports: Seq<TaskReportView>) -> bool {
    forall|i: int| 0 <= i < reports.len() ==> (#[trigger] reports[i]).succeeded
}

/// How many tasks a run starts: none in a dry run, else one for each
/// update.
pub open spec fn tasks_started(updates: Seq<LinkedUpdateView>, dry_run: bool) -> nat {
    if dry_run {
        0
    } else {
        updates.len()
    }
}

/// What is done for the updates from `from` on: each is announced in a dry
/// run and started as a task otherwise, in the updates' order.
pub open spec fn handing_out(updates: Seq<LinkedUpdateView>, dry_run: bool, from: int) -> Seq<
    ActionView,
> {
    Seq::new(
        (updates.len() - from) as nat,
        |i: int|
            if dry_run {
                ActionView::Announce(notice_text(updates[from + i]))
            } else {
                ActionView::Spawn(updates[from + i])
            },
    )
}

/// What is done while the tasks come back: one wait for each report, and
/// after the report of a failed task the request to log the failure.
pub open spec fn draining(reports: Seq<TaskReportView>) -> Seq<ActionView>
    decreases reports.len(),
{
    if reports.len() == 0 {
        Seq::empty()
    } else {
        let first = reports[0];
        let answer = if first.succeeded {
            seq![ActionView::Wait]
        } else {
            seq![ActionView::Wait, ActionView::Report(first.record_id)]
        };
        answer + draining(reports.drop_first())
    }
}

/// The status with which a run ends whose tasks ended as `reports` say:
/// fatal exactly if one of them failed.
pub open spec fn verdict(reports: Seq<TaskReportView>) -> ExitStatus {
    if all_succeeded(reports) {
        ExitStatus::Success
    } else {
        ExitStatus::Fatal
    }
}

proof fn lemma_all_succeeded_splits(reports: Seq<TaskReportView>)
    requires
        reports.len() > 0,
    ensures
        all_succeeded(reports) <==> reports[0].succeeded && all_succeeded(reports.drop_first()),
{
    let rest = reports.drop_first();
    if reports[0].succeeded && all_succeeded(rest) {
        assert forall|i: int| 0 <= i < reports.len() implies (#[trigger] reports[i]).succeeded by {
            if i > 0 {
                assert(rest[i - 1].succeeded);
            }
        }
    }
    if all_succeeded(reports) {
        assert forall|i: int| 0 <= i < rest.len() implies (#[trigger] rest[i]).succeeded by {
            assert(reports[i + 1].succeeded);
        }
    }
}

/// Once every update was handed out, the dispatcher waits once for each
/// task under way and then ends the run: with success if no task failed,
/// before or among those still to come back, and with a fatal status
/// otherwise.
proof fn lemma_drain(state: DispatcherView, reports: Seq<TaskReportView>)
    requires
        state.next >= state.updates.len(),
        state.in_flight == reports.len(),
    ensures
        run(state, EventView::Resume, reports) == draining(reports) + seq![
            ActionView::Exit(
                if state.failed.len() == 0 && all_succeeded(reports) {
                    ExitStatus::Success
                } else {
                    ExitStatus::Fatal
                },
            ),
        ],
    decreases reports.len(),
{
    let close = ActionView::Exit(
        if state.failed.len() == 0 && all_succeeded(reports) {
            ExitStatus::Success
        } else {
            ExitStatus::Fatal
        },
    );
    if reports.len() == 0 {
        assert(run(state, EventView::Resume, reports) =~= draining(reports) + seq![close]);
    } else {
        let first = reports[0];
        let rest = reports.drop_first();
        let back = EventView::Finished(first);
        let settled = absorb(state, back);
        lemma_all_succeeded_splits(reports);
        lemma_drain(settled, rest);
        let tail = run(settled, EventView::Resume, rest);
        assert(tail == draining(rest) + seq![close]);
        if first.succeeded {
            assert(step(state, back) == step(settled, EventView::Resume));
            assert(run(state, back, rest) == tail);
        } else {
            assert(run(state, back, rest) == seq![ActionView::Report(first.record_id)] + tail);
        }
        assert(run(state, EventView::Resume, reports) == seq![ActionView::Wait] + run(
            state,
            back,
            rest,
        ));
        assert(run(state, EventView::Resume, reports) =~= draining(reports) + seq![close]);
    }
}

/// From a state in which some updates were handed out and no task came
/// back, the run hands out the rest, then waits for every task, then ends.
proof fn lemma_hand_out(state: DispatcherView, reports: Seq<TaskReportView>)
    requires
        state.next <= state.updates.len(),
        state.in_flight == tasks_started(state.updates.take(state.next as int), state.dry_run),
        state.failed.len() == 0,
        reports.len() == tasks_started(state.updates, state.dry_run),
    ensures
        run(state, EventView::Resume, reports) == handing_out(
            state.updates,
            state.dry_run,
            state.next as int,
        ) + draining(reports) + seq![ActionView::Exit(verdict(reports))],
    decreases state.updates.len() - state.next,
{
    let rest = handing_out(state.updates, state.dry_run, state.next as int);
    if state.next < state.updates.len() {
        let (after, action) = step(state, EventView::Resume);
        lemma_hand_out(after, reports);
        assert(rest =~= seq![action] + handing_out(
            state.updates,
            state.dry_run,
            state.next as int + 1,
        ));
    } else {
        assert(state.updates.take(state.next as int) == state.updates);
        lemma_drain(state, reports);
        assert(rest =~= Seq::empty());
    }
}

/// Whatever the outcome of each task, a run over `updates` first hands out
/// every update once and in order, starting a task for each unless the run
/// is a dry run; then it waits once for each task that it started, asking
/// for a log entry after each failure; then it ends, with a fatal status
/// exactly if one of the tasks failed.
pub proof fn lemma_run_drains_then_reports(
    updates: Seq<LinkedUpdateView>,
    dry_run: bool,
    reports: Seq<TaskReportView>,
)
    requires
        reports.len() == tasks_started(updates, dry_run),
    ensures
        run(initial(updates, dry_run), EventView::Resume, reports) == handing_out(
            updates,
            dry_run,
            0,
        ) + draining(reports) + seq![ActionView::Exit(verdict(reports))],
{
    lemma_hand_out(initial(updates, dry_run), reports);
}

/// A dry run starts no task and waits for none: it announces every update,
/// once and in order, and ends with success.
pub proof fn lemma_dry_run_only_announces(updates: Seq<LinkedUpdateView>)
    ensures
        run(initial(updates, true), EventView::Resume, Seq::empty()) == handing_out(
            updates,
            true,
            0,
        ) + seq![ActionView::Exit(ExitStatus::Success)],
        handing_out(updates, true, 0).len() == updates.len(),
        forall|i: int|
            0 <= i < updates.len() ==> #[trigger] handing_out(updates, true, 0)[i]
                == ActionView::Announce(notice_text(updates[i])),
{
    let none = Seq::<TaskReportView>::empty();
    lemma_run_drains_then_reports(updates, true, none);
    assert(handing_out(updates, true, 0) + draining(none) =~= handing_out(updates, true, 0));
}

/// While the tasks come back, the dispatcher waits exactly once for each of
/// them and asks for exactly one log entry for each that failed; it asks
/// for nothing else.
pub proof fn lemma_draining_counts(reports: Seq<TaskReportView>)
    ensures
        draining(reports).filter(|action: ActionView| action is Wait).len() == reports.len(),
        draining(reports).filter(|action: ActionView| action is Report).len() == reports.filter(
            |report: TaskReportView| !report.succeeded,
        ).len(),
        forall|i: int|
            0 <= i < draining(reports).len() ==> (#[trigger] draining(reports)[i]) is Wait
                || draining(reports)[i] is Report,
    decreases reports.len(),
{
    let is_wait = |action: ActionView| action is Wait;
    let is_report = |action: ActionView| action is Report;
    let failed = |report: TaskReportView| !report.succeeded;
    if reports.len() == 0 {
        assert(draining(reports).filter(is_wait).len() == 0) by {
            reveal(Seq::filter);
        }
        assert(draining(reports).filter(is_report).len() == 0) by {
            reveal(Seq::filter);
        }
        assert(reports.filter(failed).len() == 0) by {
            reveal(Seq::filter);
        }
    } else {
        let first = reports[0];
        let rest = reports.drop_first();
        lemma_draining_counts(rest);
        let answer = if first.succeeded {
            seq![ActionView::Wait]
        } else {
            seq![ActionView::Wait, ActionView::Report(first.record_id)]
        };
        assert(draining(reports) == answer + draining(rest));
        Seq::filter_distributes_over_add(answer, draining(rest), is_wait);
        Seq::filter_distributes_over_add(answer, draining(rest), is_report);
        assert(reports =~= seq![first] + rest);
        Seq::filter_distributes_over_add(seq![first], rest, failed);
        assert(answer.filter(is_wait).len() == 1 && answer.filter(is_report).len() == (if first.succeeded {
            0int
        } else {
            1int
        }) && seq![first].filter(failed).len() == (if first.succeeded {
            0int
        } else {
            1int
        })) by {
            reveal_with_fuel(Seq::filter, 3);
            if first.succeeded {
                assert(answer.drop_last() =~= Seq::empty());
            } else {
                assert(answer.drop_last() =~= seq![ActionView::Wait]);
                assert(answer.drop_last().drop_last() =~= Seq::empty());
            }
            assert(seq![first].drop_last() =~= Seq::empty());
        }
    }
}

} // verus!
