use stream_linker::dispatch::{notice, Action, Dispatcher, Event, TaskReport};
use stream_linker::error::ExitStatus;
use stream_linker::link::{LinkedUpdate, UpdateKind};

fn update(n: usize, kind: UpdateKind) -> LinkedUpdate {
    LinkedUpdate {
        record_id: format!("rec{}", n),
        kind,
        link: format!("https://youtube.com/watch?v=vid&t={}s", 60 * n),
    }
}

fn updates(n: usize) -> Vec<LinkedUpdate> {
    (0..n).map(|i| update(i, if i % 2 == 0 { UpdateKind::Run } else { UpdateKind::Match })).collect()
}

/// Runs a dispatcher to its end, answering the `i`-th wait with a report
/// that fails where `fails[i]` says so.
fn drive(list: Vec<LinkedUpdate>, dry_run: bool, fails: &[bool]) -> Vec<Action> {
    let mut dispatcher = Dispatcher::new(list, dry_run);
    let mut spawned: Vec<String> = Vec::new();
    let mut answered = 0;
    let mut trace = Vec::new();
    let mut event = Event::Resume;
    loop {
        let action = dispatcher.advance(event);
        trace.push(action.clone());
        event = match action {
            Action::Exit(_) => return trace,
            Action::Announce(_) => Event::Resume,
            Action::Report(_) => Event::Resume,
            Action::Spawn(update) => {
                spawned.push(update.record_id);
                Event::Resume
            }
            Action::Wait => {
                let report = TaskReport {
                    record_id: spawned[answered].clone(),
                    succeeded: !fails[answered],
                };
                answered += 1;
                Event::Finished(report)
            }
        };
    }
}

fn count<F: Fn(&Action) -> bool>(trace: &[Action], which: F) -> usize {
    trace.iter().filter(|a| which(a)).count()
}

#[test]
fn exit_codes() {
    assert_eq!(ExitStatus::Success.code(), 0);
    assert_eq!(ExitStatus::Fatal.code(), 1);
}

#[test]
fn notice_names_the_kind_the_record_and_the_link() {
    assert_eq!(
        notice(&update(2, UpdateKind::Run)),
        "Will modify run rec2 with URL https://youtube.com/watch?v=vid&t=120s"
    );
    assert_eq!(
        notice(&update(1, UpdateKind::Match)),
        "Will modify battle rec1 with URL https://youtube.com/watch?v=vid&t=60s"
    );
}

#[test]
fn no_updates_end_the_run_at_once() {
    assert_eq!(drive(Vec::new(), false, &[]), vec![Action::Exit(ExitStatus::Success)]);
    assert_eq!(drive(Vec::new(), true, &[]), vec![Action::Exit(ExitStatus::Success)]);
}

#[test]
fn every_update_is_started_once_and_in_order() {
    let trace = drive(updates(3), false, &[false, false, false]);
    assert_eq!(
        trace,
        vec![
            Action::Spawn(update(0, UpdateKind::Run)),
            Action::Spawn(update(1, UpdateKind::Match)),
            Action::Spawn(update(2, UpdateKind::Run)),
            Action::Wait,
            Action::Wait,
            Action::Wait,
            Action::Exit(ExitStatus::Success),
        ]
    );
}

#[test]
fn a_dry_run_announces_and_starts_nothing() {
    let trace = drive(updates(2), true, &[]);
    assert_eq!(
        trace,
        vec![
            Action::Announce(
                "Will modify run rec0 with URL https://youtube.com/watch?v=vid&t=0s".to_string()
            ),
            Action::Announce(
                "Will modify battle rec1 with URL https://youtube.com/watch?v=vid&t=60s".to_string()
            ),
            Action::Exit(ExitStatus::Success),
        ]
    );
    assert_eq!(count(&trace, |a| matches!(a, Action::Spawn(_))), 0);
    assert_eq!(count(&trace, |a| matches!(a, Action::Wait)), 0);
}

#[test]
fn one_failure_makes_the_run_fatal_after_all_tasks_are_back() {
    let trace = drive(updates(3), false, &[true, false, false]);
    assert_eq!(
        trace,
        vec![
            Action::Spawn(update(0, UpdateKind::Run)),
            Action::Spawn(update(1, UpdateKind::Match)),
            Action::Spawn(update(2, UpdateKind::Run)),
            Action::Wait,
            Action::Report("rec0".to_string()),
            Action::Wait,
            Action::Wait,
            Action::Exit(ExitStatus::Fatal),
        ]
    );
}

#[test]
fn every_failure_is_reported_and_the_run_ends_once() {
    let trace = drive(updates(3), false, &[true, false, true]);
    assert_eq!(
        trace,
        vec![
            Action::Spawn(update(0, UpdateKind::Run)),
            Action::Spawn(update(1, UpdateKind::Match)),
            Action::Spawn(update(2, UpdateKind::Run)),
            Action::Wait,
            Action::Report("rec0".to_string()),
            Action::Wait,
            Action::Wait,
            Action::Report("rec2".to_string()),
            Action::Exit(ExitStatus::Fatal),
        ]
    );
    assert_eq!(count(&trace, |a| matches!(a, Action::Exit(_))), 1);
}

#[test]
fn fatal_exactly_if_some_task_failed_whichever_it_is() {
    for n in 0..5usize {
        for pattern in 0..(1u32 << n) {
            let fails: Vec<bool> = (0..n).map(|i| pattern & (1 << i) != 0).collect();
            let failures = fails.iter().filter(|f| **f).count();
            let trace = drive(updates(n), false, &fails);
            assert_eq!(count(&trace, |a| matches!(a, Action::Spawn(_))), n);
            assert_eq!(count(&trace, |a| matches!(a, Action::Wait)), n);
            assert_eq!(count(&trace, |a| matches!(a, Action::Announce(_))), 0);
            assert_eq!(count(&trace, |a| matches!(a, Action::Report(_))), failures);
            assert_eq!(trace.len(), 2 * n + failures + 1);
            let expected = if failures > 0 { ExitStatus::Fatal } else { ExitStatus::Success };
            assert_eq!(trace[2 * n + failures], Action::Exit(expected));
            let first_wait = trace.iter().position(|a| matches!(a, Action::Wait));
            let last_spawn = trace.iter().rposition(|a| matches!(a, Action::Spawn(_)));
            if let (Some(wait), Some(spawn)) = (first_wait, last_spawn) {
                assert!(spawn < wait);
            }
        }
    }
}

#[test]
fn a_dry_run_of_any_length_succeeds_without_tasks() {
    for n in 0..5usize {
        let trace = drive(updates(n), true, &[]);
        assert_eq!(count(&trace, |a| matches!(a, Action::Announce(_))), n);
        assert_eq!(count(&trace, |a| matches!(a, Action::Spawn(_))), 0);
        assert_eq!(trace.len(), n + 1);
        assert_eq!(trace[n], Action::Exit(ExitStatus::Success));
    }
}

#[test]
fn failed_records_are_noted_in_the_order_of_their_reports() {
    let mut dispatcher = Dispatcher::new(updates(3), false);
    assert!(matches!(dispatcher.advance(Event::Resume), Action::Spawn(_)));
    assert!(matches!(dispatcher.advance(Event::Resume), Action::Spawn(_)));
    assert!(matches!(dispatcher.advance(Event::Resume), Action::Spawn(_)));
    assert_eq!(dispatcher.advance(Event::Resume), Action::Wait);
    let report = |id: &str, succeeded: bool| {
        Event::Finished(TaskReport { record_id: id.to_string(), succeeded })
    };
    assert_eq!(dispatcher.advance(report("rec2", false)), Action::Report("rec2".to_string()));
    assert_eq!(dispatcher.advance(Event::Resume), Action::Wait);
    assert_eq!(dispatcher.advance(report("rec0", true)), Action::Wait);
    assert_eq!(dispatcher.failed_ids(), &vec!["rec2".to_string()]);
    assert_eq!(dispatcher.advance(report("rec1", false)), Action::Report("rec1".to_string()));
    assert_eq!(dispatcher.failed_ids(), &vec!["rec2".to_string(), "rec1".to_string()]);
    assert_eq!(dispatcher.advance(Event::Resume), Action::Exit(ExitStatus::Fatal));
}

#[test]
fn waiting_again_changes_nothing() {
    let mut dispatcher = Dispatcher::new(updates(1), false);
    assert!(matches!(dispatcher.advance(Event::Resume), Action::Spawn(_)));
    assert_eq!(dispatcher.advance(Event::Resume), Action::Wait);
    assert_eq!(dispatcher.advance(Event::Resume), Action::Wait);
    let done = Event::Finished(TaskReport { record_id: "rec0".to_string(), succeeded: true });
    assert_eq!(dispatcher.advance(done), Action::Exit(ExitStatus::Success));
}

#[test]
fn a_report_that_no_task_sent_is_ignored() {
    let mut dispatcher = Dispatcher::new(updates(1), true);
    let stray = Event::Finished(TaskReport { record_id: "rec9".to_string(), succeeded: false });
    assert!(matches!(dispatcher.advance(stray), Action::Announce(_)));
    assert_eq!(dispatcher.advance(Event::Resume), Action::Exit(ExitStatus::Success));
    assert_eq!(dispatcher.failed_ids().len(), 0);
}

#[test]
fn the_run_stays_over_once_it_is_over() {
    let mut dispatcher = Dispatcher::new(updates(1), false);
    assert!(matches!(dispatcher.advance(Event::Resume), Action::Spawn(_)));
    let failed = Event::Finished(TaskReport { record_id: "rec0".to_string(), succeeded: false });
    assert_eq!(dispatcher.advance(failed), Action::Report("rec0".to_string()));
    assert_eq!(dispatcher.advance(Event::Resume), Action::Exit(ExitStatus::Fatal));
    assert_eq!(dispatcher.advance(Event::Resume), Action::Exit(ExitStatus::Fatal));
}
