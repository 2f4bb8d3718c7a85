use stream_linker::battle::{Log, Time};
use stream_linker::error::RunError;
use stream_linker::instant::{read_instant, Instant, TimeInterval};
use stream_linker::matcher::{match_records, select_within};
use stream_linker::record::{stamp_records, Stamped, Timestamped};
use stream_linker::salmon::RunRecord;

fn battle(id: &str, start: &str) -> Log {
    Log {
        id: id.to_string(),
        url: format!("https://stat.ink/@player/spl3/{}", id),
        uuid: format!("uuid-{}", id),
        start_at: Time { time: 0, iso8601: start.to_string() },
    }
}

fn shift(id: &str, start: &str) -> RunRecord {
    RunRecord {
        id: id.to_string(),
        start_at: Time { time: 0, iso8601: start.to_string() },
        danger_rate: None,
        golden_eggs: 0,
        waves: Vec::new(),
    }
}

fn half_hour() -> TimeInterval {
    let start = read_instant("2023-04-01T10:00:00Z").unwrap();
    let end = read_instant("2023-04-01T10:30:00Z").unwrap();
    TimeInterval::new(start, end).unwrap()
}

fn ids<R: Timestamped>(matched: &Vec<Stamped<'_, R>>) -> Vec<String> {
    matched.iter().map(|m| m.record.record_id().to_string()).collect()
}

#[test]
fn record_gives_its_id_and_start_text() {
    let b = battle("b1", "2023-04-01T10:05:00Z");
    assert_eq!(b.record_id(), "b1");
    assert_eq!(b.start_iso8601(), "2023-04-01T10:05:00Z");
    let r = shift("r1", "2023-04-01T10:06:00Z");
    assert_eq!(r.record_id(), "r1");
    assert_eq!(r.start_iso8601(), "2023-04-01T10:06:00Z");
}

#[test]
fn stamp_records_reads_every_start() {
    let battles = vec![battle("b1", "2023-04-01T10:05:00Z"), battle("b2", "2023-04-01T19:05:00+09:00")];
    let stamped = stamp_records(&battles).unwrap();
    assert_eq!(stamped.len(), 2);
    assert_eq!(stamped[0].start, Instant::new(1_680_343_500, 0));
    assert_eq!(stamped[1].start, Instant::new(1_680_343_500, 0));
    assert_eq!(stamped[0].record.id, "b1");
    assert_eq!(stamped[1].record.id, "b2");
}

#[test]
fn stamp_records_of_nothing_is_nothing() {
    let battles: Vec<Log> = Vec::new();
    assert_eq!(stamp_records(&battles).unwrap().len(), 0);
}

#[test]
fn stamp_records_fails_on_one_bad_start() {
    let battles = vec![
        battle("b1", "2023-04-01T10:05:00Z"),
        battle("b2", "not a time"),
        battle("b3", "2023-04-01T10:06:00Z"),
    ];
    assert_eq!(stamp_records(&battles).err(), Some(RunError::MalformedTimestamp));
}

#[test]
fn matching_keeps_what_started_inside() {
    let battles = vec![
        battle("before", "2023-04-01T09:59:59Z"),
        battle("inside", "2023-04-01T10:05:00Z"),
        battle("after", "2023-04-01T10:40:00Z"),
    ];
    let matched = match_records(&half_hour(), &battles).unwrap();
    assert_eq!(ids(&matched), vec!["inside"]);
    assert_eq!(matched[0].start, Instant::new(1_680_343_500, 0));
}

#[test]
fn matching_excludes_records_on_the_boundaries() {
    let battles = vec![
        battle("at-start", "2023-04-01T10:00:00Z"),
        battle("at-end", "2023-04-01T10:30:00Z"),
    ];
    let matched = match_records(&half_hour(), &battles).unwrap();
    assert_eq!(matched.len(), 0);
}

#[test]
fn matching_includes_records_a_millisecond_inside() {
    let battles = vec![
        battle("just-after-start", "2023-04-01T10:00:00.001Z"),
        battle("just-before-end", "2023-04-01T10:29:59.999Z"),
    ];
    let matched = match_records(&half_hour(), &battles).unwrap();
    assert_eq!(ids(&matched), vec!["just-after-start", "just-before-end"]);
}

#[test]
fn matching_keeps_the_given_order() {
    let battles = vec![
        battle("late", "2023-04-01T10:25:00Z"),
        battle("out", "2023-04-01T11:00:00Z"),
        battle("early", "2023-04-01T10:01:00Z"),
        battle("middle", "2023-04-01T10:15:00Z"),
    ];
    let matched = match_records(&half_hour(), &battles).unwrap();
    assert_eq!(ids(&matched), vec!["late", "early", "middle"]);
}

#[test]
fn matching_never_yields_more_than_it_was_given() {
    let battles = vec![
        battle("a", "2023-04-01T10:01:00Z"),
        battle("b", "2023-04-01T10:02:00Z"),
        battle("c", "2023-04-01T12:00:00Z"),
    ];
    let matched = match_records(&half_hour(), &battles).unwrap();
    assert!(matched.len() <= battles.len());
    assert_eq!(matched.len(), 2);
}

#[test]
fn matching_nothing_gives_nothing() {
    let battles: Vec<Log> = Vec::new();
    let matched = match_records(&half_hour(), &battles).unwrap();
    assert_eq!(matched.len(), 0);
}

#[test]
fn matching_leaves_the_records_as_they_were() {
    let battles = vec![battle("a", "2023-04-01T10:01:00Z"), battle("b", "2023-04-01T12:00:00Z")];
    let matched = match_records(&half_hour(), &battles).unwrap();
    assert!(std::ptr::eq(matched[0].record, &battles[0]));
    assert_eq!(battles[0].id, "a");
    assert_eq!(battles[0].start_at.iso8601, "2023-04-01T10:01:00Z");
    assert_eq!(battles[1].id, "b");
}

#[test]
fn matching_fails_on_a_bad_start_even_outside() {
    let battles = vec![battle("a", "2023-04-01T10:01:00Z"), battle("b", "2023/04/01 10:02")];
    assert_eq!(match_records(&half_hour(), &battles).err(), Some(RunError::MalformedTimestamp));
}

#[test]
fn matching_works_for_shifts_as_for_battles() {
    let shifts = vec![shift("r1", "2023-04-01T10:05:00Z"), shift("r2", "2023-04-01T10:30:00Z")];
    let matched = match_records(&half_hour(), &shifts).unwrap();
    assert_eq!(ids(&matched), vec!["r1"]);
}

#[test]
fn a_match_after_the_stream_is_excluded() {
    let battles = vec![battle("late", "2023-04-01T10:40:00Z")];
    let matched = match_records(&half_hour(), &battles).unwrap();
    assert_eq!(matched.len(), 0);
}

#[test]
fn select_within_filters_stamped_records() {
    let battles = vec![battle("a", ""), battle("b", ""), battle("c", ""), battle("d", "")];
    let stamped = vec![
        Stamped { record: &battles[0], start: Instant::new(10, 0) },
        Stamped { record: &battles[1], start: Instant::new(15, 0) },
        Stamped { record: &battles[2], start: Instant::new(20, 0) },
        Stamped { record: &battles[3], start: Instant::new(10, 1) },
    ];
    let interval = TimeInterval::new(Instant::new(10, 0), Instant::new(20, 0)).unwrap();
    let matched = select_within(&interval, &stamped);
    assert_eq!(ids(&matched), vec!["b", "d"]);
    assert_eq!(matched[0].start, Instant::new(15, 0));
    assert_eq!(matched[1].start, Instant::new(10, 1));
}
