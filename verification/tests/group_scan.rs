use trace_reader::finder::log::{Located, MemoryLog};
use trace_reader::finder::searcher::{ForwardSearchIter, Searcher};
use trace_reader::finder::SearchTarget;
use trace_reader::messages::{ChannelTrace, TraceMessage};
use trace_reader::timestamp::Timestamp;

fn stamp(secs: i64) -> Timestamp {
    Timestamp::new(secs, 0)
}

fn header(position: usize, secs: i64, id: u8) -> Located {
    Located { position, timestamp: stamp(secs), digitiser_id: id }
}

fn log_of(records: &[(i64, u8)]) -> MemoryLog {
    let headers: Vec<Located> =
        records.iter().enumerate().map(|(i, &(secs, id))| header(i, secs, id)).collect();
    let mut log = MemoryLog::new(&headers);
    // A fetch beyond the oldest record puts the cursor before it.
    assert_eq!(log.fetch_at(records.len() as i64), None);
    log
}

fn target(secs: i64, ids: &[u8], number: usize) -> SearchTarget {
    SearchTarget {
        timestamp: stamp(secs),
        channels: vec![],
        digitiser_ids: ids.to_vec(),
        number,
    }
}

fn positions(results: &[Located]) -> Vec<usize> {
    results.iter().map(|r| r.position).collect()
}

fn trace(secs: i64, id: u8) -> TraceMessage {
    TraceMessage {
        timestamp: stamp(secs),
        digitiser_id: id,
        channels: vec![ChannelTrace { channel: 1, voltage: vec![id as u16] }],
    }
}

#[test]
fn one_frame_of_three_records_keeps_the_two_accepted() {
    let mut log = log_of(&[(5, 1), (5, 2), (5, 3), (7, 1)]);
    let results = log.group_scan(&target(5, &[1, 3], 1));
    assert_eq!(positions(&results), vec![0, 2]);
}

#[test]
fn the_record_that_ends_the_last_frame_stays_pending() {
    let goal = target(5, &[1, 3], 1);
    let searcher: Searcher<TraceMessage> = Searcher::new(1);
    let mut scan: ForwardSearchIter<TraceMessage> = searcher.iter_forward();
    assert!(scan.wants_next());
    scan.move_until(&goal.timestamp, Some(trace(5, 1)));
    assert!(!scan.wants_next());
    scan.begin_acquire(&goal, goal.number);
    assert!(scan.wants_next());
    scan.acquire_while(&goal, Some(trace(5, 2)));
    scan.acquire_while(&goal, Some(trace(5, 3)));
    assert!(scan.wants_next());
    scan.acquire_while(&goal, Some(trace(7, 1)));
    assert!(!scan.wants_next());
    assert_eq!(scan.pending(), Some(&trace(7, 1)));
    let results = scan.collect().into_results();
    assert_eq!(results, vec![trace(5, 1), trace(5, 3)]);
}

#[test]
fn three_frames_wanted_and_one_available_gives_that_frame() {
    let mut log = log_of(&[(5, 1), (5, 2), (5, 1)]);
    let results = log.group_scan(&target(5, &[1], 3));
    assert_eq!(positions(&results), vec![0, 2]);
    assert_eq!(log.position(), 3);
}

#[test]
fn the_record_that_ends_a_frame_opens_the_next() {
    let mut log = log_of(&[(5, 1), (5, 2), (7, 1), (7, 2), (9, 1), (9, 2)]);
    let results = log.group_scan(&target(5, &[1], 2));
    assert_eq!(positions(&results), vec![0, 2]);
    assert_eq!(log.position(), 5);
    let mut all = log_of(&[(5, 1), (5, 2), (7, 1), (7, 2), (9, 1), (9, 2)]);
    let results = all.group_scan(&target(5, &[1, 2], 3));
    assert_eq!(positions(&results), vec![0, 1, 2, 3, 4, 5]);
}

#[test]
fn records_earlier_than_the_target_are_passed_over() {
    let mut log = log_of(&[(1, 1), (2, 1), (3, 1), (4, 1)]);
    let results = log.group_scan(&target(3, &[1], 1));
    assert_eq!(positions(&results), vec![2]);
    let mut between = log_of(&[(1, 1), (2, 1), (6, 1), (6, 1), (8, 1)]);
    let results = between.group_scan(&target(3, &[1], 1));
    assert_eq!(positions(&results), vec![2, 3]);
}

#[test]
fn a_log_without_a_record_at_or_after_the_target_gives_nothing() {
    let mut log = log_of(&[(1, 1), (2, 1)]);
    let results = log.group_scan(&target(3, &[1], 1));
    assert!(results.is_empty());
    assert_eq!(log.position(), 2);
    let mut empty = log_of(&[]);
    assert!(empty.group_scan(&target(3, &[1], 1)).is_empty());
}

#[test]
fn records_of_other_digitisers_are_dropped_but_still_read() {
    let mut log = log_of(&[(5, 2), (5, 2), (6, 1)]);
    let results = log.group_scan(&target(5, &[1], 1));
    assert!(results.is_empty());
    assert_eq!(log.position(), 3);
    let mut none = log_of(&[(5, 1), (5, 2)]);
    assert!(none.group_scan(&target(5, &[], 1)).is_empty());
}

#[test]
fn no_frame_wanted_collects_nothing() {
    let mut log = log_of(&[(5, 1), (5, 1), (6, 1)]);
    let results = log.group_scan(&target(5, &[1], 0));
    assert!(results.is_empty());
    assert_eq!(log.position(), 1);
}

#[test]
fn a_target_accepts_its_own_digitisers_only() {
    let goal = target(0, &[4, 9], 1);
    assert!(goal.accepts(4));
    assert!(goal.accepts(9));
    assert!(!goal.accepts(5));
    assert!(!SearchTarget::default().accepts(0));
    assert_eq!(SearchTarget::default().number, 0);
}
