use trace_reader::cli_structs::Steps;
use trace_reader::finder::log::{Located, MemoryLog};
use trace_reader::finder::searcher::{BackstepIter, Searcher};
use trace_reader::timestamp::Timestamp;

fn stamp(secs: i64) -> Timestamp {
    Timestamp::new(secs, 0)
}

/// `len` records, one each second from second 1000 on, of digitiser 1.
fn synthetic(len: usize) -> MemoryLog {
    let records: Vec<Located> = (0..len)
        .map(|i| Located { position: i, timestamp: stamp(1000 + i as i64), digitiser_id: 1 })
        .collect();
    MemoryLog::new(&records)
}

fn steps(min: i64, coef: i64, passes: u32) -> Steps {
    let steps = Steps { min_step_size: min, step_mul_coef: coef, num_step_passes: passes };
    assert!(steps.is_valid());
    steps
}

#[test]
fn search_converges_on_oldest_record_later_than_target() {
    let mut log = synthetic(1000);
    let offset = log.positional_search(&stamp(1400), &steps(1, 10, 3));
    assert_eq!(offset, 598);
    let found = log.fetch_at(offset).unwrap();
    assert_eq!(found.timestamp, stamp(1401));
    let beyond = log.fetch_at(offset + 1).unwrap();
    assert_eq!(beyond.timestamp, stamp(1400));
}

#[test]
fn search_counts_two_fetches_for_each_step_and_two_for_each_pass() {
    let mut log = synthetic(1000);
    let offset = log.positional_search(&stamp(1400), &steps(1, 10, 3));
    assert_eq!(offset, 598);
    assert_eq!(log.seek_count(), 48);
    let mut linear = synthetic(1000);
    assert_eq!(linear.positional_search(&stamp(1400), &steps(1, 10, 1)), 598);
    assert_eq!(linear.seek_count(), 1196);
}

#[test]
fn search_leaves_cursor_behind_its_last_fetch() {
    let mut log = synthetic(1000);
    let _ = log.positional_search(&stamp(1400), &steps(1, 10, 3));
    assert_eq!(log.position(), 401);
    assert_eq!(log.fetch_next().unwrap().timestamp, stamp(1401));
}

#[test]
fn search_with_default_steps_ends_within_one_minimum_step() {
    let mut log = synthetic(1000);
    let offset = log.positional_search(&stamp(1400), &steps(50, 10, 5));
    assert_eq!(offset, 551);
    assert_eq!(log.seek_count(), 14);
    assert!(log.fetch_at(551).unwrap().timestamp.is_after(&stamp(1400)));
    assert!(!log.fetch_at(601).unwrap().timestamp.is_after(&stamp(1400)));
}

#[test]
fn search_stays_at_offset_one_when_target_is_at_the_newest_end() {
    let mut log = synthetic(1000);
    let offset = log.positional_search(&stamp(1998), &steps(50, 10, 5));
    assert_eq!(offset, 1);
    assert_eq!(log.seek_count(), 5);
    let mut later = synthetic(1000);
    assert_eq!(later.positional_search(&stamp(5000), &steps(1, 2, 3)), 1);
    assert_eq!(later.seek_count(), 3);
}

#[test]
fn search_of_a_log_that_is_all_later_than_target_ends_at_its_oldest_record() {
    let mut log = synthetic(100);
    let offset = log.positional_search(&stamp(0), &steps(1, 10, 3));
    assert_eq!(offset, 99);
    assert_eq!(log.fetch_at(99).unwrap().position, 0);
    assert_eq!(log.fetch_at(100), None);
}

#[test]
fn search_of_short_logs_stays_at_offset_one() {
    let mut empty = synthetic(0);
    assert_eq!(empty.positional_search(&stamp(0), &steps(1, 10, 3)), 1);
    assert_eq!(empty.seek_count(), 3);
    let mut single = synthetic(1);
    assert_eq!(single.positional_search(&stamp(0), &steps(1, 10, 3)), 1);
    let mut pair = synthetic(2);
    assert_eq!(pair.positional_search(&stamp(0), &steps(1, 10, 3)), 1);
    assert_eq!(pair.seek_count(), 6);
}

#[test]
fn search_without_passes_fetches_nothing() {
    let mut log = synthetic(10);
    assert_eq!(log.positional_search(&stamp(0), &steps(1, 10, 0)), 1);
    assert_eq!(log.seek_count(), 0);
    assert_eq!(log.position(), 10);
}

#[test]
fn trailing_offset_zero_is_the_newest_record() {
    let mut log = synthetic(10);
    assert_eq!(log.fetch_at(0).unwrap().position, 9);
    assert_eq!(log.position(), 10);
    assert_eq!(log.fetch_next(), None);
    assert_eq!(log.fetch_at(9).unwrap().position, 0);
    assert_eq!(log.position(), 1);
    assert_eq!(log.fetch_at(10), None);
    assert_eq!(log.position(), 0);
    assert_eq!(log.fetch_at(-1), None);
    assert_eq!(log.fetch_next().unwrap().position, 0);
}

#[test]
fn a_pass_asks_for_its_offset_then_for_the_record_one_step_beyond() {
    let searcher: Searcher<Located> = Searcher::new(1);
    let mut pass: BackstepIter<Located> = searcher.iter_backstep();
    assert_eq!(pass.request(), None);
    pass.step_size(10);
    assert_eq!(pass.request(), Some(1));
    pass.backstep_until_time(&stamp(5), Some(stamp(9)));
    assert_eq!(pass.request(), Some(11));
    pass.backstep_until_time(&stamp(5), Some(stamp(8)));
    assert_eq!(pass.request(), Some(11));
    pass.backstep_until_time(&stamp(5), Some(stamp(8)));
    assert_eq!(pass.request(), Some(21));
    pass.backstep_until_time(&stamp(5), Some(stamp(5)));
    assert_eq!(pass.request(), None);
    assert_eq!(pass.collect().get_offset(), 11);
}

#[test]
fn a_pass_ends_when_there_is_no_record() {
    let searcher: Searcher<Located> = Searcher::new(1);
    let mut pass = searcher.iter_backstep();
    pass.step_size(10);
    pass.backstep_until_time(&stamp(5), None);
    assert_eq!(pass.request(), None);
    pass.step_size(3);
    pass.backstep_until_time(&stamp(5), Some(stamp(6)));
    assert_eq!(pass.request(), Some(4));
    pass.backstep_until_time(&stamp(5), None);
    assert_eq!(pass.request(), None);
    assert_eq!(pass.collect().get_offset(), 1);
}

#[test]
fn a_pass_makes_no_probe_beyond_the_largest_offset() {
    let searcher: Searcher<Located> = Searcher::new(i64::MAX - 2);
    let mut pass = searcher.iter_backstep();
    pass.step_size(5);
    assert_eq!(pass.request(), Some(i64::MAX - 2));
    pass.backstep_until_time(&stamp(5), Some(stamp(6)));
    assert_eq!(pass.request(), None);
    assert_eq!(pass.collect().get_offset(), i64::MAX - 2);
}
