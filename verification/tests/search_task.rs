use trace_reader::cache::Cache;
use trace_reader::cli_structs::Steps;
use trace_reader::data::{DigitiserMetadata, Event};
use trace_reader::finder::engine::SearchEngine;
use trace_reader::finder::log::{search_logs, MemoryLog};
use trace_reader::finder::task::{
    merge, SearchTask, TaskEvent, TaskRequest, Topic, TopicRequest, TopicSearch,
};
use trace_reader::finder::{SearchStatus, SearchTarget};
use trace_reader::messages::{ChannelTrace, EventListMessage, TraceMessage};
use trace_reader::timestamp::Timestamp;

fn stamp(secs: i64) -> Timestamp {
    Timestamp::new(secs, 0)
}

fn trace(secs: i64, id: u8) -> TraceMessage {
    TraceMessage {
        timestamp: stamp(secs),
        digitiser_id: id,
        channels: vec![ChannelTrace { channel: 1, voltage: vec![secs as u16, id as u16] }],
    }
}

fn events(secs: i64, id: u8) -> EventListMessage {
    EventListMessage {
        timestamp: stamp(secs),
        digitiser_id: id,
        time: vec![secs as u32],
        voltage: vec![id as u16],
        channel: vec![1],
    }
}

/// Frames at the seconds 100, 101, ... of `frames` frames, each of the digitisers 1
/// to 3.
fn trace_log(frames: i64) -> Vec<TraceMessage> {
    (0..frames).flat_map(|f| (1..=3).map(move |id| trace(100 + f, id))).collect()
}

fn event_log(frames: i64) -> Vec<EventListMessage> {
    (0..frames).flat_map(|f| (1..=3).map(move |id| events(100 + f, id))).collect()
}

fn target(secs: i64, ids: &[u8], number: usize) -> SearchTarget {
    SearchTarget {
        timestamp: stamp(secs),
        channels: vec![1],
        digitiser_ids: ids.to_vec(),
        number,
    }
}

fn steps(min: i64, coef: i64, passes: u32) -> Steps {
    let steps = Steps { min_step_size: min, step_mul_coef: coef, num_step_passes: passes };
    assert!(steps.is_valid());
    steps
}

/// A log with its cursor, read as the library's log in memory is.
struct Reader<M> {
    records: Vec<M>,
    cursor: usize,
}

fn open<M>(reader: &mut Reader<M>) {
    reader.cursor = reader.records.len();
}

fn fetch_at<M: Clone>(reader: &mut Reader<M>, offset: i64) -> Option<M> {
    let len = reader.records.len() as i64;
    if 0 <= offset && offset < len {
        let index = (len - 1 - offset) as usize;
        reader.cursor = index + 1;
        Some(reader.records[index].clone())
    } else {
        reader.cursor = 0;
        None
    }
}

fn fetch_next<M: Clone>(reader: &mut Reader<M>) -> Option<M> {
    let fetched = reader.records.get(reader.cursor).cloned();
    if fetched.is_some() {
        reader.cursor += 1;
    }
    fetched
}

/// Runs `task` on the two logs until it is over, or until it has met `halt_after`
/// requests and is told to halt. Returns the statuses that it sent.
fn run(
    task: &mut SearchTask,
    traces: &mut Reader<TraceMessage>,
    lists: &mut Reader<EventListMessage>,
    halt_after: Option<usize>,
) -> Vec<SearchStatus> {
    let mut sent = Vec::new();
    let mut met = 0;
    loop {
        if halt_after == Some(met) {
            task.halt();
        }
        let event = match task.request() {
            TaskRequest::Emit(status) => {
                sent.push(status);
                TaskEvent::Done
            }
            TaskRequest::Open(Topic::Trace) => {
                open(traces);
                TaskEvent::Done
            }
            TaskRequest::Open(Topic::EventList) => {
                open(lists);
                TaskEvent::Done
            }
            TaskRequest::FetchAt(Topic::Trace, offset) => TaskEvent::Trace(fetch_at(traces, offset)),
            TaskRequest::FetchAt(Topic::EventList, offset) => {
                TaskEvent::EventList(fetch_at(lists, offset))
            }
            TaskRequest::FetchNext(Topic::Trace) => TaskEvent::Trace(fetch_next(traces)),
            TaskRequest::FetchNext(Topic::EventList) => TaskEvent::EventList(fetch_next(lists)),
            TaskRequest::Finished => break,
        };
        task.advance(event);
        met += 1;
    }
    sent
}

fn keys(cache: &Cache) -> Vec<(i64, u8)> {
    (0..cache.get_num_traces())
        .map(|i| {
            let (key, _) = cache.trace_at(i);
            (key.timestamp.secs, key.id)
        })
        .collect()
}

#[test]
fn full_search_collects_frames_after_target_with_their_events() {
    let mut traces = Reader { records: trace_log(50), cursor: 0 };
    let mut lists = Reader { records: event_log(50), cursor: 0 };
    let mut task = SearchTask::new(target(120, &[1, 3], 2), steps(1, 4, 3));
    let _ = run(&mut task, &mut traces, &mut lists, None);
    assert!(task.is_over());
    let cache = task.into_cache().expect("the search succeeded");
    assert_eq!(keys(&cache), vec![(121, 1), (121, 3), (122, 1), (122, 3)]);
    assert_eq!(cache.get_num_traces_with_events(), 4);
    assert_eq!(cache.get_num_events(), 0);
    let key = DigitiserMetadata { id: 3, timestamp: stamp(122) };
    let found = cache.get_trace(&key).unwrap();
    assert_eq!(found.traces.get(1).unwrap(), &vec![122, 3]);
    let attached = found.events.as_ref().unwrap();
    assert_eq!(attached.get(1).unwrap(), &vec![Event { time: 122, intensity: 3 }]);
}

#[test]
fn statuses_come_in_order_and_end_with_successful() {
    let mut traces = Reader { records: trace_log(50), cursor: 0 };
    let mut lists = Reader { records: event_log(50), cursor: 0 };
    let mut task = SearchTask::new(target(120, &[1, 3], 2), steps(1, 4, 2));
    let sent = run(&mut task, &mut traces, &mut lists, None);
    assert_eq!(
        sent,
        vec![
            SearchStatus::TraceSearchInProgress(0, 3),
            SearchStatus::TraceSearchInProgress(0, 3),
            SearchStatus::TraceSearchInProgress(1, 3),
            SearchStatus::TraceSearchInProgress(2, 3),
            SearchStatus::TraceSearchInProgress(3, 3),
            SearchStatus::EventListSearchInProgress(0, 3),
            SearchStatus::EventListSearchInProgress(0, 3),
            SearchStatus::EventListSearchInProgress(1, 3),
            SearchStatus::EventListSearchInProgress(2, 3),
            SearchStatus::EventListSearchInProgress(3, 3),
            SearchStatus::Successful,
        ]
    );
}

#[test]
fn same_search_run_twice_gives_same_results() {
    let mut traces = Reader { records: trace_log(50), cursor: 0 };
    let mut lists = Reader { records: event_log(50), cursor: 0 };
    let goal = target(117, &[2], 3);
    let mut first = SearchTask::new(goal.clone(), steps(2, 3, 3));
    let first_sent = run(&mut first, &mut traces, &mut lists, None);
    let first_cache = first.into_cache().unwrap();
    // The readers stay where the first search left them.
    let mut second = SearchTask::new(goal, steps(2, 3, 3));
    let second_sent = run(&mut second, &mut traces, &mut lists, None);
    let second_cache = second.into_cache().unwrap();
    assert_eq!(first_sent, second_sent);
    assert_eq!(keys(&first_cache), keys(&second_cache));
    assert!(!keys(&first_cache).is_empty());
    assert_eq!(
        first_cache.get_num_traces_with_events(),
        second_cache.get_num_traces_with_events()
    );
}

#[test]
fn memory_log_searched_twice_gives_same_positions() {
    let records = trace_log(50);
    let mut log = MemoryLog::new(&records);
    let goal = target(120, &[1, 3], 2);
    let first = log.search(&goal, &steps(1, 4, 3));
    let second = log.search(&goal, &steps(1, 4, 3));
    assert_eq!(first, second);
    let found: Vec<usize> = first.iter().map(|r| r.position).collect();
    assert_eq!(found, vec![63, 65, 66, 68]);
}

#[test]
fn search_machine_and_memory_log_agree() {
    let records = trace_log(50);
    let goal = target(120, &[1, 3], 2);
    let mut log = MemoryLog::new(&records);
    let positions: Vec<usize> =
        log.search(&goal, &steps(1, 4, 3)).iter().map(|r| r.position).collect();
    let mut traces = Reader { records: records.clone(), cursor: 0 };
    let mut search: TopicSearch<TraceMessage> = TopicSearch::new(steps(1, 4, 3));
    loop {
        match search.request() {
            TopicRequest::Progress(_) => search.advance(&goal, None),
            TopicRequest::Open => {
                open(&mut traces);
                search.advance(&goal, None)
            }
            TopicRequest::FetchAt(offset) => {
                let fetched = fetch_at(&mut traces, offset);
                search.advance(&goal, fetched)
            }
            TopicRequest::FetchNext => {
                let fetched = fetch_next(&mut traces);
                search.advance(&goal, fetched)
            }
            TopicRequest::Done => break,
        }
    }
    assert!(search.is_done());
    let expected: Vec<TraceMessage> = positions.iter().map(|&p| records[p].clone()).collect();
    assert_eq!(search.into_results(), expected);
}

#[test]
fn halt_before_the_end_gives_halted_and_no_cache() {
    let mut traces = Reader { records: trace_log(50), cursor: 0 };
    let mut lists = Reader { records: event_log(50), cursor: 0 };
    let mut task = SearchTask::new(target(120, &[1, 3], 2), steps(1, 4, 3));
    let sent = run(&mut task, &mut traces, &mut lists, Some(9));
    assert_eq!(sent.last(), Some(&SearchStatus::Halted));
    assert!(!sent.contains(&SearchStatus::Successful));
    assert_eq!(sent.iter().filter(|s| **s == SearchStatus::Halted).count(), 1);
    assert!(task.is_over());
    assert_eq!(task.request(), TaskRequest::Finished);
    assert!(task.into_cache().is_none());
}

#[test]
fn halt_before_the_last_status_is_sent_still_halts() {
    let mut traces = Reader { records: trace_log(5), cursor: 0 };
    let mut lists = Reader { records: event_log(5), cursor: 0 };
    let mut task = SearchTask::new(target(100, &[1], 1), steps(1, 2, 1));
    loop {
        let request = task.request();
        if request == TaskRequest::Emit(SearchStatus::Successful) {
            break;
        }
        let event = match request {
            TaskRequest::FetchAt(Topic::Trace, o) => TaskEvent::Trace(fetch_at(&mut traces, o)),
            TaskRequest::FetchAt(Topic::EventList, o) => {
                TaskEvent::EventList(fetch_at(&mut lists, o))
            }
            TaskRequest::FetchNext(Topic::Trace) => TaskEvent::Trace(fetch_next(&mut traces)),
            TaskRequest::FetchNext(Topic::EventList) => {
                TaskEvent::EventList(fetch_next(&mut lists))
            }
            TaskRequest::Open(Topic::Trace) => {
                open(&mut traces);
                TaskEvent::Done
            }
            TaskRequest::Open(Topic::EventList) => {
                open(&mut lists);
                TaskEvent::Done
            }
            _ => TaskEvent::Done,
        };
        task.advance(event);
    }
    task.halt();
    assert_eq!(task.request(), TaskRequest::Emit(SearchStatus::Halted));
    task.advance(TaskEvent::Done);
    assert!(task.is_over());
    assert!(task.into_cache().is_none());
}

#[test]
fn halt_after_success_changes_nothing() {
    let mut traces = Reader { records: trace_log(5), cursor: 0 };
    let mut lists = Reader { records: event_log(5), cursor: 0 };
    let mut task = SearchTask::new(target(100, &[1], 1), steps(1, 2, 1));
    let sent = run(&mut task, &mut traces, &mut lists, None);
    assert_eq!(sent.last(), Some(&SearchStatus::Successful));
    task.halt();
    assert_eq!(task.request(), TaskRequest::Finished);
    assert!(task.into_cache().is_some());
}

#[test]
fn search_of_empty_logs_succeeds_with_empty_cache() {
    let mut traces: Reader<TraceMessage> = Reader { records: vec![], cursor: 0 };
    let mut lists: Reader<EventListMessage> = Reader { records: vec![], cursor: 0 };
    let mut task = SearchTask::new(target(100, &[1], 1), steps(50, 10, 5));
    let sent = run(&mut task, &mut traces, &mut lists, None);
    assert_eq!(sent.last(), Some(&SearchStatus::Successful));
    let cache = task.into_cache().unwrap();
    assert_eq!(cache.get_num_traces(), 0);
    assert_eq!(cache.get_num_events(), 0);
}

#[test]
fn an_event_of_the_wrong_log_counts_as_no_record() {
    let mut task = SearchTask::new(target(100, &[1], 1), steps(1, 2, 1));
    task.advance(TaskEvent::Done);
    task.advance(TaskEvent::Done);
    task.advance(TaskEvent::Done);
    assert_eq!(task.request(), TaskRequest::FetchAt(Topic::Trace, 1));
    task.advance(TaskEvent::EventList(Some(events(200, 1))));
    assert_eq!(
        task.request(),
        TaskRequest::Emit(SearchStatus::TraceSearchInProgress(1, 2))
    );
}

#[test]
fn events_without_a_trace_are_dropped_by_the_merge() {
    let cache = merge(&vec![trace(5, 1), trace(5, 1), trace(6, 2)], &vec![events(5, 1), events(9, 9)]);
    assert_eq!(keys(&cache), vec![(5, 1), (6, 2)]);
    assert_eq!(cache.get_num_traces_with_events(), 1);
    assert_eq!(cache.get_num_events(), 0);
}

#[test]
fn init_search_while_running_is_refused() {
    let mut engine: SearchEngine<u32> = SearchEngine::new(77);
    assert!(engine.init_search(target(100, &[1], 1)));
    let (consumer, goal) = engine.launch().expect("an idle engine launches");
    assert_eq!(consumer, 77);
    assert_eq!(goal, target(100, &[1], 1));
    assert!(!engine.init_search(target(200, &[2], 2)));
    assert!(engine.launch().is_none());
    assert!(engine.cache().is_none());
    engine.accept_results(consumer, Cache::new());
    assert!(engine.cache().is_some());
    assert!(engine.cache().is_none());
    assert!(engine.init_search(target(200, &[2], 2)));
}

#[test]
fn a_halted_search_returns_the_accessor_without_a_cache() {
    let mut engine: SearchEngine<&str> = SearchEngine::new("accessor");
    assert!(engine.init_search(target(100, &[1], 1)));
    let (consumer, _) = engine.launch().unwrap();
    engine.accept_status(SearchStatus::Halted);
    engine.accept_halt(consumer);
    assert_eq!(engine.status(), Some(SearchStatus::Halted));
    assert_eq!(engine.status(), None);
    assert!(engine.cache().is_none());
    assert!(engine.init_search(target(100, &[1], 1)));
}

#[test]
fn a_later_target_replaces_one_that_waits() {
    let mut engine: SearchEngine<u8> = SearchEngine::new(1);
    assert!(engine.launch().is_none());
    assert!(engine.init_search(target(100, &[1], 1)));
    assert!(engine.init_search(target(300, &[3], 3)));
    let (_, goal) = engine.launch().unwrap();
    assert_eq!(goal, target(300, &[3], 3));
}

#[test]
fn search_in_memory_agrees_with_the_search_machine() {
    let goal = target(120, &[1, 3], 2);
    let found = search_logs(&trace_log(50), &event_log(50), &goal, &steps(1, 4, 3));
    assert_eq!(keys(&found), vec![(121, 1), (121, 3), (122, 1), (122, 3)]);
    assert_eq!(found.get_num_traces_with_events(), 4);
    let mut traces = Reader { records: trace_log(50), cursor: 0 };
    let mut lists = Reader { records: event_log(50), cursor: 0 };
    let mut task = SearchTask::new(goal, steps(1, 4, 3));
    let _ = run(&mut task, &mut traces, &mut lists, None);
    let cache = task.into_cache().unwrap();
    assert_eq!(keys(&cache), keys(&found));
}

#[test]
fn search_in_memory_twice_gives_identical_caches() {
    let goal = target(130, &[2], 4);
    let traces = trace_log(40);
    let lists = event_log(40);
    let first = search_logs(&traces, &lists, &goal, &steps(50, 10, 5));
    let second = search_logs(&traces, &lists, &goal, &steps(50, 10, 5));
    assert_eq!(keys(&first), keys(&second));
    assert_eq!(keys(&first), vec![(130, 2), (131, 2), (132, 2), (133, 2)]);
    assert_eq!(first.get_num_traces_with_events(), 4);
    assert_eq!(second.get_num_traces_with_events(), 4);
}

#[test]
fn events_of_frames_that_the_trace_search_missed_are_dropped() {
    let goal = target(105, &[1], 1);
    let traces = trace_log(10);
    // The event-list log ends with a frame that the trace log does not have.
    let mut lists = event_log(10);
    lists.retain(|e| e.timestamp.secs != 106);
    let found = search_logs(&traces, &lists, &goal, &steps(1, 2, 2));
    assert_eq!(keys(&found), vec![(106, 1)]);
    assert_eq!(found.get_num_traces_with_events(), 0);
    assert_eq!(found.get_num_events(), 0);
}
