use trace_reader::cache::Cache;
use trace_reader::cli_structs::CollectType;
use trace_reader::data::{DigitiserEventList, DigitiserMetadata, DigitiserTrace, Event};
use trace_reader::engine::{DigitizerMessage, Engine};
use trace_reader::messages::{ChannelTrace, EventListMessage, TraceMessage};
use trace_reader::timestamp::Timestamp;

fn stamp(secs: i64) -> Timestamp {
    Timestamp::new(secs, 0)
}

fn key(secs: i64, id: u8) -> DigitiserMetadata {
    DigitiserMetadata { id, timestamp: stamp(secs) }
}

fn trace(secs: i64, id: u8) -> TraceMessage {
    TraceMessage {
        timestamp: stamp(secs),
        digitiser_id: id,
        channels: vec![
            ChannelTrace { channel: 3, voltage: vec![10, 20, 30] },
            ChannelTrace { channel: 4, voltage: vec![7] },
        ],
    }
}

fn events(secs: i64, id: u8) -> EventListMessage {
    EventListMessage {
        timestamp: stamp(secs),
        digitiser_id: id,
        time: vec![1, 2, 3],
        voltage: vec![11, 12, 13],
        channel: vec![3, 4, 3],
    }
}

#[test]
fn trace_then_events_of_same_key_are_merged() {
    let mut cache = Cache::new();
    assert!(cache.push_trace(&trace(5, 1)));
    assert!(cache.push_event_list_to_trace(&events(5, 1)));
    let found = cache.get_trace(&key(5, 1)).expect("the trace is cached");
    let attached = found.events.as_ref().expect("the events are attached");
    assert_eq!(attached.len(), 2);
    assert_eq!(
        attached.get(3).unwrap(),
        &vec![Event { time: 1, intensity: 11 }, Event { time: 3, intensity: 13 }]
    );
    assert_eq!(attached.get(4).unwrap(), &vec![Event { time: 2, intensity: 12 }]);
    assert_eq!(found.traces.get(3).unwrap(), &vec![10, 20, 30]);
    assert_eq!(cache.get_num_traces(), 1);
    assert_eq!(cache.get_num_events(), 0);
    assert_eq!(cache.get_num_traces_with_events(), 1);
}

#[test]
fn waiting_events_are_attached_by_the_merge_pass() {
    let mut cache = Cache::new();
    assert!(cache.push_events(&events(5, 1)));
    assert!(cache.push_trace(&trace(5, 1)));
    assert!(cache.get_trace(&key(5, 1)).unwrap().events.is_none());
    assert_eq!(cache.get_num_events(), 1);
    cache.attach_event_lists_to_trace();
    assert_eq!(cache.get_num_events(), 0);
    let found = cache.get_trace(&key(5, 1)).unwrap();
    assert_eq!(found.events.as_ref().unwrap().get(4).unwrap(), &vec![Event { time: 2, intensity: 12 }]);
}

#[test]
fn events_of_an_unknown_key_wait_and_leave_traces_alone() {
    let mut cache = Cache::new();
    assert!(cache.push_trace(&trace(5, 1)));
    assert!(cache.push_events(&events(6, 2)));
    cache.attach_event_lists_to_trace();
    assert_eq!(cache.get_num_events(), 1);
    let (waiting, list) = cache.events_at(0);
    assert_eq!(*waiting, key(6, 2));
    assert_eq!(list.len(), 2);
    assert_eq!(cache.get_num_traces(), 1);
    assert!(cache.get_trace(&key(5, 1)).unwrap().events.is_none());
    assert!(cache.get_trace(&key(6, 2)).is_none());
    assert_eq!(cache.get_num_traces_with_events(), 0);
}

#[test]
fn events_pushed_to_a_missing_trace_are_dropped() {
    let mut cache = Cache::new();
    assert!(cache.push_trace(&trace(5, 1)));
    assert!(!cache.push_event_list_to_trace(&events(5, 2)));
    assert!(!cache.push_event_list_to_trace(&events(6, 1)));
    assert_eq!(cache.get_num_events(), 0);
    assert_eq!(cache.get_num_traces(), 1);
    assert!(cache.get_trace(&key(5, 1)).unwrap().events.is_none());
}

#[test]
fn first_record_of_an_identity_stays() {
    let mut cache = Cache::new();
    assert!(cache.push_trace(&trace(5, 1)));
    let mut other = trace(5, 1);
    other.channels = vec![ChannelTrace { channel: 9, voltage: vec![1] }];
    assert!(!cache.push_trace(&other));
    assert_eq!(cache.get_num_traces(), 1);
    let found = cache.get_trace(&key(5, 1)).unwrap();
    assert!(found.traces.contains_key(3));
    assert!(!found.traces.contains_key(9));
    assert!(cache.push_events(&events(7, 1)));
    let mut later = events(7, 1);
    later.channel = vec![8, 8, 8];
    assert!(!cache.push_events(&later));
    assert_eq!(cache.get_num_events(), 1);
    assert!(cache.events_at(0).1.contains_key(3));
    assert!(!cache.events_at(0).1.contains_key(8));
}

#[test]
fn later_events_replace_those_attached_to_a_trace() {
    let mut cache = Cache::new();
    assert!(cache.push_trace(&trace(5, 1)));
    assert!(cache.push_event_list_to_trace(&events(5, 1)));
    let mut later = events(5, 1);
    later.channel = vec![8, 8, 8];
    assert!(cache.push_event_list_to_trace(&later));
    let attached = cache.get_trace(&key(5, 1)).unwrap().events.as_ref().unwrap();
    assert_eq!(attached.len(), 1);
    assert_eq!(attached.get(8).unwrap().len(), 3);
}

#[test]
fn the_merge_pass_attaches_only_where_identities_match() {
    let mut cache = Cache::new();
    for (secs, id) in [(5, 1), (5, 2), (6, 1)] {
        assert!(cache.push_trace(&trace(secs, id)));
    }
    for (secs, id) in [(6, 1), (7, 1), (5, 2), (6, 2)] {
        assert!(cache.push_events(&events(secs, id)));
    }
    cache.attach_event_lists_to_trace();
    assert_eq!(cache.get_num_traces(), 3);
    assert_eq!(cache.get_num_traces_with_events(), 2);
    assert!(cache.get_trace(&key(5, 1)).unwrap().events.is_none());
    assert!(cache.get_trace(&key(5, 2)).unwrap().events.is_some());
    assert!(cache.get_trace(&key(6, 1)).unwrap().events.is_some());
    assert_eq!(cache.get_num_events(), 2);
    assert_eq!(*cache.events_at(0).0, key(7, 1));
    assert_eq!(*cache.events_at(1).0, key(6, 2));
    assert_eq!(*cache.trace_at(0).0, key(5, 1));
    assert_eq!(*cache.trace_at(2).0, key(6, 1));
}

#[test]
fn identities_differ_by_digitiser_or_by_timestamp() {
    let mut cache = Cache::default();
    assert!(cache.push_trace(&trace(5, 1)));
    assert!(cache.push_trace(&trace(5, 2)));
    assert!(cache.push_trace(&trace(6, 1)));
    let mut nanos = trace(5, 1);
    nanos.timestamp = Timestamp::new(5, 1);
    assert!(cache.push_trace(&nanos));
    assert_eq!(cache.get_num_traces(), 4);
}

#[test]
fn of_two_traces_of_one_channel_the_later_stays() {
    let msg = TraceMessage {
        timestamp: stamp(1),
        digitiser_id: 1,
        channels: vec![
            ChannelTrace { channel: 3, voltage: vec![1, 2] },
            ChannelTrace { channel: 5, voltage: vec![] },
            ChannelTrace { channel: 3, voltage: vec![9] },
        ],
    };
    assert!(msg.has_channel(5));
    assert!(!msg.has_channel(4));
    let made = DigitiserTrace::create_from_message(&msg);
    assert!(made.events.is_none());
    assert_eq!(made.traces.len(), 2);
    assert_eq!(made.traces.get(3).unwrap(), &vec![9]);
    assert_eq!(made.traces.get(5).unwrap(), &Vec::<u16>::new());
    assert_eq!(made.traces.key_at(0), 3);
    assert_eq!(made.traces.key_at(1), 5);
    assert_eq!(made.traces.position(5), Some(1));
    assert_eq!(made.traces.get(4), None);
}

#[test]
fn events_are_sorted_by_channel_in_their_order() {
    let msg = EventListMessage {
        timestamp: stamp(1),
        digitiser_id: 1,
        time: vec![10, 20, 30, 40],
        voltage: vec![1, 2, 3, 4],
        channel: vec![7, 2, 7, 7],
    };
    assert!(msg.is_valid());
    let made = DigitiserEventList::create_from_message(&msg);
    assert_eq!(made.len(), 2);
    assert_eq!(made.key_at(0), 7);
    assert_eq!(
        made.get(7).unwrap(),
        &vec![
            Event { time: 10, intensity: 1 },
            Event { time: 30, intensity: 3 },
            Event { time: 40, intensity: 4 }
        ]
    );
    assert_eq!(made.get(2).unwrap(), &vec![Event { time: 20, intensity: 2 }]);
}

#[test]
fn an_event_list_with_a_missing_part_is_not_valid() {
    let mut msg = events(1, 1);
    assert!(msg.is_valid());
    msg.time.pop();
    assert!(!msg.is_valid());
    assert!(!DigitizerMessage::EventList(msg).is_valid());
    let mut other = events(1, 1);
    other.voltage.push(1);
    assert!(!other.is_valid());
    assert!(DigitizerMessage::Trace(trace(1, 1)).is_valid());
}

#[test]
fn an_engine_collects_what_its_mode_names() {
    let records = vec![
        DigitizerMessage::Trace(trace(5, 1)),
        DigitizerMessage::EventList(events(5, 1)),
        DigitizerMessage::EventList(events(6, 1)),
        DigitizerMessage::Trace(trace(6, 2)),
    ];
    let mut counts = Vec::new();
    for mode in [CollectType::Traces, CollectType::Events, CollectType::All] {
        let mut engine = Engine::new(mode);
        for record in &records {
            engine.process_message(record);
        }
        counts.push(engine.get_count());
        let cache = engine.into_cache();
        match mode {
            CollectType::Traces => assert_eq!(cache.get_num_events(), 0),
            CollectType::Events => assert_eq!(cache.get_num_traces(), 0),
            CollectType::All => assert_eq!(cache.get_num_traces(), 2),
        }
    }
    assert_eq!(counts, vec![2, 2, 1]);
}
