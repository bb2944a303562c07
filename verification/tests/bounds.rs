use trace_reader::bounds::Bounds;
use trace_reader::cli_structs::UserBounds;
use trace_reader::data::{DigitiserEventList, DigitiserTrace, Event};
use trace_reader::messages::{ChannelTrace, EventListMessage, TraceMessage};
use trace_reader::timestamp::Timestamp;

fn bounds(time_min: u32, time_max: u32, intensity_min: u16, intensity_max: u16) -> Bounds {
    Bounds { time_min, time_max, intensity_min, intensity_max }
}

#[test]
fn a_trace_spans_its_bins_and_its_samples() {
    assert_eq!(Bounds::from_trace(&vec![5, 3, 9, 4]), Some(bounds(0, 4, 3, 9)));
    assert_eq!(Bounds::from_trace(&vec![7]), Some(bounds(0, 1, 7, 7)));
    assert_eq!(Bounds::from_trace(&vec![]), None);
}

#[test]
fn events_span_their_times_and_intensities() {
    let events = vec![
        Event { time: 30, intensity: 2 },
        Event { time: 10, intensity: 8 },
        Event { time: 20, intensity: 5 },
    ];
    assert_eq!(Bounds::from_events_list(&events), Some(bounds(10, 30, 2, 8)));
    assert_eq!(Bounds::from_events_list(&vec![]), None);
}

#[test]
fn merged_bounds_hold_both() {
    let merged = bounds(5, 10, 3, 4).merge(bounds(7, 20, 1, 2));
    assert_eq!(merged, bounds(5, 20, 1, 4));
    assert_eq!(Bounds::default(), bounds(u32::MAX, 0, u16::MAX, 0));
    assert_eq!(Bounds::default().merge(bounds(5, 10, 3, 4)), bounds(5, 10, 3, 4));
}

#[test]
fn bounds_of_a_digitiser_hold_every_channel_and_the_events() {
    let msg = TraceMessage {
        timestamp: Timestamp::new(1, 0),
        digitiser_id: 1,
        channels: vec![
            ChannelTrace { channel: 1, voltage: vec![5, 6, 7] },
            ChannelTrace { channel: 2, voltage: vec![] },
            ChannelTrace { channel: 3, voltage: vec![2, 9] },
        ],
    };
    let mut made = DigitiserTrace::create_from_message(&msg);
    assert_eq!(Bounds::from_digitiser_trace(&made), Some(bounds(0, 3, 2, 9)));
    let list = EventListMessage {
        timestamp: Timestamp::new(1, 0),
        digitiser_id: 1,
        time: vec![40, 2],
        voltage: vec![1, 3],
        channel: vec![1, 3],
    };
    let events = DigitiserEventList::create_from_message(&list);
    assert_eq!(Bounds::from_digitiser_events_list(&events), Some(bounds(2, 40, 1, 3)));
    made.events = Some(events);
    assert_eq!(Bounds::from_digitiser_trace(&made), Some(bounds(0, 40, 1, 9)));
}

#[test]
fn a_digitiser_without_samples_has_no_bounds() {
    let msg = TraceMessage {
        timestamp: Timestamp::new(1, 0),
        digitiser_id: 1,
        channels: vec![ChannelTrace { channel: 1, voltage: vec![] }],
    };
    let mut made = DigitiserTrace::create_from_message(&msg);
    let list = EventListMessage {
        timestamp: Timestamp::new(1, 0),
        digitiser_id: 1,
        time: vec![40],
        voltage: vec![1],
        channel: vec![1],
    };
    made.events = Some(DigitiserEventList::create_from_message(&list));
    assert_eq!(Bounds::from_digitiser_trace(&made), None);
    assert_eq!(Bounds::from_digitiser_events_list(&DigitiserEventList::new()), None);
}

#[test]
fn limits_fixed_by_the_user_replace_those_of_the_data() {
    let mut found = bounds(0, 100, 5, 50);
    found.ammend_with_user_input(&UserBounds {
        time_min: Some(10),
        time_max: None,
        intensity_min: None,
        intensity_max: Some(40),
    });
    assert_eq!(found, bounds(10, 100, 5, 40));
    assert_eq!(found.time_range(), (10, 100));
    assert_eq!(found.intensity_range(), (5, 40));
}
