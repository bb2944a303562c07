use trace_reader::timestamp::{Timestamp, MILLIS_MAX, MILLIS_MIN};

#[test]
fn instants_are_ordered_by_seconds_then_nanoseconds() {
    let early = Timestamp::new(10, 999_999_999);
    let late = Timestamp::new(11, 0);
    assert!(late.is_after(&early));
    assert!(late.is_at_or_after(&early));
    assert!(early.is_before(&late));
    assert!(early.is_at_or_before(&late));
    assert!(!early.is_after(&late));
    assert!(!early.is_at_or_after(&late));
}

#[test]
fn an_instant_is_neither_before_nor_after_itself() {
    let t = Timestamp::new(-3, 17);
    assert!(!t.is_after(&t));
    assert!(!t.is_before(&t));
    assert!(t.is_at_or_after(&t));
    assert!(t.is_at_or_before(&t));
    assert_eq!(t, Timestamp::new(-3, 17));
}

#[test]
fn negative_seconds_come_before_the_epoch() {
    let before = Timestamp::new(-1, 500);
    let epoch = Timestamp::default();
    assert_eq!(epoch, Timestamp::new(0, 0));
    assert!(before.is_before(&epoch));
    assert!(Timestamp::new(-1, 499).is_before(&before));
}

#[test]
fn milliseconds_split_into_seconds_and_nanoseconds() {
    assert_eq!(Timestamp::from_millis(1_500), Some(Timestamp::new(1, 500_000_000)));
    assert_eq!(Timestamp::from_millis(0), Some(Timestamp::new(0, 0)));
    assert_eq!(
        Timestamp::from_millis(1_700_000_000_123),
        Some(Timestamp::new(1_700_000_000, 123_000_000))
    );
}

#[test]
fn milliseconds_before_the_epoch_round_towards_the_past() {
    assert_eq!(Timestamp::from_millis(-1), Some(Timestamp::new(-1, 999_000_000)));
    assert_eq!(Timestamp::from_millis(-1_000), Some(Timestamp::new(-1, 0)));
    assert_eq!(Timestamp::from_millis(-1_001), Some(Timestamp::new(-2, 999_000_000)));
}

#[test]
fn the_first_and_the_last_count_of_the_calendar_have_an_instant() {
    assert_eq!(MILLIS_MIN, -8_334_601_228_800_000);
    assert_eq!(MILLIS_MAX, 8_210_266_876_799_999);
    assert_eq!(Timestamp::from_millis(MILLIS_MIN), Some(Timestamp::new(-8_334_601_228_800, 0)));
    assert_eq!(
        Timestamp::from_millis(MILLIS_MAX),
        Some(Timestamp::new(8_210_266_876_799, 999_000_000))
    );
    assert_eq!(
        Timestamp::from_millis(253_402_300_799_999),
        Some(Timestamp::new(253_402_300_799, 999_000_000))
    );
    assert_eq!(
        Timestamp::from_millis(-62_135_596_800_000),
        Some(Timestamp::new(-62_135_596_800, 0))
    );
}

#[test]
fn a_count_beyond_the_calendar_has_no_instant() {
    assert_eq!(Timestamp::from_millis(MILLIS_MAX + 1), None);
    assert_eq!(Timestamp::from_millis(MILLIS_MIN - 1), None);
    assert_eq!(Timestamp::from_millis(i64::MAX), None);
    assert_eq!(Timestamp::from_millis(i64::MIN), None);
}
