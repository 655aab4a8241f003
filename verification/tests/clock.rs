use grab::capture::generate_filename_at;
use grab::clock::{instant_from_offset, suffix_at, Instant, EARLIEST_SECOND, LATEST_SECOND};
use grab::history::HistoryStore;
use grab::types::CaptureMode;

#[test]
fn calendar_bounds_are_those_of_the_date_library() {
    assert!(chrono::DateTime::from_timestamp(EARLIEST_SECOND, 0).is_some());
    assert!(chrono::DateTime::from_timestamp(EARLIEST_SECOND - 1, 0).is_none());
    assert!(chrono::DateTime::from_timestamp(LATEST_SECOND, 999_999_999).is_some());
    assert!(chrono::DateTime::from_timestamp(LATEST_SECOND + 1, 0).is_none());
}

#[test]
fn representable_instants() {
    assert!(Instant { secs: 0, nanos: 0 }.is_representable());
    assert!(Instant { secs: EARLIEST_SECOND, nanos: 999_999_999 }.is_representable());
    assert!(Instant { secs: LATEST_SECOND, nanos: 0 }.is_representable());
    assert!(!Instant { secs: LATEST_SECOND + 1, nanos: 0 }.is_representable());
    assert!(!Instant { secs: EARLIEST_SECOND - 1, nanos: 0 }.is_representable());
    assert!(!Instant { secs: 0, nanos: 1_000_000_000 }.is_representable());
}

#[test]
fn millis_round_down() {
    assert_eq!(Instant { secs: 1, nanos: 999_999_999 }.timestamp_millis(), 1999);
    assert_eq!(Instant { secs: 0, nanos: 0 }.timestamp_millis(), 0);
    assert_eq!(Instant { secs: -1, nanos: 500_000_000 }.timestamp_millis(), -500);
    assert_eq!(Instant { secs: 1_710_000_000, nanos: 123_456_789 }.timestamp_millis(), 1_710_000_000_123);
}

#[test]
fn millis_agree_with_the_date_library() {
    let at = Instant { secs: 1_710_000_000, nanos: 123_456_789 };
    let same = chrono::DateTime::from_timestamp(at.secs, at.nanos).unwrap();
    assert_eq!(at.timestamp_millis(), same.timestamp_millis());
    let early = Instant { secs: -5, nanos: 1_000_000 };
    let same = chrono::DateTime::from_timestamp(early.secs, early.nanos).unwrap();
    assert_eq!(early.timestamp_millis(), same.timestamp_millis());
}

fn stamp(at: Instant) -> String {
    let mut store = HistoryStore::new(None);
    store.add_at("/a.png".to_string(), at);
    store.items().remove(0).timestamp
}

#[test]
fn texts_of_an_instant() {
    let at = Instant { secs: 1_710_000_000, nanos: 0 };
    assert_eq!(generate_filename_at("{date}", CaptureMode::FullScreen, at), "2024-03-09");
    assert_eq!(generate_filename_at("{time}", CaptureMode::FullScreen, at), "16-00-00");
    assert_eq!(stamp(at), "2024-03-09T16:00:00+00:00");
    let fine = Instant { secs: 1_710_000_000, nanos: 500_000_000 };
    assert_eq!(stamp(fine), "2024-03-09T16:00:00.500+00:00");
}

#[test]
fn texts_at_the_ends_of_the_calendar() {
    let first = Instant { secs: EARLIEST_SECOND, nanos: 0 };
    assert_eq!(generate_filename_at("{date}", CaptureMode::FullScreen, first), "-262143-01-01");
    assert_eq!(generate_filename_at("{time}", CaptureMode::FullScreen, first), "00-00-00");
    assert_eq!(
        generate_filename_at("{timestamp}", CaptureMode::FullScreen, first),
        "-8334601228800"
    );
    let last = Instant { secs: LATEST_SECOND, nanos: 999_999_999 };
    assert_eq!(generate_filename_at("{date}", CaptureMode::FullScreen, last), "+262142-12-31");
    assert_eq!(generate_filename_at("{time}", CaptureMode::FullScreen, last), "23-59-59");
    assert_eq!(stamp(last), "+262142-12-31T23:59:59.999999999+00:00");
    let before = Instant { secs: -1, nanos: 0 };
    assert_eq!(generate_filename_at("{date} {time}", CaptureMode::FullScreen, before), "1969-12-31 23-59-59");
}

#[test]
fn suffix_has_five_digits() {
    assert_eq!(suffix_at(Instant { secs: 0, nanos: 0 }), "00000");
    assert_eq!(suffix_at(Instant { secs: 0, nanos: 7 }), "00007");
    assert_eq!(suffix_at(Instant { secs: 0, nanos: 123_456_789 }), "56789");
    assert_eq!(suffix_at(Instant { secs: 0, nanos: 999_999_999 }), "99999");
    assert_eq!(suffix_at(Instant { secs: 0, nanos: 100_000 }), "00000");
}

#[test]
fn instants_from_offsets_behind_the_epoch() {
    assert_eq!(instant_from_offset(false, 0, 0), Some(Instant { secs: 0, nanos: 0 }));
    assert_eq!(
        instant_from_offset(false, 1_710_000_000, 123_456_789),
        Some(Instant { secs: 1_710_000_000, nanos: 123_456_789 })
    );
    assert_eq!(
        instant_from_offset(false, LATEST_SECOND as u64, 999_999_999),
        Some(Instant { secs: LATEST_SECOND, nanos: 999_999_999 })
    );
    assert_eq!(instant_from_offset(false, LATEST_SECOND as u64 + 1, 0), None);
    assert_eq!(instant_from_offset(false, u64::MAX, 0), None);
    assert_eq!(instant_from_offset(false, 5, 1_000_000_000), None);
}

#[test]
fn instants_from_offsets_before_the_epoch() {
    assert_eq!(instant_from_offset(true, 0, 0), Some(Instant { secs: 0, nanos: 0 }));
    assert_eq!(instant_from_offset(true, 5, 0), Some(Instant { secs: -5, nanos: 0 }));
    assert_eq!(
        instant_from_offset(true, 5, 250_000_000),
        Some(Instant { secs: -6, nanos: 750_000_000 })
    );
    assert_eq!(instant_from_offset(true, 0, 1), Some(Instant { secs: -1, nanos: 999_999_999 }));
    let first = (-EARLIEST_SECOND) as u64;
    assert_eq!(instant_from_offset(true, first, 0), Some(Instant { secs: EARLIEST_SECOND, nanos: 0 }));
    assert_eq!(instant_from_offset(true, first, 1), None);
    assert_eq!(
        instant_from_offset(true, first - 1, 1),
        Some(Instant { secs: EARLIEST_SECOND, nanos: 999_999_999 })
    );
    assert_eq!(instant_from_offset(true, first + 1, 0), None);
    assert_eq!(instant_from_offset(true, u64::MAX, 5), None);
    assert_eq!(instant_from_offset(true, 5, 2_000_000_000), None);
}

#[test]
fn instants_from_offsets_are_those_of_the_date_library() {
    let epoch = std::time::UNIX_EPOCH;
    let cases = [
        (false, 0u64, 0u32),
        (false, 1_710_000_000, 123_456_789),
        (true, 5, 0),
        (true, 5, 250_000_000),
        (true, 0, 1),
        (true, 86_400 * 365, 999_999_999),
    ];
    for (before_epoch, secs, nanos) in cases {
        let offset = std::time::Duration::new(secs, nanos);
        let time = if before_epoch { epoch - offset } else { epoch + offset };
        let same = chrono::DateTime::<chrono::Utc>::from(time);
        let at = instant_from_offset(before_epoch, secs, nanos).unwrap();
        assert_eq!((at.secs, at.nanos), (same.timestamp(), same.timestamp_subsec_nanos()));
        assert!(at.is_representable());
    }
}
