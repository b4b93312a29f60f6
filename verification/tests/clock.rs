use daystrom_tui::clock::{clock_text, first_text, format_time, time_text, Elapsed, Timestamp};

#[test]
fn elapsed_from_secs_counts_nanoseconds() {
    assert_eq!(Elapsed::from_secs(0), Elapsed { nanos: 0 });
    assert_eq!(Elapsed::from_secs(5), Elapsed { nanos: 5_000_000_000 });
    assert_eq!(Elapsed::from_secs(u64::MAX).nanos, (u64::MAX as u128) * 1_000_000_000);
}

#[test]
fn elapsed_from_millis_counts_nanoseconds() {
    assert_eq!(Elapsed::from_millis(250), Elapsed { nanos: 250_000_000 });
    assert_eq!(Elapsed::from_millis(u64::MAX).nanos, (u64::MAX as u128) * 1_000_000);
}

#[test]
fn elapsed_as_millis_drops_the_rest() {
    assert_eq!(Elapsed { nanos: 0 }.as_millis(), 0);
    assert_eq!(Elapsed { nanos: 999_999 }.as_millis(), 0);
    assert_eq!(Elapsed { nanos: 1_000_000 }.as_millis(), 1);
    assert_eq!(Elapsed { nanos: 1_999_999 }.as_millis(), 1);
    assert_eq!(Elapsed { nanos: 12_345_678_901 }.as_millis(), 12_345);
}

#[test]
fn elapsed_as_secs_drops_the_rest() {
    assert_eq!(Elapsed { nanos: 999_999_999 }.as_secs(), 0);
    assert_eq!(Elapsed { nanos: 1_000_000_000 }.as_secs(), 1);
    assert_eq!(Elapsed::from_secs(30).as_secs(), 30);
}

#[test]
fn elapsed_saturating_sub_stops_at_nothing() {
    let long = Elapsed { nanos: 250_000_000 };
    let short = Elapsed { nanos: 100_000_000 };
    assert_eq!(long.saturating_sub(short), Elapsed { nanos: 150_000_000 });
    assert_eq!(short.saturating_sub(long), Elapsed { nanos: 0 });
    assert_eq!(long.saturating_sub(long), Elapsed { nanos: 0 });
}

#[test]
fn timestamps_compare_by_their_fields() {
    let a = Timestamp { secs: 1_700_000_000, nanos: 5 };
    let b = a;
    assert_eq!(a, b);
    assert_ne!(a, Timestamp { secs: 1_700_000_000, nanos: 6 });
}

#[test]
fn clock_text_in_utc() {
    let epoch = Timestamp { secs: 0, nanos: 0 };
    assert_eq!(clock_text(epoch, "UTC"), Some("00:00:00 UTC".to_string()));
    let later = Timestamp { secs: 1_700_000_000, nanos: 0 };
    assert_eq!(clock_text(later, "UTC"), Some("22:13:20 UTC".to_string()));
}

#[test]
fn clock_text_in_a_named_zone() {
    let at = Timestamp { secs: 1_700_000_000, nanos: 0 };
    assert_eq!(clock_text(at, "Europe/Paris"), Some("23:13:20 CET".to_string()));
    assert_eq!(clock_text(at, "America/New_York"), Some("17:13:20 EST".to_string()));
    assert_eq!(clock_text(at, "Asia/Tokyo"), Some("07:13:20 JST".to_string()));
}

#[test]
fn clock_text_follows_summer_time() {
    let summer = Timestamp { secs: 1_688_212_800, nanos: 0 };
    assert_eq!(clock_text(summer, "UTC"), Some("12:00:00 UTC".to_string()));
    assert_eq!(clock_text(summer, "Europe/Paris"), Some("14:00:00 CEST".to_string()));
}

#[test]
fn clock_text_of_an_unknown_zone_is_in_utc() {
    let at = Timestamp { secs: 1_700_000_000, nanos: 0 };
    assert_eq!(clock_text(at, "Mars/Olympus"), Some("22:13:20 UTC".to_string()));
    assert_eq!(clock_text(at, ""), Some("22:13:20 UTC".to_string()));
}

#[test]
fn time_text_leaves_out_the_zone() {
    let at = Timestamp { secs: 1_700_000_000, nanos: 999_999_999 };
    assert_eq!(time_text(at, "UTC"), Some("22:13:20".to_string()));
    assert_eq!(time_text(at, "Europe/Paris"), Some("23:13:20".to_string()));
    assert_eq!(time_text(at, "nowhere"), Some("22:13:20".to_string()));
}

#[test]
fn format_time_goes_by_the_pattern() {
    let at = Timestamp { secs: 1_700_000_000, nanos: 0 };
    assert_eq!(format_time(at, "UTC", "%Y-%m-%d"), Some("2023-11-14".to_string()));
    assert_eq!(format_time(at, "Asia/Tokyo", "%Y-%m-%d %H:%M"), Some("2023-11-15 07:13".to_string()));
    assert_eq!(format_time(at, "UTC", ""), Some("".to_string()));
}

#[test]
fn format_time_of_what_cannot_be_written_is_nothing() {
    let at = Timestamp { secs: 1_700_000_000, nanos: 0 };
    assert_eq!(format_time(at, "UTC", "%"), None);
    assert_eq!(format_time(at, "UTC", "%Q"), None);
    let beyond = Timestamp { secs: i64::MAX, nanos: 0 };
    assert_eq!(clock_text(beyond, "UTC"), None);
    assert_eq!(time_text(Timestamp { secs: i64::MIN, nanos: 0 }, "Europe/Paris"), None);
}

#[test]
fn first_text_prefers_the_first() {
    let a = Some("a".to_string());
    let b = Some("b".to_string());
    assert_eq!(first_text(a.clone(), b.clone()), a);
    assert_eq!(first_text(None, b.clone()), b);
    assert_eq!(first_text(a.clone(), None), a);
    assert_eq!(first_text(None, None), None);
}
