use fluxora_provenance::calendar::{civil_from_days, format_reading, format_unix, now_rfc3339};

#[test]
fn format_unix_is_rfc3339_utc() {
    assert_eq!(format_unix(0), "1970-01-01T00:00:00Z");
    assert_eq!(format_unix(86_400), "1970-01-02T00:00:00Z");
    assert_eq!(format_unix(1_700_000_000), "2023-11-14T22:13:20Z");
    assert_eq!(format_unix(1_893_456_000), "2030-01-01T00:00:00Z");
}

#[test]
fn leap_days_and_far_years_are_dated() {
    assert_eq!(format_unix(951_782_399), "2000-02-28T23:59:59Z");
    assert_eq!(format_unix(951_782_400), "2000-02-29T00:00:00Z");
    assert_eq!(format_unix(4_107_542_400), "2100-03-01T00:00:00Z");
    assert_eq!(format_unix(253_402_300_799), "9999-12-31T23:59:59Z");
    assert_eq!(format_unix(253_402_300_800), "10000-01-01T00:00:00Z");
    assert_eq!(format_unix(u64::MAX), "584554051223-11-09T07:00:15Z");
}

#[test]
fn days_before_the_epoch_have_dates() {
    assert_eq!(civil_from_days(0), (1970, 1, 1));
    assert_eq!(civil_from_days(-1), (1969, 12, 31));
    assert_eq!(civil_from_days(-719_468), (0, 3, 1));
    assert_eq!(civil_from_days(-719_469), (0, 2, 29));
    assert_eq!(civil_from_days(-719_528), (0, 1, 1));
    assert_eq!(civil_from_days(-719_529), (-1, 12, 31));
}

#[test]
fn different_days_have_different_dates() {
    let mut last = civil_from_days(-800_000);
    for day in -799_999..800_000 {
        let date = civil_from_days(day);
        assert!(last < date, "{day}");
        last = date;
    }
}

#[test]
fn the_clock_is_read() {
    assert_eq!(format_reading(None), "1970-01-01T00:00:00Z");
    assert_eq!(format_reading(Some(86_400)), "1970-01-02T00:00:00Z");
    let now = now_rfc3339();
    assert_eq!(now.len(), 20);
    assert!(now.as_str() > "2023-11-14T22:13:20Z", "{now}");
    assert!(now.ends_with('Z'));
}

#[test]
fn timestamps_are_in_the_order_of_the_seconds() {
    let mut last = format_unix(0);
    let mut secs: u64 = 0;
    while secs < 253_402_300_800 - 40_000_000 {
        secs += 1 + secs % 9_999_991 * 4;
        let next = format_unix(secs);
        assert_eq!(next.len(), 20, "{next}");
        assert!(last < next, "{last} {next}");
        last = next;
    }
    assert!(format_unix(253_402_300_799) > format_unix(253_402_300_800));
}
