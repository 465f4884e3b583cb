use ridesim::datetime::{
    datetime_from_unix_ms, datetime_to_unix_ms, format_datetime_from_unix_ms, format_hms_from_ms,
    format_optional_sim_datetime, format_sim_datetime_from_ms,
};

#[test]
fn formats_known_timestamps() {
    assert_eq!(format_datetime_from_unix_ms(0), "1970-01-01 00:00:00");
    assert_eq!(format_datetime_from_unix_ms(1_700_000_000_000), "2023-11-14 22:13:20");
    assert_eq!(format_datetime_from_unix_ms(951_782_400_000), "2000-02-29 00:00:00");
    assert_eq!(format_datetime_from_unix_ms(4_102_444_799_999), "2099-12-31 23:59:59");
}

#[test]
fn splits_timestamp_into_date_and_minute() {
    assert_eq!(datetime_from_unix_ms(1_700_000_000_000), (2023, 11, 14, 22, 13));
    assert_eq!(datetime_from_unix_ms(u64::MAX).0 > 2023, true);
}

#[test]
fn converts_dates_to_unix_ms() {
    assert_eq!(datetime_to_unix_ms(1970, 1, 1, 0, 0), 0);
    assert_eq!(datetime_to_unix_ms(2000, 3, 1, 0, 0), 951_868_800_000);
    assert_eq!(datetime_to_unix_ms(2023, 11, 14, 22, 13), 1_699_999_980_000);
    assert_eq!(datetime_to_unix_ms(1969, 12, 31, 0, 0), -86_400_000);
    // Days past a month's end run into the next month.
    assert_eq!(datetime_to_unix_ms(2023, 2, 29, 0, 0), datetime_to_unix_ms(2023, 3, 1, 0, 0));
}

#[test]
fn round_trip_rounds_down_to_the_minute() {
    for ms in [0u64, 59_999, 60_000, 1_700_000_000_000, 951_782_400_123, 4_102_444_799_999] {
        let (y, mo, d, h, mi) = datetime_from_unix_ms(ms);
        assert_eq!(datetime_to_unix_ms(y, mo, d, h, mi), (ms - ms % 60_000) as i64);
    }
}

#[test]
fn formats_durations() {
    assert_eq!(format_hms_from_ms(0), "00:00:00");
    assert_eq!(format_hms_from_ms(3_723_999), "01:02:03");
    assert_eq!(format_hms_from_ms(360_000_000), "100:00:00");
}

#[test]
fn sim_times_are_offset_from_the_epoch_and_clamped() {
    assert_eq!(format_sim_datetime_from_ms(1_700_000_000_000, 0), "2023-11-14 22:13:20");
    assert_eq!(format_sim_datetime_from_ms(1_700_000_000_000, 60_000), "2023-11-14 22:14:20");
    assert_eq!(format_sim_datetime_from_ms(-5_000, 1_000), "1970-01-01 00:00:00");
    assert_eq!(format_optional_sim_datetime(0, None), "-");
    assert_eq!(format_optional_sim_datetime(0, Some(1_000)), "1970-01-01 00:00:01");
}

#[test]
fn consecutive_timestamps_a_day_apart_give_consecutive_dates() {
    assert_eq!(format_datetime_from_unix_ms(951_782_400_000), "2000-02-29 00:00:00");
    assert_eq!(format_datetime_from_unix_ms(951_868_800_000), "2000-03-01 00:00:00");
    assert_eq!(format_datetime_from_unix_ms(4_107_456_000_000), "2100-02-28 00:00:00");
    assert_eq!(format_datetime_from_unix_ms(4_107_542_400_000), "2100-03-01 00:00:00");
}

#[test]
fn clock_before_the_epoch_reads_zero() {
    assert_eq!(ridesim::datetime::unix_ms_from_clock(None), 0);
    assert_eq!(ridesim::datetime::unix_ms_from_clock(Some(1_700_000_000_123)), 1_700_000_000_123);
    assert_eq!(ridesim::datetime::unix_ms_from_clock(Some((1u128 << 64) + 5)), 5);
}

#[test]
fn a_date_and_time_survive_the_trip_through_milliseconds() {
    for (y, m, d, h, mi) in [(2024, 2, 29, 23, 59), (1970, 1, 1, 0, 0), (9999, 12, 31, 12, 30)] {
        let ms = datetime_to_unix_ms(y, m, d, h, mi);
        assert!(ms >= 0);
        assert_eq!(ms % 60_000, 0);
        assert_eq!(datetime_from_unix_ms(ms as u64), (y, m, d, h, mi));
    }
}
