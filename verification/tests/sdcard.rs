use embedded_sdmmc::Timestamp;
use fsw_lib::drivers::sdcard::{self, first_error, read_file_step, FileTimestamp, SdTimeSource};

fn fields(t: Timestamp) -> FileTimestamp {
    FileTimestamp {
        year_since_1970: t.year_since_1970,
        zero_indexed_month: t.zero_indexed_month,
        zero_indexed_day: t.zero_indexed_day,
        hours: t.hours,
        minutes: t.minutes,
        seconds: t.seconds,
    }
}

#[test]
fn timestamps_files_with_set_unix_time() {
    let mut clock = SdTimeSource::new();

    let before = clock.get_timestamp();
    assert_eq!(
        before,
        fields(Timestamp::from_calendar(2024, 1, 1, 0, 0, 0).unwrap()),
        "default before a time is set"
    );

    sdcard::set_unix_time(&mut clock, 1_757_870_000); // 2025-09-14T17:13:20Z
    let after = clock.get_timestamp();
    assert_eq!(after, fields(Timestamp::from_calendar(2025, 9, 14, 17, 13, 20).unwrap()));
}

#[test]
fn times_a_fat_timestamp_cannot_hold_fall_back_to_the_default() {
    let default = fields(Timestamp::from_calendar(2024, 1, 1, 0, 0, 0).unwrap());
    let mut clock = SdTimeSource::new();
    // 1979-12-31T23:59:59Z is before 1980
    sdcard::set_unix_time(&mut clock, 315_532_799);
    assert_eq!(clock.get_timestamp(), default);
    // 1980-01-01T00:00:00Z is the first time stored as is
    sdcard::set_unix_time(&mut clock, 315_532_800);
    assert_eq!(clock.get_timestamp(), fields(Timestamp::from_calendar(1980, 1, 1, 0, 0, 0).unwrap()));
    // The last second a u32 holds: 2106-02-07T06:28:15Z
    sdcard::set_unix_time(&mut clock, u32::MAX);
    assert_eq!(clock.get_timestamp(), fields(Timestamp::from_calendar(2106, 2, 7, 6, 28, 15).unwrap()));
    // Back to "not set"
    sdcard::set_unix_time(&mut clock, 0);
    assert_eq!(clock.get_timestamp(), default);
}

#[test]
fn a_file_operation_reports_its_own_error_before_the_close_error() {
    assert_eq!(first_error::<u8, &str>(Ok(7), Ok(())), Ok(7));
    assert_eq!(first_error::<u8, &str>(Ok(7), Err("close")), Err("close"));
    assert_eq!(first_error::<u8, &str>(Err("op"), Err("close")), Err("op"));
    assert_eq!(first_error::<u8, &str>(Err("op"), Ok(())), Err("op"));
}

#[test]
fn reading_stops_at_the_end_of_the_file_or_a_full_buffer() {
    // A 5-byte buffer over a longer file: one read fills it
    assert_eq!(read_file_step(0, 5, 5), (5, false));
    // Partial reads go on until the buffer is full
    assert_eq!(read_file_step(0, 12, 6), (6, true));
    assert_eq!(read_file_step(6, 12, 6), (12, false));
    // A read of nothing is the end of the file
    assert_eq!(read_file_step(3, 12, 0), (3, false));
}
