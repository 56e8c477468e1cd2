//! File timestamps for the SD card's FAT filesystem.
//!
//! Files are stamped with the Unix time given to [`set_unix_time`], or with
//! 2024-01-01 00:00:00 until a time has been set. Also the decisions of the
//! whole-file operations: which error a file operation reports, and when a
//! read of a file stops.
use vstd::prelude::*;
use crate::calendar::{
    chrono_civil_from_unix, civil_from_unix, days_in_month, in_chrono_range, lemma_year_starts,
    lemma_years_span,
};

verus! {

/// A FAT file timestamp, as embedded-sdmmc's `Timestamp` holds it.
#[derive(Debug, Clone, Copy, PartialEq, Eq, Structural)]
pub struct FileTimestamp {
    /// Add 1970 to get the calendar year.
    pub year_since_1970: u8,
    /// Add one to get the calendar month.
    pub zero_indexed_month: u8,
    /// Add one to get the calendar day.
    pub zero_indexed_day: u8,
    pub hours: u8,
    pub minutes: u8,
    pub seconds: u8,
}

/// 2024-01-01 00:00:00, used until a time has been set.
pub open spec fn default_timestamp() -> FileTimestamp {
    FileTimestamp {
        year_since_1970: 54,
        zero_indexed_month: 0,
        zero_indexed_day: 0,
        hours: 0,
        minutes: 0,
        seconds: 0,
    }
}

/// FAT timestamps cannot represent years before 1980.
pub const FAT_MIN_YEAR: i32 = 1980;

/// What embedded-sdmmc's `Timestamp::from_calendar` makes of a calendar date
/// and time: years 1970-2225, months 1-12, days 1-31, hours up to 23,
/// minutes and seconds up to 59; anything else is refused.
pub open spec fn calendar_timestamp(
    year: u16,
    month: u8,
    day: u8,
    hours: u8,
    minutes: u8,
    seconds: u8,
) -> Option<FileTimestamp> {
    if 1970 <= year <= 1970 + 255 && 1 <= month <= 12 && 1 <= day <= 31 && hours <= 23 && minutes
        <= 59 && seconds <= 59 {
        Some(
            FileTimestamp {
                year_since_1970: (year - 1970) as u8,
                zero_indexed_month: (month - 1) as u8,
                zero_indexed_day: (day - 1) as u8,
                hours,
                minutes,
                seconds,
            },
        )
    } else {
        None
    }
}

/// embedded-sdmmc's `Timestamp::from_calendar`, its fields copied out.
/// Claimed: it refuses exactly what [`calendar_timestamp`] refuses and
/// otherwise holds the year since 1970, the zero-indexed month and day, and
/// the time of day.
#[verifier::external_body]
fn timestamp_from_calendar(
    year: u16,
    month: u8,
    day: u8,
    hours: u8,
    minutes: u8,
    seconds: u8,
) -> (r: Option<FileTimestamp>)
    ensures
        r == calendar_timestamp(year, month, day, hours, minutes, seconds),
{
    match embedded_sdmmc::Timestamp::from_calendar(year, month, day, hours, minutes, seconds) {
        Ok(t) => Some(
            FileTimestamp {
                year_since_1970: t.year_since_1970,
                zero_indexed_month: t.zero_indexed_month,
                zero_indexed_day: t.zero_indexed_day,
                hours: t.hours,
                minutes: t.minutes,
                seconds: t.seconds,
            },
        ),
        Err(_) => None,
    }
}

/// The timestamp for Unix time `ts`: the default while `ts` is 0 (not set),
/// else its UTC date and time, or the default when that is before 1980 or
/// cannot be stored.
pub open spec fn timestamp_for(ts: u32) -> FileTimestamp {
    if ts == 0 {
        default_timestamp()
    } else {
        match chrono_civil_from_unix(ts as i64) {
            Some(t) => if t.0 >= FAT_MIN_YEAR {
                match calendar_timestamp(
                    t.0 as u16,
                    t.1 as u8,
                    t.2 as u8,
                    t.3 as u8,
                    t.4 as u8,
                    t.5 as u8,
                ) {
                    Some(x) => x,
                    None => default_timestamp(),
                }
            } else {
                default_timestamp()
            },
            None => default_timestamp(),
        }
    }
}

/// The clock that stamps files: the Unix time last set, 0 until then.
pub struct SdTimeSource {
    unix_time: u32,
}

impl SdTimeSource {
    pub closed spec fn spec_unix_time(&self) -> u32 {
        self.unix_time
    }

    /// A clock with no time set yet.
    pub fn new() -> (r: Self)
        ensures
            r.spec_unix_time() == 0,
    {
        SdTimeSource { unix_time: 0 }
    }

    /// The timestamp for new and modified files.
    pub fn get_timestamp(&self) -> (r: FileTimestamp)
        ensures
            r == timestamp_for(self.spec_unix_time()),
            self.spec_unix_time() == 0 ==> r == default_timestamp(),
            // Once a time is set, files carry its UTC date and time (in the
            // years a FAT timestamp holds).
            self.spec_unix_time() != 0 ==> match chrono_civil_from_unix(
                self.spec_unix_time() as i64,
            ) {
                Some(t) => FAT_MIN_YEAR <= t.0 <= 1970 + 255 ==> r == (FileTimestamp {
                    year_since_1970: (t.0 - 1970) as u8,
                    zero_indexed_month: (t.1 - 1) as u8,
                    zero_indexed_day: (t.2 - 1) as u8,
                    hours: t.3 as u8,
                    minutes: t.4 as u8,
                    seconds: t.5 as u8,
                }),
                None => true,
            },
            // Before 1980 (which FAT cannot hold) files get the default...
            self.spec_unix_time() != 0 && self.spec_unix_time() < 315_532_800 ==> r
                == default_timestamp(),
            // ... and from 1980 on, the UTC date and time of the time set.
            self.spec_unix_time() >= 315_532_800 ==> (chrono_civil_from_unix(
                self.spec_unix_time() as i64,
            ) matches Some(t) && r == (FileTimestamp {
                year_since_1970: (t.0 - 1970) as u8,
                zero_indexed_month: (t.1 - 1) as u8,
                zero_indexed_day: (t.2 - 1) as u8,
                hours: t.3 as u8,
                minutes: t.4 as u8,
                seconds: t.5 as u8,
            })),
    {
        proof {
            lemma_year_starts();
            assert(in_chrono_range(self.unix_time as int));
        }
        let ts = self.unix_time;
        if ts == 0 {
            return FileTimestamp {
                year_since_1970: 54,
                zero_indexed_month: 0,
                zero_indexed_day: 0,
                hours: 0,
                minutes: 0,
                seconds: 0,
            };
        }
        let dflt = FileTimestamp {
            year_since_1970: 54,
            zero_indexed_month: 0,
            zero_indexed_day: 0,
            hours: 0,
            minutes: 0,
            seconds: 0,
        };
        match civil_from_unix(ts as i64) {
            Some(t) => {
                proof {
                    lemma_years_span(
                        t.0 as int,
                        t.1 as int,
                        t.2 as int,
                        t.3 as int,
                        t.4 as int,
                        t.5 as int,
                        1980,
                        2106,
                    );
                }
                if t.0 >= FAT_MIN_YEAR {
                    assert(days_in_month(t.0 as int, t.1 as int) <= 31);
                    match timestamp_from_calendar(
                        t.0 as u16,
                        t.1 as u8,
                        t.2 as u8,
                        t.3 as u8,
                        t.4 as u8,
                        t.5 as u8,
                    ) {
                        Some(x) => x,
                        None => dflt,
                    }
                } else {
                    dflt
                }
            },
            None => dflt,
        }
    }
}

/// Set the Unix time used for file timestamps, e.g. from the real-time clock
/// or GPS; 0 means "not set".
pub fn set_unix_time(clock: &mut SdTimeSource, ts: u32)
    ensures
        final(clock).spec_unix_time() == ts,
{
    clock.unix_time = ts;
}


/// What an operation on an open file gives once the file has been closed:
/// the operation's own error first, then the error from closing the file,
/// else the operation's value. The file is closed either way.
pub fn first_error<R, E>(result: Result<R, E>, closed: Result<(), E>) -> (r: Result<R, E>)
    ensures
        match (result, closed) {
            (Err(e), _) => r == Err::<R, E>(e),
            (Ok(_), Err(e)) => r == Err::<R, E>(e),
            (Ok(v), Ok(_)) => r == Ok::<R, E>(v),
        },
{
    match result {
        Err(e) => Err(e),
        Ok(v) => match closed {
            Err(e) => Err(e),
            Ok(()) => Ok(v),
        },
    }
}

/// One read of a whole-file read into a buffer of `len` bytes, of which
/// `total` are filled: after a read of `n` bytes, the bytes filled and
/// whether to read again. A read of 0 bytes (the end of the file) or a full
/// buffer ends the reading.
pub fn read_file_step(total: usize, len: usize, n: usize) -> (r: (usize, bool))
    requires
        total < len,
        n <= len - total,
    ensures
        r.0 == total + n,
        r.1 == (n != 0 && total + n < len),
{
    let filled = total + n;
    (filled, n != 0 && filled < len)
}

} // verus!
