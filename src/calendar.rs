//! Calendar dates, times of day and date-times as plain values, with the
//! readings and writings of them that chrono provides.
use crate::text::padded;
use chrono::{Datelike, Timelike};
use vstd::prelude::*;
use vstd::string::*;

verus! {

/// The earliest and latest years that chrono's dates can hold.
pub const MIN_YEAR: i32 = -262143;

pub const MAX_YEAR: i32 = 262142;

/// A day of the proleptic Gregorian calendar.
#[derive(Clone, Copy, Debug, PartialEq, Eq, Structural)]
pub struct CivilDate {
    pub year: i32,
    pub month: u32,
    pub day: u32,
}

/// A time of day. A leap second is second 59 with a nanosecond count of a
/// second or more, as chrono keeps it.
#[derive(Clone, Copy, Debug, PartialEq, Eq, Structural)]
pub struct ClockTime {
    pub hour: u32,
    pub minute: u32,
    pub second: u32,
    pub nanosecond: u32,
}

/// A date together with a time of day, in no time zone.
#[derive(Clone, Copy, Debug, PartialEq, Eq, Structural)]
pub struct DateStamp {
    pub date: CivilDate,
    pub time: ClockTime,
}

pub open spec fn is_leap_year(y: int) -> bool {
    (y % 4 == 0 && y % 100 != 0) || y % 400 == 0
}

pub open spec fn days_in_month(y: int, m: int) -> int {
    if m == 2 {
        if is_leap_year(y) {
            29
        } else {
            28
        }
    } else if m == 4 || m == 6 || m == 9 || m == 11 {
        30
    } else {
        31
    }
}

impl CivilDate {
    pub open spec fn wf(self) -> bool {
        &&& MIN_YEAR <= self.year <= MAX_YEAR
        &&& 1 <= self.month <= 12
        &&& 1 <= self.day <= days_in_month(self.year as int, self.month as int)
    }

    /// The day as `YYYY/MM/DD`, as the flat files write it.
    pub open spec fn slash_text(self) -> Seq<char> {
        padded(self.year as nat, 4) + seq!['/'] + padded(self.month as nat, 2) + seq!['/']
            + padded(self.day as nat, 2)
    }

    /// The day as chrono displays it: `YYYY-MM-DD`, with an explicit sign
    /// and at least four digits for a year outside 0 to 9999.
    pub open spec fn iso_text(self) -> Seq<char> {
        let y = self.year as int;
        let year = if 0 <= y <= 9999 {
            padded(y as nat, 4)
        } else if y < 0 {
            seq!['-'] + padded((-y) as nat, 4)
        } else {
            seq!['+'] + padded(y as nat, 4)
        };
        year + seq!['-'] + padded(self.month as nat, 2) + seq!['-'] + padded(self.day as nat, 2)
    }

    /// Days from 1970-01-01 to this day.
    pub open spec fn epoch_day(self) -> int {
        let y = if self.month <= 2 {
            self.year as int - 1
        } else {
            self.year as int
        };
        let mp = (self.month as int + 9) % 12;
        let day_of_year = (153 * mp + 2) / 5 + self.day as int - 1;
        365 * y + y / 4 - y / 100 + y / 400 + day_of_year - 719468
    }
}

impl ClockTime {
    pub open spec fn wf(self) -> bool {
        &&& self.hour < 24
        &&& self.minute < 60
        &&& self.second < 60
        &&& self.nanosecond < 2_000_000_000
        &&& self.nanosecond >= 1_000_000_000 ==> self.second == 59
    }

    /// The time as `HH:MM:SS`, as the flat files write it.
    pub open spec fn colon_text(self) -> Seq<char> {
        padded(self.hour as nat, 2) + seq![':'] + padded(self.minute as nat, 2) + seq![':']
            + padded(self.second as nat, 2)
    }

    /// The time as chrono displays it: `HH:MM:SS`, a leap second as `60`,
    /// and a nonzero fraction in three, six or nine digits.
    pub open spec fn iso_text(self) -> Seq<char> {
        let leap = self.nanosecond >= 1_000_000_000;
        let sec = if leap {
            self.second + 1
        } else {
            self.second as int
        };
        let nano = if leap {
            self.nanosecond - 1_000_000_000
        } else {
            self.nanosecond as int
        };
        let fraction = if nano == 0 {
            Seq::<char>::empty()
        } else if nano % 1_000_000 == 0 {
            seq!['.'] + padded((nano / 1_000_000) as nat, 3)
        } else if nano % 1_000 == 0 {
            seq!['.'] + padded((nano / 1_000) as nat, 6)
        } else {
            seq!['.'] + padded(nano as nat, 9)
        };
        padded(self.hour as nat, 2) + seq![':'] + padded(self.minute as nat, 2) + seq![':']
            + padded(sec as nat, 2) + fraction
    }

    /// Seconds since midnight; a leap second counts as second 59.
    pub open spec fn day_seconds(self) -> int {
        self.hour * 3600 + self.minute * 60 + self.second
    }
}

impl DateStamp {
    pub open spec fn wf(self) -> bool {
        self.date.wf() && self.time.wf()
    }

    /// `YYYY/MM/DD HH:MM:SS`, as the flat files write it.
    pub open spec fn slash_text(self) -> Seq<char> {
        self.date.slash_text() + seq![' '] + self.time.colon_text()
    }

    pub open spec fn iso_text(self) -> Seq<char> {
        self.date.iso_text() + seq![' '] + self.time.iso_text()
    }

    /// Seconds since 1970-01-01 00:00:00, leap seconds not counted.
    pub open spec fn epoch_seconds(self) -> int {
        self.date.epoch_day() * 86400 + self.time.day_seconds()
    }

    /// Midnight at the start of `date`.
    pub open spec fn midnight(date: CivilDate) -> DateStamp {
        DateStamp { date, time: ClockTime { hour: 0, minute: 0, second: 0, nanosecond: 0 } }
    }
}

/// The pattern of a date in the flat files.
pub const DATE_FORMAT: &'static str = "%Y/%m/%d";

/// The pattern of a time of day in the flat files.
pub const TIME_FORMAT: &'static str = "%H:%M:%S";

/// The pattern of a date-time in the flat files.
pub const DATETIME_FORMAT: &'static str = "%Y/%m/%d %H:%M:%S";

/// The same, without seconds.
pub const DATETIME_MINUTES_FORMAT: &'static str = "%Y/%m/%d %H:%M";

pub open spec fn date_format() -> Seq<char> {
    seq!['%', 'Y', '/', '%', 'm', '/', '%', 'd']
}

pub open spec fn time_format() -> Seq<char> {
    seq!['%', 'H', ':', '%', 'M', ':', '%', 'S']
}

pub open spec fn datetime_format() -> Seq<char> {
    date_format() + seq![' '] + time_format()
}

pub open spec fn datetime_minutes_format() -> Seq<char> {
    date_format() + seq![' '] + seq!['%', 'H', ':', '%', 'M']
}

pub proof fn lemma_formats()
    ensures
        DATE_FORMAT@ == date_format(),
        TIME_FORMAT@ == time_format(),
        DATETIME_FORMAT@ == datetime_format(),
        DATETIME_MINUTES_FORMAT@ == datetime_minutes_format(),
{
    reveal_strlit("%Y/%m/%d");
    reveal_strlit("%H:%M:%S");
    reveal_strlit("%Y/%m/%d %H:%M:%S");
    reveal_strlit("%Y/%m/%d %H:%M");
    assert(DATE_FORMAT@ =~= date_format());
    assert(TIME_FORMAT@ =~= time_format());
    assert(DATETIME_FORMAT@ =~= datetime_format());
    assert(DATETIME_MINUTES_FORMAT@ =~= datetime_minutes_format());
}

/// What chrono's `NaiveDate::parse_from_str(s, fmt)` reads.
pub uninterp spec fn date_parsed(s: Seq<char>, fmt: Seq<char>) -> Option<CivilDate>;

/// What chrono's `NaiveTime::parse_from_str(s, fmt)` reads.
pub uninterp spec fn time_parsed(s: Seq<char>, fmt: Seq<char>) -> Option<ClockTime>;

/// What chrono's `NaiveDateTime::parse_from_str(s, fmt)` reads.
pub uninterp spec fn datetime_parsed(s: Seq<char>, fmt: Seq<char>) -> Option<DateStamp>;

pub open spec fn holds_char(s: Seq<char>, c: char) -> bool {
    exists|i: int| 0 <= i < s.len() && s[i] == c
}

/// Relies on chrono's `NaiveDate::parse_from_str`: its result is a valid
/// date; under `%Y/%m/%d` it reads back the zero-padded text of a date with
/// a four-digit year, and it accepts no `:` (numbers, `/` and leading
/// spaces are all that pattern consumes).
#[verifier::external_body]
pub(crate) fn parse_date(s: &str, fmt: &str) -> (r: Option<CivilDate>)
    ensures
        r == date_parsed(s@, fmt@),
        r matches Some(d) ==> d.wf(),
        fmt@ == date_format() && r.is_some() ==> !holds_char(s@, ':'),
        forall|d: CivilDate|
            d.wf() && 0 <= d.year <= 9999 && fmt@ == date_format() && s@ == d.slash_text()
                ==> r == Some(d),
{
    chrono::NaiveDate::parse_from_str(s, fmt).ok().map(
        |d| CivilDate { year: d.year(), month: d.month(), day: d.day() },
    )
}

/// Relies on chrono's `NaiveTime::parse_from_str`: its result is a valid
/// time; under `%H:%M:%S` it reads back the zero-padded text of a whole
/// second, and it accepts no `/`.
#[verifier::external_body]
pub(crate) fn parse_time(s: &str, fmt: &str) -> (r: Option<ClockTime>)
    ensures
        r == time_parsed(s@, fmt@),
        r matches Some(t) ==> t.wf(),
        fmt@ == time_format() && r.is_some() ==> !holds_char(s@, '/'),
        forall|t: ClockTime|
            t.wf() && t.nanosecond == 0 && fmt@ == time_format() && s@ == t.colon_text() ==> r
                == Some(t),
{
    chrono::NaiveTime::parse_from_str(s, fmt).ok().map(
        |t| ClockTime {
            hour: t.hour(),
            minute: t.minute(),
            second: t.second(),
            nanosecond: t.nanosecond(),
        },
    )
}

/// Relies on chrono's `NaiveDateTime::parse_from_str`: its result is valid,
/// and under `%Y/%m/%d %H:%M:%S` it reads back the zero-padded text of a
/// whole second with a four-digit year.
#[verifier::external_body]
pub(crate) fn parse_datetime(s: &str, fmt: &str) -> (r: Option<DateStamp>)
    ensures
        r == datetime_parsed(s@, fmt@),
        r matches Some(dt) ==> dt.wf(),
        forall|dt: DateStamp|
            dt.wf() && 0 <= dt.date.year <= 9999 && dt.time.nanosecond == 0 && fmt@
                == datetime_format() && s@ == dt.slash_text() ==> r == Some(dt),
{
    chrono::NaiveDateTime::parse_from_str(s, fmt).ok().map(
        |dt| DateStamp {
            date: CivilDate { year: dt.year(), month: dt.month(), day: dt.day() },
            time: ClockTime {
                hour: dt.hour(),
                minute: dt.minute(),
                second: dt.second(),
                nanosecond: dt.nanosecond(),
            },
        },
    )
}

/// Relies on chrono's `DateTime::timestamp` (of `NaiveDateTime::and_utc`):
/// whole seconds since the Unix epoch, leap seconds not counted.
#[verifier::external_body]
pub(crate) fn epoch_seconds(dt: &DateStamp) -> (r: i64)
    requires
        dt.wf(),
    ensures
        r as int == dt.epoch_seconds(),
{
    chrono::NaiveDate::from_ymd_opt(dt.date.year, dt.date.month, dt.date.day).unwrap().and_hms_nano_opt(
        dt.time.hour,
        dt.time.minute,
        dt.time.second,
        dt.time.nanosecond,
    ).unwrap().and_utc().timestamp()
}

/// Relies on chrono's `Display` for `NaiveDate`.
#[verifier::external_body]
pub(crate) fn date_text(d: &CivilDate) -> (r: String)
    requires
        d.wf(),
    ensures
        r@ == d.iso_text(),
{
    chrono::NaiveDate::from_ymd_opt(d.year, d.month, d.day).unwrap().to_string()
}

/// Relies on chrono's `Display` for `NaiveTime`.
#[verifier::external_body]
pub(crate) fn time_text(t: &ClockTime) -> (r: String)
    requires
        t.wf(),
    ensures
        r@ == t.iso_text(),
{
    chrono::NaiveTime::from_hms_nano_opt(t.hour, t.minute, t.second, t.nanosecond).unwrap().to_string()
}

/// Relies on chrono's `Display` for `NaiveDateTime`: the date, a space, the
/// time.
#[verifier::external_body]
pub(crate) fn datetime_text(dt: &DateStamp) -> (r: String)
    requires
        dt.wf(),
    ensures
        r@ == dt.iso_text(),
{
    chrono::NaiveDate::from_ymd_opt(dt.date.year, dt.date.month, dt.date.day).unwrap().and_hms_nano_opt(
        dt.time.hour,
        dt.time.minute,
        dt.time.second,
        dt.time.nanosecond,
    ).unwrap().to_string()
}

} // verus!
