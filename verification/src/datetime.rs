//! Calendar date-times and how a date format renders them (through chrono).
use vstd::prelude::*;
use chrono::TimeZone;
use crate::config::date_format_error;
use crate::types::DatePreview;
use crate::text::string_from;

verus! {

/// Smallest and largest years that chrono's dates hold.
pub const MIN_YEAR: i32 = -262143;

pub const MAX_YEAR: i32 = 262142;

/// Gregorian leap years (proleptic, with year 0).
pub open spec fn is_leap_year(y: int) -> bool {
    y % 4 == 0 && (y % 100 != 0 || y % 400 == 0)
}

pub open spec fn days_in_month(y: int, m: int) -> int {
    if m == 2 {
        if is_leap_year(y) {
            29
        } else {
            28
        }
    } else if m == 4 || m == 6 || m == 9 || m == 11 {
        30
    } else {
        31
    }
}

/// A calendar date and a time of day, within chrono's range.
pub open spec fn valid_civil(y: int, mo: int, d: int, h: int, mi: int, s: int) -> bool {
    &&& MIN_YEAR <= y <= MAX_YEAR
    &&& 1 <= mo <= 12
    &&& 1 <= d <= days_in_month(y, mo)
    &&& 0 <= h < 24
    &&& 0 <= mi < 60
    &&& 0 <= s < 60
}

/// What chrono's `format(pattern).to_string()` renders for the date-time
/// `year-month-day hour:minute:second`.
pub uninterp spec fn chrono_rendering(
    year: int,
    month: int,
    day: int,
    hour: int,
    minute: int,
    second: int,
    pattern: Seq<char>,
) -> Seq<char>;

/// A local calendar date and time of day.
#[derive(Debug, Clone, Copy, PartialEq, Eq)]
pub struct LocalDateTime {
    year: i32,
    month: u32,
    day: u32,
    hour: u32,
    minute: u32,
    second: u32,
}

impl LocalDateTime {
    #[verifier::type_invariant]
    spec fn inv(self) -> bool {
        valid_civil(
            self.year as int,
            self.month as int,
            self.day as int,
            self.hour as int,
            self.minute as int,
            self.second as int,
        )
    }

    pub closed spec fn spec_year(self) -> int {
        self.year as int
    }

    pub closed spec fn spec_month(self) -> int {
        self.month as int
    }

    pub closed spec fn spec_day(self) -> int {
        self.day as int
    }

    pub closed spec fn spec_hour(self) -> int {
        self.hour as int
    }

    pub closed spec fn spec_minute(self) -> int {
        self.minute as int
    }

    pub closed spec fn spec_second(self) -> int {
        self.second as int
    }

    /// How `pattern` renders this date-time.
    pub open spec fn rendering(self, pattern: Seq<char>) -> Seq<char> {
        chrono_rendering(
            self.spec_year(),
            self.spec_month(),
            self.spec_day(),
            self.spec_hour(),
            self.spec_minute(),
            self.spec_second(),
            pattern,
        )
    }

    /// The date-time with these fields, when they form a valid one.
    pub fn new(year: i32, month: u32, day: u32, hour: u32, minute: u32, second: u32) -> (r:
        Option<Self>)
        ensures
            r is Some <==> valid_civil(
                year as int,
                month as int,
                day as int,
                hour as int,
                minute as int,
                second as int,
            ),
            r matches Some(t) ==> t.spec_year() == year && t.spec_month() == month && t.spec_day()
                == day && t.spec_hour() == hour && t.spec_minute() == minute && t.spec_second()
                == second,
    {
        if year < MIN_YEAR || year > MAX_YEAR || month < 1 || month > 12 || hour >= 24 || minute
            >= 60 || second >= 60 || day < 1 {
            return None;
        }
        let leap = year % 4 == 0 && (year % 100 != 0 || year % 400 == 0);
        assert(leap == is_leap_year(year as int));
        let max_day: u32 = if month == 2 {
            if leap {
                29
            } else {
                28
            }
        } else if month == 4 || month == 6 || month == 9 || month == 11 {
            30
        } else {
            31
        };
        if day > max_day {
            return None;
        }
        Some(LocalDateTime { year, month, day, hour, minute, second })
    }

    pub fn year(&self) -> (r: i32)
        ensures
            r == self.spec_year(),
    {
        self.year
    }

    pub fn month(&self) -> (r: u32)
        ensures
            r == self.spec_month(),
    {
        self.month
    }

    pub fn day(&self) -> (r: u32)
        ensures
            r == self.spec_day(),
    {
        self.day
    }

    pub fn hour(&self) -> (r: u32)
        ensures
            r == self.spec_hour(),
    {
        self.hour
    }

    pub fn minute(&self) -> (r: u32)
        ensures
            r == self.spec_minute(),
    {
        self.minute
    }

    pub fn second(&self) -> (r: u32)
        ensures
            r == self.spec_second(),
    {
        self.second
    }

    /// How `pattern` renders this date-time; `pattern` must pass the date
    /// format check.
    pub fn render(&self, pattern: &str) -> (r: String)
        requires
            date_format_error(pattern@) is None,
        ensures
            r@ == self.rendering(pattern@),
            r@.len() > 0,
    {
        chrono_format(self, pattern)
    }
}

/// chrono's `DateTime::format(pattern).to_string()` on the date-time with
/// the fields of `t` (built as a UTC date-time, which renders the fields
/// as they are for the specifiers that `date_format_error` lets
/// through). The result is named `chrono_rendering`; chrono fails to
/// render a pattern that `date_format_error` refuses, so those are excluded.
/// Of an admitted pattern (never blank) the rendering is not empty: chrono
/// copies literal characters as they are, `%%` gives `%`, and each admitted
/// specifier gives at least one character.
#[verifier::external_body]
fn chrono_format(t: &LocalDateTime, pattern: &str) -> (r: String)
    requires
        date_format_error(pattern@) is None,
    ensures
        r@ == chrono_rendering(
            t.spec_year(),
            t.spec_month(),
            t.spec_day(),
            t.spec_hour(),
            t.spec_minute(),
            t.spec_second(),
            pattern@,
        ),
        r@.len() > 0,
{
    let dt = chrono::Utc.with_ymd_and_hms(t.year, t.month, t.day, t.hour, t.minute, t.second).unwrap();
    dt.format(pattern).to_string()
}

impl DatePreview {
    /// The preview of `pattern` at the date-time `time`.
    pub fn at(pattern: &str, time: &LocalDateTime) -> (r: DatePreview)
        requires
            date_format_error(pattern@) is None,
        ensures
            r.pattern@ == pattern@,
            r.preview@ == time.rendering(pattern@),
            r.preview@.len() > 0,
    {
        DatePreview { pattern: string_from(pattern), preview: time.render(pattern) }
    }
}

} // verus!
