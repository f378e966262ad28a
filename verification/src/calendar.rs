//! Calendar values and their rendering against a strftime-style pattern.

use vstd::prelude::*;

verus! {

/// The earliest year that a [`DateTime`] can hold.
pub const MIN_YEAR: i32 = -262143;

/// The latest year that a [`DateTime`] can hold.
pub const MAX_YEAR: i32 = 262142;

/// Whether `year` is a leap year of the proleptic Gregorian calendar.
pub open spec fn is_leap_year(year: int) -> bool {
    year % 4 == 0 && (year % 100 != 0 || year % 400 == 0)
}

/// The number of days of a month, 0 for a month that does not exist.
pub open spec fn days_in_month(year: int, month: int) -> int {
    if month == 2 {
        if is_leap_year(year) {
            29
        } else {
            28
        }
    } else if month == 4 || month == 6 || month == 9 || month == 11 {
        30
    } else if 1 <= month <= 12 {
        31
    } else {
        0
    }
}

/// A day that exists in the calendar, at a time of day that exists, within
/// the years that a [`DateTime`] can hold.
pub open spec fn valid_date_time(
    year: int,
    month: int,
    day: int,
    hour: int,
    minute: int,
    second: int,
) -> bool {
    &&& MIN_YEAR <= year <= MAX_YEAR
    &&& 1 <= month <= 12
    &&& 1 <= day <= days_in_month(year, month)
    &&& 0 <= hour < 24
    &&& 0 <= minute < 60
    &&& 0 <= second < 60
}

/// What a [`DateTime`] stands for.
pub struct Moment {
    pub year: int,
    pub month: int,
    pub day: int,
    pub hour: int,
    pub minute: int,
    pub second: int,
}

impl Moment {
    /// See [`valid_date_time`].
    pub open spec fn is_valid(self) -> bool {
        valid_date_time(self.year, self.month, self.day, self.hour, self.minute, self.second)
    }
}

/// A calendar date and time of day in UTC, to the second. Every value is a
/// moment that exists: see [`valid_date_time`].
#[derive(Clone, Copy, Debug, PartialEq, Eq)]
pub struct DateTime {
    year: i32,
    month: u32,
    day: u32,
    hour: u32,
    minute: u32,
    second: u32,
}

impl View for DateTime {
    type V = Moment;

    closed spec fn view(&self) -> Moment {
        Moment {
            year: self.year as int,
            month: self.month as int,
            day: self.day as int,
            hour: self.hour as int,
            minute: self.minute as int,
            second: self.second as int,
        }
    }
}

fn leap_year(year: i32) -> (r: bool)
    ensures
        r == is_leap_year(year as int),
{
    year % 4 == 0 && (year % 100 != 0 || year % 400 == 0)
}

fn month_length(year: i32, month: u32) -> (r: u32)
    ensures
        r == days_in_month(year as int, month as int),
{
    if month == 2 {
        if leap_year(year) {
            29
        } else {
            28
        }
    } else if month == 4 || month == 6 || month == 9 || month == 11 {
        30
    } else if 1 <= month && month <= 12 {
        31
    } else {
        0
    }
}

impl DateTime {
    #[verifier::type_invariant]
    closed spec fn well_formed(self) -> bool {
        self@.is_valid()
    }

    /// The moment with the given calendar fields, or `None` if there is no
    /// such moment: see [`valid_date_time`].
    pub fn new(year: i32, month: u32, day: u32, hour: u32, minute: u32, second: u32) -> (r: Option<
        DateTime,
    >)
        ensures
            r is Some <==> valid_date_time(
                year as int,
                month as int,
                day as int,
                hour as int,
                minute as int,
                second as int,
            ),
            r matches Some(dt) ==> dt@ == (Moment {
                year: year as int,
                month: month as int,
                day: day as int,
                hour: hour as int,
                minute: minute as int,
                second: second as int,
            }),
    {
        if MIN_YEAR <= year && year <= MAX_YEAR && 1 <= month && month <= 12 && 1 <= day && day
            <= month_length(year, month) && hour < 24 && minute < 60 && second < 60 {
            Some(DateTime { year, month, day, hour, minute, second })
        } else {
            None
        }
    }

    /// The year. Like every accessor, it also reports that the moment exists.
    pub fn year(&self) -> (r: i32)
        ensures
            r == self@.year,
            self@.is_valid(),
    {
        proof {
            use_type_invariant(self);
        }
        self.year
    }

    pub fn month(&self) -> (r: u32)
        ensures
            r == self@.month,
            self@.is_valid(),
    {
        proof {
            use_type_invariant(self);
        }
        self.month
    }

    pub fn day(&self) -> (r: u32)
        ensures
            r == self@.day,
            self@.is_valid(),
    {
        proof {
            use_type_invariant(self);
        }
        self.day
    }

    pub fn hour(&self) -> (r: u32)
        ensures
            r == self@.hour,
            self@.is_valid(),
    {
        proof {
            use_type_invariant(self);
        }
        self.hour
    }

    pub fn minute(&self) -> (r: u32)
        ensures
            r == self@.minute,
            self@.is_valid(),
    {
        proof {
            use_type_invariant(self);
        }
        self.minute
    }

    pub fn second(&self) -> (r: u32)
        ensures
            r == self@.second,
            self@.is_valid(),
    {
        proof {
            use_type_invariant(self);
        }
        self.second
    }
}

/// What the calendar engine writes for a moment and a pattern that holds a
/// `%`: the text, or `None` where it rejects the pattern.
pub uninterp spec fn strftime_output(
    year: int,
    month: int,
    day: int,
    hour: int,
    minute: int,
    second: int,
    pattern: Seq<char>,
) -> Option<Seq<char>>;

/// The rendering of a moment against a pattern. A pattern without `%`
/// holds no directive and is rendered as it stands; any other is rendered
/// as the calendar engine has it.
pub open spec fn calendar_output(moment: Moment, pattern: Seq<char>) -> Option<Seq<char>> {
    if pattern.contains('%') {
        strftime_output(
            moment.year,
            moment.month,
            moment.day,
            moment.hour,
            moment.minute,
            moment.second,
            pattern,
        )
    } else {
        Some(pattern)
    }
}

/// The characters of an optional string.
pub open spec fn opt_text(text: Option<String>) -> Option<Seq<char>> {
    match text {
        Some(s) => Some(s@),
        None => None,
    }
}

/// Calls `chrono::DateTime::<Utc>::format` on the moment with the given
/// fields and writes the outcome with `DelayedFormat::write_to`.
///
/// Trusted: the moment is built with `NaiveDate::from_ymd_opt` and
/// `NaiveDate::and_hms_opt`, which accept every moment that
/// [`valid_date_time`] admits. chrono splits the pattern into literal
/// text, white space and directives that begin with `%`; it writes the
/// first two as they stand and fails on a directive it does not know. So a
/// pattern without `%` comes back unchanged. For any other pattern the
/// result is only given the name [`strftime_output`]: it depends on the
/// moment and the pattern alone, since the zone is UTC and the locale fixed.
#[verifier::external_body]
fn strftime(
    year: i32,
    month: u32,
    day: u32,
    hour: u32,
    minute: u32,
    second: u32,
    pattern: &str,
) -> (r: Option<String>)
    requires
        valid_date_time(
            year as int,
            month as int,
            day as int,
            hour as int,
            minute as int,
            second as int,
        ),
    ensures
        !pattern@.contains('%') ==> opt_text(r) == Some(pattern@),
        pattern@.contains('%') ==> opt_text(r) == strftime_output(
            year as int,
            month as int,
            day as int,
            hour as int,
            minute as int,
            second as int,
            pattern@,
        ),
{
    let date = chrono::NaiveDate::from_ymd_opt(year, month, day)?;
    let stamp = date.and_hms_opt(hour, minute, second)?.and_utc();
    let mut out = String::new();
    match stamp.format(pattern).write_to(&mut out) {
        Ok(()) => Some(out),
        Err(_) => None,
    }
}

impl DateTime {
    /// Renders the moment against a strftime-style pattern. `None` where
    /// the calendar engine rejects the pattern.
    pub fn format(&self, pattern: &str) -> (r: Option<String>)
        ensures
            opt_text(r) == calendar_output(self@, pattern@),
    {
        proof {
            use_type_invariant(self);
        }
        strftime(self.year, self.month, self.day, self.hour, self.minute, self.second, pattern)
    }
}

} // verus!
