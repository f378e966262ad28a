//! The Japanese imperial eras from Meiji on: which era a day falls in, the
//! year counted within it, and the era's name in three forms.
//!
//! A day before the first era of the table belongs to no era. Its year is
//! then the year of the Gregorian calendar and its era names are empty.

use crate::calendar::{DateTime, Moment};
use vstd::prelude::*;

verus! {

/// An era of the table.
#[derive(Clone, Copy, Debug, PartialEq, Eq, Structural)]
pub enum Era {
    Meiji,
    Taisho,
    Showa,
    Heisei,
    Reiwa,
}

/// The first day of an era: year, month, day.
pub open spec fn era_start(era: Era) -> (int, int, int) {
    match era {
        Era::Meiji => (1868, 1, 25),
        Era::Taisho => (1912, 7, 30),
        Era::Showa => (1926, 12, 25),
        Era::Heisei => (1989, 1, 8),
        Era::Reiwa => (2019, 5, 1),
    }
}

/// The day of `moment` is `start` or a later day.
pub open spec fn on_or_after(moment: Moment, start: (int, int, int)) -> bool {
    moment.year > start.0 || (moment.year == start.0 && (moment.month > start.1 || (moment.month
        == start.1 && moment.day >= start.2)))
}

/// The era that the day of `moment` falls in: the latest era that has
/// begun by that day.
pub open spec fn era_of(moment: Moment) -> Option<Era> {
    if on_or_after(moment, era_start(Era::Reiwa)) {
        Some(Era::Reiwa)
    } else if on_or_after(moment, era_start(Era::Heisei)) {
        Some(Era::Heisei)
    } else if on_or_after(moment, era_start(Era::Showa)) {
        Some(Era::Showa)
    } else if on_or_after(moment, era_start(Era::Taisho)) {
        Some(Era::Taisho)
    } else if on_or_after(moment, era_start(Era::Meiji)) {
        Some(Era::Meiji)
    } else {
        None
    }
}

/// The year counted within the era, the era's first calendar year being
/// year 1. Outside every era, the calendar year itself.
pub open spec fn year_in_era(moment: Moment) -> int {
    match era_of(moment) {
        Some(era) => moment.year - era_start(era).0 + 1,
        None => moment.year,
    }
}

/// The era's name as one Latin letter.
pub open spec fn abbreviation_of(era: Option<Era>) -> Seq<char> {
    match era {
        Some(Era::Meiji) => "M"@,
        Some(Era::Taisho) => "T"@,
        Some(Era::Showa) => "S"@,
        Some(Era::Heisei) => "H"@,
        Some(Era::Reiwa) => "R"@,
        None => ""@,
    }
}

/// The first character of the era's name.
pub open spec fn short_name_of(era: Option<Era>) -> Seq<char> {
    match era {
        Some(Era::Meiji) => "明"@,
        Some(Era::Taisho) => "大"@,
        Some(Era::Showa) => "昭"@,
        Some(Era::Heisei) => "平"@,
        Some(Era::Reiwa) => "令"@,
        None => ""@,
    }
}

/// The era's name in full.
pub open spec fn name_of(era: Option<Era>) -> Seq<char> {
    match era {
        Some(Era::Meiji) => "明治"@,
        Some(Era::Taisho) => "大正"@,
        Some(Era::Showa) => "昭和"@,
        Some(Era::Heisei) => "平成"@,
        Some(Era::Reiwa) => "令和"@,
        None => ""@,
    }
}

fn starts_by(dt: &DateTime, year: i32, month: u32, day: u32) -> (r: bool)
    ensures
        r == on_or_after(dt@, (year as int, month as int, day as int)),
{
    dt.year() > year || (dt.year() == year && (dt.month() > month || (dt.month() == month
        && dt.day() >= day)))
}

/// The era that the day of `dt` falls in.
pub fn get_era(dt: &DateTime) -> (r: Option<Era>)
    ensures
        r == era_of(dt@),
{
    if starts_by(dt, 2019, 5, 1) {
        Some(Era::Reiwa)
    } else if starts_by(dt, 1989, 1, 8) {
        Some(Era::Heisei)
    } else if starts_by(dt, 1926, 12, 25) {
        Some(Era::Showa)
    } else if starts_by(dt, 1912, 7, 30) {
        Some(Era::Taisho)
    } else if starts_by(dt, 1868, 1, 25) {
        Some(Era::Meiji)
    } else {
        None
    }
}

/// The year of `dt` counted within its era.
pub fn get_year(dt: &DateTime) -> (r: i32)
    ensures
        r == year_in_era(dt@),
        dt@.is_valid(),
{
    let year = dt.year();
    match get_era(dt) {
        Some(Era::Reiwa) => year - 2019 + 1,
        Some(Era::Heisei) => year - 1989 + 1,
        Some(Era::Showa) => year - 1926 + 1,
        Some(Era::Taisho) => year - 1912 + 1,
        Some(Era::Meiji) => year - 1868 + 1,
        None => year,
    }
}

/// The name of the era of `dt` as one Latin letter.
pub fn get_abbreviation_name(dt: &DateTime) -> (r: &'static str)
    ensures
        r@ == abbreviation_of(era_of(dt@)),
{
    match get_era(dt) {
        Some(Era::Meiji) => "M",
        Some(Era::Taisho) => "T",
        Some(Era::Showa) => "S",
        Some(Era::Heisei) => "H",
        Some(Era::Reiwa) => "R",
        None => "",
    }
}

/// The first character of the name of the era of `dt`.
pub fn get_short_name(dt: &DateTime) -> (r: &'static str)
    ensures
        r@ == short_name_of(era_of(dt@)),
{
    match get_era(dt) {
        Some(Era::Meiji) => "明",
        Some(Era::Taisho) => "大",
        Some(Era::Showa) => "昭",
        Some(Era::Heisei) => "平",
        Some(Era::Reiwa) => "令",
        None => "",
    }
}

/// The name of the era of `dt` in full.
pub fn get_name(dt: &DateTime) -> (r: &'static str)
    ensures
        r@ == name_of(era_of(dt@)),
{
    match get_era(dt) {
        Some(Era::Meiji) => "明治",
        Some(Era::Taisho) => "大正",
        Some(Era::Showa) => "昭和",
        Some(Era::Heisei) => "平成",
        Some(Era::Reiwa) => "令和",
        None => "",
    }
}

} // verus!
