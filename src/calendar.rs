use vstd::prelude::*;
use vstd::string::*;
use chrono::Datelike;
use num_traits::cast::FromPrimitive;

verus! {

/// The local calendar day (days since 1970-01-01) of the instant `time`
/// seen at a UTC offset of `offset` seconds.
#[verifier::opaque]
pub open spec fn day_of(time: int, offset: int) -> int {
    (time + offset) / 86400
}

/// Local day number of `time` at UTC offset `offset`.
pub fn local_day(time: u64, offset: i32) -> (r: i64)
    requires
        -86400 < offset < 86400,
    ensures
        r == day_of(time as int, offset as int),
{
    reveal(day_of);
    if offset >= 0 {
        let s: u128 = time as u128 + offset as u128;
        let d: u128 = s / 86400;
        assert(d <= u64::MAX as u128 / 86400 + 1) by (nonlinear_arith)
            requires d == s / 86400, s <= u64::MAX as u128 + 86400,
        {};
        d as i64
    } else {
        let back: u64 = (0 - (offset as i64)) as u64;
        if time >= back {
            ((time - back) / 86400) as i64
        } else {
            assert((time as int + offset as int) / 86400 == -1) by (nonlinear_arith)
                requires -86400 < (time as int + offset as int), (time as int + offset as int) < 0,
            {};
            -1
        }
    }
}

/// Day number of -262143-01-01, the first date chrono can hold.
pub const FIRST_CALENDAR_DAY: i64 = -96465292;

/// Day number of 262142-12-31, the last date chrono can hold.
pub const LAST_CALENDAR_DAY: i64 = 95026236;

/// Days from 1970-01-01 to the given date of the proleptic Gregorian calendar.
pub open spec fn days_from_civil(year: int, month: int, day: int) -> int {
    let y = if month <= 2 { year - 1 } else { year };
    let era = y / 400;
    let yoe = y - era * 400;
    let mp = (month + 9) % 12;
    let doy = (153 * mp + 2) / 5 + day - 1;
    let doe = yoe * 365 + yoe / 4 - yoe / 100 + doy;
    era * 146097 + doe - 719468
}

pub open spec fn is_leap_year(year: int) -> bool {
    year % 4 == 0 && (year % 100 != 0 || year % 400 == 0)
}

pub open spec fn days_in_month(year: int, month: int) -> int {
    if month == 2 {
        if is_leap_year(year) { 29 } else { 28 }
    } else if month == 4 || month == 6 || month == 9 || month == 11 {
        30
    } else {
        31
    }
}

/// `(year, month, day)` is a date of the calendar.
pub open spec fn is_valid_date(year: int, month: int, day: int) -> bool {
    1 <= month <= 12 && 1 <= day <= days_in_month(year, month)
}

/// Day of the week of a day number, Monday being 0: 1970-01-01 was a Thursday.
pub open spec fn weekday_of(days: int) -> int {
    (days + 3) % 7
}

pub open spec fn weekday_text(weekday: int) -> Seq<char> {
    if weekday == 0 {
        "Mon"@
    } else if weekday == 1 {
        "Tue"@
    } else if weekday == 2 {
        "Wed"@
    } else if weekday == 3 {
        "Thu"@
    } else if weekday == 4 {
        "Fri"@
    } else if weekday == 5 {
        "Sat"@
    } else {
        "Sun"@
    }
}

pub open spec fn month_text(month: int) -> Seq<char> {
    if month == 1 {
        "January"@
    } else if month == 2 {
        "February"@
    } else if month == 3 {
        "March"@
    } else if month == 4 {
        "April"@
    } else if month == 5 {
        "May"@
    } else if month == 6 {
        "June"@
    } else if month == 7 {
        "July"@
    } else if month == 8 {
        "August"@
    } else if month == 9 {
        "September"@
    } else if month == 10 {
        "October"@
    } else if month == 11 {
        "November"@
    } else {
        "December"@
    }
}

pub open spec fn digit_text(d: nat) -> Seq<char> {
    if d == 0 {
        "0"@
    } else if d == 1 {
        "1"@
    } else if d == 2 {
        "2"@
    } else if d == 3 {
        "3"@
    } else if d == 4 {
        "4"@
    } else if d == 5 {
        "5"@
    } else if d == 6 {
        "6"@
    } else if d == 7 {
        "7"@
    } else if d == 8 {
        "8"@
    } else {
        "9"@
    }
}

/// Decimal digits of `n`, without leading zeros.
pub open spec fn decimal(n: nat) -> Seq<char>
    decreases n,
{
    if n < 10 {
        digit_text(n)
    } else {
        decimal(n / 10) + digit_text(n % 10)
    }
}

/// A year in decimal, with a minus sign before the years before year 0.
pub open spec fn year_text(year: int) -> Seq<char> {
    if year < 0 {
        "-"@ + decimal((-year) as nat)
    } else {
        decimal(year as nat)
    }
}

/// `"<weekday> d. <day>. <month name> <year>"`.
pub open spec fn date_text(weekday: int, year: int, month: int, day: int) -> Seq<char> {
    weekday_text(weekday) + " d. "@ + decimal(day as nat) + ". "@ + month_text(month) + " "@
        + year_text(year)
}

/// `text` renders the local date of `time` at UTC offset `offset`.
pub open spec fn is_local_date_text(time: int, offset: int, text: Seq<char>) -> bool {
    exists|year: int, month: int, day: int|
        is_valid_date(year, month, day) && days_from_civil(year, month, day) == day_of(time, offset)
            && text == #[trigger] date_text(weekday_of(day_of(time, offset)), year, month, day)
}

/// Relies on chrono's `NaiveDate::from_epoch_days` and its `Datelike` getters:
/// the calendar date of a day number, which exists exactly for the days of
/// chrono's years -262143 to 262142.
#[verifier::external_body]
fn civil_from_days(days: i32) -> (r: Option<(i32, u32, u32)>)
    ensures
        r matches Some((y, m, d)) ==> is_valid_date(y as int, m as int, d as int) && days_from_civil(
            y as int,
            m as int,
            d as int,
        ) == days,
        r is Some <==> FIRST_CALENDAR_DAY <= days <= LAST_CALENDAR_DAY,
{
    chrono::NaiveDate::from_epoch_days(days).map(|d| (d.year(), d.month(), d.day()))
}

/// Relies on chrono's `Weekday::from_u32` (0 is Monday) and its `Display`,
/// which writes the three-letter English name.
#[verifier::external_body]
fn weekday_name(weekday: u32) -> (r: Option<String>)
    ensures
        weekday < 7 ==> r is Some && r->0@ == weekday_text(weekday as int),
{
    chrono::Weekday::from_u32(weekday).map(|w| w.to_string())
}

/// Relies on chrono's `Month::from_u32` (1 is January) and `Month::name`.
#[verifier::external_body]
fn month_name(month: u32) -> (r: Option<String>)
    ensures
        1 <= month <= 12 ==> r is Some && r->0@ == month_text(month as int),
{
    chrono::Month::from_u32(month).map(|m| m.name().to_string())
}

fn digit_str(d: u32) -> (r: &'static str)
    requires
        d < 10,
    ensures
        r@ == digit_text(d as nat),
{
    if d == 0 {
        "0"
    } else if d == 1 {
        "1"
    } else if d == 2 {
        "2"
    } else if d == 3 {
        "3"
    } else if d == 4 {
        "4"
    } else if d == 5 {
        "5"
    } else if d == 6 {
        "6"
    } else if d == 7 {
        "7"
    } else if d == 8 {
        "8"
    } else {
        "9"
    }
}

/// `n` in decimal.
pub fn decimal_string(n: u32) -> (r: String)
    ensures
        r@ == decimal(n as nat),
    decreases n,
{
    if n < 10 {
        String::from_str(digit_str(n))
    } else {
        let mut r = decimal_string(n / 10);
        r.append(digit_str(n % 10));
        r
    }
}

/// Renders a date as `"<weekday> d. <day>. <month name> <year>"`, with the
/// weekday counted from Monday as 0.
pub fn format_date(weekday: u32, year: i32, month: u32, day: u32) -> (r: String)
    requires
        weekday < 7,
        1 <= month <= 12,
    ensures
        r@ == date_text(weekday as int, year as int, month as int, day as int),
{
    let mut r = match weekday_name(weekday) {
        Some(w) => w,
        None => String::new(),
    };
    r.append(" d. ");
    let d = decimal_string(day);
    r.append(d.as_str());
    r.append(". ");
    let m = match month_name(month) {
        Some(m) => m,
        None => String::new(),
    };
    r.append(m.as_str());
    r.append(" ");
    if year < 0 {
        r.append("-");
        let y = decimal_string((0 - (year as i64)) as u32);
        r.append(y.as_str());
    } else {
        let y = decimal_string(year as u32);
        r.append(y.as_str());
    }
    r
}

/// The local date of `time` at UTC offset `offset`, as `format_date` writes
/// it; `None` past the last date of the calendar.
pub fn get_time_string(time: u64, offset: i32) -> (r: Option<String>)
    requires
        -86400 < offset < 86400,
    ensures
        r is Some <==> day_of(time as int, offset as int) <= LAST_CALENDAR_DAY,
        r matches Some(t) ==> is_local_date_text(time as int, offset as int, t@),
{
    let days = local_day(time, offset);
    if days > LAST_CALENDAR_DAY {
        return None;
    }
    assert(days >= -1) by {
        reveal(day_of);
    }
    let weekday = ((days + 3) as u64 % 7) as u32;
    match civil_from_days(days as i32) {
        None => None,
        Some((y, m, d)) => {
            let t = format_date(weekday, y, m, d);
            assert(weekday == weekday_of(days as int)) by {
                reveal(day_of);
            }
            assert(t@ == date_text(weekday_of(day_of(time as int, offset as int)), y as int, m as int, d as int));
            Some(t)
        },
    }
}

/// The offset of a time zone from UTC at each instant.
pub trait LocalTimeZone {
    /// Seconds to add to UTC at `time` to get local time, if known.
    fn offset_at(&self, time: u64) -> Option<i32>;
}

/// A time zone whose offset never changes.
pub struct FixedOffsetZone {
    pub offset: i32,
}

impl LocalTimeZone for FixedOffsetZone {
    fn offset_at(&self, time: u64) -> Option<i32> {
        Some(self.offset)
    }
}

/// `day` is the local day of `time` under some offset strictly within a day.
pub open spec fn is_local_day(time: int, day: i64) -> bool {
    exists|offset: int| -86400 < offset < 86400 && #[trigger] day_of(time, offset) == day
}

/// Local day of `time` in `zone`; `None` where the zone gives no offset, or
/// one of a day or more.
pub fn local_day_in<Z: LocalTimeZone>(zone: &Z, time: u64) -> (r: Option<i64>)
    ensures
        r matches Some(d) ==> is_local_day(time as int, d),
{
    match zone.offset_at(time) {
        Some(offset) => {
            if -86400 < offset && offset < 86400 {
                let d = local_day(time, offset);
                assert(day_of(time as int, offset as int) == d);
                Some(d)
            } else {
                None
            }
        },
        None => None,
    }
}

} // verus!
