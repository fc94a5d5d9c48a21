//! Wall-clock date-times as the fixture lists hold them, and the `%Y%m%dT%H%M%S` text
//! that calendar feeds carry.

use vstd::prelude::*;
use chrono::{Datelike, Timelike};
use crate::text::{decimal, lemma_decimal, push_decimal, push_two_digits, two_digits};

verus! {

pub open spec fn is_leap_year(year: int) -> bool {
    (year % 4 == 0 && year % 100 != 0) || year % 400 == 0
}

/// The number of days in a month of the proleptic Gregorian calendar.
pub open spec fn month_length(year: int, month: int) -> int {
    if month == 2 {
        if is_leap_year(year) {
            29
        } else {
            28
        }
    } else if month == 4 || month == 6 || month == 9 || month == 11 {
        30
    } else {
        31
    }
}

/// The earliest and latest years a date-time can carry (those of `chrono::NaiveDate`).
pub open spec fn earliest_year() -> int {
    -262143
}

pub open spec fn latest_year() -> int {
    262142
}

/// A date and a time of day without a time zone, as `chrono::NaiveDateTime` holds them:
/// a nanosecond of 1_000_000_000 or more marks a leap second, which only a 59th second can carry.
#[derive(Clone, Copy, Debug, PartialEq, Eq)]
pub struct LocalDateTime {
    pub(crate) year: i32,
    pub(crate) month: u32,
    pub(crate) day: u32,
    pub(crate) hour: u32,
    pub(crate) minute: u32,
    pub(crate) second: u32,
    pub(crate) nanosecond: u32,
}

pub open spec fn valid_fields(
    year: int,
    month: int,
    day: int,
    hour: int,
    minute: int,
    second: int,
    nanosecond: int,
) -> bool {
    &&& earliest_year() <= year <= latest_year()
    &&& 1 <= month <= 12
    &&& 1 <= day <= month_length(year, month)
    &&& 0 <= hour < 24
    &&& 0 <= minute < 60
    &&& 0 <= second < 60
    &&& 0 <= nanosecond < 2_000_000_000
    &&& (nanosecond >= 1_000_000_000 ==> second == 59)
}

impl LocalDateTime {
    pub closed spec fn well_formed(self) -> bool {
        valid_fields(
            self.year as int,
            self.month as int,
            self.day as int,
            self.hour as int,
            self.minute as int,
            self.second as int,
            self.nanosecond as int,
        )
    }

    #[verifier::type_invariant]
    spec fn fields_name_a_date_time(self) -> bool {
        self.well_formed()
    }

    pub closed spec fn year_of(self) -> int {
        self.year as int
    }

    pub closed spec fn month_of(self) -> int {
        self.month as int
    }

    pub closed spec fn day_of(self) -> int {
        self.day as int
    }

    pub closed spec fn hour_of(self) -> int {
        self.hour as int
    }

    pub closed spec fn minute_of(self) -> int {
        self.minute as int
    }

    pub closed spec fn second_of(self) -> int {
        self.second as int
    }

    pub closed spec fn nanosecond_of(self) -> int {
        self.nanosecond as int
    }

    /// The date-time with these fields, if they name one.
    pub fn new(
        year: i32,
        month: u32,
        day: u32,
        hour: u32,
        minute: u32,
        second: u32,
        nanosecond: u32,
    ) -> (r: Option<LocalDateTime>)
        ensures
            r is Some <==> valid_fields(
                year as int,
                month as int,
                day as int,
                hour as int,
                minute as int,
                second as int,
                nanosecond as int,
            ),
            r matches Some(t) ==> t.year_of() == year && t.month_of() == month && t.day_of() == day
                && t.hour_of() == hour && t.minute_of() == minute && t.second_of() == second
                && t.nanosecond_of() == nanosecond,
    {
        if year < -262143 || year > 262142 || month < 1 || month > 12 || day < 1 || day
            > days_in_month(year, month) || hour >= 24 || minute >= 60 || second >= 60
            || nanosecond >= 2_000_000_000 || (nanosecond >= 1_000_000_000 && second != 59) {
            None
        } else {
            Some(LocalDateTime { year, month, day, hour, minute, second, nanosecond })
        }
    }

    pub fn year(&self) -> (y: i32)
        ensures
            y == self.year_of(),
    {
        self.year
    }

    pub fn month(&self) -> (m: u32)
        ensures
            m == self.month_of(),
    {
        self.month
    }

    pub fn day(&self) -> (d: u32)
        ensures
            d == self.day_of(),
    {
        self.day
    }

    pub fn hour(&self) -> (h: u32)
        ensures
            h == self.hour_of(),
    {
        self.hour
    }

    pub fn minute(&self) -> (m: u32)
        ensures
            m == self.minute_of(),
    {
        self.minute
    }

    pub fn second(&self) -> (s: u32)
        ensures
            s == self.second_of(),
    {
        self.second
    }

    pub fn nanosecond(&self) -> (n: u32)
        ensures
            n == self.nanosecond_of(),
    {
        self.nanosecond
    }

    /// Whether `t` is the start of hour `hour` on the day of `self`.
    pub open spec fn day_at_hour(self, hour: int, t: LocalDateTime) -> bool {
        &&& t.year_of() == self.year_of()
        &&& t.month_of() == self.month_of()
        &&& t.day_of() == self.day_of()
        &&& t.hour_of() == hour
        &&& t.minute_of() == 0
        &&& t.second_of() == 0
        &&& t.nanosecond_of() == 0
    }

    /// The start of hour `hour` on the day of `self` (`date.and_time(hour:00:00)` in chrono).
    pub fn at_hour(&self, hour: u32) -> (t: LocalDateTime)
        requires
            hour < 24,
        ensures
            self.day_at_hour(hour as int, t),
    {
        proof {
            use_type_invariant(self);
        }
        LocalDateTime {
            year: self.year,
            month: self.month,
            day: self.day,
            hour,
            minute: 0,
            second: 0,
            nanosecond: 0,
        }
    }

    /// Whether `self` comes strictly before `other` (the order of `chrono::NaiveDateTime`).
    pub open spec fn is_before(self, other: LocalDateTime) -> bool {
        self.key() < other.key()
    }

    /// A number that orders date-times as time does (months of 31 days are enough for ordering).
    pub closed spec fn key(self) -> int {
        ((((((self.year as int) * 13 + self.month) * 32 + self.day) * 24 + self.hour) * 60
            + self.minute) * 61 + self.second) * 2_000_000_000 + self.nanosecond
    }
}

proof fn lemma_place_value(a: int, b: int, x: int, y: int, k: int)
    requires
        0 <= x < k,
        0 <= y < k,
    ensures
        (a * k + x < b * k + y) == (a < b || (a == b && x < y)),
        (a * k + x == b * k + y) == (a == b && x == y),
{
    if a < b {
        assert(a * k + x < b * k + y) by (nonlinear_arith)
            requires
                a < b,
                0 <= x < k,
                0 <= y < k,
        ;
    } else if a > b {
        assert(a * k + x > b * k + y) by (nonlinear_arith)
            requires
                a > b,
                0 <= x < k,
                0 <= y < k,
        ;
    }
}

impl LocalDateTime {
    /// Whether `self` comes strictly before `other`.
    pub fn comes_before(&self, other: &LocalDateTime) -> (b: bool)
        ensures
            b == self.is_before(*other),
    {
        proof {
            use_type_invariant(self);
            use_type_invariant(other);
            let (a, o) = (*self, *other);
            let a1 = a.year as int * 13 + a.month;
            let o1 = o.year as int * 13 + o.month;
            lemma_place_value(a.year as int, o.year as int, a.month as int, o.month as int, 13);
            let a2 = a1 * 32 + a.day;
            let o2 = o1 * 32 + o.day;
            lemma_place_value(a1, o1, a.day as int, o.day as int, 32);
            let a3 = a2 * 24 + a.hour;
            let o3 = o2 * 24 + o.hour;
            lemma_place_value(a2, o2, a.hour as int, o.hour as int, 24);
            let a4 = a3 * 60 + a.minute;
            let o4 = o3 * 60 + o.minute;
            lemma_place_value(a3, o3, a.minute as int, o.minute as int, 60);
            let a5 = a4 * 61 + a.second;
            let o5 = o4 * 61 + o.second;
            lemma_place_value(a4, o4, a.second as int, o.second as int, 61);
            lemma_place_value(a5, o5, a.nanosecond as int, o.nanosecond as int, 2_000_000_000);
        }
        if self.year != other.year {
            self.year < other.year
        } else if self.month != other.month {
            self.month < other.month
        } else if self.day != other.day {
            self.day < other.day
        } else if self.hour != other.hour {
            self.hour < other.hour
        } else if self.minute != other.minute {
            self.minute < other.minute
        } else if self.second != other.second {
            self.second < other.second
        } else {
            self.nanosecond < other.nanosecond
        }
    }
}

/// The number of days in `month` of `year` (`1 <= month <= 12`).
pub fn days_in_month(year: i32, month: u32) -> (n: u32)
    requires
        1 <= month <= 12,
    ensures
        n == month_length(year as int, month as int),
{
    if month == 2 {
        if (year % 4 == 0 && year % 100 != 0) || year % 400 == 0 {
            29
        } else {
            28
        }
    } else if month == 4 || month == 6 || month == 9 || month == 11 {
        30
    } else {
        31
    }
}

// ----- the compact text form -----

/// `n` in decimal, with zeros in front up to `width` digits.
pub open spec fn zero_padded(n: nat, width: nat) -> Seq<char> {
    let zeros: nat = if width > decimal(n).len() {
        (width - decimal(n).len()) as nat
    } else {
        0
    };
    Seq::new(zeros, |i: int| '0') + decimal(n)
}

/// How chrono's `%Y` writes a year: four digits at least, with a sign outside 0..=9999.
pub open spec fn year_text(year: int) -> Seq<char> {
    if 0 <= year <= 9999 {
        zero_padded(year as nat, 4)
    } else if year < 0 {
        seq!['-'] + zero_padded((-year) as nat, 4)
    } else {
        seq!['+'] + zero_padded(year as nat, 4)
    }
}

/// What chrono's `format("%Y%m%dT%H%M%S")` writes for a date-time (a leap second shows as `60`).
pub open spec fn compact_text(t: LocalDateTime) -> Seq<char> {
    year_text(t.year_of()) + two_digits(t.month_of() as nat) + two_digits(t.day_of() as nat) + seq![
        'T',
    ] + two_digits(t.hour_of() as nat) + two_digits(t.minute_of() as nat) + two_digits(
        (t.second_of() + t.nanosecond_of() / 1_000_000_000) as nat,
    )
}

fn push_zero_padded(out: &mut Vec<char>, n: u64, width: usize)
    ensures
        final(out)@ == old(out)@ + zero_padded(n as nat, width as nat),
{
    let mut digits: Vec<char> = Vec::new();
    push_decimal(&mut digits, n);
    assert(digits@ =~= decimal(n as nat));
    let ghost start = out@;
    let mut k: usize = digits.len();
    while k < width
        invariant
            digits@ == decimal(n as nat),
            digits.len() <= k,
            k <= width || k == digits.len(),
            out@ == start + Seq::new((k - digits.len()) as nat, |i: int| '0'),
        decreases width - k,
    {
        out.push('0');
        k = k + 1;
        assert(out@ =~= start + Seq::new((k - digits.len()) as nat, |i: int| '0'));
    }
    crate::text::push_all(out, &digits);
    assert(out@ =~= start + zero_padded(n as nat, width as nat));
}

/// Appends `t` as chrono's `%Y%m%dT%H%M%S` writes it.
pub fn push_compact(out: &mut Vec<char>, t: &LocalDateTime)
    ensures
        final(out)@ == old(out)@ + compact_text(*t),
{
    proof {
        use_type_invariant(t);
    }
    let ghost start = out@;
    let year = t.year;
    if 0 <= year && year <= 9999 {
        push_zero_padded(out, year as u64, 4);
    } else if year < 0 {
        out.push('-');
        push_zero_padded(out, (0i64 - year as i64) as u64, 4);
    } else {
        out.push('+');
        push_zero_padded(out, year as u64, 4);
    }
    assert(out@ =~= start + year_text(t.year_of()));
    push_two_digits(out, t.month as u64);
    push_two_digits(out, t.day as u64);
    out.push('T');
    push_two_digits(out, t.hour as u64);
    push_two_digits(out, t.minute as u64);
    let shown_second = t.second + t.nanosecond / 1_000_000_000;
    push_two_digits(out, shown_second as u64);
    assert(out@ =~= start + compact_text(*t));
}

// ----- moving a date-time -----

/// What `chrono::NaiveDateTime::checked_add_signed` returns for `at` moved by `minutes` minutes.
pub uninterp spec fn moved_by_minutes(at: LocalDateTime, minutes: int) -> Option<LocalDateTime>;

/// `chrono::NaiveDateTime::checked_add_signed(TimeDelta::minutes(minutes))`, on the date-time
/// that `at` holds. Named result; the contract adds that a move of at most a week from a
/// date-time a year or more inside chrono's range of years succeeds, and so does a move of at
/// most a week forward from the first year of that range (which starts on its first of January).
#[verifier::external_body]
pub(crate) fn add_minutes(at: &LocalDateTime, minutes: i64) -> (r: Option<LocalDateTime>)
    ensures
        r == moved_by_minutes(*at, minutes as int),
        earliest_year() < at.year_of() < latest_year() && -10080 <= minutes <= 10080 ==> r is Some,
        earliest_year() <= at.year_of() < latest_year() && 0 <= minutes <= 10080 ==> r is Some,
{
    let date = chrono::NaiveDate::from_ymd_opt(at.year, at.month, at.day)?;
    let time = chrono::NaiveTime::from_hms_nano_opt(at.hour, at.minute, at.second, at.nanosecond)?;
    let delta = chrono::TimeDelta::try_minutes(minutes)?;
    let moved = chrono::NaiveDateTime::new(date, time).checked_add_signed(delta)?;
    Some(LocalDateTime {
        year: moved.year(),
        month: moved.month(),
        day: moved.day(),
        hour: moved.hour(),
        minute: moved.minute(),
        second: moved.second(),
        nanosecond: moved.nanosecond(),
    })
}

// ----- weekdays and names (chrono's proleptic Gregorian calendar, English names) -----

/// Whether `year`, `month` and `day` name a date that chrono's `NaiveDate` can hold.
pub open spec fn valid_date(year: int, month: int, day: int) -> bool {
    &&& earliest_year() <= year <= latest_year()
    &&& 1 <= month <= 12
    &&& 1 <= day <= month_length(year, month)
}

/// The days of the years before `year`, counted from the first of January of year 1.
pub open spec fn days_before_year(year: int) -> int {
    let p = year - 1;
    365 * p + p / 4 - p / 100 + p / 400
}

/// The days of the months of `year` before `month`.
pub open spec fn days_before_month(year: int, month: int) -> int
    decreases month,
{
    if month <= 1 {
        0
    } else {
        days_before_month(year, month - 1) + month_length(year, month - 1)
    }
}

/// The number of a day, counting the first of January of year 1 (a Monday) as day 1.
pub open spec fn day_number(year: int, month: int, day: int) -> int {
    days_before_year(year) + days_before_month(year, month) + day
}

/// The weekday of a date, Monday being 0 and Sunday 6.
pub open spec fn weekday_from_monday(year: int, month: int, day: int) -> int {
    (day_number(year, month, day) - 1) % 7
}

/// The English name of a month (chrono's `%B`).
pub open spec fn month_name(month: int) -> Seq<char> {
    if month == 1 {
        "January"@
    } else if month == 2 {
        "February"@
    } else if month == 3 {
        "March"@
    } else if month == 4 {
        "April"@
    } else if month == 5 {
        "May"@
    } else if month == 6 {
        "June"@
    } else if month == 7 {
        "July"@
    } else if month == 8 {
        "August"@
    } else if month == 9 {
        "September"@
    } else if month == 10 {
        "October"@
    } else if month == 11 {
        "November"@
    } else {
        "December"@
    }
}

/// The English abbreviation of a month (chrono's `%b`).
pub open spec fn month_abbreviation(month: int) -> Seq<char> {
    month_name(month).take(3)
}

/// The English abbreviation of a weekday numbered from Monday (chrono's `%a`).
pub open spec fn weekday_abbreviation(weekday: int) -> Seq<char> {
    if weekday == 0 {
        "Mon"@
    } else if weekday == 1 {
        "Tue"@
    } else if weekday == 2 {
        "Wed"@
    } else if weekday == 3 {
        "Thu"@
    } else if weekday == 4 {
        "Fri"@
    } else if weekday == 5 {
        "Sat"@
    } else {
        "Sun"@
    }
}

/// The weekday of a date, Monday being 0: `chrono::NaiveDate::weekday` and
/// `Weekday::num_days_from_monday`. The contract states chrono's proleptic Gregorian weekday.
#[verifier::external_body]
pub(crate) fn weekday_of(year: i32, month: u32, day: u32) -> (w: u32)
    requires
        valid_date(year as int, month as int, day as int),
    ensures
        w == weekday_from_monday(year as int, month as int, day as int),
{
    chrono::NaiveDate::from_ymd_opt(year, month, day).unwrap().weekday().num_days_from_monday()
}

/// The title of a month, `format("%B %Y")` of chrono on its first day: the month's English
/// name, a space, and the year as `%Y` writes it.
#[verifier::external_body]
pub(crate) fn format_month_title(year: i32, month: u32) -> (title: String)
    requires
        valid_date(year as int, month as int, 1),
    ensures
        title@ == month_name(month as int) + " "@ + year_text(year as int),
{
    chrono::NaiveDate::from_ymd_opt(year, month, 1).unwrap().format("%B %Y").to_string()
}

/// A date-time's day as "Sat 7 Jun": weekday and month abbreviated, the day unpadded.
pub open spec fn day_label_text(at: LocalDateTime) -> Seq<char> {
    weekday_abbreviation(weekday_from_monday(at.year_of(), at.month_of(), at.day_of())) + " "@
        + decimal(at.day_of() as nat) + " "@ + month_abbreviation(at.month_of())
}

/// A date-time's time of day as "19:30".
pub open spec fn clock_label_text(at: LocalDateTime) -> Seq<char> {
    two_digits(at.hour_of() as nat) + ":"@ + two_digits(at.minute_of() as nat)
}

/// The day of a date-time as chrono's `format("%a %-d %b")` writes it: the weekday's
/// abbreviation, the day of the month without padding, and the month's abbreviation.
#[verifier::external_body]
pub(crate) fn day_label(at: &LocalDateTime) -> (label: String)
    ensures
        label@ == day_label_text(*at),
{
    chrono::NaiveDate::from_ymd_opt(at.year, at.month, at.day).unwrap().format("%a %-d %b").to_string()
}

/// The time of day of a date-time as chrono's `format("%H:%M")` writes it.
#[verifier::external_body]
pub(crate) fn clock_label(at: &LocalDateTime) -> (label: String)
    ensures
        label@ == clock_label_text(*at),
{
    chrono::NaiveTime::from_hms_nano_opt(at.hour, at.minute, at.second, at.nanosecond)
        .unwrap()
        .format("%H:%M")
        .to_string()
}

} // verus!
