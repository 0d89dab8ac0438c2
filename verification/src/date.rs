//! Calendar dates of the proleptic Gregorian calendar.

use crate::text::{opt_text, padded};
use chrono::Datelike;
use vstd::prelude::*;

verus! {

/// A date as three numbers.
pub struct CalendarDate {
    pub year: int,
    pub month: int,
    pub day: int,
}

/// A date that the calendar has, in the years that `chrono` can hold.
#[derive(Debug, Clone, Copy, PartialEq, Eq, PartialOrd, Ord, Hash, Structural)]
pub struct NaiveDate {
    pub(crate) year: i32,
    pub(crate) month: u32,
    pub(crate) day: u32,
}

impl View for NaiveDate {
    type V = CalendarDate;

    open(crate) spec fn view(&self) -> CalendarDate {
        CalendarDate { year: self.year as int, month: self.month as int, day: self.day as int }
    }
}

/// Whether a year has a 29th of February.
pub open spec fn is_leap_year(year: int) -> bool {
    year % 4 == 0 && (year % 100 != 0 || year % 400 == 0)
}

/// The number of days of a month.
pub open spec fn month_length(year: int, month: int) -> int {
    if month == 2 {
        if is_leap_year(year) {
            29
        } else {
            28
        }
    } else if month == 4 || month == 6 || month == 9 || month == 11 {
        30
    } else {
        31
    }
}

/// The first year that a date can have.
pub const MIN_YEAR: i32 = -262143;

/// The last year that a date can have.
pub const MAX_YEAR: i32 = 262142;

/// Whether the calendar has this date.
pub open spec fn is_date(date: CalendarDate) -> bool {
    &&& MIN_YEAR <= date.year <= MAX_YEAR
    &&& 1 <= date.month <= 12
    &&& 1 <= date.day <= month_length(date.year, date.month)
}

/// The days of a year before the first of a month.
pub open spec fn days_before_month(year: int, month: int) -> int
    decreases month,
{
    if month <= 1 {
        0
    } else {
        days_before_month(year, month - 1) + month_length(year, month - 1)
    }
}

/// The days before the first of January of a year, counted from the first of
/// January of the year 1.
pub open spec fn days_before_year(year: int) -> int {
    365 * (year - 1) + (year - 1) / 4 - (year - 1) / 100 + (year - 1) / 400
}

/// The number of a date, where the first of January of the year 1 is day 1.
pub open spec fn day_number(date: CalendarDate) -> int {
    days_before_year(date.year) + days_before_month(date.year, date.month) + date.day
}

/// The day of the week, where Sunday is 0.
pub open spec fn weekday(date: CalendarDate) -> int {
    day_number(date) % 7
}

/// Whether `a` is later than `b`.
pub open spec fn is_after(a: CalendarDate, b: CalendarDate) -> bool {
    a.year > b.year || (a.year == b.year && (a.month > b.month || (a.month == b.month && a.day
        > b.day)))
}

/// The date of the next day.
pub open spec fn next_date(date: CalendarDate) -> CalendarDate {
    if date.day < month_length(date.year, date.month) {
        CalendarDate { year: date.year, month: date.month, day: date.day + 1 }
    } else if date.month < 12 {
        CalendarDate { year: date.year, month: date.month + 1, day: 1 }
    } else {
        CalendarDate { year: date.year + 1, month: 1, day: 1 }
    }
}

/// Friday and Saturday.
pub open spec fn is_weekend_date(date: CalendarDate) -> bool {
    weekday(date) == 5 || weekday(date) == 6
}

/// A year as dates are written: four digits, with a sign outside 0 to 9999.
pub open spec fn year_text(year: int) -> Seq<char> {
    if 0 <= year <= 9999 {
        padded(year as nat, 4)
    } else if year < 0 {
        "-"@ + padded((-year) as nat, 4)
    } else {
        "+"@ + padded(year as nat, 4)
    }
}

/// A date in the form `2026-04-09`.
pub open spec fn iso_text(date: CalendarDate) -> Seq<char> {
    year_text(date.year) + "-"@ + padded(date.month as nat, 2) + "-"@ + padded(date.day as nat, 2)
}

/// The month of a date in the form `2026-04`.
pub open spec fn month_text(date: CalendarDate) -> Seq<char> {
    year_text(date.year) + "-"@ + padded(date.month as nat, 2)
}

/// A date in the form `09/04/2026`.
pub open spec fn slashed_text(date: CalendarDate) -> Seq<char> {
    padded(date.day as nat, 2) + "/"@ + padded(date.month as nat, 2) + "/"@ + year_text(date.year)
}

/// The English abbreviation of the day of the week.
pub open spec fn weekday_text(date: CalendarDate) -> Seq<char> {
    let day = weekday(date);
    if day == 0 {
        "Sun"@
    } else if day == 1 {
        "Mon"@
    } else if day == 2 {
        "Tue"@
    } else if day == 3 {
        "Wed"@
    } else if day == 4 {
        "Thu"@
    } else if day == 5 {
        "Fri"@
    } else {
        "Sat"@
    }
}

/// What `chrono::NaiveDate::parse_from_str` makes of a text: the date, or the
/// words of the error.
pub uninterp spec fn parsed_date(text: Seq<char>, pattern: Seq<char>) -> Result<
    CalendarDate,
    Seq<char>,
>;

/// What `chrono` writes after a pattern for a moment given in milliseconds
/// since the start of 1970, where it can hold that moment and write it so.
pub uninterp spec fn millis_written(millis: int, pattern: Seq<char>) -> Option<Seq<char>>;

/// What `chrono` writes after a pattern for a moment given in seconds since
/// the start of 1970, where it can hold that moment and write it so.
pub uninterp spec fn seconds_written(seconds: int, pattern: Seq<char>) -> Option<Seq<char>>;

/// A moment given in milliseconds since the start of 1970, in the form
/// `2026-04-09T08:30:00.000Z`.
pub open spec fn moment_text(millis: int) -> Option<Seq<char>> {
    millis_written(millis, "%Y-%m-%dT%H:%M:%S%.3fZ"@)
}

/// A moment given in seconds since the start of 1970, in the form
/// `2026-04-09 08:30 UTC`.
pub open spec fn minute_text(seconds: int) -> Option<Seq<char>> {
    seconds_written(seconds, "%Y-%m-%d %H:%M UTC"@)
}

/// Calls `chrono::NaiveDate::from_ymd_opt`, which gives a date exactly for the
/// triples that the calendar has, in the years that `chrono` holds.
#[verifier::external_body]
fn calendar_has(year: i32, month: u32, day: u32) -> (answer: bool)
    ensures
        answer == is_date(
            CalendarDate { year: year as int, month: month as int, day: day as int },
        ),
{
    chrono::NaiveDate::from_ymd_opt(year, month, day).is_some()
}

/// Calls `chrono::Datelike::num_days_from_ce`: the number of the day, where
/// the first of January of the year 1 is day 1.
#[verifier::external_body]
fn number_of(date: NaiveDate) -> (number: i32)
    requires
        is_date(date@),
    ensures
        number == day_number(date@),
{
    let date = chrono::NaiveDate::from_ymd_opt(date.year, date.month, date.day).unwrap();
    date.num_days_from_ce()
}

/// Calls `chrono::Datelike::weekday` and `chrono::Weekday::num_days_from_sunday`.
#[verifier::external_body]
fn weekday_of(date: NaiveDate) -> (day: u32)
    requires
        is_date(date@),
    ensures
        day == weekday(date@),
{
    let date = chrono::NaiveDate::from_ymd_opt(date.year, date.month, date.day).unwrap();
    date.weekday().num_days_from_sunday()
}

/// Calls `chrono::NaiveDate::succ_opt`: the next day, unless the date is the
/// last that `chrono` holds.
#[verifier::external_body]
fn successor_of(date: NaiveDate) -> (next: Option<(i32, u32, u32)>)
    requires
        is_date(date@),
    ensures
        match next {
            Some(ymd) => is_date(next_date(date@)) && next_date(date@) == (CalendarDate {
                year: ymd.0 as int,
                month: ymd.1 as int,
                day: ymd.2 as int,
            }),
            None => !is_date(next_date(date@)),
        },
{
    let date = chrono::NaiveDate::from_ymd_opt(date.year, date.month, date.day).unwrap();
    date.succ_opt().map(|next| (next.year(), next.month(), next.day()))
}

/// What `chrono::NaiveDate::format` writes for a date after a pattern, where
/// the pattern is one that a date can be written after.
pub uninterp spec fn formatted_date(date: CalendarDate, pattern: Seq<char>) -> Option<Seq<char>>;

/// Calls `chrono::NaiveDate::format` and `chrono::format::DelayedFormat::write_to`.
/// For four patterns it is said what they give: numbers with zeros in front, a
/// sign before a year outside 0 to 9999, and English day names.
#[verifier::external_body]
fn format_date(date: NaiveDate, pattern: &str) -> (text: Option<String>)
    requires
        is_date(date@),
    ensures
        opt_text(text) == formatted_date(date@, pattern@),
        pattern@ == "%Y-%m-%d"@ ==> opt_text(text) == Some(iso_text(date@)),
        pattern@ == "%Y-%m"@ ==> opt_text(text) == Some(month_text(date@)),
        pattern@ == "%d/%m/%Y"@ ==> opt_text(text) == Some(slashed_text(date@)),
        pattern@ == "%a"@ ==> opt_text(text) == Some(weekday_text(date@)),
{
    let date = chrono::NaiveDate::from_ymd_opt(date.year, date.month, date.day).unwrap();
    let mut text = String::new();
    match date.format(pattern).write_to(&mut text) {
        Ok(()) => Some(text),
        Err(_) => None,
    }
}

/// The outcome of a parse as numbers and characters.
pub open spec fn parse_outcome(outcome: Result<(i32, u32, u32), String>) -> Result<
    CalendarDate,
    Seq<char>,
> {
    match outcome {
        Ok(ymd) => Ok(
            CalendarDate { year: ymd.0 as int, month: ymd.1 as int, day: ymd.2 as int },
        ),
        Err(message) => Err(message@),
    }
}

/// Calls `chrono::NaiveDate::parse_from_str`, whose dates are dates of the
/// calendar, and writes its error out.
#[verifier::external_body]
fn parse_numbers(text: &str, pattern: &str) -> (outcome: Result<(i32, u32, u32), String>)
    ensures
        parse_outcome(outcome) == parsed_date(text@, pattern@),
        parse_outcome(outcome) matches Ok(date) ==> is_date(date),
{
    match chrono::NaiveDate::parse_from_str(text, pattern) {
        Ok(date) => Ok((date.year(), date.month(), date.day())),
        Err(error) => Err(error.to_string()),
    }
}

/// Calls `chrono::DateTime::from_timestamp_millis`, `format` and
/// `chrono::format::DelayedFormat::write_to`.
#[verifier::external_body]
fn write_moment(millis: i64, pattern: &str) -> (text: Option<String>)
    ensures
        opt_text(text) == millis_written(millis as int, pattern@),
{
    let moment = chrono::DateTime::from_timestamp_millis(millis)?;
    let mut text = String::new();
    moment.format(pattern).write_to(&mut text).ok().map(|_| text)
}

/// Calls `chrono::DateTime::from_timestamp`, `format` and
/// `chrono::format::DelayedFormat::write_to`.
#[verifier::external_body]
fn write_minute(seconds: i64, pattern: &str) -> (text: Option<String>)
    ensures
        opt_text(text) == seconds_written(seconds as int, pattern@),
{
    let moment = chrono::DateTime::from_timestamp(seconds, 0)?;
    let mut text = String::new();
    moment.format(pattern).write_to(&mut text).ok().map(|_| text)
}

/// The minute of a moment `seconds` seconds after the start of 1970, in the
/// form `2026-04-09 08:30 UTC`.
pub fn minute_of(seconds: i64) -> (text: Option<String>)
    ensures
        match text {
            Some(text) => minute_text(seconds as int) == Some(text@),
            None => minute_text(seconds as int) is None,
        },
{
    write_minute(seconds, "%Y-%m-%d %H:%M UTC")
}

/// The moment `millis` milliseconds after the start of 1970, in the form
/// `2026-04-09T00:00:00.000Z`.
pub fn moment_from_millis(millis: i64) -> (text: Option<String>)
    ensures
        match text {
            Some(text) => moment_text(millis as int) == Some(text@),
            None => moment_text(millis as int) is None,
        },
{
    write_moment(millis, "%Y-%m-%dT%H:%M:%S%.3fZ")
}

impl NaiveDate {
    #[verifier::type_invariant]
    pub open(crate) spec fn holds(self) -> bool {
        is_date(self@)
    }

    /// The date with these numbers, where the calendar has it.
    pub fn from_ymd_opt(year: i32, month: u32, day: u32) -> (date: Option<NaiveDate>)
        ensures
            ({
                let wanted = CalendarDate {
                    year: year as int,
                    month: month as int,
                    day: day as int,
                };
                match date {
                    Some(date) => is_date(wanted) && date@ == wanted,
                    None => !is_date(wanted),
                }
            }),
    {
        if calendar_has(year, month, day) {
            Some(NaiveDate { year, month, day })
        } else {
            None
        }
    }

    /// Reads a date written by a pattern of `chrono`.
    pub fn parse_from_str(text: &str, pattern: &str) -> (outcome: Result<NaiveDate, String>)
        ensures
            match outcome {
                Ok(date) => parsed_date(text@, pattern@) == Ok::<CalendarDate, Seq<char>>(date@),
                Err(message) => parsed_date(text@, pattern@) == Err::<CalendarDate, Seq<char>>(
                    message@,
                ),
            },
            outcome matches Ok(date) ==> is_date(date@),
    {
        match parse_numbers(text, pattern) {
            Ok(ymd) => Ok(NaiveDate { year: ymd.0, month: ymd.1, day: ymd.2 }),
            Err(message) => Err(message),
        }
    }

    pub fn year(&self) -> (year: i32)
        ensures
            year == self@.year,
            MIN_YEAR <= year <= MAX_YEAR,
    {
        proof {
            use_type_invariant(self);
        }
        self.year
    }

    pub fn month(&self) -> (month: u32)
        ensures
            month == self@.month,
            1 <= month <= 12,
    {
        proof {
            use_type_invariant(self);
        }
        self.month
    }

    pub fn day(&self) -> (day: u32)
        ensures
            day == self@.day,
            1 <= day <= 31,
    {
        proof {
            use_type_invariant(self);
        }
        self.day
    }

    /// The date's place in the count of all days.
    pub fn num_days_from_ce(&self) -> (number: i32)
        ensures
            number == day_number(self@),
    {
        proof {
            use_type_invariant(self);
        }
        number_of(*self)
    }

    /// The day of the week, where Sunday is 0.
    pub fn num_days_from_sunday(&self) -> (day: u32)
        ensures
            day == weekday(self@),
            day < 7,
    {
        proof {
            use_type_invariant(self);
        }
        weekday_of(*self)
    }

    /// The next day, unless this is the last date there is.
    pub fn succ_opt(&self) -> (next: Option<NaiveDate>)
        ensures
            match next {
                Some(next) => next@ == next_date(self@) && is_date(next@),
                None => !is_date(next_date(self@)),
            },
    {
        proof {
            use_type_invariant(self);
        }
        match successor_of(*self) {
            Some(ymd) => Some(NaiveDate { year: ymd.0, month: ymd.1, day: ymd.2 }),
            None => None,
        }
    }

    /// Whether this date is later than `other`.
    pub fn is_after(&self, other: NaiveDate) -> (answer: bool)
        ensures
            answer == is_after(self@, other@),
    {
        self.year > other.year || (self.year == other.year && (self.month > other.month || (
        self.month == other.month && self.day > other.day)))
    }

    /// Whether this is the same date as `other`.
    pub fn same_as(&self, other: NaiveDate) -> (answer: bool)
        ensures
            answer == (self@ == other@),
            answer == (*self == other),
    {
        self.year == other.year && self.month == other.month && self.day == other.day
    }

    /// The date after a pattern, where it can be written after it.
    pub fn format(&self, pattern: &str) -> (text: Option<String>)
        ensures
            opt_text(text) == formatted_date(self@, pattern@),
    {
        proof {
            use_type_invariant(self);
        }
        format_date(*self, pattern)
    }

    /// The date in the form `2026-04-09`.
    pub fn iso(&self) -> (text: String)
        ensures
            text@ == iso_text(self@),
    {
        proof {
            use_type_invariant(self);
        }
        match format_date(*self, "%Y-%m-%d") {
            Some(text) => text,
            None => String::new(),
        }
    }

    /// The month in the form `2026-04`.
    pub fn year_month(&self) -> (text: String)
        ensures
            text@ == month_text(self@),
    {
        proof {
            use_type_invariant(self);
        }
        match format_date(*self, "%Y-%m") {
            Some(text) => text,
            None => String::new(),
        }
    }

    /// The date in the form `09/04/2026`.
    pub fn slashed(&self) -> (text: String)
        ensures
            text@ == slashed_text(self@),
    {
        proof {
            use_type_invariant(self);
        }
        match format_date(*self, "%d/%m/%Y") {
            Some(text) => text,
            None => String::new(),
        }
    }

    /// The English abbreviation of the day of the week.
    pub fn weekday_name(&self) -> (text: String)
        ensures
            text@ == weekday_text(self@),
    {
        proof {
            use_type_invariant(self);
        }
        match format_date(*self, "%a") {
            Some(text) => text,
            None => String::new(),
        }
    }
}

/// Whether a date is a Friday or a Saturday.
pub fn is_weekend(date: NaiveDate) -> (answer: bool)
    ensures
        answer == is_weekend_date(date@),
{
    let day: u32 = date.num_days_from_sunday();
    day == 5 || day == 6
}

proof fn quotient_step(n: int, divisor: int)
    requires
        divisor > 1,
    ensures
        n / divisor - (n - 1) / divisor == if n % divisor == 0 {
            1int
        } else {
            0int
        },
{
    vstd::arithmetic::div_mod::lemma_fundamental_div_mod(n, divisor);
    let quotient = n / divisor;
    let rest = n % divisor;
    if rest == 0 {
        assert(n - 1 == (quotient - 1) * divisor + (divisor - 1)) by (nonlinear_arith)
            requires
                n == divisor * quotient + rest,
                rest == 0,
        ;
        vstd::arithmetic::div_mod::lemma_fundamental_div_mod_converse(
            n - 1,
            divisor,
            quotient - 1,
            divisor - 1,
        );
    } else {
        assert(n - 1 == quotient * divisor + (rest - 1)) by (nonlinear_arith)
            requires
                n == divisor * quotient + rest,
        ;
        vstd::arithmetic::div_mod::lemma_mod_bound(n, divisor);
        vstd::arithmetic::div_mod::lemma_fundamental_div_mod_converse(
            n - 1,
            divisor,
            quotient,
            rest - 1,
        );
    }
}

proof fn multiples(year: int)
    ensures
        year % 400 == 0 ==> year % 100 == 0,
        year % 100 == 0 ==> year % 4 == 0,
{
}

proof fn year_step(year: int)
    ensures
        days_before_year(year + 1) == days_before_year(year) + year_length(year),
{
    quotient_step(year, 4);
    quotient_step(year, 100);
    quotient_step(year, 400);
    multiples(year);
}

/// The days of a year.
pub open spec fn year_length(year: int) -> int {
    if is_leap_year(year) {
        366
    } else {
        365
    }
}

/// The year that follows begins the day after the last of December.
pub proof fn year_end_step(year: int)
    ensures
        day_number(CalendarDate { year: year + 1, month: 1, day: 1 }) == day_number(
            CalendarDate { year, month: 12, day: 31 },
        ) + 1,
        day_number(CalendarDate { year, month: 12, day: 31 }) == day_number(
            CalendarDate { year, month: 12, day: 1 },
        ) + 30,
{
    year_step(year);
    reveal_with_fuel(days_before_month, 13);
}

proof fn day_of_year_fits(date: CalendarDate)
    requires
        is_date(date),
    ensures
        1 <= days_before_month(date.year, date.month) + date.day <= year_length(date.year),
{
    reveal_with_fuel(days_before_month, 13);
}

proof fn years_grow(earlier: int, later: int)
    requires
        earlier < later,
    ensures
        days_before_year(earlier) + year_length(earlier) <= days_before_year(later),
    decreases later - earlier,
{
    year_step(later - 1);
    if earlier < later - 1 {
        years_grow(earlier, later - 1);
    }
}

proof fn months_grow(year: int, earlier: int, later: int)
    requires
        1 <= earlier < later <= 12,
    ensures
        days_before_month(year, earlier) + month_length(year, earlier) <= days_before_month(
            year,
            later,
        ),
    decreases later - earlier,
{
    if earlier < later - 1 {
        months_grow(year, earlier, later - 1);
    }
}

/// Dates are in the order of their numbers.
pub proof fn later_dates_have_greater_numbers(a: CalendarDate, b: CalendarDate)
    requires
        is_date(a),
        is_date(b),
    ensures
        is_after(a, b) == (day_number(a) > day_number(b)),
        a == b <==> day_number(a) == day_number(b),
{
    day_of_year_fits(a);
    day_of_year_fits(b);
    if a.year > b.year {
        years_grow(b.year, a.year);
    } else if b.year > a.year {
        years_grow(a.year, b.year);
    } else if a.month > b.month {
        months_grow(a.year, b.month, a.month);
    } else if b.month > a.month {
        months_grow(a.year, a.month, b.month);
    }
}

proof fn december_ends_the_year(year: int)
    ensures
        days_before_month(year, 12) + 31 == year_length(year),
{
    reveal_with_fuel(days_before_month, 13);
}

proof fn next_number(date: CalendarDate)
    requires
        is_date(date),
    ensures
        day_number(next_date(date)) == day_number(date) + 1,
{
    if date.day < month_length(date.year, date.month) {
    } else if date.month < 12 {
        assert(days_before_month(date.year, date.month + 1) == days_before_month(
            date.year,
            date.month,
        ) + month_length(date.year, date.month));
    } else {
        year_step(date.year);
        december_ends_the_year(date.year);
        assert(days_before_month(date.year + 1, 1) == 0);
    }
}

proof fn next_remainder(n: int)
    ensures
        (n + 1) % 7 == (n % 7 + 1) % 7,
{
}

proof fn nothing_between(date: CalendarDate, other: CalendarDate)
    requires
        is_date(date),
        is_date(other),
        is_after(other, date),
    ensures
        !is_after(next_date(date), other),
{
}

/// Going to the next day raises the number of the date by one, so the day of
/// the week moves on by one and the new date is later.
pub proof fn next_date_is_one_day_later(date: CalendarDate)
    requires
        is_date(date),
    ensures
        day_number(next_date(date)) == day_number(date) + 1,
        weekday(next_date(date)) == (weekday(date) + 1) % 7,
        is_after(next_date(date), date),
        forall|other: CalendarDate|
            #![trigger is_after(other, date)]
            is_date(other) && is_after(other, date) ==> !is_after(next_date(date), other),
{
    next_number(date);
    next_remainder(day_number(date));
    assert forall|other: CalendarDate|
        #![trigger is_after(other, date)]
        is_date(other) && is_after(other, date) implies !is_after(next_date(date), other) by {
        nothing_between(date, other);
    }
}

/// A message with a date behind it.
pub(crate) fn dated(message: &str, date: NaiveDate) -> (text: String)
    ensures
        text@ == message@ + iso_text(date@),
{
    let mut text = message.to_owned();
    let iso = date.iso();
    text.append(iso.as_str());
    text
}

} // verus!
