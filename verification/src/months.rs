//! Months: going from one to another, and how the calendar page names them.

use crate::date::{
    day_number, is_date, month_length, parsed_date, CalendarDate,
    NaiveDate, MAX_YEAR, MIN_YEAR,
};
use crate::fields::FormFields;
use crate::text::{
    padded, padded_text, signed_decimal, signed_padded, signed_padded_text, signed_text,
};
use vstd::prelude::*;

verus! {

/// The first day of a date's month.
pub open spec fn first_of_month(date: CalendarDate) -> CalendarDate {
    CalendarDate { year: date.year, month: date.month, day: 1 }
}

/// A month's place in the count of all months.
pub open spec fn month_number(date: CalendarDate) -> int {
    date.year * 12 + date.month - 1
}

/// The first day of the month at a place in the count of all months.
pub open spec fn month_at(number: int) -> CalendarDate {
    CalendarDate { year: number / 12, month: number % 12 + 1, day: 1 }
}

/// The first day of the month some months later.
pub open spec fn month_shifted(date: CalendarDate, months: int) -> CalendarDate {
    month_at(month_number(date) + months)
}

/// The first day of a date's month.
pub fn month_start(date: NaiveDate) -> (start: NaiveDate)
    ensures
        start@ == first_of_month(date@),
        is_date(start@),
{
    let year: i32 = date.year();
    let month: u32 = date.month();
    assert(is_date(first_of_month(date@)));
    let start = NaiveDate::from_ymd_opt(year, month, 1);
    match start {
        Some(start) => start,
        None => date,
    }
}

/// The first day of the month some months later, or earlier where the number
/// is negative.
pub fn shift_month(date: NaiveDate, months: i32) -> (shifted: NaiveDate)
    requires
        is_date(month_shifted(date@, months as int)),
    ensures
        shifted@ == month_shifted(date@, months as int),
{
    let year: i64 = date.year() as i64;
    let month: i64 = date.month() as i64;
    let number: i64 = year * 12 + month - 1 + months as i64;
    assert(number == month_number(date@) + months);
    let shifted_number: i64 = number + 262143 * 12 + 12;
    assert(shifted_number / 12 == number / 12 + 262144);
    assert(shifted_number % 12 == number % 12);
    let new_year: i32 = (shifted_number / 12 - 262144) as i32;
    let new_month: u32 = (shifted_number % 12 + 1) as u32;
    match NaiveDate::from_ymd_opt(new_year, new_month, 1) {
        Some(shifted) => shifted,
        None => date,
    }
}

/// The first day of the month before a date's month.
pub fn previous_month_start(today: NaiveDate) -> (start: NaiveDate)
    requires
        is_date(month_shifted(today@, -1)),
    ensures
        start@ == month_shifted(today@, -1),
{
    shift_month(today, -1)
}

/// The views of a list of dates.
pub open spec fn date_views(dates: Seq<NaiveDate>) -> Seq<CalendarDate> {
    dates.map_values(|date: NaiveDate| date@)
}

/// The first days of some months in a row.
pub open spec fn months_from(start: CalendarDate, months: nat) -> Seq<CalendarDate> {
    Seq::new(months, |i: int| month_shifted(start, i))
}

/// The first days of some months in a row.
pub fn month_range(start: NaiveDate, months: u32) -> (list: Vec<NaiveDate>)
    requires
        months > 0 ==> is_date(month_shifted(start@, months - 1)),
    ensures
        date_views(list@) == months_from(start@, months as nat),
{
    let mut list: Vec<NaiveDate> = Vec::new();
    let mut offset: u32 = 0;
    let first: i32 = start.year();
    let first_month: u32 = start.month();
    while offset < months
        invariant
            offset <= months,
            start@.year == first,
            start@.month == first_month,
            MIN_YEAR <= first <= MAX_YEAR,
            1 <= first_month <= 12,
            months > 0 ==> is_date(month_shifted(start@, months - 1)),
            date_views(list@) == months_from(start@, months as nat).take(offset as int),
        decreases months - offset,
    {
        let ghost done = date_views(list@);
        proof {
            let number = month_number(start@);
            assert(MIN_YEAR <= (number + months - 1) / 12 <= MAX_YEAR);
            assert(MIN_YEAR <= (number + offset) / 12 <= (number + months - 1) / 12);
            assert(months < 0x7fff_ffff);
        }
        let month = shift_month(start, offset as i32);
        list.push(month);
        assert(date_views(list@) == done.push(month@));
        offset = offset + 1;
        assert(date_views(list@) == months_from(start@, months as nat).take(offset as int));
    }
    assert(months_from(start@, months as nat).take(months as int) == months_from(
        start@,
        months as nat,
    ));
    list
}

/// The number of days of a date's month.
pub fn days_in_month(date: NaiveDate) -> (days: u32)
    requires
        is_date(month_shifted(date@, 1)),
    ensures
        days == month_length(date@.year, date@.month),
        28 <= days <= 31,
{
    let month: u32 = date.month();
    assert(1 <= month <= 12);
    let current = month_start(date);
    let next = shift_month(date, 1);
    proof {
        month_is_its_days(date@);
    }
    (next.num_days_from_ce() - current.num_days_from_ce()) as u32
}

proof fn month_is_its_days(date: CalendarDate)
    requires
        1 <= date.month <= 12,
    ensures
        day_number(month_shifted(date, 1)) - day_number(first_of_month(date)) == month_length(
            date.year,
            date.month,
        ),
        28 <= month_length(date.year, date.month) <= 31,
{
    if date.month < 12 {
        assert((date.year * 12 + date.month) / 12 == date.year);
        assert((date.year * 12 + date.month) % 12 == date.month);
    } else {
        assert((date.year * 12 + 12) / 12 == date.year + 1);
        assert((date.year * 12 + 12) % 12 == 0);
        crate::date::year_end_step(date.year);
    }
}

/// Going some months on and then some more is going both at once.
pub proof fn month_shifts_add_up(date: CalendarDate, first: int, second: int)
    requires
        1 <= date.month <= 12,
    ensures
        month_shifted(month_shifted(date, first), second) == month_shifted(date, first + second),
{
    let number = month_number(date) + first;
    assert(number / 12 * 12 + number % 12 == number);
}

/// Going some months on and the same number back gives the month itself.
pub proof fn month_shifts_undo(date: CalendarDate, months: int)
    requires
        1 <= date.month <= 12,
    ensures
        month_shifted(month_shifted(date, months), -months) == first_of_month(date),
{
    month_shifts_add_up(date, months, -months);
    let number = month_number(date);
    assert((date.year * 12 + (date.month - 1)) / 12 == date.year);
    assert((date.year * 12 + (date.month - 1)) % 12 == date.month - 1);
}

/// A month as the calendar page writes it: its first day, `01/04/2026`.
pub open spec fn month_field(date: CalendarDate) -> Seq<char> {
    "01/"@ + padded(date.month as nat, 2) + "/"@ + signed_padded(date.year, 4)
}

/// A month as the calendar page writes it.
pub fn month_field_value(date: NaiveDate) -> (text: String)
    ensures
        text@ == month_field(date@),
{
    let mut text = "01/".to_owned();
    let month = padded_text(date.month() as u64, 2);
    text.append(month.as_str());
    text.append("/");
    let year = signed_padded_text(date.year() as i64, 4);
    text.append(year.as_str());
    text
}

/// The date that the calendar page counts days from.
pub open spec fn selection_epoch() -> CalendarDate {
    CalendarDate { year: 2000, month: 1, day: 1 }
}

/// A day as the calendar page names a selected day: the number of days since
/// the first of January 2000.
pub open spec fn selected_day(date: CalendarDate) -> Seq<char> {
    signed_decimal(day_number(date) - day_number(selection_epoch()))
}

/// A day as the calendar page names a selected day.
pub fn calendar_selected_day_value(date: NaiveDate) -> (text: String)
    ensures
        text@ == selected_day(date@),
{
    let epoch: i64 = match NaiveDate::from_ymd_opt(2000, 1, 1) {
        Some(epoch) => epoch.num_days_from_ce() as i64,
        None => 730120,
    };
    let number: i64 = date.num_days_from_ce() as i64;
    signed_text(number - epoch)
}

/// The month that a calendar page with these fields shows, or what is wrong
/// with it.
pub open spec fn month_shown(fields: Map<Seq<char>, Seq<char>>) -> Result<CalendarDate, Seq<char>> {
    if fields.dom().contains("ctl00$mp$currentMonth"@) {
        let raw = fields["ctl00$mp$currentMonth"@];
        match parsed_date(raw, "%d/%m/%Y"@) {
            Ok(date) => Ok(first_of_month(date)),
            Err(_) => Err("parse displayed month from '"@ + raw + "'"@),
        }
    } else {
        Err("calendar page is missing ctl00$mp$currentMonth"@)
    }
}

/// The month that a calendar page with these fields shows.
pub fn displayed_month(fields: &FormFields) -> (month: Result<NaiveDate, String>)
    ensures
        match month {
            Ok(month) => month_shown(fields@) == Ok::<CalendarDate, Seq<char>>(month@),
            Err(message) => month_shown(fields@) == Err::<CalendarDate, Seq<char>>(message@),
        },
        month matches Ok(month) ==> is_date(month@) && month@.day == 1,
{
    match fields.get("ctl00$mp$currentMonth") {
        Some(raw) => match NaiveDate::parse_from_str(raw.as_str(), "%d/%m/%Y") {
            Ok(date) => Ok(month_start(date)),
            Err(_) => {
                let mut message = "parse displayed month from '".to_owned();
                message.append(raw.as_str());
                message.append("'");
                Err(message)
            },
        },
        None => Err("calendar page is missing ctl00$mp$currentMonth".to_owned()),
    }
}

} // verus!
