//! Laws of finding a month on the portal and of reading it day by day.

use crate::attendance::page_days;
use crate::date::{
    day_number, is_date, later_dates_have_greater_numbers, month_length, parsed_date, CalendarDate,
};
use crate::dom::page_of;
use crate::fields::sorted_pairs;
use crate::forms::{delta_records, page_fields, EntryView};
use crate::hr_core::{AttendanceSource, DayView};
use crate::months::{
    first_of_month, month_field, month_shifted, month_shown, months_from, selected_day,
};
use crate::navigation::{answered, next_action, ActionView, NavStage, NavView};
use crate::reading::{
    after_grid, after_probe, current_employee, first_grid_days, first_row_days, full_grid,
    full_grid_overrides, probed, probing_overrides, reading_of_page, says_something, ReadStageView,
    ReadingView,
};
use crate::text::{contains, padded, signed_decimal, signed_padded};
use vstd::prelude::*;

verus! {

// ---------------------------------------------------------------------------
// Months
// ---------------------------------------------------------------------------

/// Some months on from a month is as many months later in the count of all
/// months, and is given by its first day.
pub proof fn a_shift_counts_months(date: CalendarDate, months: int)
    ensures
        ({
            let shifted = month_shifted(date, months);
            &&& shifted.year * 12 + shifted.month == date.year * 12 + date.month + months
            &&& 1 <= shifted.month <= 12
            &&& shifted.day == 1
        }),
{
    let number = date.year * 12 + date.month - 1 + months;
    assert(number / 12 * 12 + number % 12 == number);
}

/// Months in a row begin with the first and go on by one.
pub proof fn months_follow_each_other(start: CalendarDate, months: nat, at: int)
    requires
        0 <= at < months,
    ensures
        months_from(start, months).len() == months,
        ({
            let found = months_from(start, months)[at];
            found.year * 12 + found.month == start.year * 12 + start.month + at && found.day == 1
        }),
{
    a_shift_counts_months(start, at);
}

/// A day is selected by the number of days since the first of January 2000: of
/// a later day that number is greater by the days between.
pub proof fn a_day_is_selected_by_its_number(date: CalendarDate)
    ensures
        selected_day(date) == signed_decimal(
            day_number(date) - day_number(CalendarDate { year: 2000, month: 1, day: 1 }),
        ),
{
}

/// A month is written with its own number and year, from its first day.
pub proof fn a_month_is_written_by_its_first_day(date: CalendarDate)
    ensures
        month_field(date) == "01/"@ + padded(date.month as nat, 2) + "/"@ + signed_padded(
            date.year,
            4,
        ),
        first_of_month(date).year == date.year && first_of_month(date).month == date.month
            && first_of_month(date).day == 1,
{
}

/// The month that a page shows is that of the date in its month field.
pub proof fn a_page_shows_the_month_of_its_field(fields: Map<Seq<char>, Seq<char>>)
    ensures
        month_shown(fields) matches Ok(month) ==> fields.dom().contains("ctl00$mp$currentMonth"@)
            && (parsed_date(fields["ctl00$mp$currentMonth"@], "%d/%m/%Y"@) matches Ok(date)
            && month.year == date.year && month.month == date.month && month.day == 1),
        fields.dom().contains("ctl00$mp$currentMonth"@) && parsed_date(
            fields["ctl00$mp$currentMonth"@],
            "%d/%m/%Y"@,
        ) is Ok ==> month_shown(fields) is Ok,
{
}

// ---------------------------------------------------------------------------
// Finding a month
// ---------------------------------------------------------------------------

/// The way to a month asks for that month: first by its period, then in the
/// list, then step by step towards it, forward where it is later and backward
/// where it is earlier; and it is at its end just where the page shows it.
pub proof fn a_month_is_asked_for(view: NavView)
    requires
        is_date(view.requested),
        is_date(view.current),
    ensures
        next_action(view) is Arrived <==> view.current == view.requested,
        view.current != view.requested && view.stage is Refresh ==> (next_action(
            view,
        ) matches ActionView::PressButton { overrides, name, value } && name
            == "ctl00$mp$RefreshPeriod"@ && overrides.contains(
            ("ctl00$mp$currentMonth"@, month_field(view.requested)),
        )),
        view.current != view.requested && view.stage is DropDown ==> (next_action(
            view,
        ) matches ActionView::RaiseEvent { overrides, target, argument } && target
            == "ctl00$mp$calendar_monthChanged"@ && argument == month_field(view.requested)),
        view.current != view.requested ==> (view.stage matches NavStage::Steps(taken) ==> if taken
            < 24 {
            next_action(view) matches ActionView::RaiseEvent { overrides, target, argument } && (if day_number(
                view.requested,
            ) > day_number(view.current) {
                target == "ctl00_mp_calendar_next"@ && overrides.contains(
                    ("ctl00$mp$currentMonth"@, month_field(month_shifted(view.current, 1))),
                )
            } else {
                target == "ctl00_mp_calendar_prev"@ && overrides.contains(
                    ("ctl00$mp$currentMonth"@, month_field(month_shifted(view.current, -1))),
                )
            })
        } else {
            next_action(view) is Stuck
        }),
{
    later_dates_have_greater_numbers(view.requested, view.current);
    later_dates_have_greater_numbers(view.current, view.requested);
    match next_action(view) {
        ActionView::PressButton { overrides, name, value } => {
            assert(overrides[1] == ("ctl00$mp$currentMonth"@, month_field(view.requested)));
        },
        ActionView::RaiseEvent { overrides, target, argument } => {
            if view.stage is Steps {
                assert(overrides[1].0 == "ctl00$mp$currentMonth"@);
                assert(overrides.contains(overrides[1]));
            }
        },
        _ => {},
    }
}

/// An answer brings the way to the month that its page shows; in single steps
/// a page that shows the same month again, or none, ends it with an error.
pub proof fn an_answer_brings_the_month_it_shows(view: NavView, html: Seq<char>)
    ensures
        ({
            let shown = month_shown(page_fields(page_of(html)));
            let next = answered(view, Ok(html));
            &&& (shown matches Ok(month) ==> (month != view.current || !(view.stage is Steps) ==> (
            next matches Ok(after) && after.current == month && after.html == html
                && after.fields == page_fields(page_of(html)) && after.requested
                == view.requested)))
            &&& (view.stage is Steps && shown == Ok::<CalendarDate, Seq<char>>(view.current)
                ==> next is Err)
            &&& (view.stage is Steps && shown is Err ==> next is Err)
            &&& (!(view.stage is Steps) && shown is Err ==> (next matches Ok(after)
                && after.current == view.current && after.html == view.html))
            &&& (next matches Ok(after) ==> {
                &&& (view.stage is Refresh ==> after.stage is DropDown)
                &&& (view.stage is DropDown ==> after.stage == NavStage::Steps(0))
                &&& (view.stage matches NavStage::Steps(taken) ==> (taken < 24 ==> after.stage
                    == NavStage::Steps((taken + 1) as u32)))
            })
        }),
{
}

// ---------------------------------------------------------------------------
// Reading a month
// ---------------------------------------------------------------------------

/// A page of the month is enough where some day of it has a time, a kind or an
/// error; else the full grid is asked for. A page without an employee is
/// refused.
pub proof fn a_page_is_enough_where_it_says_something(
    html: Seq<char>,
    fields: Map<Seq<char>, Seq<char>>,
    month: CalendarDate,
)
    ensures
        ({
            let days = page_days(page_of(html), month);
            let employee = current_employee(sorted_pairs(fields));
            let enough = exists|i: int|
                0 <= i < days.len() && ((#[trigger] days[i]).entry_time is Some
                    || days[i].exit_time is Some || days[i].attendance_type is Some
                    || days[i].has_error);
            match reading_of_page(html, fields, month) {
                Ok(reading) => employee.len() > 0 && reading.employee_id == employee
                    && reading.days == days && reading.month == month && (enough
                    <==> reading.stage is Done) && (!enough <==> reading.stage is Grid),
                Err(_) => employee.len() == 0,
            }
        }),
{
    let days = page_days(page_of(html), month);
    if crate::reading::any_says_something(days) {
        let i = choose|i: int| 0 <= i < days.len() && says_something(#[trigger] days[i]);
        assert(days[i].entry_time is Some || days[i].exit_time is Some
            || days[i].attendance_type is Some || days[i].has_error);
    }
    if exists|i: int|
        0 <= i < days.len() && ((#[trigger] days[i]).entry_time is Some || days[i].exit_time is Some
            || days[i].attendance_type is Some || days[i].has_error) {
        let i = choose|i: int|
            0 <= i < days.len() && ((#[trigger] days[i]).entry_time is Some || days[i].exit_time
                is Some || days[i].attendance_type is Some || days[i].has_error);
        assert(says_something(days[i]));
    }
}

/// The employee of a page is the value of a field whose name marks the current
/// one, where there is such a field.
pub proof fn the_employee_is_the_current_one(pairs: Seq<(Seq<char>, Seq<char>)>)
    ensures
        forall|i: int|
            0 <= i < pairs.len() && contains((#[trigger] pairs[i]).0, "hCurrentItemId"@) && (
            forall|j: int|
                0 <= j < i ==> !contains((#[trigger] pairs[j]).0, "hCurrentItemId"@))
                ==> current_employee(pairs) == pairs[i].1,
        (forall|i: int| 0 <= i < pairs.len() ==> !contains((#[trigger] pairs[i]).0, "hCurrentItemId"@))
            ==> current_employee(pairs).len() == 0,
    decreases pairs.len(),
{
    if pairs.len() > 0 {
        let rest = pairs.skip(1);
        the_employee_is_the_current_one(rest);
        assert forall|i: int|
            0 <= i < pairs.len() && contains((#[trigger] pairs[i]).0, "hCurrentItemId"@) && (
            forall|j: int|
                0 <= j < i ==> !contains((#[trigger] pairs[j]).0, "hCurrentItemId"@)) implies current_employee(
        pairs) == pairs[i].1 by {
            if i > 0 {
                assert(!contains(pairs[0].0, "hCurrentItemId"@));
                assert(rest[i - 1] == pairs[i]);
                assert forall|j: int| 0 <= j < i - 1 implies !contains(
                    (#[trigger] rest[j]).0,
                    "hCurrentItemId"@,
                ) by {
                    assert(rest[j] == pairs[j + 1]);
                }
            }
        }
        if forall|i: int|
            0 <= i < pairs.len() ==> !contains((#[trigger] pairs[i]).0, "hCurrentItemId"@) {
            assert(!contains(pairs[0].0, "hCurrentItemId"@));
            assert forall|i: int| 0 <= i < rest.len() implies !contains(
                (#[trigger] rest[i]).0,
                "hCurrentItemId"@,
            ) by {
                assert(rest[i] == pairs[i + 1]);
            }
        }
    }
}

/// Without days in the full grid the month is read day by day, from its first
/// day on; with days the reading is done.
pub proof fn a_month_without_a_grid_is_read_day_by_day(
    reading: ReadingView,
    reply: Result<Seq<char>, Seq<char>>,
)
    ensures
        ({
            let next = after_grid(reading, reply);
            let given = reply matches Ok(response) && full_grid(response, reading.month).len() > 0;
            &&& (given ==> next.stage is Done && next.days == full_grid(
                reply->Ok_0,
                reading.month,
            ))
            &&& (!given ==> next.days.len() == 0 && next.stage == ReadStageView::Probe(
                CalendarDate { year: reading.month.year, month: reading.month.month, day: 1 },
            ))
            &&& next.month == reading.month && next.employee_id == reading.employee_id
        }),
{
}

/// Reading day by day takes one day after another to the last of the month,
/// each selected by its own number, and keeps what was read.
pub proof fn each_day_of_a_month_is_read(
    reading: ReadingView,
    date: CalendarDate,
    html: Seq<char>,
)
    requires
        is_date(date),
        date.year == reading.month.year,
        date.month == reading.month.month,
    ensures
        ({
            let next = after_probe(reading, date, Ok(html));
            &&& next matches Ok(after) && after.days.len() == reading.days.len() + 1
                && after.days.last().date == date && (forall|i: int|
                0 <= i < reading.days.len() ==> after.days[i] == #[trigger] reading.days[i]) && (
            if date.day < month_length(date.year, date.month) {
                after.stage == ReadStageView::Probe(
                    CalendarDate { year: date.year, month: date.month, day: date.day + 1 },
                )
            } else {
                after.stage is Done
            })
        }),
        probing_overrides(date).contains(("__calendarSelectedDays"@, selected_day(date))),
        probing_overrides(date).contains(("ctl00$mp$currentMonth"@, month_field(date))),
{
    probed_is_of_its_date(page_days(page_of(html), reading.month), date);
    assert(probing_overrides(date)[0] == ("__calendarSelectedDays"@, selected_day(date)));
    assert(probing_overrides(date)[1] == ("ctl00$mp$currentMonth"@, month_field(date)));
}

proof fn probed_is_of_its_date(days: Seq<DayView>, date: CalendarDate)
    ensures
        crate::reading::day_on(days, date) matches Some(day) ==> day.date == date && days.contains(
            day,
        ),
    decreases days.len(),
{
    if days.len() > 0 {
        if days[0].date != date {
            let rest = days.skip(1);
            probed_is_of_its_date(rest, date);
            if let Some(day) = crate::reading::day_on(rest, date) {
                let i = choose|i: int| 0 <= i < rest.len() && rest[i] == day;
                assert(days[i + 1] == day);
            }
        } else {
            assert(days.contains(days[0]));
        }
    }
}

/// A day that the page does not speak of is read as one of which nothing is
/// known: no times, no kind, no error, and not reported.
pub proof fn an_unknown_day_is_blank(html: Seq<char>, month: CalendarDate, date: CalendarDate)
    ensures
        ({
            let day = probed(html, month, date);
            &&& day.date == date
            &&& page_days(page_of(html), month).contains(day) || (day.entry_time is None
                && day.exit_time is None && day.attendance_type is None && day.total_hours is None
                && !day.has_error && day.error_message is None && day.source
                == AttendanceSource::Unreported)
        }),
{
    probed_is_of_its_date(page_days(page_of(html), month), date);
}

/// Whether a record is a panel of the grid that gives days.
pub open spec fn gives_days(entry: EntryView, month: CalendarDate) -> bool {
    &&& entry.kind == "updatePanel"@
    &&& contains(entry.id, "upGrid"@) || contains(entry.id, "reportsGrid_bodyUpdate"@)
    &&& page_days(page_of(entry.content), month).len() > 0
}

proof fn the_first_grid_panel(entries: Seq<EntryView>, month: CalendarDate, at: int)
    requires
        0 <= at < entries.len(),
        gives_days(entries[at], month),
        forall|i: int| 0 <= i < at ==> !gives_days(#[trigger] entries[i], month),
    ensures
        first_grid_days(entries, month) == page_days(page_of(entries[at].content), month),
    decreases entries.len(),
{
    if at > 0 {
        assert(!gives_days(entries[0], month));
        let rest = entries.skip(1);
        assert(rest[at - 1] == entries[at]);
        assert forall|i: int| 0 <= i < at - 1 implies !gives_days(#[trigger] rest[i], month) by {
            assert(rest[i] == entries[i + 1]);
        }
        the_first_grid_panel(rest, month, at - 1);
    }
}

/// A whole page gives its days.
pub proof fn a_whole_page_gives_its_days(response: Seq<char>, month: CalendarDate)
    ensures
        contains(response, "<html"@) || contains(response, "<!DOCTYPE"@) ==> full_grid(
            response,
            month,
        ) == page_days(page_of(response), month),
{
}

/// A partial answer gives the days of its first panel of the grid that has
/// any.
pub proof fn a_partial_answer_gives_the_days_of_its_grid(
    response: Seq<char>,
    month: CalendarDate,
    at: int,
)
    requires
        !contains(response, "<html"@),
        !contains(response, "<!DOCTYPE"@),
        0 <= at < delta_records(response).len(),
        gives_days(delta_records(response)[at], month),
        forall|i: int|
            0 <= i < at ==> !gives_days(#[trigger] delta_records(response)[i], month),
    ensures
        full_grid(response, month) == page_days(
            page_of(delta_records(response)[at].content),
            month,
        ),
{
    the_first_grid_panel(delta_records(response), month, at);
}

/// The full grid is asked for by the month that is read.
pub proof fn the_grid_of_the_month_is_asked_for(month: CalendarDate)
    ensures
        full_grid_overrides(month).contains(("ctl00$mp$currentMonth"@, month_field(month))),
        full_grid_overrides(month).len() == 2,
{
    assert(full_grid_overrides(month)[0] == ("ctl00$mp$currentMonth"@, month_field(month)));
}

/// Whether a record is a panel with rows that gives days.
pub open spec fn gives_rows(entry: EntryView, month: CalendarDate) -> bool {
    &&& entry.kind == "updatePanel"@
    &&& contains(entry.content, "row_"@)
    &&& page_days(page_of(entry.content), month).len() > 0
}

proof fn no_grid_panel(entries: Seq<EntryView>, month: CalendarDate)
    requires
        forall|i: int| 0 <= i < entries.len() ==> !gives_days(#[trigger] entries[i], month),
    ensures
        first_grid_days(entries, month).len() == 0,
    decreases entries.len(),
{
    if entries.len() > 0 {
        assert(!gives_days(entries[0], month));
        let rest = entries.skip(1);
        assert forall|i: int| 0 <= i < rest.len() implies !gives_days(#[trigger] rest[i], month) by {
            assert(rest[i] == entries[i + 1]);
        }
        no_grid_panel(rest, month);
    }
}

proof fn the_first_row_panel(entries: Seq<EntryView>, month: CalendarDate, at: int)
    requires
        0 <= at < entries.len(),
        gives_rows(entries[at], month),
        forall|i: int| 0 <= i < at ==> !gives_rows(#[trigger] entries[i], month),
    ensures
        first_row_days(entries, month) == page_days(page_of(entries[at].content), month),
    decreases entries.len(),
{
    if at > 0 {
        assert(!gives_rows(entries[0], month));
        let rest = entries.skip(1);
        assert(rest[at - 1] == entries[at]);
        assert forall|i: int| 0 <= i < at - 1 implies !gives_rows(#[trigger] rest[i], month) by {
            assert(rest[i] == entries[i + 1]);
        }
        the_first_row_panel(rest, month, at - 1);
    }
}

/// A partial answer without a panel of the grid gives the days of its first
/// panel with rows that has any.
pub proof fn a_partial_answer_gives_the_days_of_its_rows(
    response: Seq<char>,
    month: CalendarDate,
    at: int,
)
    requires
        !contains(response, "<html"@),
        !contains(response, "<!DOCTYPE"@),
        forall|i: int|
            0 <= i < delta_records(response).len() ==> !gives_days(
                #[trigger] delta_records(response)[i],
                month,
            ),
        0 <= at < delta_records(response).len(),
        gives_rows(delta_records(response)[at], month),
        forall|i: int|
            0 <= i < at ==> !gives_rows(#[trigger] delta_records(response)[i], month),
    ensures
        full_grid(response, month) == page_days(
            page_of(delta_records(response)[at].content),
            month,
        ),
{
    no_grid_panel(delta_records(response), month);
    the_first_row_panel(delta_records(response), month, at);
}

} // verus!
