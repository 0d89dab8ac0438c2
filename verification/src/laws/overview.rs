//! Laws of the overview of a month.

use crate::date::{day_number, is_date, later_dates_have_greater_numbers, CalendarDate};
use crate::hr_core::{AttendanceSource, DayView, TargetView};
use crate::use_cases::{
    chosen_targets, days_lacking, days_reported, days_with_errors, suggestions, targets_on,
    work_days_come, ErrorDayView, PlanView,
};
use vstd::prelude::*;

verus! {

/// Whether a day is a work day, Sunday to Thursday, that nobody reported and
/// that has no error.
pub open spec fn is_unreported_work_day(day: DayView) -> bool {
    &&& day_number(day.date) % 7 < 5
    &&& day.source != AttendanceSource::UserReported && day.source != AttendanceSource::Holiday
    &&& !day.has_error
}

/// Every unreported work day up to today is missing, whatever the month; and
/// in another month than today's every one is.
pub proof fn every_unreported_work_day_is_missing(
    days: Seq<DayView>,
    month: CalendarDate,
    today: CalendarDate,
    at: int,
)
    requires
        0 <= at < days.len(),
        is_date(days[at].date),
        is_date(today),
        is_unreported_work_day(days[at]),
        day_number(days[at].date) <= day_number(today) || month.year != today.year || month.month
            != today.month,
    ensures
        days_lacking(days, month, today).contains(days[at].date),
    decreases days.len(),
{
    let found = days_lacking(days, month, today);
    let rest = days.drop_last();
    let before = days_lacking(rest, month, today);
    if at == days.len() - 1 {
        later_dates_have_greater_numbers(days[at].date, today);
        assert(found[found.len() - 1] == days[at].date);
    } else {
        assert(rest[at] == days[at]);
        every_unreported_work_day_is_missing(rest, month, today, at);
        let k = choose|k: int| 0 <= k < before.len() && before[k] == days[at].date;
        assert(found[k] == days[at].date);
    }
}

/// A missing day is an unreported work day of the calendar, and in the month
/// of today it is not later than today.
pub proof fn a_missing_day_is_an_unreported_work_day(
    days: Seq<DayView>,
    month: CalendarDate,
    today: CalendarDate,
    date: CalendarDate,
)
    requires
        forall|i: int| 0 <= i < days.len() ==> is_date((#[trigger] days[i]).date),
        is_date(today),
        days_lacking(days, month, today).contains(date),
    ensures
        exists|i: int|
            0 <= i < days.len() && (#[trigger] days[i]).date == date && is_unreported_work_day(
                days[i],
            ),
        month.year == today.year && month.month == today.month ==> day_number(date) <= day_number(
            today,
        ),
    decreases days.len(),
{
    let found = days_lacking(days, month, today);
    let rest = days.drop_last();
    let before = days_lacking(rest, month, today);
    let k = choose|k: int| 0 <= k < found.len() && found[k] == date;
    if k < before.len() {
        assert(before[k] == date);
        assert(before.contains(date));
        assert forall|i: int| 0 <= i < rest.len() implies is_date((#[trigger] rest[i]).date) by {
            assert(rest[i] == days[i]);
        }
        a_missing_day_is_an_unreported_work_day(rest, month, today, date);
        let i = choose|i: int|
            0 <= i < rest.len() && (#[trigger] rest[i]).date == date && is_unreported_work_day(
                rest[i],
            );
        assert(days[i] == rest[i]);
    } else {
        assert(days[days.len() - 1].date == date);
        later_dates_have_greater_numbers(today, date);
        later_dates_have_greater_numbers(date, today);
    }
}

/// The number of work days among some days: those from Sunday to Thursday.
pub open spec fn sunday_to_thursday(days: Seq<DayView>) -> nat
    decreases days.len(),
{
    if days.len() == 0 {
        0
    } else {
        sunday_to_thursday(days.drop_last()) + if day_number(days.last().date) % 7 < 5 {
            1nat
        } else {
            0nat
        }
    }
}

/// In another month than today's all work days count; in today's, one more
/// day adds to the number just where it is a work day not later than today.
pub proof fn work_days_are_counted(days: Seq<DayView>, month: CalendarDate, today: CalendarDate)
    requires
        forall|i: int| 0 <= i < days.len() ==> is_date((#[trigger] days[i]).date),
        is_date(today),
    ensures
        month.year != today.year || month.month != today.month ==> work_days_come(
            days,
            month,
            today,
        ) == sunday_to_thursday(days),
        days.len() > 0 ==> work_days_come(days, month, today) == work_days_come(
            days.drop_last(),
            month,
            today,
        ) + if day_number(days.last().date) % 7 < 5 && (month.year != today.year || month.month
            != today.month || day_number(days.last().date) <= day_number(today)) {
            1nat
        } else {
            0nat
        },
        days.len() == 0 ==> work_days_come(days, month, today) == 0,
    decreases days.len(),
{
    if days.len() > 0 {
        let rest = days.drop_last();
        assert forall|i: int| 0 <= i < rest.len() implies is_date((#[trigger] rest[i]).date) by {
            assert(rest[i] == days[i]);
        }
        work_days_are_counted(rest, month, today);
        assert(is_date(days[days.len() - 1].date));
        later_dates_have_greater_numbers(days.last().date, today);
        later_dates_have_greater_numbers(today, days.last().date);
    }
}

/// The number of reported days: one more day adds to it just where the user
/// reported it or the organization set it.
pub proof fn reported_days_are_counted(days: Seq<DayView>)
    ensures
        days.len() == 0 ==> days_reported(days) == 0,
        days.len() > 0 ==> days_reported(days) == days_reported(days.drop_last()) + if days.last().source
            == AttendanceSource::UserReported || days.last().source == AttendanceSource::Holiday {
            1nat
        } else {
            0nat
        },
{
}

/// The days with errors of an overview are days of the calendar with an error,
/// each with targets of its own date alone.
pub proof fn an_error_day_is_one_of_the_calendar(
    days: Seq<DayView>,
    targets: Seq<TargetView>,
    at: int,
)
    requires
        0 <= at < days_with_errors(days, targets).len(),
    ensures
        ({
            let found = days_with_errors(days, targets)[at];
            &&& found.day.has_error
            &&& days.contains(found.day)
            &&& forall|k: int|
                0 <= k < found.fix_targets.len() ==> (#[trigger] found.fix_targets[k]).date
                    == found.day.date
        }),
    decreases days.len(),
{
    let rest = days.drop_last();
    let before = days_with_errors(rest, targets);
    if at < before.len() {
        an_error_day_is_one_of_the_calendar(rest, targets, at);
        assert(days_with_errors(days, targets)[at] == before[at]);
        let i = choose|i: int| 0 <= i < rest.len() && rest[i] == before[at].day;
        assert(days[i] == before[at].day);
    } else {
        assert(days[days.len() - 1] == days.last());
        targets_are_of_their_date(targets, days.last().date);
    }
}

/// The targets of a date are those targets whose date it is.
pub proof fn targets_are_of_their_date(targets: Seq<TargetView>, date: CalendarDate)
    ensures
        forall|k: int|
            0 <= k < targets_on(targets, date).len() ==> (#[trigger] targets_on(
                targets,
                date,
            )[k]).date == date,
        forall|i: int|
            0 <= i < targets.len() && (#[trigger] targets[i]).date == date ==> targets_on(
                targets,
                date,
            ).contains(targets[i]),
    decreases targets.len(),
{
    if targets.len() > 0 {
        let rest = targets.drop_last();
        let found = targets_on(targets, date);
        let before = targets_on(rest, date);
        targets_are_of_their_date(rest, date);
        assert forall|k: int| 0 <= k < found.len() implies (#[trigger] found[k]).date == date by {
            if k < before.len() {
                assert(found[k] == before[k]);
            }
        }
        assert forall|i: int|
            0 <= i < targets.len() && (#[trigger] targets[i]).date == date implies found.contains(
            targets[i],
        ) by {
            if i < rest.len() {
                assert(rest[i] == targets[i]);
                let k = choose|k: int| 0 <= k < before.len() && before[k] == targets[i];
                assert(found[k] == targets[i]);
            } else {
                assert(found[found.len() - 1] == targets[i]);
            }
        }
    }
}

/// What is suggested for a month: to fix its errors where it has any, then to
/// fill from the first to the last missing day where there are any, each with
/// the number of days it is about; and nothing else.
pub proof fn what_is_suggested(
    month: CalendarDate,
    errors: Seq<ErrorDayView>,
    lacking: Seq<CalendarDate>,
)
    requires
        errors.len() <= u32::MAX,
        lacking.len() <= u32::MAX,
    ensures
        ({
            let plans = suggestions(month, errors, lacking);
            &&& plans.len() == (if errors.len() > 0 {
                1int
            } else {
                0
            }) + (if lacking.len() > 0 {
                1int
            } else {
                0
            })
            &&& errors.len() > 0 ==> (plans[0] matches PlanView::FixErrors {
                month: of,
                count,
                fixable_targets,
            } && of == month && count == errors.len() && fixable_targets == chosen_targets(errors))
            &&& lacking.len() > 0 ==> (plans.last() matches PlanView::FillMissing {
                from,
                to,
                count,
            } && from == lacking[0] && to == lacking[lacking.len() - 1] && count == lacking.len())
        }),
{
}

/// The targets by which errors can be fixed: of each day with targets its last
/// one, in their order.
pub proof fn an_error_is_fixed_by_its_last_target(errors: Seq<ErrorDayView>)
    requires
        errors.len() > 0,
    ensures
        chosen_targets(errors) == chosen_targets(errors.drop_last()) + if errors.last().fix_targets.len()
            > 0 {
            seq![errors.last().fix_targets[errors.last().fix_targets.len() - 1]]
        } else {
            seq![]
        },
{
}

} // verus!
