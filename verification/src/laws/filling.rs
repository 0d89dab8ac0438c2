//! Laws of filling and fixing days.

use crate::date::{
    day_number, is_date, iso_text, later_dates_have_greater_numbers, month_text, next_date,
    next_date_is_one_day_later, weekday_text, CalendarDate,
};
use crate::hr_core::{
    change_views, AttendanceChange, AttendanceSource, DayView, ProviderError, WriteMode,
    WritePreview,
};
use crate::text::opt_text;
use crate::use_cases::{
    a_range_holds_every_date, dates_kept, dates_through, days_to_fill, failures, fill_error,
    filled_days, fills, fixing_change, hours_view, over_limit, skip_reason, skipped_days,
    weekends_are_left_out, write_outcomes, writes_for, AutoFillOptions, AutoFillResult,
    FillRangeOptions,
};
use vstd::prelude::*;

verus! {

/// A change that fills a day writes the kind that was asked for, or none; the
/// hours that were asked for, the first as the entry and the second as the
/// exit, or clears both; the usual kind only for hours without a kind; and no
/// comment.
pub open spec fn writes_as_asked(
    change: AttendanceChange,
    code: Option<String>,
    hours: Option<(String, String)>,
) -> bool {
    &&& match (code, change.attendance_type_code) {
        (Some(asked), Some(written)) => written@ == asked@,
        (None, None) => true,
        _ => false,
    }
    &&& match (hours, change.entry_time, change.exit_time) {
        (Some(pair), Some(entry), Some(exit)) => entry@ == pair.0@ && exit@ == pair.1@
            && !change.clear_entry && !change.clear_exit,
        (None, None, None) => change.clear_entry && change.clear_exit,
        _ => false,
    }
    &&& change.use_default_attendance_type == (code is None && hours is Some)
    &&& change.comment is None
    &&& change.clear_comment
}

/// Each change that fills a range writes what was asked for.
pub proof fn a_range_is_filled_as_asked(
    from: CalendarDate,
    to: CalendarDate,
    options: FillRangeOptions,
    changes: Seq<AttendanceChange>,
    at: int,
)
    requires
        change_views(changes) == filled_days(
            dates_kept(dates_through(from, to), options.include_weekends),
            opt_text(options.attendance_type_code),
            hours_view(options.hours),
        ),
        0 <= at < changes.len(),
    ensures
        writes_as_asked(changes[at], options.attendance_type_code, options.hours),
{
    let kept = dates_kept(dates_through(from, to), options.include_weekends);
    assert(change_views(changes).len() == changes.len());
    assert(change_views(changes)[at] == changes[at]@);
    assert(changes[at]@ == crate::use_cases::filled_day(
        kept[at],
        opt_text(options.attendance_type_code),
        hours_view(options.hours),
    ));
}

proof fn range_rises(from: CalendarDate, to: CalendarDate, i: int, j: int)
    requires
        is_date(from),
        is_date(to),
        is_date(next_date(to)),
        0 <= i < j < dates_through(from, to).len(),
    ensures
        day_number(from) <= day_number(dates_through(from, to)[i]) < day_number(
            dates_through(from, to)[j],
        ),
    decreases day_number(to) - day_number(from) + 1,
{
    let all = dates_through(from, to);
    next_date_is_one_day_later(from);
    let rest = dates_through(next_date(from), to);
    assert(all == seq![from] + rest);
    if !is_date(next_date(from)) {
        assert(rest == Seq::<CalendarDate>::empty());
        assert(all.len() == 1);
    } else if i > 0 {
        range_rises(next_date(from), to, i - 1, j - 1);
        assert(all[i] == rest[i - 1] && all[j] == rest[j - 1]);
    } else {
        assert(all[j] == rest[j - 1]);
        if j > 1 {
            range_rises(next_date(from), to, 0, j - 1);
        } else {
            assert(rest[0] == next_date(from));
        }
    }
}

proof fn kept_rise(dates: Seq<CalendarDate>, include_weekends: bool, i: int, j: int)
    requires
        forall|a: int, b: int|
            0 <= a < b < dates.len() ==> day_number(#[trigger] dates[a]) < day_number(
                #[trigger] dates[b],
            ),
        0 <= i < j < dates_kept(dates, include_weekends).len(),
    ensures
        day_number(dates_kept(dates, include_weekends)[i]) < day_number(
            dates_kept(dates, include_weekends)[j],
        ),
    decreases dates.len(),
{
    reveal(Seq::filter);
    let kept = dates_kept(dates, include_weekends);
    if dates.len() > 0 {
        let rest = dates.drop_last();
        let before = dates_kept(rest, include_weekends);
        assert forall|a: int, b: int| 0 <= a < b < rest.len() implies day_number(
            #[trigger] rest[a],
        ) < day_number(#[trigger] rest[b]) by {
            assert(rest[a] == dates[a] && rest[b] == dates[b]);
        }
        if j < before.len() {
            kept_rise(rest, include_weekends, i, j);
        } else {
            assert(kept[j] == dates.last());
            assert(kept[i] == before[i]);
            assert(before.contains(kept[i]));
            kept_are_there(rest, include_weekends, kept[i]);
            let a = choose|a: int| 0 <= a < rest.len() && rest[a] == kept[i];
            assert(dates[a] == kept[i]);
            assert(dates[dates.len() - 1] == kept[j]);
        }
    }
}

proof fn kept_are_there(dates: Seq<CalendarDate>, include_weekends: bool, date: CalendarDate)
    requires
        dates_kept(dates, include_weekends).contains(date),
    ensures
        dates.contains(date),
    decreases dates.len(),
{
    reveal(Seq::filter);
    let kept = dates_kept(dates, include_weekends);
    if dates.len() > 0 {
        let rest = dates.drop_last();
        let before = dates_kept(rest, include_weekends);
        let k = choose|k: int| 0 <= k < kept.len() && kept[k] == date;
        if k < before.len() {
            assert(before[k] == date);
            assert(before.contains(date));
            kept_are_there(rest, include_weekends, date);
            let a = choose|a: int| 0 <= a < rest.len() && rest[a] == date;
            assert(dates[a] == date);
        } else {
            assert(dates[dates.len() - 1] == date);
        }
    }
}

/// The changes that fill a range are about its dates in their order, each at
/// most once.
pub proof fn a_range_is_filled_in_order(
    from: CalendarDate,
    to: CalendarDate,
    include_weekends: bool,
    code: Option<Seq<char>>,
    hours: Option<(Seq<char>, Seq<char>)>,
    i: int,
    j: int,
)
    requires
        is_date(from),
        is_date(to),
        is_date(next_date(to)),
        0 <= i < j < filled_days(
            dates_kept(dates_through(from, to), include_weekends),
            code,
            hours,
        ).len(),
    ensures
        ({
            let changes = filled_days(
                dates_kept(dates_through(from, to), include_weekends),
                code,
                hours,
            );
            day_number(changes[i].date) < day_number(changes[j].date)
        }),
{
    let dates = dates_through(from, to);
    assert forall|a: int, b: int| 0 <= a < b < dates.len() implies day_number(
        #[trigger] dates[a],
    ) < day_number(#[trigger] dates[b]) by {
        range_rises(from, to, a, b);
    }
    kept_rise(dates, include_weekends, i, j);
}

/// A date gets a change if and only if it lies from the first to the last date
/// of the range and is no Friday or Saturday, unless these are asked for.
pub proof fn a_date_is_filled_if_it_is_in_the_range(
    from: CalendarDate,
    to: CalendarDate,
    include_weekends: bool,
    code: Option<Seq<char>>,
    hours: Option<(Seq<char>, Seq<char>)>,
    date: CalendarDate,
)
    requires
        is_date(from),
        is_date(to),
        is_date(next_date(to)),
        is_date(date),
    ensures
        ({
            let changes = filled_days(
                dates_kept(dates_through(from, to), include_weekends),
                code,
                hours,
            );
            (exists|i: int| 0 <= i < changes.len() && (#[trigger] changes[i]).date == date) <==> (
            day_number(from) <= day_number(date) <= day_number(to) && (include_weekends
                || day_number(date) % 7 < 5))
        }),
{
    let kept = dates_kept(dates_through(from, to), include_weekends);
    let changes = filled_days(kept, code, hours);
    a_range_holds_every_date(from, to, date);
    weekends_are_left_out(from, to, include_weekends, date);
    later_dates_have_greater_numbers(from, date);
    later_dates_have_greater_numbers(date, to);
    later_dates_have_greater_numbers(date, from);
    later_dates_have_greater_numbers(to, date);
    if kept.contains(date) {
        let i = choose|i: int| 0 <= i < kept.len() && kept[i] == date;
        assert(changes[i].date == date);
    }
    if exists|i: int| 0 <= i < changes.len() && (#[trigger] changes[i]).date == date {
        let i = choose|i: int| 0 <= i < changes.len() && (#[trigger] changes[i]).date == date;
        assert(kept[i] == date);
        assert(kept.contains(date));
    }
}

/// A range is refused if its first date is later than its last, or if neither
/// a kind nor hours are asked for, and else filled.
pub proof fn a_range_is_refused_for_two_reasons(
    from: CalendarDate,
    to: CalendarDate,
    nothing: bool,
)
    requires
        is_date(from),
        is_date(to),
    ensures
        fill_error(from, to, nothing) is None <==> day_number(from) <= day_number(to) && !nothing,
        day_number(from) > day_number(to) ==> fill_error(from, to, nothing)->0.code
            == "invalid_fill_range"@,
        day_number(from) <= day_number(to) && nothing ==> fill_error(from, to, nothing)->0.code
            == "invalid_fill_request"@,
{
    later_dates_have_greater_numbers(from, to);
    later_dates_have_greater_numbers(to, from);
}

/// A change that fixes a day is about that day and writes the kind and the
/// hours that were asked for, the first as the entry and the second as the
/// exit, and changes nothing else.
pub proof fn a_day_is_fixed_as_asked(
    date: CalendarDate,
    code: Option<String>,
    hours: Option<(String, String)>,
    change: AttendanceChange,
)
    requires
        change@ == fixing_change(date, opt_text(code), hours_view(hours)),
    ensures
        change.date@ == date,
        match (code, change.attendance_type_code) {
            (Some(asked), Some(written)) => written@ == asked@,
            (None, None) => true,
            _ => false,
        },
        match (hours, change.entry_time, change.exit_time) {
            (Some(pair), Some(entry), Some(exit)) => entry@ == pair.0@ && exit@ == pair.1@,
            (None, None, None) => true,
            _ => false,
        },
        change.comment is None,
        !change.use_default_attendance_type && !change.clear_entry && !change.clear_exit
            && !change.clear_comment,
{
}

// ---------------------------------------------------------------------------
// Filling a month
// ---------------------------------------------------------------------------

/// Whether a day is open: it has come, has no error, is not half reported, and
/// was not reported with something in it.
pub open spec fn is_open(day: DayView, today: CalendarDate) -> bool {
    let blank = day.entry_time is None && day.exit_time is None && day.attendance_type is None
        && day.total_hours is None;
    let set = day.source == AttendanceSource::UserReported || day.source
        == AttendanceSource::Holiday;
    &&& day_number(day.date) <= day_number(today)
    &&& !day.has_error
    &&& blank || (day.entry_time is Some) == (day.exit_time is Some)
    &&& blank || !set
}

/// A day of the month is to be filled if and only if it is open and is no
/// Friday or Saturday, unless these are asked for.
pub proof fn open_days_are_filled(day: DayView, today: CalendarDate, include_weekends: bool)
    requires
        is_date(day.date),
        is_date(today),
    ensures
        skip_reason(day, today, include_weekends) is None <==> is_open(day, today) && (
        include_weekends || day_number(day.date) % 7 < 5),
        skip_reason(day, today, include_weekends) == Some("future"@) <==> day_number(day.date)
            > day_number(today),
        skip_reason(day, today, include_weekends) == Some("has_error"@) <==> day_number(day.date)
            <= day_number(today) && day.has_error,
        skip_reason(day, today, include_weekends) == Some("weekend"@) <==> is_open(day, today)
            && !include_weekends && day_number(day.date) % 7 >= 5,
        skip_reason(day, today, include_weekends) == Some("partial_data"@) <==> day_number(
            day.date,
        ) <= day_number(today) && !day.has_error && ((day.entry_time is Some)
            != (day.exit_time is Some)),
{
    reveal_strlit("future");
    reveal_strlit("has_error");
    reveal_strlit("already_filled");
    reveal_strlit("partial_data");
    reveal_strlit("weekend");
    assert("future"@.len() != "has_error"@.len());
    assert("future"@.len() != "weekend"@.len());
    assert("future"@.len() != "partial_data"@.len());
    assert("future"@.len() != "already_filled"@.len());
    assert("has_error"@.len() != "weekend"@.len());
    assert("has_error"@.len() != "partial_data"@.len());
    assert("has_error"@.len() != "already_filled"@.len());
    assert("weekend"@.len() != "partial_data"@.len());
    assert("weekend"@.len() != "already_filled"@.len());
    assert("partial_data"@.len() != "already_filled"@.len());
    later_dates_have_greater_numbers(day.date, today);
    later_dates_have_greater_numbers(today, day.date);
}

/// The dates that are filled are those of the open days, in their order: each
/// such day is there.
pub proof fn every_open_day_is_filled(
    days: Seq<DayView>,
    today: CalendarDate,
    include_weekends: bool,
    at: int,
)
    requires
        0 <= at < days.len(),
        is_date(days[at].date),
        is_date(today),
        is_open(days[at], today),
        include_weekends || day_number(days[at].date) % 7 < 5,
    ensures
        days_to_fill(days, today, include_weekends).contains(days[at].date),
    decreases days.len(),
{
    let found = days_to_fill(days, today, include_weekends);
    let rest = days.drop_last();
    let before = days_to_fill(rest, today, include_weekends);
    if at == days.len() - 1 {
        open_days_are_filled(days[at], today, include_weekends);
        assert(found[found.len() - 1] == days[at].date);
    } else {
        assert(rest[at] == days[at]);
        every_open_day_is_filled(rest, today, include_weekends, at);
        let k = choose|k: int| 0 <= k < before.len() && before[k] == days[at].date;
        assert(found[k] == days[at].date);
    }
}

/// A date that is filled is that of an open day of the month.
pub proof fn nothing_but_open_days_is_filled(
    days: Seq<DayView>,
    today: CalendarDate,
    include_weekends: bool,
    date: CalendarDate,
)
    requires
        forall|i: int| 0 <= i < days.len() ==> is_date((#[trigger] days[i]).date),
        is_date(today),
        days_to_fill(days, today, include_weekends).contains(date),
    ensures
        exists|i: int|
            0 <= i < days.len() && (#[trigger] days[i]).date == date && is_open(days[i], today)
                && (include_weekends || day_number(date) % 7 < 5),
    decreases days.len(),
{
    let found = days_to_fill(days, today, include_weekends);
    let rest = days.drop_last();
    let before = days_to_fill(rest, today, include_weekends);
    let k = choose|k: int| 0 <= k < found.len() && found[k] == date;
    open_days_are_filled(days.last(), today, include_weekends);
    if k < before.len() {
        assert(before[k] == date);
        assert(before.contains(date));
        assert forall|i: int| 0 <= i < rest.len() implies is_date((#[trigger] rest[i]).date) by {
            assert(rest[i] == days[i]);
        }
        nothing_but_open_days_is_filled(rest, today, include_weekends, date);
        let i = choose|i: int|
            0 <= i < rest.len() && (#[trigger] rest[i]).date == date && is_open(rest[i], today)
                && (include_weekends || day_number(date) % 7 < 5);
        assert(days[i] == rest[i]);
    } else {
        assert(days[days.len() - 1].date == date);
    }
}

/// Where a month is to be written, each date that is to be filled gets one
/// change, which writes what was asked for.
pub proof fn a_month_is_filled_as_asked(
    dates: Seq<CalendarDate>,
    options: AutoFillOptions,
    changes: Seq<AttendanceChange>,
    at: int,
)
    requires
        options.mode == WriteMode::Execute,
        change_views(changes) == writes_for(dates, options),
        0 <= at < dates.len(),
    ensures
        changes.len() == dates.len(),
        changes[at].date@ == dates[at],
        writes_as_asked(changes[at], options.type_code, options.hours),
{
    assert(change_views(changes).len() == changes.len());
    assert(change_views(changes)[at] == changes[at]@);
}

/// A month is refused if and only if it is to be written and holds more open
/// days than are allowed.
pub proof fn a_month_is_refused_over_its_limit(count: u32, options: AutoFillOptions)
    ensures
        over_limit(count, options) <==> options.mode == WriteMode::Execute && count
            > options.max_days,
{
}

/// What is said of a filled month: of each date whether its write succeeded,
/// failed and why, or would be made, with the kind and the hours; and how many
/// did.
pub proof fn a_filled_month_says_what_became_of_each_day(
    result: AutoFillResult,
    month: CalendarDate,
    dates: Seq<CalendarDate>,
    skipped: Seq<(Seq<char>, Seq<char>)>,
    options: AutoFillOptions,
    outcomes: Seq<Result<WritePreview, ProviderError>>,
    at: int,
)
    requires
        fills(result, month, dates, skipped, options, write_outcomes(outcomes)),
        options.mode == WriteMode::Execute ==> outcomes.len() == dates.len(),
        0 <= at < dates.len(),
    ensures
        result.filled@.len() == dates.len(),
        result.filled@[at].attendance_type@ == options.type_display@,
        options.mode == WriteMode::DryRun ==> result.filled@[at].status@ == "would_fill"@
            && result.filled@[at].error is None,
        options.mode == WriteMode::Execute && outcomes[at] is Ok ==> result.filled@[at].status@
            == "success"@ && result.filled@[at].error is None,
        options.mode == WriteMode::Execute ==> (outcomes[at] matches Err(error)
            ==> result.filled@[at].status@ == "failed"@ && (result.filled@[at].error matches Some(
            words,
        ) && words@ == error@.code + ": "@ + error@.message)),
        match (options.hours, result.filled@[at].hours) {
            (Some(pair), Some(shown)) => shown@ == pair.0@ + "-"@ + pair.1@,
            (None, None) => true,
            _ => false,
        },
        result.mode@ == (if options.mode == WriteMode::Execute {
            "executed"@
        } else {
            "dry_run"@
        }),
{
    let filled = crate::use_cases::filled_views(result.filled@);
    assert(filled.len() == result.filled@.len());
    assert(filled[at] == result.filled@[at]@);
    if options.mode == WriteMode::Execute {
        assert(write_outcomes(outcomes)[at] == crate::use_cases::write_outcome(outcomes[at]));
    }
}

/// The number of writes that failed is that of the outcomes that are errors:
/// one more where the next is one, else the same.
pub proof fn failures_are_counted(
    count: nat,
    options: AutoFillOptions,
    outcomes: Seq<Result<WritePreview, ProviderError>>,
)
    requires
        options.mode == WriteMode::Execute,
        count < outcomes.len(),
    ensures
        failures(0, options, write_outcomes(outcomes)) == 0,
        failures(count + 1, options, write_outcomes(outcomes)) == failures(
            count,
            options,
            write_outcomes(outcomes),
        ) + if outcomes[count as int] is Err {
            1nat
        } else {
            0nat
        },
{
    assert(write_outcomes(outcomes)[count as int] == crate::use_cases::write_outcome(
        outcomes[count as int],
    ));
}

/// The numbers that are said of a filled month add up.
pub proof fn the_numbers_of_a_month_add_up(
    result: AutoFillResult,
    month: CalendarDate,
    dates: Seq<CalendarDate>,
    skipped: Seq<(Seq<char>, Seq<char>)>,
    options: AutoFillOptions,
    outcomes: Seq<Option<Seq<char>>>,
)
    requires
        fills(result, month, dates, skipped, options, outcomes),
        dates.len() <= u32::MAX,
        skipped.len() <= u32::MAX,
    ensures
        result.summary.total_candidates == dates.len(),
        result.summary.filled + result.summary.failed == dates.len(),
        result.summary.skipped == skipped.len(),
        options.mode == WriteMode::DryRun ==> result.summary.failed == 0,
{
    crate::use_cases::filled_and_failed_are_all(dates.len(), options, outcomes);
}

/// A filled month names each day that was filled, and each that was left with
/// the reason, by the date and the day of the week.
pub proof fn a_filled_month_names_its_days(
    result: AutoFillResult,
    month: CalendarDate,
    dates: Seq<CalendarDate>,
    skipped: Seq<(Seq<char>, Seq<char>)>,
    options: AutoFillOptions,
    outcomes: Seq<Option<Seq<char>>>,
    at: int,
)
    requires
        fills(result, month, dates, skipped, options, outcomes),
    ensures
        result.month@ == month_text(month),
        result.attendance_type@ == options.type_display@,
        0 <= at < dates.len() ==> result.filled@[at].date@ == iso_text(dates[at]) + " "@
            + weekday_text(dates[at]),
        result.skipped@.len() == skipped.len(),
        0 <= at < skipped.len() ==> result.skipped@[at].date@ == skipped[at].0
            && result.skipped@[at].reason@ == skipped[at].1,
{
    let filled = crate::use_cases::filled_views(result.filled@);
    let left = crate::use_cases::skipped_views(result.skipped@);
    assert(filled.len() == result.filled@.len());
    assert(left.len() == result.skipped@.len());
    if 0 <= at < dates.len() {
        assert(filled[at] == result.filled@[at]@);
    }
    if 0 <= at < skipped.len() {
        assert(left[at] == (result.skipped@[at].date@, result.skipped@[at].reason@));
    }
}

/// Each day that is left is listed with its reason.
pub proof fn each_day_that_is_left_is_listed(
    days: Seq<DayView>,
    today: CalendarDate,
    include_weekends: bool,
    at: int,
)
    requires
        0 <= at < days.len(),
        skip_reason(days[at], today, include_weekends) is Some,
    ensures
        skipped_days(days, today, include_weekends).contains(
            (
                iso_text(days[at].date) + " "@ + weekday_text(days[at].date),
                skip_reason(days[at], today, include_weekends)->Some_0,
            ),
        ),
    decreases days.len(),
{
    let front = days.drop_last();
    let before = skipped_days(front, today, include_weekends);
    let all = skipped_days(days, today, include_weekends);
    let own = (
        iso_text(days[at].date) + " "@ + weekday_text(days[at].date),
        skip_reason(days[at], today, include_weekends)->Some_0,
    );
    if at < days.len() - 1 {
        assert(front[at] == days[at]);
        each_day_that_is_left_is_listed(front, today, include_weekends, at);
        let k = choose|k: int| 0 <= k < before.len() && before[k] == own;
        assert(all[k] == own);
    } else {
        assert(all[before.len() as int] == own);
    }
}

} // verus!
