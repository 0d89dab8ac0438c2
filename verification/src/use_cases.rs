//! What one does with attendance: an overview of a month, filling days, fixing
//! errors, and finding a kind of attendance by name.

use crate::date::{
    day_number, is_after, is_date, is_weekend, is_weekend_date, iso_text,
    later_dates_have_greater_numbers, month_text, next_date, next_date_is_one_day_later,
    weekday_text, CalendarDate, NaiveDate,
};
use crate::hr_core::{
    change_views, day_views, error_text, plain_error, reported, target_views, type_views,
    work_day, AttendanceChange, AttendanceType, CalendarDay, ChangeView, DayView, ErrorView,
    FixTarget, MonthCalendar, ProviderError, TargetView, TypeView, UserIdentity, WriteMode,
    WritePreview,
};
use crate::months::date_views;
use crate::ontology::{find_named, first_named, list_types, type_lines};
use crate::text::{
    chars_of, copy_opt, decimal, decimal_text, digit_value, opt_str, opt_text,
};
use vstd::prelude::*;

verus! {

// ---------------------------------------------------------------------------
// Overview
// ---------------------------------------------------------------------------

/// The numbers of a month.
#[derive(Debug, Clone, Copy, PartialEq, Eq, Structural)]
pub struct OverviewSummary {
    pub total_work_days: u32,
    pub reported: u32,
    pub missing: u32,
    pub errors: u32,
}

/// A day with an error, and what the provider names to fix it by.
pub struct OverviewErrorDay {
    pub day: CalendarDay,
    pub fix_targets: Vec<FixTarget>,
}

/// A day with an error, as mathematics.
pub struct ErrorDayView {
    pub day: DayView,
    pub fix_targets: Seq<TargetView>,
}

impl View for OverviewErrorDay {
    type V = ErrorDayView;

    open spec fn view(&self) -> ErrorDayView {
        ErrorDayView { day: self.day@, fix_targets: target_views(self.fix_targets@) }
    }
}

/// The views of a list of days with errors.
pub open spec fn error_day_views(days: Seq<OverviewErrorDay>) -> Seq<ErrorDayView> {
    days.map_values(|day: OverviewErrorDay| day@)
}

/// The target that a day with an error is fixed by: the last of them.
pub open spec fn chosen_target(day: ErrorDayView) -> Option<TargetView> {
    if day.fix_targets.len() > 0 {
        Some(day.fix_targets.last())
    } else {
        None
    }
}

impl OverviewErrorDay {
    /// The target that the day is fixed by: the last of them.
    pub fn fix_target(&self) -> (target: Option<&FixTarget>)
        ensures
            match target {
                Some(target) => chosen_target(self@) == Some(target@),
                None => chosen_target(self@) is None,
            },
    {
        let count: usize = self.fix_targets.len();
        assert(count == self@.fix_targets.len());
        if count > 0 {
            assert(self@.fix_targets.last() == self.fix_targets@[count - 1]@);
            Some(&self.fix_targets[count - 1])
        } else {
            None
        }
    }
}

/// Something that one could do about a month.
pub enum SuggestedActionPlan {
    /// Fix the days with errors.
    FixErrors { month: NaiveDate, count: u32, fixable_targets: Vec<FixTarget> },
    /// Fill the days without a report.
    FillMissing { from: NaiveDate, to: NaiveDate, count: u32 },
}

/// Something that one could do about a month, as mathematics.
pub enum PlanView {
    FixErrors { month: CalendarDate, count: u32, fixable_targets: Seq<TargetView> },
    FillMissing { from: CalendarDate, to: CalendarDate, count: u32 },
}

impl View for SuggestedActionPlan {
    type V = PlanView;

    open spec fn view(&self) -> PlanView {
        match self {
            SuggestedActionPlan::FixErrors { month, count, fixable_targets } => PlanView::FixErrors {
                month: month@,
                count: *count,
                fixable_targets: target_views(fixable_targets@),
            },
            SuggestedActionPlan::FillMissing { from, to, count } => PlanView::FillMissing {
                from: from@,
                to: to@,
                count: *count,
            },
        }
    }
}

/// The views of a list of plans.
pub open spec fn plan_views(plans: Seq<SuggestedActionPlan>) -> Seq<PlanView> {
    plans.map_values(|plan: SuggestedActionPlan| plan@)
}

/// A month at a glance.
pub struct OverviewData {
    pub identity: UserIdentity,
    pub month: NaiveDate,
    pub calendar: MonthCalendar,
    pub attendance_types: Vec<AttendanceType>,
    pub summary: OverviewSummary,
    pub error_days: Vec<OverviewErrorDay>,
    pub missing_days: Vec<NaiveDate>,
    pub suggested_actions: Vec<SuggestedActionPlan>,
}

/// Whether a day has come: in the month of today, a later day has not.
pub open spec fn has_come(date: CalendarDate, month: CalendarDate, today: CalendarDate) -> bool {
    !(month.year == today.year && month.month == today.month && is_after(date, today))
}

/// Whether a day lacks a report: a work day that has come, not reported and
/// without an error.
pub open spec fn lacks_report(day: DayView, month: CalendarDate, today: CalendarDate) -> bool {
    work_day(day.date) && !reported(day) && !day.has_error && has_come(day.date, month, today)
}

/// The targets of a date.
pub open spec fn targets_on(targets: Seq<TargetView>, date: CalendarDate) -> Seq<TargetView>
    decreases targets.len(),
{
    if targets.len() == 0 {
        seq![]
    } else {
        let before = targets_on(targets.drop_last(), date);
        if targets.last().date == date {
            before.push(targets.last())
        } else {
            before
        }
    }
}

/// The days with errors, each with its targets.
pub open spec fn days_with_errors(days: Seq<DayView>, targets: Seq<TargetView>) -> Seq<ErrorDayView>
    decreases days.len(),
{
    if days.len() == 0 {
        seq![]
    } else {
        let before = days_with_errors(days.drop_last(), targets);
        if days.last().has_error {
            before.push(
                ErrorDayView {
                    day: days.last(),
                    fix_targets: targets_on(targets, days.last().date),
                },
            )
        } else {
            before
        }
    }
}

/// The dates of the days that lack a report.
pub open spec fn days_lacking(days: Seq<DayView>, month: CalendarDate, today: CalendarDate) -> Seq<
    CalendarDate,
>
    decreases days.len(),
{
    if days.len() == 0 {
        seq![]
    } else {
        let before = days_lacking(days.drop_last(), month, today);
        if lacks_report(days.last(), month, today) {
            before.push(days.last().date)
        } else {
            before
        }
    }
}

/// The number of work days that have come.
pub open spec fn work_days_come(days: Seq<DayView>, month: CalendarDate, today: CalendarDate) -> nat
    decreases days.len(),
{
    if days.len() == 0 {
        0
    } else {
        work_days_come(days.drop_last(), month, today) + if work_day(days.last().date) && has_come(
            days.last().date,
            month,
            today,
        ) {
            1nat
        } else {
            0nat
        }
    }
}

/// The number of days that were reported.
pub open spec fn days_reported(days: Seq<DayView>) -> nat
    decreases days.len(),
{
    if days.len() == 0 {
        0
    } else {
        days_reported(days.drop_last()) + if reported(days.last()) {
            1nat
        } else {
            0nat
        }
    }
}

/// The targets by which days with errors can be fixed.
pub open spec fn chosen_targets(days: Seq<ErrorDayView>) -> Seq<TargetView>
    decreases days.len(),
{
    if days.len() == 0 {
        seq![]
    } else {
        let before = chosen_targets(days.drop_last());
        match chosen_target(days.last()) {
            Some(target) => before.push(target),
            None => before,
        }
    }
}

/// What one could do about a month: fix its errors, and fill the days from the
/// first to the last that lack a report.
pub open spec fn suggestions(
    month: CalendarDate,
    errors: Seq<ErrorDayView>,
    lacking: Seq<CalendarDate>,
) -> Seq<PlanView> {
    let fix = if errors.len() > 0 {
        seq![
            PlanView::FixErrors {
                month,
                count: errors.len() as u32,
                fixable_targets: chosen_targets(errors),
            },
        ]
    } else {
        seq![]
    };
    if lacking.len() > 0 {
        fix.push(
            PlanView::FillMissing {
                from: lacking[0],
                to: lacking.last(),
                count: lacking.len() as u32,
            },
        )
    } else {
        fix
    }
}

/// The records of a lookup, or none where it failed.
pub open spec fn found_types(lookup: Result<Vec<AttendanceType>, ProviderError>) -> Seq<TypeView> {
    match lookup {
        Ok(types) => type_views(types@),
        Err(_) => seq![],
    }
}

/// The records of a lookup, or none where it failed.
pub open spec fn found_targets(lookup: Result<Vec<FixTarget>, ProviderError>) -> Seq<TargetView> {
    match lookup {
        Ok(targets) => target_views(targets@),
        Err(_) => seq![],
    }
}

/// The targets of a date.
pub fn targets_of_date(targets: &Vec<FixTarget>, date: NaiveDate) -> (found: Vec<FixTarget>)
    ensures
        target_views(found@) == targets_on(target_views(targets@), date@),
{
    let ghost all = target_views(targets@);
    let mut found: Vec<FixTarget> = Vec::new();
    let mut i: usize = 0;
    assert(target_views(found@) == targets_on(all.take(0), date@));
    while i < targets.len()
        invariant
            i <= targets.len(),
            all == target_views(targets@),
            target_views(found@) == targets_on(all.take(i as int), date@),
        decreases targets.len() - i,
    {
        assert(all.take(i + 1).drop_last() == all.take(i as int));
        assert(all.take(i + 1).last() == targets@[i as int]@);
        let ghost before = target_views(found@);
        if targets[i].date.same_as(date) {
            let target = targets[i].copy();
            found.push(target);
            assert(target_views(found@) == before.push(target@));
        }
        i = i + 1;
    }
    assert(all.take(all.len() as int) == all);
    found
}

fn day_has_come(date: NaiveDate, month: NaiveDate, today: NaiveDate) -> (answer: bool)
    ensures
        answer == has_come(date@, month@, today@),
{
    !(month.year() == today.year() && month.month() == today.month() && date.is_after(today))
}

fn collect_error_days(days: &Vec<CalendarDay>, targets: &Vec<FixTarget>) -> (found: Vec<
    OverviewErrorDay,
>)
    ensures
        error_day_views(found@) == days_with_errors(day_views(days@), target_views(targets@)),
{
    let ghost all = day_views(days@);
    let mut found: Vec<OverviewErrorDay> = Vec::new();
    let mut i: usize = 0;
    while i < days.len()
        invariant
            i <= days.len(),
            all == day_views(days@),
            error_day_views(found@) == days_with_errors(
                all.take(i as int),
                target_views(targets@),
            ),
        decreases days.len() - i,
    {
        assert(all.take(i + 1).drop_last() == all.take(i as int));
        assert(all.take(i + 1).last() == days@[i as int]@);
        let ghost before = error_day_views(found@);
        if days[i].has_error {
            let entry = OverviewErrorDay {
                day: days[i].copy(),
                fix_targets: targets_of_date(targets, days[i].date),
            };
            found.push(entry);
            assert(error_day_views(found@) == before.push(entry@));
        }
        i = i + 1;
    }
    assert(all.take(all.len() as int) == all);
    found
}

fn collect_missing_days(days: &Vec<CalendarDay>, month: NaiveDate, today: NaiveDate) -> (found: Vec<
    NaiveDate,
>)
    ensures
        date_views(found@) == days_lacking(day_views(days@), month@, today@),
{
    let ghost all = day_views(days@);
    let mut found: Vec<NaiveDate> = Vec::new();
    let mut i: usize = 0;
    while i < days.len()
        invariant
            i <= days.len(),
            all == day_views(days@),
            date_views(found@) == days_lacking(all.take(i as int), month@, today@),
        decreases days.len() - i,
    {
        assert(all.take(i + 1).drop_last() == all.take(i as int));
        assert(all.take(i + 1).last() == days@[i as int]@);
        let ghost before = date_views(found@);
        let day = &days[i];
        if day.is_work_day() && !day.is_reported() && !day.has_error && day_has_come(
            day.date,
            month,
            today,
        ) {
            found.push(day.date);
            assert(date_views(found@) == before.push(day.date@));
        }
        i = i + 1;
    }
    assert(all.take(all.len() as int) == all);
    found
}

fn count_days(days: &Vec<CalendarDay>, month: NaiveDate, today: NaiveDate) -> (counts: (
    usize,
    usize,
))
    ensures
        counts.0 == work_days_come(day_views(days@), month@, today@),
        counts.1 == days_reported(day_views(days@)),
{
    let ghost all = day_views(days@);
    let mut work: usize = 0;
    let mut done: usize = 0;
    let mut i: usize = 0;
    while i < days.len()
        invariant
            i <= days.len(),
            all == day_views(days@),
            work <= i,
            done <= i,
            work == work_days_come(all.take(i as int), month@, today@),
            done == days_reported(all.take(i as int)),
        decreases days.len() - i,
    {
        assert(all.take(i + 1).drop_last() == all.take(i as int));
        assert(all.take(i + 1).last() == days@[i as int]@);
        if days[i].is_work_day() && day_has_come(days[i].date, month, today) {
            work = work + 1;
        }
        if days[i].is_reported() {
            done = done + 1;
        }
        i = i + 1;
    }
    assert(all.take(all.len() as int) == all);
    (work, done)
}

fn copy_chosen_targets(days: &Vec<OverviewErrorDay>) -> (targets: Vec<FixTarget>)
    ensures
        target_views(targets@) == chosen_targets(error_day_views(days@)),
{
    let ghost all = error_day_views(days@);
    let mut targets: Vec<FixTarget> = Vec::new();
    let mut i: usize = 0;
    while i < days.len()
        invariant
            i <= days.len(),
            all == error_day_views(days@),
            target_views(targets@) == chosen_targets(all.take(i as int)),
        decreases days.len() - i,
    {
        assert(all.take(i + 1).drop_last() == all.take(i as int));
        assert(all.take(i + 1).last() == days@[i as int]@);
        let ghost before = target_views(targets@);
        if let Some(target) = days[i].fix_target() {
            let copy = target.copy();
            targets.push(copy);
            assert(target_views(targets@) == before.push(copy@));
        }
        i = i + 1;
    }
    assert(all.take(all.len() as int) == all);
    targets
}

/// A month at a glance, from what the provider gave. A lookup of kinds or of
/// targets that failed counts as empty.
pub fn build_overview(
    identity: UserIdentity,
    calendar: MonthCalendar,
    attendance_types: Result<Vec<AttendanceType>, ProviderError>,
    fix_targets: Result<Vec<FixTarget>, ProviderError>,
    month: NaiveDate,
    today: NaiveDate,
) -> (overview: OverviewData)
    ensures
        overview.identity == identity,
        overview.month == month,
        overview.calendar == calendar,
        type_views(overview.attendance_types@) == found_types(attendance_types),
        error_day_views(overview.error_days@) == days_with_errors(
            day_views(calendar.days@),
            found_targets(fix_targets),
        ),
        date_views(overview.missing_days@) == days_lacking(
            day_views(calendar.days@),
            month@,
            today@,
        ),
        overview.summary == (OverviewSummary {
            total_work_days: work_days_come(day_views(calendar.days@), month@, today@) as u32,
            reported: days_reported(day_views(calendar.days@)) as u32,
            missing: overview.missing_days@.len() as u32,
            errors: overview.error_days@.len() as u32,
        }),
        plan_views(overview.suggested_actions@) == suggestions(
            month@,
            error_day_views(overview.error_days@),
            date_views(overview.missing_days@),
        ),
{
    let types = match attendance_types {
        Ok(types) => types,
        Err(_) => {
            let none: Vec<AttendanceType> = Vec::new();
            assert(type_views(none@) == Seq::<TypeView>::empty());
            none
        },
    };
    let targets = match fix_targets {
        Ok(targets) => targets,
        Err(_) => {
            let none: Vec<FixTarget> = Vec::new();
            assert(target_views(none@) == Seq::<TargetView>::empty());
            none
        },
    };
    let error_days = collect_error_days(&calendar.days, &targets);
    let missing_days = collect_missing_days(&calendar.days, month, today);
    let (total, done) = count_days(&calendar.days, month, today);
    assert(error_days.len() == error_day_views(error_days@).len());
    assert(missing_days.len() == date_views(missing_days@).len());
    let summary = OverviewSummary {
        total_work_days: total as u32,
        reported: done as u32,
        missing: missing_days.len() as u32,
        errors: error_days.len() as u32,
    };
    let mut suggested_actions: Vec<SuggestedActionPlan> = Vec::new();
    assert(plan_views(suggested_actions@) == Seq::<PlanView>::empty());
    if error_days.len() > 0 {
        let plan = SuggestedActionPlan::FixErrors {
            month,
            count: error_days.len() as u32,
            fixable_targets: copy_chosen_targets(&error_days),
        };
        suggested_actions.push(plan);
        assert(plan_views(suggested_actions@) == seq![plan@]);
    }
    let ghost before = plan_views(suggested_actions@);
    if missing_days.len() > 0 {
        let last: usize = missing_days.len() - 1;
        assert(date_views(missing_days@)[0] == missing_days@[0]@);
        assert(date_views(missing_days@).last() == missing_days@[last as int]@);
        let plan = SuggestedActionPlan::FillMissing {
            from: missing_days[0],
            to: missing_days[last],
            count: missing_days.len() as u32,
        };
        suggested_actions.push(plan);
        assert(plan_views(suggested_actions@) == before.push(plan@));
    }
    OverviewData {
        identity,
        month,
        calendar,
        attendance_types: types,
        summary,
        error_days,
        missing_days,
        suggested_actions,
    }
}

/// A day with an error is never said to lack a report, and every day that
/// lacks one is a work day that has come and was not reported.
pub proof fn error_days_do_not_lack_reports(
    days: Seq<DayView>,
    month: CalendarDate,
    today: CalendarDate,
    date: CalendarDate,
)
    ensures
        days_lacking(days, month, today).contains(date) ==> work_day(date) && has_come(
            date,
            month,
            today,
        ) && (exists|i: int|
            0 <= i < days.len() && (#[trigger] days[i]).date == date && !days[i].has_error
                && !reported(days[i])),
        days_lacking(days, month, today).len() <= work_days_come(days, month, today),
    decreases days.len(),
{
    if days.len() > 0 {
        let rest = days.drop_last();
        error_days_do_not_lack_reports(rest, month, today, date);
        let found = days_lacking(days, month, today);
        if found.contains(date) {
            let k = choose|k: int| 0 <= k < found.len() && found[k] == date;
            if lacks_report(days.last(), month, today) && k == found.len() - 1 {
                assert(days[days.len() - 1].date == date);
            } else {
                assert(days_lacking(rest, month, today)[k] == date);
                assert(days_lacking(rest, month, today).contains(date));
                let i = choose|i: int|
                    0 <= i < rest.len() && (#[trigger] rest[i]).date == date && !rest[i].has_error
                        && !reported(rest[i]);
                assert(days[i].date == date && !days[i].has_error && !reported(days[i]));
            }
        }
    }
}

/// Each day with an error stands in the overview, and no other: their number
/// is that of the days with an error.
pub proof fn overview_lists_every_error(days: Seq<DayView>, targets: Seq<TargetView>, at: int)
    requires
        0 <= at < days.len(),
        days[at].has_error,
    ensures
        exists|k: int|
            0 <= k < days_with_errors(days, targets).len() && (#[trigger] days_with_errors(
                days,
                targets,
            )[k]).day == days[at] && days_with_errors(days, targets)[k].fix_targets == targets_on(
                targets,
                days[at].date,
            ),
    decreases days.len(),
{
    let found = days_with_errors(days, targets);
    if at == days.len() - 1 {
        assert(found[found.len() - 1].day == days[at]);
    } else {
        let rest = days.drop_last();
        assert(rest[at] == days[at]);
        overview_lists_every_error(rest, targets, at);
        let before = days_with_errors(rest, targets);
        let k = choose|k: int|
            0 <= k < before.len() && (#[trigger] before[k]).day == rest[at]
                && before[k].fix_targets == targets_on(targets, rest[at].date);
        assert(found[k] == before[k]);
    }
}

// ---------------------------------------------------------------------------
// Filling days
// ---------------------------------------------------------------------------

/// The characters of optional hours.
pub open spec fn hours_view(hours: Option<(String, String)>) -> Option<(Seq<char>, Seq<char>)> {
    match hours {
        Some(pair) => Some((pair.0@, pair.1@)),
        None => None,
    }
}

/// How days of a range are filled.
#[derive(Debug, Clone)]
pub struct FillRangeOptions {
    pub attendance_type_code: Option<String>,
    pub hours: Option<(String, String)>,
    pub include_weekends: bool,
    pub mode: WriteMode,
}

/// What is written for a day that is filled: the kind and the hours, and where
/// there are no hours, none.
pub open spec fn filled_day(
    date: CalendarDate,
    code: Option<Seq<char>>,
    hours: Option<(Seq<char>, Seq<char>)>,
) -> ChangeView {
    ChangeView {
        date,
        attendance_type_code: code,
        use_default_attendance_type: code is None && hours is Some,
        entry_time: match hours {
            Some(pair) => Some(pair.0),
            None => None,
        },
        exit_time: match hours {
            Some(pair) => Some(pair.1),
            None => None,
        },
        comment: None,
        clear_entry: hours is None,
        clear_exit: hours is None,
        clear_comment: true,
    }
}

/// What is written for a day that is filled.
pub fn fill_change(date: NaiveDate, code: &Option<String>, hours: &Option<(String, String)>) -> (
    change: AttendanceChange)
    ensures
        change@ == filled_day(date@, opt_text(*code), hours_view(*hours)),
{
    let (entry_time, exit_time, clear) = match hours {
        Some(pair) => (Some(pair.0.clone()), Some(pair.1.clone()), false),
        None => (None, None, true),
    };
    AttendanceChange {
        date,
        use_default_attendance_type: code.is_none() && entry_time.is_some(),
        attendance_type_code: copy_opt(code),
        entry_time,
        exit_time,
        comment: None,
        clear_entry: clear,
        clear_exit: clear,
        clear_comment: true,
    }
}

/// The dates from one to another, both counted, in order.
pub open spec fn dates_through(from: CalendarDate, to: CalendarDate) -> Seq<CalendarDate>
    decreases day_number(to) - day_number(from) + 1,
{
    if day_number(from) > day_number(to) || !is_date(from) {
        seq![]
    } else {
        proof {
            next_date_is_one_day_later(from);
        }
        seq![from] + dates_through(next_date(from), to)
    }
}

/// The dates of a list that are filled.
pub open spec fn dates_kept(dates: Seq<CalendarDate>, include_weekends: bool) -> Seq<CalendarDate> {
    dates.filter(|date: CalendarDate| include_weekends || !is_weekend_date(date))
}

/// The changes that fill some dates.
pub open spec fn filled_days(
    dates: Seq<CalendarDate>,
    code: Option<Seq<char>>,
    hours: Option<(Seq<char>, Seq<char>)>,
) -> Seq<ChangeView> {
    dates.map_values(|date: CalendarDate| filled_day(date, code, hours))
}

/// What is wrong with a request to fill a range.
pub open spec fn fill_error(from: CalendarDate, to: CalendarDate, nothing: bool) -> Option<ErrorView> {
    if is_after(from, to) {
        Some(plain_error("invalid_fill_range"@, "--from must be before or equal to --to"@))
    } else if nothing {
        Some(
            plain_error(
                "invalid_fill_request"@,
                "fill requires at least one of attendance_type_code or hours"@,
            ),
        )
    } else {
        None
    }
}

proof fn kept_dates_split(first: CalendarDate, rest: Seq<CalendarDate>, include_weekends: bool)
    ensures
        dates_kept(seq![first] + rest, include_weekends) == (if include_weekends
            || !is_weekend_date(first) {
            seq![first]
        } else {
            seq![]
        }) + dates_kept(rest, include_weekends),
    decreases rest.len(),
{
    let keep = |date: CalendarDate| include_weekends || !is_weekend_date(date);
    reveal(Seq::filter);
    if rest.len() == 0 {
        assert((seq![first] + rest).drop_last() == Seq::<CalendarDate>::empty());
        assert((seq![first] + rest).last() == first);
    } else {
        kept_dates_split(first, rest.drop_last(), include_weekends);
        assert((seq![first] + rest).drop_last() == seq![first] + rest.drop_last());
        assert((seq![first] + rest).last() == rest.last());
    }
}

/// The dates from one to another that are filled.
pub fn fill_dates(from: NaiveDate, to: NaiveDate, include_weekends: bool) -> (dates: Vec<NaiveDate>)
    requires
        is_date(next_date(to@)),
    ensures
        date_views(dates@) == dates_kept(dates_through(from@, to@), include_weekends),
{
    let mut dates: Vec<NaiveDate> = Vec::new();
    let mut current = from;
    let last: i32 = to.num_days_from_ce();
    let ghost goal = dates_kept(dates_through(from@, to@), include_weekends);
    let start: i32 = from.num_days_from_ce();
    proof {
        use_type_invariant(&from);
        use_type_invariant(&to);
    }
    assert(date_views(dates@) + goal == goal);
    while !current.is_after(to)
        invariant
            is_date(to@),
            is_date(current@),
            is_date(next_date(to@)),
            date_views(dates@) + dates_kept(dates_through(current@, to@), include_weekends) == goal,
        ensures
            is_after(current@, to@),
            is_date(to@),
            is_date(current@),
            date_views(dates@) + dates_kept(dates_through(current@, to@), include_weekends) == goal,
        decreases day_number(to@) - day_number(current@) + 1,
    {
        let ghost before = date_views(dates@);
        let ghost rest = dates_through(next_date(current@), to@);
        proof {
            later_dates_have_greater_numbers(current@, to@);
            next_date_is_one_day_later(current@);
            next_date_is_one_day_later(to@);
            kept_dates_split(current@, rest, include_weekends);
            next_date_exists(current@, to@);
        }
        if include_weekends || !is_weekend(current) {
            dates.push(current);
            assert(date_views(dates@) == before.push(current@));
            assert(before + (seq![current@] + dates_kept(rest, include_weekends)) == before.push(
                current@,
            ) + dates_kept(rest, include_weekends));
        } else {
            assert(Seq::<CalendarDate>::empty() + dates_kept(rest, include_weekends) == dates_kept(
                rest,
                include_weekends,
            ));
        }
        match current.succ_opt() {
            Some(next) => {
                current = next;
            },
            None => {
                return dates;
            },
        }
    }
    proof {
        later_dates_have_greater_numbers(current@, to@);
        reveal(Seq::filter);
        assert(dates_through(current@, to@) == Seq::<CalendarDate>::empty());
        assert(date_views(dates@) + Seq::<CalendarDate>::empty() == date_views(dates@));
    }
    dates
}

proof fn next_date_exists(date: CalendarDate, to: CalendarDate)
    requires
        is_date(date),
        is_date(to),
        !is_after(date, to),
        is_date(next_date(to)),
    ensures
        is_date(next_date(date)),
{
    if !is_date(next_date(date)) {
        assert(date.year == crate::date::MAX_YEAR && date.month == 12 && date.day == 31);
        assert(to.year == crate::date::MAX_YEAR && to.month == 12 && to.day == 31);
    }
}

/// The changes that fill the days of a range, in order, or what is wrong with
/// the request. Friday and Saturday are left out unless asked for.
pub fn fill_range(from: NaiveDate, to: NaiveDate, options: &FillRangeOptions) -> (changes: Result<
    Vec<AttendanceChange>,
    ProviderError,
>)
    requires
        fill_error(
            from@,
            to@,
            options.attendance_type_code is None && options.hours is None,
        ) is None ==> is_date(next_date(to@)),
    ensures
        ({
            let nothing = options.attendance_type_code is None && options.hours is None;
            match changes {
                Ok(changes) => fill_error(from@, to@, nothing) is None && change_views(changes@)
                    == filled_days(
                    dates_kept(dates_through(from@, to@), options.include_weekends),
                    opt_text(options.attendance_type_code),
                    hours_view(options.hours),
                ),
                Err(error) => fill_error(from@, to@, nothing) == Some(error@),
            }
        }),
{
    if from.is_after(to) {
        return Err(
            ProviderError::new("invalid_fill_range", "--from must be before or equal to --to"),
        );
    }
    if options.attendance_type_code.is_none() && options.hours.is_none() {
        return Err(
            ProviderError::new(
                "invalid_fill_request",
                "fill requires at least one of attendance_type_code or hours",
            ),
        );
    }
    let dates = fill_dates(from, to, options.include_weekends);
    let mut changes: Vec<AttendanceChange> = Vec::new();
    let mut i: usize = 0;
    while i < dates.len()
        invariant
            i <= dates.len(),
            changes.len() == i,
            forall|j: int|
                0 <= j < i ==> (#[trigger] changes@[j])@ == filled_day(
                    dates@[j]@,
                    opt_text(options.attendance_type_code),
                    hours_view(options.hours),
                ),
        decreases dates.len() - i,
    {
        changes.push(fill_change(dates[i], &options.attendance_type_code, &options.hours));
        i = i + 1;
    }
    assert(change_views(changes@) == filled_days(
        date_views(dates@),
        opt_text(options.attendance_type_code),
        hours_view(options.hours),
    ));
    Ok(changes)
}

/// A range holds each date from the first to the last exactly once, in order.
pub proof fn a_range_holds_every_date(from: CalendarDate, to: CalendarDate, date: CalendarDate)
    requires
        is_date(from),
        is_date(to),
        is_date(next_date(to)),
        is_date(date),
    ensures
        dates_through(from, to).contains(date) <==> !is_after(from, date) && !is_after(date, to),
        !is_after(from, to) ==> dates_through(from, to).len() == day_number(to) - day_number(from)
            + 1,
    decreases day_number(to) - day_number(from) + 1,
{
    later_dates_have_greater_numbers(from, to);
    later_dates_have_greater_numbers(from, date);
    later_dates_have_greater_numbers(date, to);
    if day_number(from) <= day_number(to) {
        next_date_is_one_day_later(from);
        let next = next_date(from);
        let rest = dates_through(next, to);
        next_date_exists(from, to);
        a_range_holds_every_date(next, to, date);
        later_dates_have_greater_numbers(next, date);
        later_dates_have_greater_numbers(next, to);
        let all = seq![from] + rest;
        assert(dates_through(from, to) == all);
        if all.contains(date) {
            let k = choose|k: int| 0 <= k < all.len() && all[k] == date;
            if k > 0 {
                assert(rest[k - 1] == date);
                assert(rest.contains(date));
            }
        }
        if rest.contains(date) {
            let k = choose|k: int| 0 <= k < rest.len() && rest[k] == date;
            assert(all[k + 1] == date);
        }
        if date == from {
            assert(all[0] == date);
        }
    }
}

/// No Friday and no Saturday is filled unless asked for, and all other dates
/// of the range are.
pub proof fn weekends_are_left_out(
    from: CalendarDate,
    to: CalendarDate,
    include_weekends: bool,
    date: CalendarDate,
)
    ensures
        dates_kept(dates_through(from, to), include_weekends).contains(date) <==> dates_through(
            from,
            to,
        ).contains(date) && (include_weekends || !is_weekend_date(date)),
{
    kept_dates_contain(dates_through(from, to), include_weekends, date);
}

proof fn kept_dates_contain(dates: Seq<CalendarDate>, include_weekends: bool, date: CalendarDate)
    ensures
        dates_kept(dates, include_weekends).contains(date) <==> dates.contains(date) && (
        include_weekends || !is_weekend_date(date)),
    decreases dates.len(),
{
    reveal(Seq::filter);
    let kept = dates_kept(dates, include_weekends);
    if dates.len() > 0 {
        let rest = dates.drop_last();
        let before = dates_kept(rest, include_weekends);
        kept_dates_contain(rest, include_weekends, date);
        if kept.contains(date) {
            let k = choose|k: int| 0 <= k < kept.len() && kept[k] == date;
            if k < before.len() {
                assert(before[k] == date);
                assert(before.contains(date));
                let i = choose|i: int| 0 <= i < rest.len() && rest[i] == date;
                assert(dates[i] == date);
            } else {
                assert(dates[dates.len() - 1] == date);
            }
        }
        if dates.contains(date) && (include_weekends || !is_weekend_date(date)) {
            let i = choose|i: int| 0 <= i < dates.len() && dates[i] == date;
            if i < rest.len() {
                assert(rest[i] == date);
                assert(before.contains(date));
                let k = choose|k: int| 0 <= k < before.len() && before[k] == date;
                assert(kept[k] == date);
            } else {
                assert(kept[kept.len() - 1] == date);
            }
        }
    }
}

// ---------------------------------------------------------------------------
// Fixing a day
// ---------------------------------------------------------------------------

/// What is written to fix a day: the kind and the hours, and nothing else.
pub open spec fn fixing_change(
    date: CalendarDate,
    code: Option<Seq<char>>,
    hours: Option<(Seq<char>, Seq<char>)>,
) -> ChangeView {
    ChangeView {
        date,
        attendance_type_code: code,
        use_default_attendance_type: false,
        entry_time: match hours {
            Some(pair) => Some(pair.0),
            None => None,
        },
        exit_time: match hours {
            Some(pair) => Some(pair.1),
            None => None,
        },
        comment: None,
        clear_entry: false,
        clear_exit: false,
        clear_comment: false,
    }
}

/// What is written to fix a day, or what is wrong with the request.
pub fn fix_day(
    target: &FixTarget,
    attendance_type_code: Option<String>,
    hours: Option<(String, String)>,
) -> (change: Result<AttendanceChange, ProviderError>)
    ensures
        match change {
            Ok(change) => (attendance_type_code is Some || hours is Some) && change@
                == fixing_change(
                target@.date,
                opt_text(attendance_type_code),
                hours_view(hours),
            ),
            Err(error) => attendance_type_code is None && hours is None && error@ == plain_error(
                "invalid_fix_request"@,
                "fix requires at least one of attendance_type_code or hours"@,
            ),
        },
{
    if attendance_type_code.is_none() && hours.is_none() {
        return Err(
            ProviderError::new(
                "invalid_fix_request",
                "fix requires at least one of attendance_type_code or hours",
            ),
        );
    }
    let (entry_time, exit_time) = match hours {
        Some((entry, exit)) => (Some(entry), Some(exit)),
        None => (None, None),
    };
    Ok(
        AttendanceChange {
            date: target.date,
            attendance_type_code,
            use_default_attendance_type: false,
            entry_time,
            exit_time,
            comment: None,
            clear_entry: false,
            clear_exit: false,
            clear_comment: false,
        },
    )
}

// ---------------------------------------------------------------------------
// Filling a month
// ---------------------------------------------------------------------------

/// How the days of a month are filled.
#[derive(Debug, Clone)]
pub struct AutoFillOptions {
    pub type_code: Option<String>,
    pub type_display: String,
    pub hours: Option<(String, String)>,
    pub include_weekends: bool,
    pub mode: WriteMode,
    pub max_days: u32,
    pub today: NaiveDate,
}

/// A day that was filled, or would be.
#[derive(Debug, Clone)]
pub struct AutoFillDayResult {
    pub date: String,
    pub attendance_type: String,
    pub hours: Option<String>,
    pub status: String,
    pub error: Option<String>,
}

/// A day that was filled, or would be, as mathematics.
pub struct FilledView {
    pub date: Seq<char>,
    pub attendance_type: Seq<char>,
    pub hours: Option<Seq<char>>,
    pub status: Seq<char>,
    pub error: Option<Seq<char>>,
}

impl View for AutoFillDayResult {
    type V = FilledView;

    open spec fn view(&self) -> FilledView {
        FilledView {
            date: self.date@,
            attendance_type: self.attendance_type@,
            hours: opt_text(self.hours),
            status: self.status@,
            error: opt_text(self.error),
        }
    }
}

/// The views of a list of filled days.
pub open spec fn filled_views(days: Seq<AutoFillDayResult>) -> Seq<FilledView> {
    days.map_values(|day: AutoFillDayResult| day@)
}

/// A day that was left as it is.
#[derive(Debug, Clone)]
pub struct SkippedDay {
    pub date: String,
    pub reason: String,
}

/// The views of a list of skipped days.
pub open spec fn skipped_views(days: Seq<SkippedDay>) -> Seq<(Seq<char>, Seq<char>)> {
    days.map_values(|day: SkippedDay| (day.date@, day.reason@))
}

/// The numbers of a filled month.
#[derive(Debug, Clone, Copy, PartialEq, Eq, Structural)]
pub struct AutoFillSummary {
    pub total_candidates: u32,
    pub filled: u32,
    pub skipped: u32,
    pub failed: u32,
}

/// What became of the days of a month.
#[derive(Debug, Clone)]
pub struct AutoFillResult {
    pub month: String,
    pub mode: String,
    pub attendance_type: String,
    pub filled: Vec<AutoFillDayResult>,
    pub skipped: Vec<SkippedDay>,
    pub summary: AutoFillSummary,
}

/// Whether nothing is known of a day.
pub open spec fn is_blank_day(day: DayView) -> bool {
    day.entry_time is None && day.exit_time is None && day.attendance_type is None
        && day.total_hours is None
}

/// Whether a day has only one of its two times.
pub open spec fn is_partial_day(day: DayView) -> bool {
    !is_blank_day(day) && (day.entry_time is Some) != (day.exit_time is Some)
}

/// Whether nothing is known of a day.
pub fn is_day_missing(day: &CalendarDay) -> (answer: bool)
    ensures
        answer == is_blank_day(day@),
{
    day.entry_time.is_none() && day.exit_time.is_none() && day.attendance_type.is_none()
        && day.total_hours.is_none()
}

/// Whether a day has only one of its two times.
pub fn is_day_partial(day: &CalendarDay) -> (answer: bool)
    ensures
        answer == is_partial_day(day@),
{
    if is_day_missing(day) {
        return false;
    }
    day.entry_time.is_some() != day.exit_time.is_some()
}

/// Why a day is left as it is, where it is.
pub open spec fn skip_reason(day: DayView, today: CalendarDate, include_weekends: bool) -> Option<
    Seq<char>,
> {
    if is_after(day.date, today) {
        Some("future"@)
    } else if day.has_error {
        Some("has_error"@)
    } else if reported(day) && !is_partial_day(day) && !is_blank_day(day) {
        Some("already_filled"@)
    } else if is_partial_day(day) {
        Some("partial_data"@)
    } else if !include_weekends && is_weekend_date(day.date) {
        Some("weekend"@)
    } else {
        None
    }
}

/// A date as it is shown, with its day of the week.
pub open spec fn shown_date(date: CalendarDate) -> Seq<char> {
    iso_text(date) + " "@ + weekday_text(date)
}

/// The days that are left as they are, with the reasons.
pub open spec fn skipped_days(days: Seq<DayView>, today: CalendarDate, include_weekends: bool) -> Seq<
    (Seq<char>, Seq<char>),
>
    decreases days.len(),
{
    if days.len() == 0 {
        seq![]
    } else {
        let before = skipped_days(days.drop_last(), today, include_weekends);
        match skip_reason(days.last(), today, include_weekends) {
            Some(reason) => before.push((shown_date(days.last().date), reason)),
            None => before,
        }
    }
}

/// The dates of the days that are to be filled.
pub open spec fn days_to_fill(days: Seq<DayView>, today: CalendarDate, include_weekends: bool) -> Seq<
    CalendarDate,
>
    decreases days.len(),
{
    if days.len() == 0 {
        seq![]
    } else {
        let before = days_to_fill(days.drop_last(), today, include_weekends);
        match skip_reason(days.last(), today, include_weekends) {
            Some(_) => before,
            None => before.push(days.last().date),
        }
    }
}

/// Every day of the month is either to be filled or left as it is.
pub proof fn every_day_is_filled_or_skipped(
    days: Seq<DayView>,
    today: CalendarDate,
    include_weekends: bool,
)
    ensures
        days_to_fill(days, today, include_weekends).len() + skipped_days(
            days,
            today,
            include_weekends,
        ).len() == days.len(),
    decreases days.len(),
{
    if days.len() > 0 {
        every_day_is_filled_or_skipped(days.drop_last(), today, include_weekends);
    }
}

/// No day in the future, with an error, with only one time, or reported and
/// complete is filled; and no weekend day unless asked for.
pub proof fn only_open_days_are_filled(
    days: Seq<DayView>,
    today: CalendarDate,
    include_weekends: bool,
    date: CalendarDate,
)
    ensures
        days_to_fill(days, today, include_weekends).contains(date) ==> !is_after(date, today) && (
        include_weekends || !is_weekend_date(date)) && (exists|i: int|
            0 <= i < days.len() && (#[trigger] days[i]).date == date && !days[i].has_error
                && !is_partial_day(days[i]) && (!reported(days[i]) || is_blank_day(days[i]))),
    decreases days.len(),
{
    if days.len() > 0 {
        let rest = days.drop_last();
        only_open_days_are_filled(rest, today, include_weekends, date);
        let found = days_to_fill(days, today, include_weekends);
        if found.contains(date) {
            let k = choose|k: int| 0 <= k < found.len() && found[k] == date;
            if skip_reason(days.last(), today, include_weekends) is None && k == found.len() - 1 {
                assert(days[days.len() - 1].date == date);
            } else {
                let before = days_to_fill(rest, today, include_weekends);
                assert(before[k] == date);
                assert(before.contains(date));
                let i = choose|i: int|
                    0 <= i < rest.len() && (#[trigger] rest[i]).date == date && !rest[i].has_error
                        && !is_partial_day(rest[i]) && (!reported(rest[i]) || is_blank_day(
                        rest[i],
                    ));
                assert(days[i] == rest[i]);
            }
        }
    }
}

/// The error for more days than are allowed.
pub open spec fn limit_error(count: u32, limit: u32) -> ErrorView {
    plain_error(
        "auto_fill_limit_exceeded"@,
        decimal(count as nat) + " days exceeds safety limit of "@ + decimal(limit as nat),
    )
}

/// Whether more days would be written than are allowed.
pub open spec fn over_limit(count: u32, options: AutoFillOptions) -> bool {
    options.mode == WriteMode::Execute && count > options.max_days
}

fn display_date(date: NaiveDate) -> (text: String)
    ensures
        text@ == shown_date(date@),
{
    let mut text = date.iso();
    text.append(" ");
    let name = date.weekday_name();
    text.append(name.as_str());
    text
}

fn reason_to_skip(day: &CalendarDay, options: &AutoFillOptions) -> (reason: Option<String>)
    ensures
        opt_text(reason) == skip_reason(day@, options.today@, options.include_weekends),
{
    if day.date.is_after(options.today) {
        Some("future".to_owned())
    } else if day.has_error {
        Some("has_error".to_owned())
    } else if day.is_reported() && !is_day_partial(day) && !is_day_missing(day) {
        Some("already_filled".to_owned())
    } else if is_day_partial(day) {
        Some("partial_data".to_owned())
    } else if !options.include_weekends && is_weekend(day.date) {
        Some("weekend".to_owned())
    } else {
        None
    }
}

/// The days that are to be filled, and those that are left with the reasons.
pub struct AutoFillPlan {
    pub dates: Vec<NaiveDate>,
    pub skipped: Vec<SkippedDay>,
}

/// Sorts out the days of a month: those that are to be filled, and those that
/// are left as they are. Refuses to write more days than are allowed.
pub fn plan_auto_fill(calendar: &MonthCalendar, options: &AutoFillOptions) -> (plan: Result<
    AutoFillPlan,
    ProviderError,
>)
    ensures
        ({
            let days = day_views(calendar.days@);
            let dates = days_to_fill(days, options.today@, options.include_weekends);
            match plan {
                Ok(plan) => !over_limit(dates.len() as u32, *options) && date_views(plan.dates@)
                    == dates && skipped_views(plan.skipped@) == skipped_days(
                    days,
                    options.today@,
                    options.include_weekends,
                ),
                Err(error) => over_limit(dates.len() as u32, *options) && error@ == limit_error(
                    dates.len() as u32,
                    options.max_days,
                ),
            }
        }),
{
    let ghost all = day_views(calendar.days@);
    let mut dates: Vec<NaiveDate> = Vec::new();
    let mut skipped: Vec<SkippedDay> = Vec::new();
    let mut i: usize = 0;
    while i < calendar.days.len()
        invariant
            i <= calendar.days.len(),
            all == day_views(calendar.days@),
            date_views(dates@) == days_to_fill(
                all.take(i as int),
                options.today@,
                options.include_weekends,
            ),
            skipped_views(skipped@) == skipped_days(
                all.take(i as int),
                options.today@,
                options.include_weekends,
            ),
        decreases calendar.days.len() - i,
    {
        assert(all.take(i + 1).drop_last() == all.take(i as int));
        assert(all.take(i + 1).last() == calendar.days@[i as int]@);
        let ghost dates_before = date_views(dates@);
        let ghost skipped_before = skipped_views(skipped@);
        let day = &calendar.days[i];
        match reason_to_skip(day, options) {
            Some(reason) => {
                let entry = SkippedDay { date: display_date(day.date), reason };
                skipped.push(entry);
                assert(skipped_views(skipped@) == skipped_before.push(
                    (entry.date@, entry.reason@),
                ));
            },
            None => {
                dates.push(day.date);
                assert(date_views(dates@) == dates_before.push(day.date@));
            },
        }
        i = i + 1;
    }
    assert(all.take(all.len() as int) == all);
    let count: u32 = dates.len() as u32;
    assert(dates.len() == date_views(dates@).len());
    if options.mode.should_execute() && count > options.max_days {
        let mut message = decimal_text(count as u64);
        message.append(" days exceeds safety limit of ");
        let limit = decimal_text(options.max_days as u64);
        message.append(limit.as_str());
        return Err(ProviderError::new("auto_fill_limit_exceeded", message.as_str()));
    }
    Ok(AutoFillPlan { dates, skipped })
}

/// The writes that fill a month: none where they are only to be shown.
pub open spec fn writes_for(dates: Seq<CalendarDate>, options: AutoFillOptions) -> Seq<ChangeView> {
    if options.mode == WriteMode::Execute {
        filled_days(dates, opt_text(options.type_code), hours_view(options.hours))
    } else {
        seq![]
    }
}

/// The writes that fill a month, in order: none where they are only to be
/// shown.
pub fn auto_fill_changes(plan: &AutoFillPlan, options: &AutoFillOptions) -> (changes: Vec<
    AttendanceChange,
>)
    ensures
        change_views(changes@) == writes_for(date_views(plan.dates@), *options),
{
    let mut changes: Vec<AttendanceChange> = Vec::new();
    if !options.mode.should_execute() {
        assert(change_views(changes@) == Seq::<ChangeView>::empty());
        return changes;
    }
    let mut i: usize = 0;
    while i < plan.dates.len()
        invariant
            i <= plan.dates.len(),
            changes.len() == i,
            forall|j: int|
                0 <= j < i ==> (#[trigger] changes@[j])@ == filled_day(
                    plan.dates@[j]@,
                    opt_text(options.type_code),
                    hours_view(options.hours),
                ),
        decreases plan.dates.len() - i,
    {
        changes.push(fill_change(plan.dates[i], &options.type_code, &options.hours));
        i = i + 1;
    }
    assert(change_views(changes@) == filled_days(
        date_views(plan.dates@),
        opt_text(options.type_code),
        hours_view(options.hours),
    ));
    changes
}

/// Without leave to write, nothing is written.
pub proof fn a_shown_month_writes_nothing(dates: Seq<CalendarDate>, options: AutoFillOptions)
    requires
        options.mode == WriteMode::DryRun,
    ensures
        writes_for(dates, options).len() == 0,
{
}

/// No more days are written than are allowed, where the number of days can be
/// counted in 32 bits.
pub proof fn a_month_writes_no_more_than_allowed(
    dates: Seq<CalendarDate>,
    options: AutoFillOptions,
)
    requires
        dates.len() <= u32::MAX,
        !over_limit(dates.len() as u32, options),
    ensures
        writes_for(dates, options).len() <= options.max_days,
{
}

/// What became of a write: nothing is wrong, or these words.
pub open spec fn write_outcome(outcome: Result<WritePreview, ProviderError>) -> Option<Seq<char>> {
    match outcome {
        Ok(_) => None,
        Err(error) => Some(error_text(error@)),
    }
}

/// What became of some writes.
pub open spec fn write_outcomes(outcomes: Seq<Result<WritePreview, ProviderError>>) -> Seq<
    Option<Seq<char>>,
> {
    outcomes.map_values(|outcome: Result<WritePreview, ProviderError>| write_outcome(outcome))
}

/// Hours as they are shown.
pub open spec fn shown_hours(hours: Option<(Seq<char>, Seq<char>)>) -> Option<Seq<char>> {
    match hours {
        Some(pair) => Some(pair.0 + "-"@ + pair.1),
        None => None,
    }
}

/// What is said of a day that was filled, or would be.
pub open spec fn filled_view(
    date: CalendarDate,
    options: AutoFillOptions,
    error: Option<Seq<char>>,
) -> FilledView {
    FilledView {
        date: shown_date(date),
        attendance_type: options.type_display@,
        hours: shown_hours(hours_view(options.hours)),
        status: if options.mode == WriteMode::DryRun {
            "would_fill"@
        } else if error is None {
            "success"@
        } else {
            "failed"@
        },
        error: if options.mode == WriteMode::DryRun {
            None
        } else {
            error
        },
    }
}

/// What is said of the days that were filled, or would be.
pub open spec fn filled_result(
    dates: Seq<CalendarDate>,
    options: AutoFillOptions,
    outcomes: Seq<Option<Seq<char>>>,
) -> Seq<FilledView> {
    Seq::new(dates.len(), |i: int| filled_view(dates[i], options, outcomes[i]))
}

/// The number of writes that failed.
pub open spec fn failures(
    count: nat,
    options: AutoFillOptions,
    outcomes: Seq<Option<Seq<char>>>,
) -> nat
    decreases count,
{
    if count == 0 || options.mode == WriteMode::DryRun {
        0
    } else {
        failures((count - 1) as nat, options, outcomes) + if outcomes[count - 1] is Some {
            1nat
        } else {
            0nat
        }
    }
}

/// Whether what is said of a filled month is right.
pub open spec fn fills(
    result: AutoFillResult,
    month: CalendarDate,
    dates: Seq<CalendarDate>,
    skipped: Seq<(Seq<char>, Seq<char>)>,
    options: AutoFillOptions,
    outcomes: Seq<Option<Seq<char>>>,
) -> bool {
    let failed = failures(dates.len(), options, outcomes);
    &&& result.month@ == month_text(month)
    &&& result.mode@ == if options.mode == WriteMode::Execute {
        "executed"@
    } else {
        "dry_run"@
    }
    &&& result.attendance_type@ == options.type_display@
    &&& filled_views(result.filled@) == filled_result(dates, options, outcomes)
    &&& skipped_views(result.skipped@) == skipped
    &&& result.summary.total_candidates == dates.len() as u32
    &&& result.summary.skipped == skipped.len() as u32
    &&& result.summary.failed == failed as u32
    &&& result.summary.filled == (dates.len() - failed) as u32
}

/// Each day that was to be filled was filled or failed.
pub proof fn filled_and_failed_are_all(
    count: nat,
    options: AutoFillOptions,
    outcomes: Seq<Option<Seq<char>>>,
)
    ensures
        failures(count, options, outcomes) <= count,
        options.mode == WriteMode::DryRun ==> failures(count, options, outcomes) == 0,
    decreases count,
{
    if count > 0 && options.mode != WriteMode::DryRun {
        filled_and_failed_are_all((count - 1) as nat, options, outcomes);
    }
}

fn hours_text(hours: &Option<(String, String)>) -> (text: Option<String>)
    ensures
        opt_text(text) == shown_hours(hours_view(*hours)),
{
    match hours {
        Some(pair) => {
            let mut text = pair.0.clone();
            text.append("-");
            text.append(pair.1.as_str());
            Some(text)
        },
        None => None,
    }
}

/// What became of the days of a month, from what became of the writes that
/// filled it, one for each day.
pub fn auto_fill(
    month: NaiveDate,
    plan: AutoFillPlan,
    options: &AutoFillOptions,
    outcomes: &Vec<Result<WritePreview, ProviderError>>,
) -> (result: AutoFillResult)
    requires
        options.mode == WriteMode::Execute ==> outcomes@.len() == plan.dates@.len(),
    ensures
        fills(
            result,
            month@,
            date_views(plan.dates@),
            skipped_views(plan.skipped@),
            *options,
            write_outcomes(outcomes@),
        ),
{
    let ghost dates = date_views(plan.dates@);
    let ghost errors = write_outcomes(outcomes@);
    let ghost goal = filled_result(dates, *options, errors);
    let execute = options.mode.should_execute();
    let mut filled: Vec<AutoFillDayResult> = Vec::new();
    let mut failed: usize = 0;
    let mut i: usize = 0;
    while i < plan.dates.len()
        invariant
            i <= plan.dates.len(),
            dates == date_views(plan.dates@),
            errors == write_outcomes(outcomes@),
            goal == filled_result(dates, *options, errors),
            execute == (options.mode == WriteMode::Execute),
            execute ==> outcomes@.len() == plan.dates@.len(),
            filled_views(filled@) == goal.take(i as int),
            failed <= i,
            failed == failures(i as nat, *options, errors),
        decreases plan.dates.len() - i,
    {
        let ghost before = filled_views(filled@);
        let mut status = "would_fill".to_owned();
        let mut error: Option<String> = None;
        if execute {
            status = "success".to_owned();
            assert(errors[i as int] == write_outcome(outcomes@[i as int]));
            if let Err(failure) = &outcomes[i] {
                status = "failed".to_owned();
                error = Some(failure.text());
                failed = failed + 1;
            }
        }
        let entry = AutoFillDayResult {
            date: display_date(plan.dates[i]),
            attendance_type: options.type_display.clone(),
            hours: hours_text(&options.hours),
            status,
            error,
        };
        assert(entry@ == goal[i as int]);
        filled.push(entry);
        assert(filled_views(filled@) == before.push(entry@));
        i = i + 1;
        assert(filled_views(filled@) == goal.take(i as int));
    }
    assert(goal.take(goal.len() as int) == goal);
    let count: usize = plan.dates.len();
    assert(plan.skipped.len() == skipped_views(plan.skipped@).len());
    let summary = AutoFillSummary {
        total_candidates: count as u32,
        filled: (count - failed) as u32,
        skipped: plan.skipped.len() as u32,
        failed: failed as u32,
    };
    AutoFillResult {
        month: month.year_month(),
        mode: if execute {
            "executed".to_owned()
        } else {
            "dry_run".to_owned()
        },
        attendance_type: options.type_display.clone(),
        filled,
        skipped: plan.skipped,
        summary,
    }
}

// ---------------------------------------------------------------------------
// Kinds by name
// ---------------------------------------------------------------------------

/// A kind of attendance that was asked for by name.
#[derive(Debug, Clone)]
pub struct ResolvedAttendanceType {
    pub code: String,
    pub display: String,
}

/// Whether a text is only decimal digits, as codes are.
pub open spec fn is_code(text: Seq<char>) -> bool {
    forall|i: int| 0 <= i < text.len() ==> digit_value(#[trigger] text[i]) is Some
}

/// Whether a text is only decimal digits, as codes are, so that the kinds need
/// not be looked up.
pub fn is_type_code(text: &str) -> (answer: bool)
    ensures
        answer == is_code(text@),
{
    let chars = chars_of(text);
    let mut i: usize = 0;
    while i < chars.len()
        invariant
            i <= chars.len(),
            chars@ == text@,
            forall|j: int| 0 <= j < i ==> digit_value(#[trigger] text@[j]) is Some,
        decreases chars.len() - i,
    {
        let c = chars[i];
        if !('0' <= c && c <= '9') {
            assert(digit_value(text@[i as int]) is None);
            return false;
        }
        i = i + 1;
    }
    true
}

/// The code and the display name of a kind that was asked for: a code stands
/// for itself, a name is looked up.
pub open spec fn resolved(
    requested: Option<Seq<char>>,
    types: Result<Seq<TypeView>, ErrorView>,
) -> Result<Option<(Seq<char>, Seq<char>)>, ErrorView> {
    match requested {
        None => Ok(None),
        Some(name) => if is_code(name) {
            Ok(Some((name, name)))
        } else {
            match types {
                Ok(types) => match first_named(types, name) {
                    Some(item) => Ok(
                        Some(
                            (
                                item.code,
                                match item.name_en {
                                    Some(name_en) => name_en,
                                    None => item.name_he,
                                },
                            ),
                        ),
                    ),
                    None => Err(
                        plain_error(
                            "unknown_attendance_type"@,
                            "Unknown attendance type '"@ + name + "'"@,
                        ),
                    ),
                },
                Err(error) => Err(error),
            }
        },
    }
}

/// The view of a lookup of kinds.
pub open spec fn types_lookup(types: Result<Vec<AttendanceType>, ProviderError>) -> Result<
    Seq<TypeView>,
    ErrorView,
> {
    match types {
        Ok(types) => Ok(type_views(types@)),
        Err(error) => Err(error@),
    }
}

/// The kind that was asked for, given what the lookup of the kinds gave. A
/// code needs no lookup.
pub fn resolve_attendance_type(
    requested: Option<&str>,
    types: Result<Vec<AttendanceType>, ProviderError>,
) -> (found: Result<Option<ResolvedAttendanceType>, ProviderError>)
    ensures
        match found {
            Ok(Some(found)) => resolved(opt_str(requested), types_lookup(types)) == Ok::<
                Option<(Seq<char>, Seq<char>)>,
                ErrorView,
            >(Some((found.code@, found.display@))),
            Ok(None) => resolved(opt_str(requested), types_lookup(types)) == Ok::<
                Option<(Seq<char>, Seq<char>)>,
                ErrorView,
            >(None),
            Err(error) => resolved(opt_str(requested), types_lookup(types)) == Err::<
                Option<(Seq<char>, Seq<char>)>,
                ErrorView,
            >(error@),
        },
{
    let name = match requested {
        Some(name) => name,
        None => {
            return Ok(None);
        },
    };
    if is_type_code(name) {
        return Ok(
            Some(ResolvedAttendanceType { code: name.to_owned(), display: name.to_owned() }),
        );
    }
    let types = match types {
        Ok(types) => types,
        Err(error) => {
            return Err(error);
        },
    };
    match find_named(&types, name) {
        Some(at) => {
            let display = match &types[at].name_en {
                Some(name_en) => name_en.clone(),
                None => types[at].name_he.clone(),
            };
            Ok(Some(ResolvedAttendanceType { code: types[at].code.clone(), display }))
        },
        None => {
            let mut message = "Unknown attendance type '".to_owned();
            message.append(name);
            message.append("'");
            Err(ProviderError::new("unknown_attendance_type", message.as_str()))
        },
    }
}

/// The kinds there are, in words.
pub fn describe_attendance_types(types: &Vec<AttendanceType>) -> (text: String)
    ensures
        text@ == if types@.len() == 0 {
            "No attendance types available."@
        } else {
            type_lines(type_views(types@), " -- "@)
        },
{
    if types.len() == 0 {
        "No attendance types available.".to_owned()
    } else {
        list_types(types, " -- ")
    }
}

/// The days with an error.
pub open spec fn with_error(days: Seq<DayView>) -> Seq<DayView>
    decreases days.len(),
{
    if days.len() == 0 {
        seq![]
    } else {
        let before = with_error(days.drop_last());
        if days.last().has_error {
            before.push(days.last())
        } else {
            before
        }
    }
}

/// The days of a month with an error.
pub fn error_days(calendar: &MonthCalendar) -> (found: Vec<CalendarDay>)
    ensures
        day_views(found@) == with_error(day_views(calendar.days@)),
{
    let ghost all = day_views(calendar.days@);
    let mut found: Vec<CalendarDay> = Vec::new();
    let mut i: usize = 0;
    while i < calendar.days.len()
        invariant
            i <= calendar.days.len(),
            all == day_views(calendar.days@),
            day_views(found@) == with_error(all.take(i as int)),
        decreases calendar.days.len() - i,
    {
        assert(all.take(i + 1).drop_last() == all.take(i as int));
        assert(all.take(i + 1).last() == calendar.days@[i as int]@);
        let ghost before = day_views(found@);
        if calendar.days[i].has_error {
            let day = calendar.days[i].copy();
            found.push(day);
            assert(day_views(found@) == before.push(day@));
        }
        i = i + 1;
    }
    assert(all.take(all.len() as int) == all);
    found
}

} // verus!
