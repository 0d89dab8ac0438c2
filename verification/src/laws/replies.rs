//! Laws of what is answered: each member stands for its own part.

use crate::api::SymbolView;
use crate::date::{iso_text, month_text, CalendarDate};
use crate::hr_core::{
    day_views, debug_text, row_texts, type_views, AttendanceSource, DayView, ErrorView, PreviewView,
    ReportTable, SalaryEntry, TargetView, TypeView, UserIdentity,
};
use crate::json::{json_texts, Json};
use crate::months::date_views;
use crate::requests::FillParam;
use crate::responses::{
    action_members, calendar_json, candidates, column_json, day_json, days_json, entry_json,
    error_entry, error_json, fixable_json, missing_day_json, missing_json, nested_json,
    opt_params_json, overview_members, params_json, preview_members, provider_write_members,
    report_json, shown_params, summary_json, symbol_json, table_json, tagged_json, type_json,
    types_json, user_json, write_json, ErrorEntry,
};
use crate::submit::ShownWrite;
use crate::text::{decimal, split_once, texts};
use crate::tools::{
    auto_fill_json, fill_json, fill_results, fill_summary_json, filled_json, payslip_members,
    salary_json, short_day_json, short_error_json, short_fill_results, short_overview_json,
    short_status_json, skipped_json,
};
use crate::use_cases::{
    AutoFillResult, AutoFillSummary, ErrorDayView, FilledView, OverviewData, OverviewSummary,
    PlanView,
};
use vstd::prelude::*;

verus! {

/// Whether an object has a value under a name.
pub open spec fn says(object: Json, key: Seq<char>, value: Json) -> bool {
    object matches Json::Object(members) && exists|i: int|
        0 <= i < members.len() && #[trigger] members[i] == (key, value)
}

/// A text, or null where there is none.
pub open spec fn text_or_null(text: Option<Seq<char>>) -> Json {
    match text {
        Some(text) => Json::Text(text),
        None => Json::Null,
    }
}

proof fn said(object: Json, at: int)
    requires
        object is Object,
        0 <= at < object->Object_0.len(),
    ensures
        says(object, object->Object_0[at].0, object->Object_0[at].1),
{
    assert(object->Object_0[at] == (object->Object_0[at].0, object->Object_0[at].1));
}

/// A day is answered with its own date, times, kind and error, each under its
/// name.
pub proof fn a_day_says_what_is_known_of_it(day: DayView)
    ensures
        says(day_json(day), "date"@, Json::Text(iso_text(day.date))),
        says(day_json(day), "day_name"@, Json::Text(day.day_name)),
        says(day_json(day), "has_error"@, Json::Bool(day.has_error)),
        says(day_json(day), "error_message"@, text_or_null(day.error_message)),
        says(day_json(day), "entry_time"@, text_or_null(day.entry_time)),
        says(day_json(day), "exit_time"@, text_or_null(day.exit_time)),
        says(day_json(day), "attendance_type"@, text_or_null(day.attendance_type)),
        says(day_json(day), "total_hours"@, text_or_null(day.total_hours)),
        says(
            day_json(day),
            "source"@,
            Json::Text(
                match day.source {
                    AttendanceSource::UserReported => "user_reported"@,
                    AttendanceSource::SystemAutoFill => "system_auto_fill"@,
                    AttendanceSource::Holiday => "holiday"@,
                    AttendanceSource::Unreported => "unreported"@,
                },
            ),
        ),
{
    let object = day_json(day);
    said(object, 0);
    said(object, 1);
    said(object, 2);
    said(object, 3);
    said(object, 4);
    said(object, 5);
    said(object, 6);
    said(object, 7);
    said(object, 8);
}

/// A day is answered in short with the same, under short names.
pub proof fn a_day_says_the_same_in_short(day: DayView)
    ensures
        says(short_day_json(day), "date"@, Json::Text(iso_text(day.date))),
        says(short_day_json(day), "day"@, Json::Text(day.day_name)),
        says(short_day_json(day), "entry"@, text_or_null(day.entry_time)),
        says(short_day_json(day), "exit"@, text_or_null(day.exit_time)),
        says(short_day_json(day), "type"@, text_or_null(day.attendance_type)),
        says(short_day_json(day), "hours"@, text_or_null(day.total_hours)),
        says(short_day_json(day), "error"@, Json::Bool(day.has_error)),
        says(short_day_json(day), "error_message"@, text_or_null(day.error_message)),
{
    let object = short_day_json(day);
    said(object, 0);
    said(object, 1);
    said(object, 2);
    said(object, 3);
    said(object, 4);
    said(object, 5);
    said(object, 6);
    said(object, 7);
}

/// A kind of attendance is answered with its code and its names.
pub proof fn a_kind_says_its_code_and_names(item: TypeView)
    ensures
        says(type_json(item), "code"@, Json::Text(item.code)),
        says(type_json(item), "name_he"@, Json::Text(item.name_he)),
        says(type_json(item), "name_en"@, text_or_null(item.name_en)),
{
    let object = type_json(item);
    said(object, 0);
    said(object, 1);
    said(object, 2);
}

/// A symbol of absence is answered with its id and its names.
pub proof fn a_symbol_says_its_id_and_names(symbol: SymbolView)
    ensures
        says(symbol_json(symbol), "id"@, Json::Text(symbol.id)),
        says(symbol_json(symbol), "name"@, Json::Text(symbol.name)),
        says(symbol_json(symbol), "display_name"@, text_or_null(symbol.display_name)),
{
    let object = symbol_json(symbol);
    said(object, 0);
    said(object, 1);
    said(object, 2);
}

/// Who is signed in is answered with their ids, their name and whether they
/// manage.
pub proof fn a_user_says_who_they_are(identity: UserIdentity)
    ensures
        says(user_json(identity), "user_id"@, Json::Text(identity.user_id@)),
        says(user_json(identity), "employee_id"@, Json::Text(identity.employee_id@)),
        says(user_json(identity), "name"@, Json::Text(identity.display_name@)),
        says(user_json(identity), "is_manager"@, Json::Bool(identity.is_manager)),
{
    let object = user_json(identity);
    said(object, 0);
    said(object, 1);
    said(object, 2);
    said(object, 3);
}

/// The numbers of a month are answered each under its name.
pub proof fn a_summary_says_its_numbers(summary: OverviewSummary)
    ensures
        says(
            summary_json(summary),
            "total_work_days"@,
            Json::Number(Some(summary.total_work_days as nat), decimal(summary.total_work_days as nat)),
        ),
        says(
            summary_json(summary),
            "reported"@,
            Json::Number(Some(summary.reported as nat), decimal(summary.reported as nat)),
        ),
        says(
            summary_json(summary),
            "missing"@,
            Json::Number(Some(summary.missing as nat), decimal(summary.missing as nat)),
        ),
        says(
            summary_json(summary),
            "errors"@,
            Json::Number(Some(summary.errors as nat), decimal(summary.errors as nat)),
        ),
{
    let object = summary_json(summary);
    said(object, 0);
    said(object, 1);
    said(object, 2);
    said(object, 3);
}

/// The numbers of a filled month are answered each under its name.
pub proof fn a_filled_month_says_its_numbers(summary: AutoFillSummary)
    ensures
        says(
            fill_summary_json(summary),
            "total_candidates"@,
            Json::Number(Some(summary.total_candidates as nat), decimal(summary.total_candidates as nat)),
        ),
        says(
            fill_summary_json(summary),
            "filled"@,
            Json::Number(Some(summary.filled as nat), decimal(summary.filled as nat)),
        ),
        says(
            fill_summary_json(summary),
            "skipped"@,
            Json::Number(Some(summary.skipped as nat), decimal(summary.skipped as nat)),
        ),
        says(
            fill_summary_json(summary),
            "failed"@,
            Json::Number(Some(summary.failed as nat), decimal(summary.failed as nat)),
        ),
{
    let object = fill_summary_json(summary);
    said(object, 0);
    said(object, 1);
    said(object, 2);
    said(object, 3);
}

/// What an error is fixed by is answered with the report first and the kind of
/// error second.
pub proof fn a_target_says_its_report_and_error(params: (Seq<char>, Seq<char>))
    ensures
        says(params_json(params), "report_id"@, Json::Text(params.0)),
        says(params_json(params), "error_type"@, Json::Text(params.1)),
{
    let object = params_json(params);
    said(object, 0);
    said(object, 1);
}

/// A filled day is answered with its date, kind, hours and what became of it.
pub proof fn a_filled_day_says_what_became_of_it(day: FilledView)
    ensures
        says(filled_json(day), "date"@, Json::Text(day.date)),
        says(filled_json(day), "attendance_type"@, Json::Text(day.attendance_type)),
        says(filled_json(day), "hours"@, text_or_null(day.hours)),
        says(filled_json(day), "status"@, Json::Text(day.status)),
        says(filled_json(day), "error"@, text_or_null(day.error)),
{
    let object = filled_json(day);
    said(object, 0);
    said(object, 1);
    said(object, 2);
    said(object, 3);
    said(object, 4);
}

/// A day that was left is answered with its date and the reason.
pub proof fn a_skipped_day_says_why(day: (Seq<char>, Seq<char>))
    ensures
        says(skipped_json(day), "date"@, Json::Text(day.0)),
        says(skipped_json(day), "reason"@, Json::Text(day.1)),
{
    let object = skipped_json(day);
    said(object, 0);
    said(object, 1);
}

/// A salary is answered with its month and its amount.
pub proof fn a_salary_says_its_month_and_amount(entry: SalaryEntry)
    ensures
        says(salary_json(entry, false), "month"@, Json::Text(month_text(entry.month@))),
        says(
            salary_json(entry, false),
            "amount"@,
            Json::Number(Some(entry.amount as nat), decimal(entry.amount as nat)),
        ),
{
    let object = salary_json(entry, false);
    said(object, 0);
    said(object, 1);
}

/// A month is answered with its name, its employee and its days.
pub proof fn a_month_says_its_days(month: Seq<char>, employee: Seq<char>, days: Seq<DayView>)
    ensures
        says(calendar_json(month, employee, days), "month"@, Json::Text(month)),
        says(calendar_json(month, employee, days), "employee_id"@, Json::Text(employee)),
        says(calendar_json(month, employee, days), "days"@, days_json(days)),
{
    let object = calendar_json(month, employee, days);
    said(object, 0);
    said(object, 1);
    said(object, 2);
}

/// A write is answered with what it does, where it goes, and whether it was
/// carried out.
pub proof fn a_write_says_what_it_is(action: Seq<char>, preview: ShownWrite)
    ensures
        says(write_json(action, preview), "action"@, Json::Text(action)),
        says(
            write_json(action, preview),
            "mode"@,
            Json::Text(
                if preview.executed {
                    "executed"@
                } else {
                    "dry_run"@
                },
            ),
        ),
        says(write_json(action, preview), "url"@, Json::Text(preview.url)),
        says(write_json(action, preview), "button_name"@, Json::Text(preview.button_name)),
        says(write_json(action, preview), "button_value"@, Json::Text(preview.button_value)),
        says(write_json(action, preview), "employee_id"@, Json::Text(preview.employee_id)),
        says(write_json(action, preview), "payload_display"@, Json::Text(preview.payload_display)),
        says(write_json(action, preview), "executed"@, Json::Bool(preview.executed)),
{
    let object = write_json(action, preview);
    said(object, 0);
    said(object, 1);
    said(object, 2);
    said(object, 3);
    said(object, 4);
    said(object, 5);
    said(object, 6);
    said(object, 7);
}

/// A tool is told what a write does, and whether it was carried out.
pub proof fn a_tool_is_told_of_a_write(action: Seq<char>, preview: PreviewView)
    ensures
        says(Json::Object(preview_members(action, preview)), "action"@, Json::Text(action)),
        says(
            Json::Object(preview_members(action, preview)),
            "executed"@,
            Json::Bool(preview.executed),
        ),
        says(
            Json::Object(preview_members(action, preview)),
            "summary"@,
            Json::Text(preview.summary),
        ),
        says(
            Json::Object(preview_members(action, preview)),
            "url"@,
            text_or_null(debug_text(preview.provider_debug, "url"@)),
        ),
        says(
            Json::Object(preview_members(action, preview)),
            "employee_id"@,
            text_or_null(debug_text(preview.provider_debug, "employee_id"@)),
        ),
        says(
            Json::Object(preview_members(action, preview)),
            "payload_display"@,
            text_or_null(debug_text(preview.provider_debug, "payload_display"@)),
        ),
{
    let object = Json::Object(preview_members(action, preview));
    said(object, 0);
    said(object, 1);
    said(object, 2);
    said(object, 3);
    said(object, 4);
    said(object, 6);
}

/// A range that was filled is answered with its days, its times and the answer
/// for each day.
pub proof fn a_range_says_how_it_was_filled(param: FillParam, results: Seq<Json>)
    ensures
        says(fill_json(param, results), "action"@, Json::Text("fill"@)),
        says(fill_json(param, results), "from"@, Json::Text(param.from@)),
        says(fill_json(param, results), "to"@, Json::Text(param.to@)),
        says(fill_json(param, results), "entry"@, Json::Text(param.entry@)),
        says(fill_json(param, results), "exit"@, Json::Text(param.exit@)),
        says(
            fill_json(param, results),
            "days_processed"@,
            Json::Number(Some(results.len()), decimal(results.len())),
        ),
        says(fill_json(param, results), "execute"@, Json::Bool(param.execute == Some(true))),
        says(fill_json(param, results), "results"@, Json::Array(results)),
{
    let object = fill_json(param, results);
    said(object, 0);
    said(object, 1);
    said(object, 2);
    said(object, 3);
    said(object, 4);
    said(object, 5);
    said(object, 6);
    said(object, 7);
}

/// A month that was filled is answered with its name, how it was filled, and
/// its numbers.
pub proof fn a_month_says_how_it_was_filled(result: AutoFillResult)
    ensures
        says(auto_fill_json(result), "month"@, Json::Text(result.month@)),
        says(auto_fill_json(result), "mode"@, Json::Text(result.mode@)),
        says(auto_fill_json(result), "attendance_type"@, Json::Text(result.attendance_type@)),
        says(auto_fill_json(result), "summary"@, fill_summary_json(result.summary)),
{
    let object = auto_fill_json(result);
    said(object, 0);
    said(object, 1);
    said(object, 2);
    said(object, 5);
}

/// A payslip is answered with its month, that it is locked, and its size.
pub proof fn a_payslip_says_its_month_and_size(month: CalendarDate, size: nat)
    ensures
        says(Json::Object(payslip_members(month, size)), "month"@, Json::Text(month_text(month))),
        says(
            Json::Object(payslip_members(month, size)),
            "mime_type"@,
            Json::Text("application/pdf"@),
        ),
        says(Json::Object(payslip_members(month, size)), "password_protected"@, Json::Bool(true)),
        says(
            Json::Object(payslip_members(month, size)),
            "size_bytes"@,
            Json::Number(Some(size), decimal(size)),
        ),
{
    let object = Json::Object(payslip_members(month, size));
    said(object, 0);
    said(object, 1);
    said(object, 2);
    said(object, 3);
}

/// A column of a report is answered with its place and its name.
pub proof fn a_column_says_its_place_and_name(index: nat, name: Seq<char>)
    ensures
        says(column_json(index, name), "index"@, Json::Number(Some(index), decimal(index))),
        says(column_json(index, name), "name"@, Json::Text(name)),
{
    let object = column_json(index, name);
    said(object, 0);
    said(object, 1);
}

/// A day with an error is answered with its date and its words.
pub proof fn an_error_says_its_days_parts(entry: ErrorEntry)
    ensures
        says(entry_json(entry), "date"@, Json::Text(entry.date)),
        says(entry_json(entry), "day_name"@, Json::Text(entry.day_name)),
        says(entry_json(entry), "error_message"@, Json::Text(entry.error_message)),
        says(entry_json(entry), "fix_params"@, opt_params_json(entry.fix_params)),
{
    let object = entry_json(entry);
    said(object, 0);
    said(object, 1);
    said(object, 2);
    said(object, 3);
}

/// A day without a report is answered with its date and its name.
pub proof fn a_missing_day_says_its_date(day: DayView)
    ensures
        says(missing_day_json(day), "date"@, Json::Text(iso_text(day.date))),
        says(missing_day_json(day), "day_name"@, Json::Text(day.day_name)),
{
    let object = missing_day_json(day);
    said(object, 0);
    said(object, 1);
}

/// An overview is answered with who is signed in, the month, its numbers and
/// its kinds.
pub proof fn an_overview_says_its_parts(overview: OverviewData)
    ensures
        says(Json::Object(overview_members(overview)), "user"@, user_json(overview.identity)),
        says(
            Json::Object(overview_members(overview)),
            "month"@,
            Json::Text(month_text(overview.month@)),
        ),
        says(Json::Object(overview_members(overview)), "summary"@, summary_json(overview.summary)),
        says(
            Json::Object(overview_members(overview)),
            "attendance_types"@,
            types_json(type_views(overview.attendance_types@)),
        ),
        says(
            Json::Object(overview_members(overview)),
            "missing_days"@,
            Json::Array(missing_json(day_views(overview.calendar.days@), date_views(overview.missing_days@))),
        ),
{
    let object = Json::Object(overview_members(overview));
    said(object, 0);
    said(object, 1);
    said(object, 2);
    said(object, 3);
    said(object, 5);
}

/// A report is answered with the number of its columns and rows.
pub proof fn a_report_says_its_size(kind: Seq<char>, requested: Seq<char>, table: ReportTable)
    ensures
        says(
            report_json(kind, requested, table),
            "column_count"@,
            Json::Number(Some(table.headers@.len()), decimal(table.headers@.len())),
        ),
        says(
            report_json(kind, requested, table),
            "row_count"@,
            Json::Number(Some(table.rows@.len()), decimal(table.rows@.len())),
        ),
{
    let object = report_json(kind, requested, table);
    said(object, 1);
    said(object, 2);
}

/// An error is answered with its code, its message and whether it may pass.
pub proof fn an_error_says_what_it_is(error: ErrorView)
    ensures
        exists|inner: Json|
            says(error_json(error), "error"@, inner) && #[trigger] says(
                inner,
                "code"@,
                Json::Text(error.code),
            ) && says(inner, "message"@, Json::Text(error.message)) && says(
                inner,
                "retryable"@,
                Json::Bool(error.retryable),
            ),
{
    let object = error_json(error);
    said(object, 0);
    let inner = object->Object_0[0].1;
    said(inner, 0);
    said(inner, 1);
    said(inner, 2);
}

/// What an error is fixed by is its report and its kind of error: from the
/// data of the target, or else from either side of the colon in its
/// reference.
pub proof fn a_target_is_read_by_name(target: TargetView)
    ensures
        target.metadata.dom().contains("report_id"@) && target.metadata.dom().contains(
            "error_type"@,
        ) ==> shown_params(target) == Some(
            (target.metadata["report_id"@], target.metadata["error_type"@]),
        ),
        !target.metadata.dom().contains("report_id"@) && !target.metadata.dom().contains(
            "error_type"@,
        ) ==> shown_params(target) == split_once(target.provider_ref, ':'),
{
}

/// What can be fixed by one thing alone says by which; where there are
/// several, or none, it says nothing but lists them.
pub proof fn an_error_says_what_alone_fixes_it(entry: ErrorDayView)
    ensures
        ({
            let shown = error_entry(entry);
            &&& shown.date == iso_text(entry.day.date)
            &&& shown.day_name == entry.day.day_name
            &&& (entry.day.error_message matches Some(message) ==> shown.error_message == message)
            &&& (entry.day.error_message is None ==> shown.error_message == "missing report"@)
            &&& shown.fix_params_candidates == candidates(entry.fix_targets)
            &&& (shown.fix_params is Some <==> shown.fix_params_candidates.len() == 1)
            &&& (shown.fix_params matches Some(params) ==> shown.fix_params_candidates[0]
                == params)
        }),
{
}

/// Everything that an error can be fixed by is listed.
pub proof fn each_target_is_a_candidate(targets: Seq<TargetView>, at: int)
    requires
        0 <= at < targets.len(),
        shown_params(targets[at]) is Some,
    ensures
        candidates(targets).contains(shown_params(targets[at])->Some_0),
    decreases targets.len(),
{
    let before = candidates(targets.drop_last());
    let params = shown_params(targets[at])->Some_0;
    if at < targets.len() - 1 {
        each_target_is_a_candidate(targets.drop_last(), at);
        let k = choose|k: int| 0 <= k < before.len() && before[k] == params;
        assert(candidates(targets)[k] == params);
    } else {
        assert(candidates(targets)[before.len() as int] == params);
    }
}

/// A day that is said to be missing is answered, and no other is.
pub proof fn missing_days_are_answered_and_no_others(
    days: Seq<DayView>,
    missing: Seq<CalendarDate>,
    at: int,
)
    requires
        0 <= at < days.len(),
    ensures
        missing.contains(days[at].date) ==> missing_json(days, missing).contains(
            missing_day_json(days[at]),
        ),
        forall|k: int|
            0 <= k < missing_json(days, missing).len() ==> exists|i: int|
                0 <= i < days.len() && missing.contains((#[trigger] days[i]).date)
                    && #[trigger] missing_json(days, missing)[k] == missing_day_json(days[i]),
    decreases days.len(),
{
    let front = days.drop_last();
    let before = missing_json(front, missing);
    let all = missing_json(days, missing);
    let last = days.len() - 1;
    assert(days[last] == days.last());
    if at < last {
        missing_days_are_answered_and_no_others(front, missing, at);
        assert(front[at] == days[at]);
        if missing.contains(days[at].date) {
            let k = choose|k: int| 0 <= k < before.len() && before[k] == missing_day_json(days[at]);
            assert(all[k] == missing_day_json(days[at]));
        }
    } else {
        if front.len() > 0 {
            missing_days_are_answered_and_no_others(front, missing, 0);
        }
        if missing.contains(days[at].date) {
            assert(all[before.len() as int] == missing_day_json(days[at]));
        }
    }
    assert forall|k: int| 0 <= k < all.len() implies exists|i: int|
        0 <= i < days.len() && missing.contains((#[trigger] days[i]).date) && #[trigger] all[k]
            == missing_day_json(days[i]) by {
        if k < before.len() {
            assert(all[k] == before[k]);
            let i = choose|i: int|
                0 <= i < front.len() && missing.contains((#[trigger] front[i]).date) && before[k]
                    == missing_day_json(front[i]);
            assert(days[i] == front[i]);
        } else {
            assert(all[k] == missing_day_json(days[last]));
        }
    }
}

/// The answer for a day of a range is about that day and its own write.
pub proof fn a_day_of_a_range_says_what_became_of_it(
    dates: Seq<CalendarDate>,
    previews: Seq<PreviewView>,
    at: int,
)
    requires
        0 <= at < dates.len(),
        0 <= at < previews.len(),
    ensures
        fill_results(dates, previews).len() == (if dates.len() < previews.len() {
            dates.len()
        } else {
            previews.len()
        }),
        says(fill_results(dates, previews)[at], "date"@, Json::Text(iso_text(dates[at]))),
        says(fill_results(dates, previews)[at], "executed"@, Json::Bool(previews[at].executed)),
        says(fill_results(dates, previews)[at], "summary"@, Json::Text(previews[at].summary)),
        says(short_fill_results(dates, previews)[at], "date"@, Json::Text(iso_text(dates[at]))),
        says(
            short_fill_results(dates, previews)[at],
            "executed"@,
            Json::Bool(previews[at].executed),
        ),
{
    let long = fill_results(dates, previews)[at];
    said(long, 1);
    said(long, 2);
    said(long, 7);
    let short = short_fill_results(dates, previews)[at];
    said(short, 0);
    said(short, 1);
}

/// What is suggested says what it is, how many days it is about, and which.
pub proof fn a_suggestion_says_what_it_is_about(plan: PlanView)
    ensures
        plan matches PlanView::FixErrors { month, count, fixable_targets } ==> says(
            tagged_json(plan),
            "kind"@,
            Json::Text("fix_errors"@),
        ) && says(tagged_json(plan), "month"@, Json::Text(month_text(month))) && says(
            tagged_json(plan),
            "count"@,
            Json::Number(Some(count as nat), decimal(count as nat)),
        ),
        plan matches PlanView::FillMissing { from, to, count } ==> says(
            tagged_json(plan),
            "kind"@,
            Json::Text("fill_missing"@),
        ) && says(tagged_json(plan), "from"@, Json::Text(iso_text(from))) && says(
            tagged_json(plan),
            "to"@,
            Json::Text(iso_text(to)),
        ) && says(
            tagged_json(plan),
            "count"@,
            Json::Number(Some(count as nat), decimal(count as nat)),
        ),
        says(tagged_json(plan), "safety"@, Json::Text("dry_run_default"@)),
{
    let object = tagged_json(plan);
    said(object, 0);
    said(object, 2);
    said(object, 3);
    said(object, 4);
    said(object, 5);
}

/// A day with an error is answered in short with its date and its words.
pub proof fn an_error_says_the_same_in_short(entry: ErrorDayView)
    ensures
        says(short_error_json(entry), "date"@, Json::Text(iso_text(entry.day.date))),
        says(short_error_json(entry), "day"@, Json::Text(entry.day.day_name)),
        says(short_error_json(entry), "error_message"@, text_or_null(entry.day.error_message)),
        entry.fix_targets.len() == 0 ==> says(short_error_json(entry), "fix_params"@, Json::Null),
        entry.fix_targets.len() > 0 ==> says(
            short_error_json(entry),
            "fix_params"@,
            opt_params_json(shown_params(entry.fix_targets[entry.fix_targets.len() - 1])),
        ),
{
    let object = short_error_json(entry);
    said(object, 0);
    said(object, 1);
    said(object, 2);
    said(object, 3);
}

/// What is suggested says the same where what it is about stands apart.
pub proof fn a_suggestion_says_the_same_apart(plan: PlanView)
    ensures
        plan is FixErrors ==> says(nested_json(plan), "kind"@, Json::Text("fix_errors"@)),
        plan is FillMissing ==> says(nested_json(plan), "kind"@, Json::Text("fill_missing"@)),
        says(nested_json(plan), "params"@, Json::Object(action_members(plan))),
        says(nested_json(plan), "safety"@, Json::Text("dry_run_default"@)),
{
    let object = nested_json(plan);
    said(object, 0);
    said(object, 2);
    said(object, 3);
}

/// A report is answered with its name, its headers and its rows, in order.
pub proof fn a_report_says_its_rows(table: ReportTable)
    ensures
        says(table_json(table), "name"@, Json::Text(table.name@)),
        says(table_json(table), "headers"@, json_texts(texts(table.headers@))),
        says(
            table_json(table),
            "rows"@,
            Json::Array(
                row_texts(table.rows@).map_values(|row: Seq<Seq<char>>| json_texts(row)),
            ),
        ),
{
    let object = table_json(table);
    said(object, 0);
    said(object, 1);
    said(object, 2);
}

/// Texts are answered one for one, in order.
pub proof fn texts_are_answered_in_order(list: Seq<Seq<char>>, at: int)
    requires
        0 <= at < list.len(),
    ensures
        json_texts(list) matches Json::Array(items) && items.len() == list.len() && items[at]
            == Json::Text(list[at]),
{
}

/// The days of a month are answered one for one, in order, in full and in
/// short.
pub proof fn days_are_answered_in_order(
    month: CalendarDate,
    employee: Seq<char>,
    days: Seq<DayView>,
    at: int,
)
    requires
        0 <= at < days.len(),
    ensures
        days_json(days) matches Json::Array(items) && items.len() == days.len() && items[at]
            == day_json(days[at]),
        says(short_status_json(month, employee, days), "month"@, Json::Text(month_text(month))),
        says(short_status_json(month, employee, days), "employee_id"@, Json::Text(employee)),
        says(
            short_status_json(month, employee, days),
            "days"@,
            Json::Array(days.map_values(|day: DayView| short_day_json(day))),
        ),
{
    let object = short_status_json(month, employee, days);
    said(object, 0);
    said(object, 1);
    said(object, 2);
}

/// An overview in short says who is signed in, the month, its numbers and its
/// kinds.
pub proof fn an_overview_says_its_parts_in_short(overview: OverviewData)
    ensures
        says(short_overview_json(overview), "user"@, user_json(overview.identity)),
        says(short_overview_json(overview), "month"@, Json::Text(month_text(overview.month@))),
        says(short_overview_json(overview), "summary"@, summary_json(overview.summary)),
        says(
            short_overview_json(overview),
            "attendance_types"@,
            types_json(type_views(overview.attendance_types@)),
        ),
{
    let object = short_overview_json(overview);
    said(object, 0);
    said(object, 1);
    said(object, 2);
    said(object, 3);
}

/// What can be fixed is answered with its date, its report and its kind of
/// error.
pub proof fn each_fixable_target_is_answered(targets: Seq<TargetView>, at: int)
    requires
        0 <= at < targets.len(),
        shown_params(targets[at]) is Some,
    ensures
        exists|k: int|
            0 <= k < fixable_json(targets).len() && says(
                #[trigger] fixable_json(targets)[k],
                "date"@,
                Json::Text(iso_text(targets[at].date)),
            ) && says(
                fixable_json(targets)[k],
                "report_id"@,
                Json::Text(shown_params(targets[at])->Some_0.0),
            ) && says(
                fixable_json(targets)[k],
                "error_type"@,
                Json::Text(shown_params(targets[at])->Some_0.1),
            ),
    decreases targets.len(),
{
    let front = targets.drop_last();
    let before = fixable_json(front);
    let all = fixable_json(targets);
    let params = shown_params(targets[at])->Some_0;
    if at < targets.len() - 1 {
        assert(front[at] == targets[at]);
        each_fixable_target_is_answered(front, at);
        let k = choose|k: int|
            0 <= k < before.len() && says(
                #[trigger] before[k],
                "date"@,
                Json::Text(iso_text(targets[at].date)),
            ) && says(before[k], "report_id"@, Json::Text(params.0)) && says(
                before[k],
                "error_type"@,
                Json::Text(params.1),
            );
        assert(all[k] == before[k]);
    } else {
        let own = all[before.len() as int];
        said(own, 0);
        said(own, 1);
        said(own, 2);
    }
}

/// The output of a command says what a provider's write does, and whether it
/// was carried out; what the provider does not tell is left out.
pub proof fn a_command_says_what_a_providers_write_does(action: Seq<char>, preview: PreviewView)
    ensures
        ({
            let object = Json::Object(provider_write_members(action, preview));
            &&& says(object, "action"@, Json::Text(action))
            &&& says(
                object,
                "mode"@,
                Json::Text(
                    if preview.executed {
                        "executed"@
                    } else {
                        "dry_run"@
                    },
                ),
            )
            &&& says(object, "executed"@, Json::Bool(preview.executed))
            &&& says(object, "summary"@, Json::Text(preview.summary))
            &&& (debug_text(preview.provider_debug, "url"@) matches Some(url) ==> says(
                object,
                "url"@,
                Json::Text(url),
            ))
        }),
{
    let object = Json::Object(provider_write_members(action, preview));
    said(object, 0);
    said(object, 1);
    said(object, 2);
    said(object, 3);
    if debug_text(preview.provider_debug, "url"@) is Some {
        said(object, 4);
    }
}

} // verus!
