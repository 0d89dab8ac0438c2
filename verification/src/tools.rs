//! What tools answer about writes over many days, salaries and payslips, and
//! the shorter answers about a month.

use crate::config::{base64_encoded, encode_base64};
use crate::date::{iso_text, month_text, CalendarDate, NaiveDate};
use crate::hr_core::{
    day_views, debug_text, type_views, CalendarDay, DayView, DocumentDownload, MonthCalendar,
    PreviewView, SalaryEntry, SalarySummary, WritePreview,
};
use crate::json::{
    json_number, json_opt_text, json_texts, value_models, Json, JsonValue, ObjectBuilder,
};
use crate::months::date_views;
use crate::requests::{or_default, FillParam};
use crate::responses::{
    error_fix_params_from_target, fill_result_json, nested_action_from_plan, nested_json,
    opt_params_json, opt_params_value, preview_members, shown_params, summary_json,
    summary_response, types_json, types_response, user_json, user_response,
};
use crate::text::{opt_text, texts};
use crate::use_cases::{
    chosen_target, error_day_views, filled_views, plan_views, skipped_views, AutoFillDayResult,
    AutoFillResult, AutoFillSummary, ErrorDayView, FilledView, OverviewData, OverviewErrorDay,
    PlanView, SkippedDay, SuggestedActionPlan,
};
use vstd::prelude::*;

verus! {

/// The views of a list of writes.
pub open spec fn preview_views(previews: Seq<WritePreview>) -> Seq<PreviewView> {
    previews.map_values(|preview: WritePreview| preview@)
}

// ---------------------------------------------------------------------------
// Ranges of days
// ---------------------------------------------------------------------------

/// What is answered about a range of days that was filled, with an answer for
/// each day.
pub open spec fn fill_json(param: FillParam, results: Seq<Json>) -> Json {
    Json::Object(
        seq![
            ("action"@, Json::Text("fill"@)),
            ("from"@, Json::Text(param.from@)),
            ("to"@, Json::Text(param.to@)),
            ("entry"@, Json::Text(param.entry@)),
            ("exit"@, Json::Text(param.exit@)),
            ("days_processed"@, json_number(results.len())),
            ("execute"@, Json::Bool(or_default(param.execute, false))),
            ("results"@, Json::Array(results)),
        ],
    )
}

fn fill_answer(param: &FillParam, results: Vec<JsonValue>) -> (value: JsonValue)
    ensures
        value.model() == fill_json(*param, value_models(results@)),
{
    let ghost models = value_models(results@);
    let mut object = ObjectBuilder::new();
    object.put_text("action", "fill");
    object.put_text("from", param.from.as_str());
    object.put_text("to", param.to.as_str());
    object.put_text("entry", param.entry.as_str());
    object.put_text("exit", param.exit.as_str());
    object.put_number("days_processed", results.len() as u64);
    object.put_bool(
        "execute",
        match param.execute {
            Some(execute) => execute,
            None => false,
        },
    );
    object.put("results", JsonValue::array(results));
    assert(object@ == fill_json(*param, models)->Object_0);
    object.build()
}

/// How many of two lists stand side by side.
pub open spec fn paired(dates: nat, previews: nat) -> nat {
    if dates < previews {
        dates
    } else {
        previews
    }
}

/// What is answered about each day of a range: all that is known of its write.
pub open spec fn fill_results(dates: Seq<CalendarDate>, previews: Seq<PreviewView>) -> Seq<Json> {
    Seq::new(
        paired(dates.len(), previews.len()),
        |i: int|
            Json::Object(
                preview_members("fill_day"@, previews[i]).push(
                    ("date"@, Json::Text(iso_text(dates[i]))),
                ),
            ),
    )
}

/// Answers about a range of days that was filled.
pub fn fill_response(
    param: &FillParam,
    dates: &Vec<NaiveDate>,
    previews: &Vec<WritePreview>,
) -> (value: JsonValue)
    ensures
        value.model() == fill_json(
            *param,
            fill_results(date_views(dates@), preview_views(previews@)),
        ),
{
    let ghost goal = fill_results(date_views(dates@), preview_views(previews@));
    let mut values: Vec<JsonValue> = Vec::new();
    let mut i: usize = 0;
    while i < dates.len() && i < previews.len()
        invariant
            i <= dates.len(),
            i <= previews.len(),
            goal == fill_results(date_views(dates@), preview_views(previews@)),
            values.len() == i,
            forall|j: int| 0 <= j < i ==> (#[trigger] values@[j]).model() == goal[j],
        decreases dates.len() - i,
    {
        values.push(fill_result_json(dates[i], &previews[i]));
        i = i + 1;
    }
    assert(value_models(values@) == goal);
    fill_answer(param, values)
}

/// What is answered in short about each day of a range.
pub open spec fn short_fill_results(
    dates: Seq<CalendarDate>,
    previews: Seq<PreviewView>,
) -> Seq<Json> {
    Seq::new(
        paired(dates.len(), previews.len()),
        |i: int|
            Json::Object(
                seq![
                    ("date"@, Json::Text(iso_text(dates[i]))),
                    ("executed"@, Json::Bool(previews[i].executed)),
                    (
                        "employee_id"@,
                        json_opt_text(debug_text(previews[i].provider_debug, "employee_id"@)),
                    ),
                ],
            ),
    )
}

/// Answers in short about a range of days that was filled.
pub fn short_fill_response(
    param: &FillParam,
    dates: &Vec<NaiveDate>,
    previews: &Vec<WritePreview>,
) -> (value: JsonValue)
    ensures
        value.model() == fill_json(
            *param,
            short_fill_results(date_views(dates@), preview_views(previews@)),
        ),
{
    let ghost goal = short_fill_results(date_views(dates@), preview_views(previews@));
    let mut values: Vec<JsonValue> = Vec::new();
    let mut i: usize = 0;
    while i < dates.len() && i < previews.len()
        invariant
            i <= dates.len(),
            i <= previews.len(),
            goal == short_fill_results(date_views(dates@), preview_views(previews@)),
            values.len() == i,
            forall|j: int| 0 <= j < i ==> (#[trigger] values@[j]).model() == goal[j],
        decreases dates.len() - i,
    {
        let mut object = ObjectBuilder::new();
        object.put_text("date", dates[i].iso().as_str());
        object.put_bool("executed", previews[i].executed);
        let employee = match previews[i].debug_field("employee_id") {
            Some(employee) => JsonValue::text(employee),
            None => JsonValue::Null,
        };
        object.put("employee_id", employee);
        assert(object@ == goal[i as int]->Object_0);
        values.push(object.build());
        i = i + 1;
    }
    assert(value_models(values@) == goal);
    fill_answer(param, values)
}

// ---------------------------------------------------------------------------
// Filled months
// ---------------------------------------------------------------------------

/// A day that was filled, or would be, in an answer.
pub open spec fn filled_json(day: FilledView) -> Json {
    Json::Object(
        seq![
            ("date"@, Json::Text(day.date)),
            ("attendance_type"@, Json::Text(day.attendance_type)),
            ("hours"@, json_opt_text(day.hours)),
            ("status"@, Json::Text(day.status)),
            ("error"@, json_opt_text(day.error)),
        ],
    )
}

/// A day that was left, in an answer.
pub open spec fn skipped_json(day: (Seq<char>, Seq<char>)) -> Json {
    Json::Object(seq![("date"@, Json::Text(day.0)), ("reason"@, Json::Text(day.1))])
}

/// The numbers of a filled month in an answer.
pub open spec fn fill_summary_json(summary: AutoFillSummary) -> Json {
    Json::Object(
        seq![
            ("total_candidates"@, json_number(summary.total_candidates as nat)),
            ("filled"@, json_number(summary.filled as nat)),
            ("skipped"@, json_number(summary.skipped as nat)),
            ("failed"@, json_number(summary.failed as nat)),
        ],
    )
}

/// What became of the days of a month, in an answer.
pub open spec fn auto_fill_json(result: AutoFillResult) -> Json {
    Json::Object(
        seq![
            ("month"@, Json::Text(result.month@)),
            ("mode"@, Json::Text(result.mode@)),
            ("attendance_type"@, Json::Text(result.attendance_type@)),
            (
                "filled"@,
                Json::Array(
                    filled_views(result.filled@).map_values(|day: FilledView| filled_json(day)),
                ),
            ),
            (
                "skipped"@,
                Json::Array(
                    skipped_views(result.skipped@).map_values(
                        |day: (Seq<char>, Seq<char>)| skipped_json(day),
                    ),
                ),
            ),
            ("summary"@, fill_summary_json(result.summary)),
        ],
    )
}

fn filled_answer(days: &Vec<AutoFillDayResult>) -> (values: Vec<JsonValue>)
    ensures
        value_models(values@) == filled_views(days@).map_values(
            |day: FilledView| filled_json(day),
        ),
{
    let ghost all = filled_views(days@);
    let mut values: Vec<JsonValue> = Vec::new();
    let mut i: usize = 0;
    while i < days.len()
        invariant
            i <= days.len(),
            all == filled_views(days@),
            values.len() == i,
            forall|j: int| 0 <= j < i ==> (#[trigger] values@[j]).model() == filled_json(all[j]),
        decreases days.len() - i,
    {
        let mut object = ObjectBuilder::new();
        object.put_text("date", days[i].date.as_str());
        object.put_text("attendance_type", days[i].attendance_type.as_str());
        object.put_opt_text("hours", &days[i].hours);
        object.put_text("status", days[i].status.as_str());
        object.put_opt_text("error", &days[i].error);
        assert(object@ == filled_json(all[i as int])->Object_0);
        values.push(object.build());
        i = i + 1;
    }
    assert(value_models(values@) == all.map_values(|day: FilledView| filled_json(day)));
    values
}

fn skipped_answer(days: &Vec<SkippedDay>) -> (values: Vec<JsonValue>)
    ensures
        value_models(values@) == skipped_views(days@).map_values(
            |day: (Seq<char>, Seq<char>)| skipped_json(day),
        ),
{
    let ghost all = skipped_views(days@);
    let mut values: Vec<JsonValue> = Vec::new();
    let mut i: usize = 0;
    while i < days.len()
        invariant
            i <= days.len(),
            all == skipped_views(days@),
            values.len() == i,
            forall|j: int| 0 <= j < i ==> (#[trigger] values@[j]).model() == skipped_json(all[j]),
        decreases days.len() - i,
    {
        let mut object = ObjectBuilder::new();
        object.put_text("date", days[i].date.as_str());
        object.put_text("reason", days[i].reason.as_str());
        assert(object@ == skipped_json(all[i as int])->Object_0);
        values.push(object.build());
        i = i + 1;
    }
    assert(value_models(values@) == all.map_values(
        |day: (Seq<char>, Seq<char>)| skipped_json(day),
    ));
    values
}

/// Answers with what became of the days of a month.
pub fn auto_fill_response(result: &AutoFillResult) -> (value: JsonValue)
    ensures
        value.model() == auto_fill_json(*result),
{
    let mut summary = ObjectBuilder::new();
    summary.put_number("total_candidates", result.summary.total_candidates as u64);
    summary.put_number("filled", result.summary.filled as u64);
    summary.put_number("skipped", result.summary.skipped as u64);
    summary.put_number("failed", result.summary.failed as u64);
    assert(summary@ == fill_summary_json(result.summary)->Object_0);
    let mut object = ObjectBuilder::new();
    object.put_text("month", result.month.as_str());
    object.put_text("mode", result.mode.as_str());
    object.put_text("attendance_type", result.attendance_type.as_str());
    object.put("filled", JsonValue::array(filled_answer(&result.filled)));
    object.put("skipped", JsonValue::array(skipped_answer(&result.skipped)));
    object.put("summary", summary.build());
    assert(object@ == auto_fill_json(*result)->Object_0);
    object.build()
}

// ---------------------------------------------------------------------------
// Salaries and payslips
// ---------------------------------------------------------------------------

/// A month's salary in an answer, the month by its first day or like `2026-04`.
pub open spec fn salary_json(entry: SalaryEntry, by_day: bool) -> Json {
    Json::Object(
        seq![
            (
                "month"@,
                Json::Text(
                    if by_day {
                        iso_text(entry.month@)
                    } else {
                        month_text(entry.month@)
                    },
                ),
            ),
            ("amount"@, json_number(entry.amount as nat)),
        ],
    )
}

/// Answers with salaries; `percent_diff` is the change over the latest month.
pub fn salary_response(
    summary: &SalarySummary,
    percent_diff: JsonValue,
    by_day: bool,
) -> (value: JsonValue)
    ensures
        value.model() == Json::Object(
            seq![
                ("label"@, Json::Text(summary.label@)),
                (
                    "entries"@,
                    Json::Array(
                        summary.entries@.map_values(
                            |entry: SalaryEntry| salary_json(entry, by_day),
                        ),
                    ),
                ),
                ("percent_diff"@, percent_diff.model()),
            ],
        ),
{
    let ghost goal = summary.entries@.map_values(|entry: SalaryEntry| salary_json(entry, by_day));
    let ghost percent = percent_diff.model();
    let mut values: Vec<JsonValue> = Vec::new();
    let mut i: usize = 0;
    while i < summary.entries.len()
        invariant
            i <= summary.entries.len(),
            goal == summary.entries@.map_values(|entry: SalaryEntry| salary_json(entry, by_day)),
            values.len() == i,
            forall|j: int| 0 <= j < i ==> (#[trigger] values@[j]).model() == goal[j],
        decreases summary.entries.len() - i,
    {
        let entry = summary.entries[i];
        let month = if by_day {
            entry.month.iso()
        } else {
            entry.month.year_month()
        };
        let mut object = ObjectBuilder::new();
        object.put_text("month", month.as_str());
        object.put_number("amount", entry.amount);
        assert(object@ == goal[i as int]->Object_0);
        values.push(object.build());
        i = i + 1;
    }
    assert(value_models(values@) == goal);
    let mut object = ObjectBuilder::new();
    object.put_text("label", summary.label.as_str());
    object.put("entries", JsonValue::array(values));
    object.put("percent_diff", percent_diff);
    assert(object@ == seq![
        ("label"@, Json::Text(summary.label@)),
        ("entries"@, Json::Array(goal)),
        ("percent_diff"@, percent),
    ]);
    object.build()
}

/// The first members of an answer with a payslip.
pub open spec fn payslip_members(month: CalendarDate, size: nat) -> Seq<(Seq<char>, Json)> {
    seq![
        ("month"@, Json::Text(month_text(month))),
        ("mime_type"@, Json::Text("application/pdf"@)),
        ("password_protected"@, Json::Bool(true)),
        ("size_bytes"@, json_number(size)),
    ]
}

fn put_payslip(month: NaiveDate, size: usize) -> (object: ObjectBuilder)
    ensures
        object@ == payslip_members(month@, size as nat),
{
    let mut object = ObjectBuilder::new();
    object.put_text("month", month.year_month().as_str());
    object.put_text("mime_type", "application/pdf");
    object.put_bool("password_protected", true);
    object.put_number("size_bytes", size as u64);
    assert(object@ == payslip_members(month@, size as nat));
    object
}

/// Answers with a payslip that was stored.
pub fn payslip_file_response(download: &DocumentDownload) -> (value: JsonValue)
    ensures
        value.model() == Json::Object(
            payslip_members(download.month@, download.size_bytes as nat).push(
                ("path"@, Json::Text(download.path@)),
            ),
        ),
{
    let mut object = put_payslip(download.month, download.size_bytes);
    object.put_text("path", download.path.as_str());
    object.build()
}

/// Answers with a payslip itself, and with where it was stored too.
pub fn payslip_bytes_response(
    month: NaiveDate,
    bytes: &Vec<u8>,
    path: &Option<String>,
) -> (value: JsonValue)
    ensures
        value.model() == Json::Object(
            payslip_members(month@, bytes@.len()).push(
                ("path"@, json_opt_text(opt_text(*path))),
            ).push(("bytes_base64"@, Json::Text(base64_encoded(bytes@)))),
        ),
{
    let mut object = put_payslip(month, bytes.len());
    object.put_opt_text("path", path);
    object.put_text("bytes_base64", encode_base64(bytes).as_str());
    object.build()
}

/// Answers a command with a payslip that was stored.
pub fn download_response(download: &DocumentDownload) -> (value: JsonValue)
    ensures
        value.model() == Json::Object(
            seq![
                ("month"@, Json::Text(iso_text(download.month@))),
                ("path"@, Json::Text(download.path@)),
                ("size_bytes"@, json_number(download.size_bytes as nat)),
            ],
        ),
{
    let mut object = ObjectBuilder::new();
    object.put_text("month", download.month.iso().as_str());
    object.put_text("path", download.path.as_str());
    object.put_number("size_bytes", download.size_bytes as u64);
    assert(object@ == seq![
        ("month"@, Json::Text(iso_text(download.month@))),
        ("path"@, Json::Text(download.path@)),
        ("size_bytes"@, json_number(download.size_bytes as nat)),
    ]);
    object.build()
}

// ---------------------------------------------------------------------------
// Short answers about a month
// ---------------------------------------------------------------------------

/// A day in a short answer.
pub open spec fn short_day_json(day: DayView) -> Json {
    Json::Object(
        seq![
            ("date"@, Json::Text(iso_text(day.date))),
            ("day"@, Json::Text(day.day_name)),
            ("entry"@, json_opt_text(day.entry_time)),
            ("exit"@, json_opt_text(day.exit_time)),
            ("type"@, json_opt_text(day.attendance_type)),
            ("hours"@, json_opt_text(day.total_hours)),
            ("error"@, Json::Bool(day.has_error)),
            ("error_message"@, json_opt_text(day.error_message)),
        ],
    )
}

/// A month in a short answer.
pub open spec fn short_status_json(
    month: CalendarDate,
    employee: Seq<char>,
    days: Seq<DayView>,
) -> Json {
    Json::Object(
        seq![
            ("month"@, Json::Text(month_text(month))),
            ("employee_id"@, Json::Text(employee)),
            ("days"@, Json::Array(days.map_values(|day: DayView| short_day_json(day)))),
        ],
    )
}

fn short_day(day: &CalendarDay) -> (value: JsonValue)
    ensures
        value.model() == short_day_json(day@),
{
    let mut object = ObjectBuilder::new();
    object.put_text("date", day.date.iso().as_str());
    object.put_text("day", day.day_name.as_str());
    object.put_opt_text("entry", &day.entry_time);
    object.put_opt_text("exit", &day.exit_time);
    object.put_opt_text("type", &day.attendance_type);
    object.put_opt_text("hours", &day.total_hours);
    object.put_bool("error", day.has_error);
    object.put_opt_text("error_message", &day.error_message);
    assert(object@ == short_day_json(day@)->Object_0);
    object.build()
}

/// Answers in short with a month.
pub fn short_status_response(calendar: &MonthCalendar) -> (value: JsonValue)
    ensures
        value.model() == short_status_json(
            calendar.month@,
            calendar.employee_id@,
            day_views(calendar.days@),
        ),
{
    let ghost all = day_views(calendar.days@);
    let mut values: Vec<JsonValue> = Vec::new();
    let mut i: usize = 0;
    while i < calendar.days.len()
        invariant
            i <= calendar.days.len(),
            all == day_views(calendar.days@),
            values.len() == i,
            forall|j: int| 0 <= j < i ==> (#[trigger] values@[j]).model() == short_day_json(all[j]),
        decreases calendar.days.len() - i,
    {
        values.push(short_day(&calendar.days[i]));
        i = i + 1;
    }
    assert(value_models(values@) == all.map_values(|day: DayView| short_day_json(day)));
    let mut object = ObjectBuilder::new();
    object.put_text("month", calendar.month.year_month().as_str());
    object.put_text("employee_id", calendar.employee_id.as_str());
    object.put("days", JsonValue::array(values));
    assert(object@ == short_status_json(calendar.month@, calendar.employee_id@, all)->Object_0);
    object.build()
}

/// A day with an error in a short answer, fixed by its last target.
pub open spec fn short_error_json(entry: ErrorDayView) -> Json {
    Json::Object(
        seq![
            ("date"@, Json::Text(iso_text(entry.day.date))),
            ("day"@, Json::Text(entry.day.day_name)),
            ("error_message"@, json_opt_text(entry.day.error_message)),
            (
                "fix_params"@,
                opt_params_json(
                    match chosen_target(entry) {
                        Some(target) => shown_params(target),
                        None => None,
                    },
                ),
            ),
        ],
    )
}

/// Days with errors in a short answer.
pub open spec fn short_errors(days: Seq<ErrorDayView>) -> Seq<Json> {
    days.map_values(|entry: ErrorDayView| short_error_json(entry))
}

fn short_error_values(days: &Vec<OverviewErrorDay>) -> (values: Vec<JsonValue>)
    ensures
        value_models(values@) == short_errors(error_day_views(days@)),
{
    let ghost all = error_day_views(days@);
    let mut values: Vec<JsonValue> = Vec::new();
    let mut i: usize = 0;
    while i < days.len()
        invariant
            i <= days.len(),
            all == error_day_views(days@),
            values.len() == i,
            forall|j: int| 0 <= j < i ==> (#[trigger] values@[j]).model() == short_error_json(all[j]),
        decreases days.len() - i,
    {
        assert(all[i as int] == days@[i as int]@);
        let params = match days[i].fix_target() {
            Some(target) => error_fix_params_from_target(target),
            None => None,
        };
        let mut object = ObjectBuilder::new();
        object.put_text("date", days[i].day.date.iso().as_str());
        object.put_text("day", days[i].day.day_name.as_str());
        object.put_opt_text("error_message", &days[i].day.error_message);
        object.put("fix_params", opt_params_value(&params));
        assert(object@ == short_error_json(all[i as int])->Object_0);
        values.push(object.build());
        i = i + 1;
    }
    assert(value_models(values@) == short_errors(all));
    values
}

/// Answers in short with the errors of a month.
pub fn short_errors_response(overview: &OverviewData) -> (value: JsonValue)
    ensures
        value.model() == Json::Object(
            seq![
                ("month"@, Json::Text(month_text(overview.month@))),
                ("employee_id"@, Json::Text(overview.calendar.employee_id@)),
                ("error_count"@, json_number(overview.error_days@.len())),
                ("errors"@, Json::Array(short_errors(error_day_views(overview.error_days@)))),
            ],
        ),
{
    let mut object = ObjectBuilder::new();
    object.put_text("month", overview.month.year_month().as_str());
    object.put_text("employee_id", overview.calendar.employee_id.as_str());
    object.put_number("error_count", overview.error_days.len() as u64);
    object.put("errors", JsonValue::array(short_error_values(&overview.error_days)));
    assert(object@ == seq![
        ("month"@, Json::Text(month_text(overview.month@))),
        ("employee_id"@, Json::Text(overview.calendar.employee_id@)),
        ("error_count"@, json_number(overview.error_days@.len())),
        ("errors"@, Json::Array(short_errors(error_day_views(overview.error_days@)))),
    ]);
    object.build()
}

/// The overview of a month in a short answer.
pub open spec fn short_overview_json(overview: OverviewData) -> Json {
    Json::Object(
        seq![
            ("user"@, user_json(overview.identity)),
            ("month"@, Json::Text(month_text(overview.month@))),
            ("summary"@, summary_json(overview.summary)),
            ("attendance_types"@, types_json(type_views(overview.attendance_types@))),
            ("error_days"@, Json::Array(short_errors(error_day_views(overview.error_days@)))),
            (
                "missing_days"@,
                json_texts(
                    date_views(overview.missing_days@).map_values(
                        |date: CalendarDate| iso_text(date),
                    ),
                ),
            ),
            (
                "suggested_actions"@,
                Json::Array(
                    plan_views(overview.suggested_actions@).map_values(
                        |plan: PlanView| nested_json(plan),
                    ),
                ),
            ),
        ],
    )
}

fn iso_dates(dates: &Vec<NaiveDate>) -> (written: Vec<String>)
    ensures
        texts(written@) == date_views(dates@).map_values(|date: CalendarDate| iso_text(date)),
{
    let ghost all = date_views(dates@);
    let mut written: Vec<String> = Vec::new();
    let mut i: usize = 0;
    while i < dates.len()
        invariant
            i <= dates.len(),
            all == date_views(dates@),
            written.len() == i,
            forall|j: int| 0 <= j < i ==> (#[trigger] written@[j])@ == iso_text(all[j]),
        decreases dates.len() - i,
    {
        written.push(dates[i].iso());
        i = i + 1;
    }
    assert(texts(written@) == all.map_values(|date: CalendarDate| iso_text(date)));
    written
}

fn nested_actions(plans: &Vec<SuggestedActionPlan>) -> (values: Vec<JsonValue>)
    ensures
        value_models(values@) == plan_views(plans@).map_values(|plan: PlanView| nested_json(plan)),
{
    let ghost all = plan_views(plans@);
    let mut values: Vec<JsonValue> = Vec::new();
    let mut i: usize = 0;
    while i < plans.len()
        invariant
            i <= plans.len(),
            all == plan_views(plans@),
            values.len() == i,
            forall|j: int| 0 <= j < i ==> (#[trigger] values@[j]).model() == nested_json(all[j]),
        decreases plans.len() - i,
    {
        values.push(nested_action_from_plan(&plans[i]));
        i = i + 1;
    }
    assert(value_models(values@) == all.map_values(|plan: PlanView| nested_json(plan)));
    values
}

/// Answers in short with the overview of a month.
pub fn short_overview_response(overview: &OverviewData) -> (value: JsonValue)
    ensures
        value.model() == short_overview_json(*overview),
{
    let missing = iso_dates(&overview.missing_days);
    let mut object = ObjectBuilder::new();
    object.put("user", user_response(&overview.identity));
    object.put_text("month", overview.month.year_month().as_str());
    object.put("summary", summary_response(&overview.summary));
    object.put("attendance_types", types_response(&overview.attendance_types));
    object.put("error_days", JsonValue::array(short_error_values(&overview.error_days)));
    object.put("missing_days", JsonValue::text_array(&missing));
    object.put("suggested_actions", JsonValue::array(nested_actions(&overview.suggested_actions)));
    assert(object@ == short_overview_json(*overview)->Object_0);
    object.build()
}

} // verus!
