//! What is answered in JSON: the calendar, the errors and the overview of a
//! month, reports and writes.

use crate::api::{symbol_views, SymbolView};
use crate::date::{iso_text, month_text, CalendarDate, NaiveDate};
use crate::hr_core::{
    day_views, debug_text, row_texts, target_views, type_views, AbsenceSymbol, AttendanceSource,
    AttendanceType, CalendarDay, DayView, ErrorView, FixTarget, MonthCalendar, PreviewView,
    ProviderError, ReportTable, TargetView, TypeView, UserIdentity, WritePreview,
};
use crate::json::{
    json_number, json_opt_text, json_texts, value_models, Json, JsonValue, ObjectBuilder,
};
use crate::months::date_views;
use crate::render::{text_or, text_or_else};
use crate::submit::{ShownWrite, SubmitPreview};
use crate::text::{decimal, decimal_text, opt_str, split_once, split_once_at, texts};
use crate::use_cases::{
    error_day_views, plan_views, ErrorDayView, OverviewData, OverviewErrorDay,
    OverviewSummary, PlanView, SuggestedActionPlan,
};
use vstd::prelude::*;

verus! {

// ---------------------------------------------------------------------------
// Days
// ---------------------------------------------------------------------------

/// The name of a source in an answer.
pub open spec fn source_name(source: AttendanceSource) -> Seq<char> {
    match source {
        AttendanceSource::UserReported => "user_reported"@,
        AttendanceSource::SystemAutoFill => "system_auto_fill"@,
        AttendanceSource::Holiday => "holiday"@,
        AttendanceSource::Unreported => "unreported"@,
    }
}

/// A day in an answer.
pub open spec fn day_json(day: DayView) -> Json {
    Json::Object(
        seq![
            ("date"@, Json::Text(iso_text(day.date))),
            ("day_name"@, Json::Text(day.day_name)),
            ("has_error"@, Json::Bool(day.has_error)),
            ("error_message"@, json_opt_text(day.error_message)),
            ("entry_time"@, json_opt_text(day.entry_time)),
            ("exit_time"@, json_opt_text(day.exit_time)),
            ("attendance_type"@, json_opt_text(day.attendance_type)),
            ("total_hours"@, json_opt_text(day.total_hours)),
            ("source"@, Json::Text(source_name(day.source))),
        ],
    )
}

/// The days of an answer.
pub open spec fn days_json(days: Seq<DayView>) -> Json {
    Json::Array(days.map_values(|day: DayView| day_json(day)))
}

/// A month in an answer, which goes by the name `month`.
pub open spec fn calendar_json(month: Seq<char>, employee: Seq<char>, days: Seq<DayView>) -> Json {
    Json::Object(
        seq![
            ("month"@, Json::Text(month)),
            ("employee_id"@, Json::Text(employee)),
            ("days"@, days_json(days)),
        ],
    )
}

fn name_of_source(source: AttendanceSource) -> (name: &'static str)
    ensures
        name@ == source_name(source),
{
    match source {
        AttendanceSource::UserReported => "user_reported",
        AttendanceSource::SystemAutoFill => "system_auto_fill",
        AttendanceSource::Holiday => "holiday",
        AttendanceSource::Unreported => "unreported",
    }
}

/// Answers with a day.
pub fn day_response(day: &CalendarDay) -> (value: JsonValue)
    ensures
        value.model() == day_json(day@),
{
    let mut object = ObjectBuilder::new();
    object.put_text("date", day.date.iso().as_str());
    object.put_text("day_name", day.day_name.as_str());
    object.put_bool("has_error", day.has_error);
    object.put_opt_text("error_message", &day.error_message);
    object.put_opt_text("entry_time", &day.entry_time);
    object.put_opt_text("exit_time", &day.exit_time);
    object.put_opt_text("attendance_type", &day.attendance_type);
    object.put_opt_text("total_hours", &day.total_hours);
    object.put_text("source", name_of_source(day.source));
    assert(object@ == day_json(day@)->Object_0);
    object.build()
}

/// Answers with days.
pub fn days_response(days: &Vec<CalendarDay>) -> (value: JsonValue)
    ensures
        value.model() == days_json(day_views(days@)),
{
    let ghost all = day_views(days@);
    let mut values: Vec<JsonValue> = Vec::new();
    let mut i: usize = 0;
    while i < days.len()
        invariant
            i <= days.len(),
            all == day_views(days@),
            values.len() == i,
            forall|j: int| 0 <= j < i ==> (#[trigger] values@[j]).model() == day_json(all[j]),
        decreases days.len() - i,
    {
        values.push(day_response(&days[i]));
        i = i + 1;
    }
    assert(value_models(values@) == days_json(all)->Array_0);
    JsonValue::array(values)
}

fn month_response(month: &str, calendar: &MonthCalendar) -> (value: JsonValue)
    ensures
        value.model() == calendar_json(
            month@,
            calendar.employee_id@,
            day_views(calendar.days@),
        ),
{
    let mut object = ObjectBuilder::new();
    object.put_text("month", month);
    object.put_text("employee_id", calendar.employee_id.as_str());
    object.put("days", days_response(&calendar.days));
    assert(object@ == calendar_json(
        month@,
        calendar.employee_id@,
        day_views(calendar.days@),
    )->Object_0);
    object.build()
}

/// Answers with a month, named like `2026-04`.
pub fn build_status_response(calendar: &MonthCalendar) -> (value: JsonValue)
    ensures
        value.model() == calendar_json(
            month_text(calendar.month@),
            calendar.employee_id@,
            day_views(calendar.days@),
        ),
{
    month_response(calendar.month.year_month().as_str(), calendar)
}

/// Answers with a month, named by its first day.
pub fn build_calendar_response(calendar: &MonthCalendar) -> (value: JsonValue)
    ensures
        value.model() == calendar_json(
            iso_text(calendar.month@),
            calendar.employee_id@,
            day_views(calendar.days@),
        ),
{
    month_response(calendar.month.iso().as_str(), calendar)
}

// ---------------------------------------------------------------------------
// Days with errors
// ---------------------------------------------------------------------------

/// What a day with an error is fixed by.
#[derive(Debug, Clone, PartialEq, Eq)]
pub struct ErrorFixParams {
    pub report_id: String,
    pub error_type: String,
}

impl View for ErrorFixParams {
    type V = (Seq<char>, Seq<char>);

    open spec fn view(&self) -> (Seq<char>, Seq<char>) {
        (self.report_id@, self.error_type@)
    }
}

/// The views of a list of parameters.
pub open spec fn param_views(params: Seq<ErrorFixParams>) -> Seq<(Seq<char>, Seq<char>)> {
    params.map_values(|item: ErrorFixParams| item@)
}

/// The view of optional parameters.
pub open spec fn opt_params(params: Option<ErrorFixParams>) -> Option<(Seq<char>, Seq<char>)> {
    match params {
        Some(params) => Some(params@),
        None => None,
    }
}

/// A value of a target: from its data, else from its reference.
pub open spec fn target_value(
    target: TargetView,
    key: Seq<char>,
    part: Option<Seq<char>>,
) -> Option<Seq<char>> {
    if target.metadata.dom().contains(key) {
        Some(target.metadata[key])
    } else {
        part
    }
}

/// The report id and the error type of a target, each from its data, else from
/// its reference, `id:type`.
pub open spec fn shown_params(target: TargetView) -> Option<(Seq<char>, Seq<char>)> {
    let parts = split_once(target.provider_ref, ':');
    let report_id = target_value(
        target,
        "report_id"@,
        match parts {
            Some(parts) => Some(parts.0),
            None => None,
        },
    );
    let error_type = target_value(
        target,
        "error_type"@,
        match parts {
            Some(parts) => Some(parts.1),
            None => None,
        },
    );
    match (report_id, error_type) {
        (Some(report_id), Some(error_type)) => Some((report_id, error_type)),
        _ => None,
    }
}

/// The parameters of a target.
pub fn error_fix_params_from_target(target: &FixTarget) -> (params: Option<ErrorFixParams>)
    ensures
        opt_params(params) == shown_params(target@),
{
    let parts = split_once_at(target.provider_ref.as_str(), ':');
    let report_id = match target.metadata.get("report_id") {
        Some(value) => Some(value.clone()),
        None => match &parts {
            Some(parts) => Some(parts.0.clone()),
            None => None,
        },
    };
    let error_type = match target.metadata.get("error_type") {
        Some(value) => Some(value.clone()),
        None => match &parts {
            Some(parts) => Some(parts.1.clone()),
            None => None,
        },
    };
    match (report_id, error_type) {
        (Some(report_id), Some(error_type)) => Some(ErrorFixParams { report_id, error_type }),
        _ => None,
    }
}

/// The parameters of those targets that have any.
pub open spec fn candidates(targets: Seq<TargetView>) -> Seq<(Seq<char>, Seq<char>)>
    decreases targets.len(),
{
    if targets.len() == 0 {
        seq![]
    } else {
        let before = candidates(targets.drop_last());
        match shown_params(targets.last()) {
            Some(params) => before.push(params),
            None => before,
        }
    }
}

/// The parameters of those targets that have any.
pub fn error_fix_params_candidates(targets: &Vec<FixTarget>) -> (found: Vec<ErrorFixParams>)
    ensures
        param_views(found@) == candidates(target_views(targets@)),
{
    let ghost all = target_views(targets@);
    let mut found: Vec<ErrorFixParams> = Vec::new();
    let mut i: usize = 0;
    assert(param_views(found@) == candidates(all.take(0)));
    while i < targets.len()
        invariant
            i <= targets.len(),
            all == target_views(targets@),
            param_views(found@) == candidates(all.take(i as int)),
        decreases targets.len() - i,
    {
        assert(all.take(i + 1).drop_last() == all.take(i as int));
        assert(all.take(i + 1).last() == targets@[i as int]@);
        let ghost before = param_views(found@);
        match error_fix_params_from_target(&targets[i]) {
            Some(params) => {
                found.push(params);
                assert(param_views(found@) == before.push(params@));
            },
            None => {},
        }
        i = i + 1;
    }
    assert(all.take(all.len() as int) == all);
    found
}

/// A day with an error in an answer.
#[derive(Debug)]
pub struct ErrorDay {
    pub date: String,
    pub day_name: String,
    pub error_message: String,
    pub fix_params: Option<ErrorFixParams>,
    pub fix_params_candidates: Vec<ErrorFixParams>,
}

/// A day with an error in an answer, as mathematics.
pub struct ErrorEntry {
    pub date: Seq<char>,
    pub day_name: Seq<char>,
    pub error_message: Seq<char>,
    pub fix_params: Option<(Seq<char>, Seq<char>)>,
    pub fix_params_candidates: Seq<(Seq<char>, Seq<char>)>,
}

impl View for ErrorDay {
    type V = ErrorEntry;

    open spec fn view(&self) -> ErrorEntry {
        ErrorEntry {
            date: self.date@,
            day_name: self.day_name@,
            error_message: self.error_message@,
            fix_params: opt_params(self.fix_params),
            fix_params_candidates: param_views(self.fix_params_candidates@),
        }
    }
}

/// The views of a list of days with errors.
pub open spec fn entry_views(days: Seq<ErrorDay>) -> Seq<ErrorEntry> {
    days.map_values(|day: ErrorDay| day@)
}

/// A day with an error as it is answered: its parameters stand out only where
/// there is no choice between them.
pub open spec fn error_entry(entry: ErrorDayView) -> ErrorEntry {
    let found = candidates(entry.fix_targets);
    ErrorEntry {
        date: iso_text(entry.day.date),
        day_name: entry.day.day_name,
        error_message: text_or(entry.day.error_message, "missing report"@),
        fix_params: if found.len() == 1 {
            Some(found[0])
        } else {
            None
        },
        fix_params_candidates: found,
    }
}

/// Answers with a day with an error.
pub fn error_day_from_overview(entry: &OverviewErrorDay) -> (day: ErrorDay)
    ensures
        day@ == error_entry(entry@),
{
    let found = error_fix_params_candidates(&entry.fix_targets);
    assert(param_views(found@).len() == found.len());
    let fix_params = if found.len() == 1 {
        assert(param_views(found@)[0] == found@[0]@);
        Some(
            ErrorFixParams {
                report_id: found[0].report_id.clone(),
                error_type: found[0].error_type.clone(),
            },
        )
    } else {
        None
    };
    ErrorDay {
        date: entry.day.date.iso(),
        day_name: entry.day.day_name.clone(),
        error_message: text_or_else(&entry.day.error_message, "missing report").to_owned(),
        fix_params,
        fix_params_candidates: found,
    }
}

/// The errors of a month in an answer.
#[derive(Debug)]
pub struct ErrorsResponse {
    pub month: String,
    pub employee_id: String,
    pub error_count: usize,
    pub errors: Vec<ErrorDay>,
}

/// Answers with days with errors.
pub fn error_entries(days: &Vec<OverviewErrorDay>) -> (entries: Vec<ErrorDay>)
    ensures
        entry_views(entries@) == error_day_views(days@).map_values(
            |entry: ErrorDayView| error_entry(entry),
        ),
{
    let ghost all = error_day_views(days@);
    let mut entries: Vec<ErrorDay> = Vec::new();
    let mut i: usize = 0;
    while i < days.len()
        invariant
            i <= days.len(),
            all == error_day_views(days@),
            entries.len() == i,
            forall|j: int| 0 <= j < i ==> (#[trigger] entries@[j])@ == error_entry(all[j]),
        decreases days.len() - i,
    {
        entries.push(error_day_from_overview(&days[i]));
        i = i + 1;
    }
    assert(entry_views(entries@) == all.map_values(|entry: ErrorDayView| error_entry(entry)));
    entries
}

/// Answers with the errors of a month.
pub fn build_errors_response(overview: &OverviewData) -> (response: ErrorsResponse)
    ensures
        response.month@ == month_text(overview.month@),
        response.employee_id@ == overview.calendar.employee_id@,
        response.error_count == overview.error_days@.len(),
        entry_views(response.errors@) == error_day_views(overview.error_days@).map_values(
            |entry: ErrorDayView| error_entry(entry),
        ),
{
    ErrorsResponse {
        month: overview.month.year_month(),
        employee_id: overview.calendar.employee_id.clone(),
        error_count: overview.error_days.len(),
        errors: error_entries(&overview.error_days),
    }
}

/// Parameters in an answer.
pub open spec fn params_json(params: (Seq<char>, Seq<char>)) -> Json {
    Json::Object(
        seq![("report_id"@, Json::Text(params.0)), ("error_type"@, Json::Text(params.1))],
    )
}

/// Parameters or null.
pub open spec fn opt_params_json(params: Option<(Seq<char>, Seq<char>)>) -> Json {
    match params {
        Some(params) => params_json(params),
        None => Json::Null,
    }
}

/// A day with an error in JSON.
pub open spec fn entry_json(entry: ErrorEntry) -> Json {
    Json::Object(
        seq![
            ("date"@, Json::Text(entry.date)),
            ("day_name"@, Json::Text(entry.day_name)),
            ("error_message"@, Json::Text(entry.error_message)),
            ("fix_params"@, opt_params_json(entry.fix_params)),
            (
                "fix_params_candidates"@,
                Json::Array(
                    entry.fix_params_candidates.map_values(
                        |params: (Seq<char>, Seq<char>)| params_json(params),
                    ),
                ),
            ),
        ],
    )
}

/// Days with errors in JSON.
pub open spec fn entries_json(entries: Seq<ErrorEntry>) -> Json {
    Json::Array(entries.map_values(|entry: ErrorEntry| entry_json(entry)))
}

impl ErrorFixParams {
    /// The parameters in JSON.
    pub fn to_json(&self) -> (value: JsonValue)
        ensures
            value.model() == params_json(self@),
    {
        let mut object = ObjectBuilder::new();
        object.put_text("report_id", self.report_id.as_str());
        object.put_text("error_type", self.error_type.as_str());
        assert(object@ == params_json(self@)->Object_0);
        object.build()
    }
}

/// Optional parameters in JSON.
pub fn opt_params_value(params: &Option<ErrorFixParams>) -> (value: JsonValue)
    ensures
        value.model() == opt_params_json(opt_params(*params)),
{
    match params {
        Some(params) => params.to_json(),
        None => JsonValue::Null,
    }
}

impl ErrorDay {
    /// The day in JSON.
    pub fn to_json(&self) -> (value: JsonValue)
        ensures
            value.model() == entry_json(self@),
    {
        let ghost all = self@.fix_params_candidates;
        let mut values: Vec<JsonValue> = Vec::new();
        let mut i: usize = 0;
        while i < self.fix_params_candidates.len()
            invariant
                i <= self.fix_params_candidates.len(),
                all == param_views(self.fix_params_candidates@),
                values.len() == i,
                forall|j: int| 0 <= j < i ==> (#[trigger] values@[j]).model() == params_json(all[j]),
            decreases self.fix_params_candidates.len() - i,
        {
            values.push(self.fix_params_candidates[i].to_json());
            i = i + 1;
        }
        assert(value_models(values@) == all.map_values(
            |params: (Seq<char>, Seq<char>)| params_json(params),
        ));
        let mut object = ObjectBuilder::new();
        object.put_text("date", self.date.as_str());
        object.put_text("day_name", self.day_name.as_str());
        object.put_text("error_message", self.error_message.as_str());
        object.put("fix_params", opt_params_value(&self.fix_params));
        object.put("fix_params_candidates", JsonValue::array(values));
        assert(object@ == entry_json(self@)->Object_0);
        object.build()
    }
}

/// Days with errors in JSON.
pub fn entries_value(entries: &Vec<ErrorDay>) -> (value: JsonValue)
    ensures
        value.model() == entries_json(entry_views(entries@)),
{
    let ghost all = entry_views(entries@);
    let mut values: Vec<JsonValue> = Vec::new();
    let mut i: usize = 0;
    while i < entries.len()
        invariant
            i <= entries.len(),
            all == entry_views(entries@),
            values.len() == i,
            forall|j: int| 0 <= j < i ==> (#[trigger] values@[j]).model() == entry_json(all[j]),
        decreases entries.len() - i,
    {
        values.push(entries[i].to_json());
        i = i + 1;
    }
    assert(value_models(values@) == entries_json(all)->Array_0);
    JsonValue::array(values)
}

impl ErrorsResponse {
    /// The answer in JSON.
    pub fn to_json(&self) -> (value: JsonValue)
        ensures
            value.model() == Json::Object(
                seq![
                    ("month"@, Json::Text(self.month@)),
                    ("employee_id"@, Json::Text(self.employee_id@)),
                    ("error_count"@, json_number(self.error_count as nat)),
                    ("errors"@, entries_json(entry_views(self.errors@))),
                ],
            ),
    {
        let mut object = ObjectBuilder::new();
        object.put_text("month", self.month.as_str());
        object.put_text("employee_id", self.employee_id.as_str());
        object.put_number("error_count", self.error_count as u64);
        object.put("errors", entries_value(&self.errors));
        assert(object@ == seq![
            ("month"@, Json::Text(self.month@)),
            ("employee_id"@, Json::Text(self.employee_id@)),
            ("error_count"@, json_number(self.error_count as nat)),
            ("errors"@, entries_json(entry_views(self.errors@))),
        ]);
        object.build()
    }
}

// ---------------------------------------------------------------------------
// The overview of a month
// ---------------------------------------------------------------------------

/// A kind of attendance in an answer.
pub open spec fn type_json(item: TypeView) -> Json {
    Json::Object(
        seq![
            ("code"@, Json::Text(item.code)),
            ("name_he"@, Json::Text(item.name_he)),
            ("name_en"@, json_opt_text(item.name_en)),
        ],
    )
}

/// Kinds of attendance in an answer.
pub open spec fn types_json(types: Seq<TypeView>) -> Json {
    Json::Array(types.map_values(|item: TypeView| type_json(item)))
}

/// Answers with kinds of attendance.
pub fn types_response(types: &Vec<AttendanceType>) -> (value: JsonValue)
    ensures
        value.model() == types_json(type_views(types@)),
{
    let ghost all = type_views(types@);
    let mut values: Vec<JsonValue> = Vec::new();
    let mut i: usize = 0;
    while i < types.len()
        invariant
            i <= types.len(),
            all == type_views(types@),
            values.len() == i,
            forall|j: int| 0 <= j < i ==> (#[trigger] values@[j]).model() == type_json(all[j]),
        decreases types.len() - i,
    {
        let mut object = ObjectBuilder::new();
        object.put_text("code", types[i].code.as_str());
        object.put_text("name_he", types[i].name_he.as_str());
        object.put_opt_text("name_en", &types[i].name_en);
        assert(object@ == type_json(all[i as int])->Object_0);
        values.push(object.build());
        i = i + 1;
    }
    assert(value_models(values@) == types_json(all)->Array_0);
    JsonValue::array(values)
}

/// Who is signed in, in an answer.
pub open spec fn user_json(identity: UserIdentity) -> Json {
    Json::Object(
        seq![
            ("user_id"@, Json::Text(identity.user_id@)),
            ("employee_id"@, Json::Text(identity.employee_id@)),
            ("name"@, Json::Text(identity.display_name@)),
            ("is_manager"@, Json::Bool(identity.is_manager)),
        ],
    )
}

/// Answers with who is signed in.
pub fn user_response(identity: &UserIdentity) -> (value: JsonValue)
    ensures
        value.model() == user_json(*identity),
{
    let mut object = ObjectBuilder::new();
    object.put_text("user_id", identity.user_id.as_str());
    object.put_text("employee_id", identity.employee_id.as_str());
    object.put_text("name", identity.display_name.as_str());
    object.put_bool("is_manager", identity.is_manager);
    assert(object@ == user_json(*identity)->Object_0);
    object.build()
}

/// The numbers of a month in an answer.
pub open spec fn summary_json(summary: OverviewSummary) -> Json {
    Json::Object(
        seq![
            ("total_work_days"@, json_number(summary.total_work_days as nat)),
            ("reported"@, json_number(summary.reported as nat)),
            ("missing"@, json_number(summary.missing as nat)),
            ("errors"@, json_number(summary.errors as nat)),
        ],
    )
}

/// Answers with the numbers of a month.
pub fn summary_response(summary: &OverviewSummary) -> (value: JsonValue)
    ensures
        value.model() == summary_json(*summary),
{
    let mut object = ObjectBuilder::new();
    object.put_number("total_work_days", summary.total_work_days as u64);
    object.put_number("reported", summary.reported as u64);
    object.put_number("missing", summary.missing as u64);
    object.put_number("errors", summary.errors as u64);
    assert(object@ == summary_json(*summary)->Object_0);
    object.build()
}

/// A day without a report in an answer.
pub open spec fn missing_day_json(day: DayView) -> Json {
    Json::Object(
        seq![
            ("date"@, Json::Text(iso_text(day.date))),
            ("day_name"@, Json::Text(day.day_name)),
        ],
    )
}

/// The days of a calendar that are said to be missing, in an answer.
pub open spec fn missing_json(days: Seq<DayView>, missing: Seq<CalendarDate>) -> Seq<Json>
    decreases days.len(),
{
    if days.len() == 0 {
        seq![]
    } else {
        let before = missing_json(days.drop_last(), missing);
        if missing.contains(days.last().date) {
            before.push(missing_day_json(days.last()))
        } else {
            before
        }
    }
}

/// Every day of a calendar that is said to be missing is answered as such,
/// and no other day is.
pub proof fn missing_days_are_answered(days: Seq<DayView>, missing: Seq<CalendarDate>)
    ensures
        forall|i: int|
            0 <= i < days.len() && missing.contains((#[trigger] days[i]).date)
                ==> missing_json(days, missing).contains(missing_day_json(days[i])),
        forall|k: int|
            0 <= k < missing_json(days, missing).len() ==> exists|i: int|
                0 <= i < days.len() && missing.contains((#[trigger] days[i]).date)
                    && #[trigger] missing_json(days, missing)[k] == missing_day_json(days[i]),
    decreases days.len(),
{
    if days.len() > 0 {
        let rest = days.drop_last();
        missing_days_are_answered(rest, missing);
        let before = missing_json(rest, missing);
        let all = missing_json(days, missing);
        assert forall|i: int|
            0 <= i < days.len() && missing.contains((#[trigger] days[i]).date) implies all.contains(
            missing_day_json(days[i]),
        ) by {
            if i < rest.len() {
                assert(rest[i] == days[i]);
                assert(before.contains(missing_day_json(rest[i])));
                let k = choose|k: int|
                    0 <= k < before.len() && before[k] == missing_day_json(rest[i]);
                assert(all[k] == before[k]);
            } else {
                assert(all[all.len() - 1] == missing_day_json(days[i]));
            }
        }
        assert forall|k: int| 0 <= k < all.len() implies exists|i: int|
            0 <= i < days.len() && missing.contains((#[trigger] days[i]).date)
                && #[trigger] all[k] == missing_day_json(days[i]) by {
            if k < before.len() {
                assert(all[k] == before[k]);
                let i = choose|i: int|
                    0 <= i < rest.len() && missing.contains((#[trigger] rest[i]).date)
                        && before[k] == missing_day_json(rest[i]);
                assert(days[i] == rest[i]);
            } else {
                let last = days.len() - 1;
                assert(missing.contains(days[last].date));
            }
        }
    }
}

/// Whether a date is among others.
fn holds_date(dates: &Vec<NaiveDate>, date: NaiveDate) -> (found: bool)
    ensures
        found == date_views(dates@).contains(date@),
{
    let ghost all = date_views(dates@);
    let mut i: usize = 0;
    while i < dates.len()
        invariant
            i <= dates.len(),
            all == date_views(dates@),
            forall|j: int| 0 <= j < i ==> #[trigger] all[j] != date@,
        decreases dates.len() - i,
    {
        assert(all[i as int] == dates@[i as int]@);
        if dates[i].same_as(date) {
            return true;
        }
        i = i + 1;
    }
    false
}

fn missing_response(days: &Vec<CalendarDay>, missing: &Vec<NaiveDate>) -> (values: Vec<JsonValue>)
    ensures
        value_models(values@) == missing_json(day_views(days@), date_views(missing@)),
{
    let ghost all = day_views(days@);
    let ghost dates = date_views(missing@);
    let mut values: Vec<JsonValue> = Vec::new();
    let mut i: usize = 0;
    assert(value_models(values@) == missing_json(all.take(0), dates));
    while i < days.len()
        invariant
            i <= days.len(),
            all == day_views(days@),
            dates == date_views(missing@),
            value_models(values@) == missing_json(all.take(i as int), dates),
        decreases days.len() - i,
    {
        assert(all.take(i + 1).drop_last() == all.take(i as int));
        assert(all.take(i + 1).last() == days@[i as int]@);
        let ghost before = value_models(values@);
        if holds_date(missing, days[i].date) {
            let mut object = ObjectBuilder::new();
            object.put_text("date", days[i].date.iso().as_str());
            object.put_text("day_name", days[i].day_name.as_str());
            assert(object@ == missing_day_json(all[i as int])->Object_0);
            let value = object.build();
            values.push(value);
            assert(value_models(values@) == before.push(value.model()));
        }
        i = i + 1;
    }
    assert(all.take(all.len() as int) == all);
    values
}

/// The targets that can be fixed, in an answer: those with parameters.
pub open spec fn fixable_json(targets: Seq<TargetView>) -> Seq<Json>
    decreases targets.len(),
{
    if targets.len() == 0 {
        seq![]
    } else {
        let before = fixable_json(targets.drop_last());
        match shown_params(targets.last()) {
            Some(params) => before.push(
                Json::Object(
                    seq![
                        ("date"@, Json::Text(iso_text(targets.last().date))),
                        ("report_id"@, Json::Text(params.0)),
                        ("error_type"@, Json::Text(params.1)),
                    ],
                ),
            ),
            None => before,
        }
    }
}

fn fixable_response(targets: &Vec<FixTarget>) -> (values: Vec<JsonValue>)
    ensures
        value_models(values@) == fixable_json(target_views(targets@)),
{
    let ghost all = target_views(targets@);
    let mut values: Vec<JsonValue> = Vec::new();
    let mut i: usize = 0;
    assert(value_models(values@) == fixable_json(all.take(0)));
    while i < targets.len()
        invariant
            i <= targets.len(),
            all == target_views(targets@),
            value_models(values@) == fixable_json(all.take(i as int)),
        decreases targets.len() - i,
    {
        assert(all.take(i + 1).drop_last() == all.take(i as int));
        assert(all.take(i + 1).last() == targets@[i as int]@);
        let ghost before = value_models(values@);
        match error_fix_params_from_target(&targets[i]) {
            Some(params) => {
                let mut object = ObjectBuilder::new();
                object.put_text("date", targets[i].date.iso().as_str());
                object.put_text("report_id", params.report_id.as_str());
                object.put_text("error_type", params.error_type.as_str());
                assert(object@ == seq![
                    ("date"@, Json::Text(iso_text(all[i as int].date))),
                    ("report_id"@, Json::Text(params@.0)),
                    ("error_type"@, Json::Text(params@.1)),
                ]);
                let value = object.build();
                values.push(value);
                assert(value_models(values@) == before.push(value.model()));
            },
            None => {},
        }
        i = i + 1;
    }
    assert(all.take(all.len() as int) == all);
    values
}

/// The kind of something that one could do.
pub open spec fn action_kind(plan: PlanView) -> Seq<char> {
    match plan {
        PlanView::FixErrors { .. } => "fix_errors"@,
        PlanView::FillMissing { .. } => "fill_missing"@,
    }
}

/// Why one could do something.
pub open spec fn action_reason(plan: PlanView) -> Seq<char> {
    match plan {
        PlanView::FixErrors { count, .. } => decimal(count as nat)
            + " day(s) have attendance errors"@,
        PlanView::FillMissing { count, .. } => decimal(count as nat)
            + " work day(s) have no attendance report"@,
    }
}

/// What something that one could do is about.
pub open spec fn action_members(plan: PlanView) -> Seq<(Seq<char>, Json)> {
    match plan {
        PlanView::FixErrors { month, count, fixable_targets } => seq![
            ("month"@, Json::Text(month_text(month))),
            ("count"@, json_number(count as nat)),
            ("fixable_days"@, Json::Array(fixable_json(fixable_targets))),
        ],
        PlanView::FillMissing { from, to, count } => seq![
            ("from"@, Json::Text(iso_text(from))),
            ("to"@, Json::Text(iso_text(to))),
            ("count"@, json_number(count as nat)),
        ],
    }
}

/// Something that one could do, in an answer that keeps what it is about
/// beside its kind.
pub open spec fn tagged_json(plan: PlanView) -> Json {
    Json::Object(
        seq![
            ("kind"@, Json::Text(action_kind(plan))),
            ("reason"@, Json::Text(action_reason(plan))),
            ("safety"@, Json::Text("dry_run_default"@)),
        ] + action_members(plan),
    )
}

/// Something that one could do, in an answer that keeps what it is about
/// under `params`.
pub open spec fn nested_json(plan: PlanView) -> Json {
    Json::Object(
        seq![
            ("kind"@, Json::Text(action_kind(plan))),
            ("reason"@, Json::Text(action_reason(plan))),
            ("params"@, Json::Object(action_members(plan))),
            ("safety"@, Json::Text("dry_run_default"@)),
        ],
    )
}

impl SuggestedActionPlan {
    /// The kind of action.
    pub fn kind(&self) -> (kind: &'static str)
        ensures
            kind@ == action_kind(self@),
    {
        match self {
            SuggestedActionPlan::FixErrors { .. } => "fix_errors",
            SuggestedActionPlan::FillMissing { .. } => "fill_missing",
        }
    }

    /// Why one could do it.
    pub fn reason(&self) -> (reason: String)
        ensures
            reason@ == action_reason(self@),
    {
        match self {
            SuggestedActionPlan::FixErrors { count, .. } => {
                let mut reason = decimal_text(*count as u64);
                reason.append(" day(s) have attendance errors");
                reason
            },
            SuggestedActionPlan::FillMissing { count, .. } => {
                let mut reason = decimal_text(*count as u64);
                reason.append(" work day(s) have no attendance report");
                reason
            },
        }
    }
}

/// Adds what something that one could do is about.
fn put_members(object: &mut ObjectBuilder, plan: &SuggestedActionPlan)
    ensures
        final(object)@ == old(object)@ + action_members(plan@),
{
    let ghost before = object@;
    match plan {
        SuggestedActionPlan::FixErrors { month, count, fixable_targets } => {
            object.put_text("month", month.year_month().as_str());
            object.put_number("count", *count as u64);
            object.put("fixable_days", JsonValue::array(fixable_response(fixable_targets)));
        },
        SuggestedActionPlan::FillMissing { from, to, count } => {
            object.put_text("from", from.iso().as_str());
            object.put_text("to", to.iso().as_str());
            object.put_number("count", *count as u64);
        },
    }
    assert(object@ == before + action_members(plan@));
}

/// Answers with something that one could do.
pub fn suggested_action_from_plan(plan: &SuggestedActionPlan) -> (value: JsonValue)
    ensures
        value.model() == tagged_json(plan@),
{
    let mut object = ObjectBuilder::new();
    object.put_text("kind", plan.kind());
    object.put_text("reason", plan.reason().as_str());
    object.put_text("safety", "dry_run_default");
    assert(object@ == seq![
        ("kind"@, Json::Text(action_kind(plan@))),
        ("reason"@, Json::Text(action_reason(plan@))),
        ("safety"@, Json::Text("dry_run_default"@)),
    ]);
    put_members(&mut object, plan);
    object.build()
}

/// Answers with something that one could do, what it is about under `params`.
pub fn nested_action_from_plan(plan: &SuggestedActionPlan) -> (value: JsonValue)
    ensures
        value.model() == nested_json(plan@),
{
    let mut params = ObjectBuilder::new();
    put_members(&mut params, plan);
    assert(params@ == action_members(plan@));
    let mut object = ObjectBuilder::new();
    object.put_text("kind", plan.kind());
    object.put_text("reason", plan.reason().as_str());
    object.put("params", params.build());
    object.put_text("safety", "dry_run_default");
    assert(object@ == nested_json(plan@)->Object_0);
    object.build()
}

fn tagged_actions(plans: &Vec<SuggestedActionPlan>) -> (values: Vec<JsonValue>)
    ensures
        value_models(values@) == plan_views(plans@).map_values(|plan: PlanView| tagged_json(plan)),
{
    let ghost all = plan_views(plans@);
    let mut values: Vec<JsonValue> = Vec::new();
    let mut i: usize = 0;
    while i < plans.len()
        invariant
            i <= plans.len(),
            all == plan_views(plans@),
            values.len() == i,
            forall|j: int| 0 <= j < i ==> (#[trigger] values@[j]).model() == tagged_json(all[j]),
        decreases plans.len() - i,
    {
        values.push(suggested_action_from_plan(&plans[i]));
        i = i + 1;
    }
    assert(value_models(values@) == all.map_values(|plan: PlanView| tagged_json(plan)));
    values
}

/// The overview of a month in an answer.
pub open spec fn overview_members(overview: OverviewData) -> Seq<(Seq<char>, Json)> {
    seq![
        ("user"@, user_json(overview.identity)),
        ("month"@, Json::Text(month_text(overview.month@))),
        ("summary"@, summary_json(overview.summary)),
        ("attendance_types"@, types_json(type_views(overview.attendance_types@))),
        (
            "error_days"@,
            entries_json(
                error_day_views(overview.error_days@).map_values(
                    |entry: ErrorDayView| error_entry(entry),
                ),
            ),
        ),
        (
            "missing_days"@,
            Json::Array(
                missing_json(
                    day_views(overview.calendar.days@),
                    date_views(overview.missing_days@),
                ),
            ),
        ),
        (
            "suggested_actions"@,
            Json::Array(
                plan_views(overview.suggested_actions@).map_values(
                    |plan: PlanView| tagged_json(plan),
                ),
            ),
        ),
    ]
}

fn put_overview(overview: &OverviewData) -> (object: ObjectBuilder)
    ensures
        object@ == overview_members(*overview),
{
    let entries = error_entries(&overview.error_days);
    let mut object = ObjectBuilder::new();
    object.put("user", user_response(&overview.identity));
    object.put_text("month", overview.month.year_month().as_str());
    object.put("summary", summary_response(&overview.summary));
    object.put("attendance_types", types_response(&overview.attendance_types));
    object.put("error_days", entries_value(&entries));
    object.put(
        "missing_days",
        JsonValue::array(missing_response(&overview.calendar.days, &overview.missing_days)),
    );
    object.put("suggested_actions", JsonValue::array(tagged_actions(&overview.suggested_actions)));
    assert(object@ == overview_members(*overview));
    object
}

/// Answers with the overview of a month.
pub fn build_overview_response(overview: &OverviewData) -> (value: JsonValue)
    ensures
        value.model() == Json::Object(overview_members(*overview)),
{
    put_overview(overview).build()
}

/// Answers with the overview of a month and with its days.
pub fn build_detailed_overview_response(overview: &OverviewData) -> (value: JsonValue)
    ensures
        value.model() == Json::Object(
            overview_members(*overview).push(
                ("days"@, days_json(day_views(overview.calendar.days@))),
            ),
        ),
{
    let mut object = put_overview(overview);
    object.put("days", days_response(&overview.calendar.days));
    object.build()
}

// ---------------------------------------------------------------------------
// Reports
// ---------------------------------------------------------------------------

/// A column of a report in an answer.
pub open spec fn column_json(index: nat, name: Seq<char>) -> Json {
    Json::Object(seq![("index"@, json_number(index)), ("name"@, Json::Text(name))])
}

/// A row of a report in an answer.
pub open spec fn cells_json(index: nat, cells: Seq<Seq<char>>) -> Json {
    Json::Object(seq![("index"@, json_number(index)), ("cells"@, json_texts(cells))])
}

/// A report in an answer.
pub open spec fn report_json(kind: Seq<char>, requested: Seq<char>, table: ReportTable) -> Json {
    let headers = texts(table.headers@);
    let rows = row_texts(table.rows@);
    Json::Object(
        seq![
            (
                "report"@,
                Json::Object(
                    seq![
                        ("kind"@, Json::Text(kind)),
                        ("requested"@, Json::Text(requested)),
                        ("provider_name"@, Json::Text(table.name@)),
                    ],
                ),
            ),
            ("column_count"@, json_number(headers.len())),
            ("row_count"@, json_number(rows.len())),
            (
                "columns"@,
                Json::Array(
                    Seq::new(headers.len(), |i: int| column_json(i as nat, headers[i])),
                ),
            ),
            (
                "rows"@,
                Json::Array(Seq::new(rows.len(), |i: int| cells_json(i as nat, rows[i]))),
            ),
        ],
    )
}

fn columns_response(headers: &Vec<String>) -> (value: JsonValue)
    ensures
        value.model() == Json::Array(
            Seq::new(
                headers@.len(),
                |i: int| column_json(i as nat, texts(headers@)[i]),
            ),
        ),
{
    let mut values: Vec<JsonValue> = Vec::new();
    let mut i: usize = 0;
    while i < headers.len()
        invariant
            i <= headers.len(),
            values.len() == i,
            forall|j: int|
                0 <= j < i ==> (#[trigger] values@[j]).model() == column_json(
                    j as nat,
                    texts(headers@)[j],
                ),
        decreases headers.len() - i,
    {
        let mut object = ObjectBuilder::new();
        object.put_number("index", i as u64);
        object.put_text("name", headers[i].as_str());
        assert(object@ == column_json(i as nat, texts(headers@)[i as int])->Object_0);
        values.push(object.build());
        i = i + 1;
    }
    assert(value_models(values@) == Seq::new(
        headers@.len(),
        |i: int| column_json(i as nat, texts(headers@)[i]),
    ));
    JsonValue::array(values)
}

fn rows_response(rows: &Vec<Vec<String>>) -> (value: JsonValue)
    ensures
        value.model() == Json::Array(
            Seq::new(
                rows@.len(),
                |i: int| cells_json(i as nat, row_texts(rows@)[i]),
            ),
        ),
{
    let mut values: Vec<JsonValue> = Vec::new();
    let mut i: usize = 0;
    while i < rows.len()
        invariant
            i <= rows.len(),
            values.len() == i,
            forall|j: int|
                0 <= j < i ==> (#[trigger] values@[j]).model() == cells_json(
                    j as nat,
                    row_texts(rows@)[j],
                ),
        decreases rows.len() - i,
    {
        let mut object = ObjectBuilder::new();
        object.put_number("index", i as u64);
        object.put("cells", JsonValue::text_array(&rows[i]));
        assert(object@ == cells_json(i as nat, row_texts(rows@)[i as int])->Object_0);
        values.push(object.build());
        i = i + 1;
    }
    assert(value_models(values@) == Seq::new(
        rows@.len(),
        |i: int| cells_json(i as nat, row_texts(rows@)[i]),
    ));
    JsonValue::array(values)
}

/// Answers with a report.
pub fn build_report_response(kind: &str, requested: &str, table: &ReportTable) -> (value: JsonValue)
    ensures
        value.model() == report_json(kind@, requested@, *table),
{
    let mut report = ObjectBuilder::new();
    report.put_text("kind", kind);
    report.put_text("requested", requested);
    report.put_text("provider_name", table.name.as_str());
    assert(report@ == seq![
        ("kind"@, Json::Text(kind@)),
        ("requested"@, Json::Text(requested@)),
        ("provider_name"@, Json::Text(table.name@)),
    ]);
    let mut object = ObjectBuilder::new();
    object.put("report", report.build());
    object.put_number("column_count", table.headers.len() as u64);
    object.put_number("row_count", table.rows.len() as u64);
    object.put("columns", columns_response(&table.headers));
    object.put("rows", rows_response(&table.rows));
    assert(object@[3].1->Array_0 =~= (report_json(kind@, requested@, *table)->Object_0)[3].1->Array_0);
    assert(object@[4].1->Array_0 =~= (report_json(kind@, requested@, *table)->Object_0)[4].1->Array_0);
    assert(object@ == report_json(kind@, requested@, *table)->Object_0);
    object.build()
}

/// A report in an answer that keeps its rows as they are.
pub open spec fn table_json(table: ReportTable) -> Json {
    Json::Object(
        seq![
            ("name"@, Json::Text(table.name@)),
            ("headers"@, json_texts(texts(table.headers@))),
            (
                "rows"@,
                Json::Array(
                    row_texts(table.rows@).map_values(|row: Seq<Seq<char>>| json_texts(row)),
                ),
            ),
        ],
    )
}

/// Answers with a report, its rows as they are.
pub fn table_response(table: &ReportTable) -> (value: JsonValue)
    ensures
        value.model() == table_json(*table),
{
    let ghost all = row_texts(table.rows@);
    let mut values: Vec<JsonValue> = Vec::new();
    let mut i: usize = 0;
    while i < table.rows.len()
        invariant
            i <= table.rows.len(),
            all == row_texts(table.rows@),
            values.len() == i,
            forall|j: int| 0 <= j < i ==> (#[trigger] values@[j]).model() == json_texts(all[j]),
        decreases table.rows.len() - i,
    {
        values.push(JsonValue::text_array(&table.rows[i]));
        i = i + 1;
    }
    assert(value_models(values@) == all.map_values(|row: Seq<Seq<char>>| json_texts(row)));
    let mut object = ObjectBuilder::new();
    object.put_text("name", table.name.as_str());
    object.put("headers", JsonValue::text_array(&table.headers));
    object.put("rows", JsonValue::array(values));
    assert(object@ == table_json(*table)->Object_0);
    object.build()
}

// ---------------------------------------------------------------------------
// Writes
// ---------------------------------------------------------------------------

/// A text or null.
fn opt_text_value(text: Option<&str>) -> (value: JsonValue)
    ensures
        value.model() == json_opt_text(opt_str(text)),
{
    match text {
        Some(text) => JsonValue::text(text),
        None => JsonValue::Null,
    }
}

/// A write in an answer to a tool.
pub open spec fn preview_members(
    action: Seq<char>,
    preview: PreviewView,
) -> Seq<(Seq<char>, Json)> {
    let debug = preview.provider_debug;
    seq![
        ("action"@, Json::Text(action)),
        ("executed"@, Json::Bool(preview.executed)),
        ("summary"@, Json::Text(preview.summary)),
        ("url"@, json_opt_text(debug_text(debug, "url"@))),
        ("employee_id"@, json_opt_text(debug_text(debug, "employee_id"@))),
        (
            "button"@,
            Json::Object(
                seq![
                    ("name"@, json_opt_text(debug_text(debug, "button_name"@))),
                    ("value"@, json_opt_text(debug_text(debug, "button_value"@))),
                ],
            ),
        ),
        ("payload_display"@, json_opt_text(debug_text(debug, "payload_display"@))),
    ]
}

fn put_preview(action: &str, preview: &WritePreview) -> (object: ObjectBuilder)
    ensures
        object@ == preview_members(action@, preview@),
{
    let mut button = ObjectBuilder::new();
    button.put("name", opt_text_value(preview.debug_field("button_name")));
    button.put("value", opt_text_value(preview.debug_field("button_value")));
    let ghost debug = preview@.provider_debug;
    assert(button@ == seq![
        ("name"@, json_opt_text(debug_text(debug, "button_name"@))),
        ("value"@, json_opt_text(debug_text(debug, "button_value"@))),
    ]);
    let mut object = ObjectBuilder::new();
    object.put_text("action", action);
    object.put_bool("executed", preview.executed);
    object.put_text("summary", preview.summary.as_str());
    object.put("url", opt_text_value(preview.debug_field("url")));
    object.put("employee_id", opt_text_value(preview.debug_field("employee_id")));
    object.put("button", button.build());
    object.put("payload_display", opt_text_value(preview.debug_field("payload_display")));
    assert(object@ == preview_members(action@, preview@));
    object
}

/// Answers a tool with a write.
pub fn write_preview_json(action: &str, preview: &WritePreview) -> (value: JsonValue)
    ensures
        value.model() == Json::Object(preview_members(action@, preview@)),
{
    put_preview(action, preview).build()
}

/// Answers a tool with the write of a day of a range.
pub fn fill_result_json(date: NaiveDate, preview: &WritePreview) -> (value: JsonValue)
    ensures
        value.model() == Json::Object(
            preview_members("fill_day"@, preview@).push(("date"@, Json::Text(iso_text(date@)))),
        ),
{
    let mut object = put_preview("fill_day", preview);
    object.put_text("date", date.iso().as_str());
    object.build()
}

/// How a write was made, in a word.
pub open spec fn mode_word(executed: bool) -> Seq<char> {
    if executed {
        "executed"@
    } else {
        "dry_run"@
    }
}

fn mode_name(executed: bool) -> (mode: &'static str)
    ensures
        mode@ == mode_word(executed),
{
    if executed {
        "executed"
    } else {
        "dry_run"
    }
}

/// A member that stands only where there is a text.
pub open spec fn with_text(
    members: Seq<(Seq<char>, Json)>,
    key: Seq<char>,
    text: Option<Seq<char>>,
) -> Seq<(Seq<char>, Json)> {
    match text {
        Some(text) => members.push((key, Json::Text(text))),
        None => members,
    }
}

fn put_if_any(object: &mut ObjectBuilder, key: &str, text: Option<&str>)
    ensures
        final(object)@ == with_text(old(object)@, key@, opt_str(text)),
{
    match text {
        Some(text) => object.put_text(key, text),
        None => {},
    }
}

/// A provider's write in the output of a command: what the provider does not
/// tell is left out.
pub open spec fn provider_write_members(
    action: Seq<char>,
    preview: PreviewView,
) -> Seq<(Seq<char>, Json)> {
    let debug = preview.provider_debug;
    let start = seq![
        ("action"@, Json::Text(action)),
        ("mode"@, Json::Text(mode_word(preview.executed))),
        ("executed"@, Json::Bool(preview.executed)),
        ("summary"@, Json::Text(preview.summary)),
    ];
    let members = with_text(start, "url"@, debug_text(debug, "url"@));
    let members = with_text(members, "button_name"@, debug_text(debug, "button_name"@));
    let members = with_text(members, "button_value"@, debug_text(debug, "button_value"@));
    let members = with_text(members, "employee_id"@, debug_text(debug, "employee_id"@));
    with_text(members, "payload_display"@, debug_text(debug, "payload_display"@))
}

/// A provider's write in the output of a command.
pub fn provider_write_output(action: &str, preview: &WritePreview) -> (value: JsonValue)
    ensures
        value.model() == Json::Object(provider_write_members(action@, preview@)),
{
    let mut object = ObjectBuilder::new();
    object.put_text("action", action);
    object.put_text("mode", mode_name(preview.executed));
    object.put_bool("executed", preview.executed);
    object.put_text("summary", preview.summary.as_str());
    assert(object@ == seq![
        ("action"@, Json::Text(action@)),
        ("mode"@, Json::Text(mode_word(preview@.executed))),
        ("executed"@, Json::Bool(preview@.executed)),
        ("summary"@, Json::Text(preview@.summary)),
    ]);
    put_if_any(&mut object, "url", preview.debug_field("url"));
    put_if_any(&mut object, "button_name", preview.debug_field("button_name"));
    put_if_any(&mut object, "button_value", preview.debug_field("button_value"));
    put_if_any(&mut object, "employee_id", preview.debug_field("employee_id"));
    put_if_any(&mut object, "payload_display", preview.debug_field("payload_display"));
    object.build()
}

/// A write in the output of a command.
pub open spec fn write_json(action: Seq<char>, preview: ShownWrite) -> Json {
    Json::Object(
        seq![
            ("action"@, Json::Text(action)),
            ("mode"@, Json::Text(mode_word(preview.executed))),
            ("url"@, Json::Text(preview.url)),
            ("button_name"@, Json::Text(preview.button_name)),
            ("button_value"@, Json::Text(preview.button_value)),
            ("employee_id"@, Json::Text(preview.employee_id)),
            ("payload_display"@, Json::Text(preview.payload_display)),
            ("executed"@, Json::Bool(preview.executed)),
        ],
    )
}

/// A write in the output of a command.
pub fn write_output(action: &str, preview: &SubmitPreview) -> (value: JsonValue)
    ensures
        value.model() == write_json(action@, preview@),
{
    let mut object = ObjectBuilder::new();
    object.put_text("action", action);
    object.put_text("mode", mode_name(preview.executed));
    object.put_text("url", preview.url.as_str());
    object.put_text("button_name", preview.button_name.as_str());
    object.put_text("button_value", preview.button_value.as_str());
    object.put_text("employee_id", preview.employee_id.as_str());
    object.put_text("payload_display", preview.payload_display.as_str());
    object.put_bool("executed", preview.executed);
    assert(object@ == write_json(action@, preview@)->Object_0);
    object.build()
}

// ---------------------------------------------------------------------------
// Other answers
// ---------------------------------------------------------------------------

/// A symbol of absence in an answer.
pub open spec fn symbol_json(symbol: SymbolView) -> Json {
    Json::Object(
        seq![
            ("id"@, Json::Text(symbol.id)),
            ("name"@, Json::Text(symbol.name)),
            ("display_name"@, json_opt_text(symbol.display_name)),
        ],
    )
}

/// Symbols of absence in an answer.
pub open spec fn symbols_json(symbols: Seq<SymbolView>) -> Json {
    Json::Array(symbols.map_values(|symbol: SymbolView| symbol_json(symbol)))
}

/// Answers with symbols of absence.
pub fn symbols_response(symbols: &Vec<AbsenceSymbol>) -> (value: JsonValue)
    ensures
        value.model() == symbols_json(symbol_views(symbols@)),
{
    let ghost all = symbol_views(symbols@);
    let mut values: Vec<JsonValue> = Vec::new();
    let mut i: usize = 0;
    while i < symbols.len()
        invariant
            i <= symbols.len(),
            all == symbol_views(symbols@),
            values.len() == i,
            forall|j: int| 0 <= j < i ==> (#[trigger] values@[j]).model() == symbol_json(all[j]),
        decreases symbols.len() - i,
    {
        let mut object = ObjectBuilder::new();
        object.put_text("id", symbols[i].id.as_str());
        object.put_text("name", symbols[i].name.as_str());
        object.put_opt_text("display_name", &symbols[i].display_name);
        assert(object@ == symbol_json(all[i as int])->Object_0);
        values.push(object.build());
        i = i + 1;
    }
    assert(value_models(values@) == symbols_json(all)->Array_0);
    JsonValue::array(values)
}

/// Answers a tool with the symbols of absence and how many there are.
pub fn absences_response(symbols: &Vec<AbsenceSymbol>) -> (value: JsonValue)
    ensures
        value.model() == Json::Object(
            seq![
                ("symbol_count"@, json_number(symbols@.len())),
                ("symbols"@, symbols_json(symbol_views(symbols@))),
            ],
        ),
{
    let mut object = ObjectBuilder::new();
    object.put_number("symbol_count", symbols.len() as u64);
    object.put("symbols", symbols_response(symbols));
    assert(object@ == seq![
        ("symbol_count"@, json_number(symbols@.len())),
        ("symbols"@, symbols_json(symbol_views(symbols@))),
    ]);
    object.build()
}

/// Answers a tool with the kinds of attendance of an organization.
pub fn subdomain_types_response(subdomain: &str, types: &Vec<AttendanceType>) -> (value: JsonValue)
    ensures
        value.model() == Json::Object(
            seq![
                ("subdomain"@, Json::Text(subdomain@)),
                ("types"@, types_json(type_views(types@))),
            ],
        ),
{
    let mut object = ObjectBuilder::new();
    object.put_text("subdomain", subdomain);
    object.put("types", types_response(types));
    assert(object@ == seq![
        ("subdomain"@, Json::Text(subdomain@)),
        ("types"@, types_json(type_views(types@))),
    ]);
    object.build()
}

/// An error in an answer to a tool.
pub open spec fn error_json(error: ErrorView) -> Json {
    Json::Object(
        seq![
            (
                "error"@,
                Json::Object(
                    seq![
                        ("code"@, Json::Text(error.code)),
                        ("message"@, Json::Text(error.message)),
                        ("retryable"@, Json::Bool(error.retryable)),
                        (
                            "details"@,
                            match error.details {
                                Some(details) => details,
                                None => Json::Null,
                            },
                        ),
                    ],
                ),
            ),
        ],
    )
}

/// Answers a tool with an error.
pub fn error_response(error: ProviderError) -> (value: JsonValue)
    ensures
        value.model() == error_json(error@),
{
    let ghost view = error@;
    let mut inner = ObjectBuilder::new();
    inner.put_text("code", error.code.as_str());
    inner.put_text("message", error.message.as_str());
    inner.put_bool("retryable", error.retryable);
    let details = match error.details {
        Some(details) => details,
        None => JsonValue::Null,
    };
    inner.put("details", details);
    assert(inner@ == (error_json(view)->Object_0)[0].1->Object_0);
    let mut object = ObjectBuilder::new();
    object.put("error", inner.build());
    assert(object@ == error_json(view)->Object_0);
    object.build()
}

} // verus!
