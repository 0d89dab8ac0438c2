//! Laws of records: what is seen of one is what stands in it.

use crate::api::{symbol_views, task_views, BootstrapInfo, ErrorTask};
use crate::config::{Config, StoredCredentials};
use crate::date::NaiveDate;
use crate::existing::{
    CalendarExistingReport, CalendarSubmitContext, ParsedCalendarReportRow, RowDataEntry,
};
use crate::forms::DeltaEntry;
use crate::hr_core::{
    change_views, day_views, target_views, type_views, AbsenceSymbol, AttendanceChange,
    AttendanceType, CalendarDay, FixTarget, ProviderError, WritePreview,
};
use crate::payslip::LockSettings;
use crate::responses::ErrorDay;
use crate::submit::{AttendanceSubmit, SubmitPreview};
use crate::use_cases::{
    found_targets, found_types, hours_view, AutoFillDayResult, OverviewErrorDay, PlanView,
    SuggestedActionPlan,
};
use vstd::prelude::*;

verus! {

/// Whether an optional text is seen as it is.
pub open spec fn is_text_of(seen: Option<Seq<char>>, text: Option<String>) -> bool {
    match (seen, text) {
        (Some(seen), Some(text)) => seen == text@,
        (None, None) => true,
        _ => false,
    }
}

/// A write is seen with each of its parts in its own place.
pub proof fn a_write_is_seen_as_it_is(record: AttendanceSubmit)
    ensures
        record@.date == record.date@,
        is_text_of(record@.attendance_type_code, record.attendance_type_code),
        is_text_of(record@.entry_time, record.entry_time),
        is_text_of(record@.exit_time, record.exit_time),
        is_text_of(record@.comment, record.comment),
        record@.clear_entry == record.clear_entry,
        record@.clear_exit == record.clear_exit,
        record@.clear_comment == record.clear_comment,
        record@.default_work_day == record.default_work_day,
{
}

/// A change is seen with each of its parts in its own place.
pub proof fn a_change_is_seen_as_it_is(record: AttendanceChange)
    ensures
        record@.date == record.date@,
        is_text_of(record@.attendance_type_code, record.attendance_type_code),
        record@.use_default_attendance_type == record.use_default_attendance_type,
        is_text_of(record@.entry_time, record.entry_time),
        is_text_of(record@.exit_time, record.exit_time),
        is_text_of(record@.comment, record.comment),
        record@.clear_entry == record.clear_entry,
        record@.clear_exit == record.clear_exit,
        record@.clear_comment == record.clear_comment,
{
}

/// A day is seen with each of its parts in its own place.
pub proof fn a_day_is_seen_as_it_is(record: CalendarDay)
    ensures
        record@.date == record.date@,
        record@.day_name == record.day_name@,
        record@.has_error == record.has_error,
        is_text_of(record@.error_message, record.error_message),
        is_text_of(record@.entry_time, record.entry_time),
        is_text_of(record@.exit_time, record.exit_time),
        is_text_of(record@.attendance_type, record.attendance_type),
        is_text_of(record@.total_hours, record.total_hours),
        record@.source == record.source,
{
}

/// A target is seen with each of its parts in its own place.
pub proof fn a_target_is_seen_as_it_is(record: FixTarget)
    ensures
        record@.date == record.date@,
        is_text_of(record@.issue_kind, record.issue_kind),
        record@.provider_ref == record.provider_ref@,
        record@.metadata == record.metadata@,
{
}

/// A kind of attendance is seen with each of its parts in its own place.
pub proof fn a_kind_is_seen_as_it_is(record: AttendanceType)
    ensures
        record@.code == record.code@,
        record@.name_he == record.name_he@,
        is_text_of(record@.name_en, record.name_en),
{
}

/// An error is seen with each of its parts in its own place.
pub proof fn an_error_is_seen_as_it_is(record: ProviderError)
    ensures
        record@.code == record.code@,
        record@.message == record.message@,
        record@.retryable == record.retryable,
        record@.details == match record.details {
            Some(value) => Some(value.model()),
            None => None,
        },
{
}

/// A preview is seen with each of its parts in its own place.
pub proof fn a_preview_is_seen_as_it_is(record: WritePreview)
    ensures
        record@.executed == record.executed,
        record@.summary == record.summary@,
        record@.provider_debug == match record.provider_debug {
            Some(value) => Some(value.model()),
            None => None,
        },
{
}

/// A shown write is seen with each of its parts in its own place.
pub proof fn a_shown_write_is_seen_as_it_is(record: SubmitPreview)
    ensures
        record@.url == record.url@,
        record@.button_name == record.button_name@,
        record@.button_value == record.button_value@,
        record@.employee_id == record.employee_id@,
        record@.payload_display == record.payload_display@,
        record@.executed == record.executed,
{
}

/// A report is seen with each of its parts in its own place.
pub proof fn a_report_is_seen_as_it_is(record: CalendarExistingReport)
    ensures
        record@.object_id == record.object_id@,
        record@.employee_id == record.employee_id,
        record@.row_name == record.row_name@,
        is_text_of(record@.symbol_code, record.symbol_code),
        is_text_of(record@.symbol_name, record.symbol_name),
        record@.is_absence == record.is_absence,
        record@.report_date_iso_utc == record.report_date_iso_utc@,
{
}

/// A row of a report is seen with each of its parts in its own place.
pub proof fn a_report_row_is_seen_as_it_is(record: ParsedCalendarReportRow)
    ensures
        record@.row_name == record.row_name@,
        is_text_of(record@.symbol_code, record.symbol_code),
        is_text_of(record@.symbol_name, record.symbol_name),
        record@.is_absence == record.is_absence,
{
}

/// The data of a report is seen with each of its parts in its own place.
pub proof fn a_data_row_is_seen_as_it_is(record: RowDataEntry)
    ensures
        record@.id == record.id@,
        record@.employee_id == record.employee_id,
        record@.report_date == record.report_date@,
        is_text_of(record@.from_date, record.from_date),
        record@.is_range == record.is_range,
        record@.is_report_deleted == record.is_report_deleted,
        is_text_of(record@.symbol_code, record.symbol_code),
        is_text_of(record@.symbol_name, record.symbol_name),
{
}

/// A user is seen with each of its parts in its own place.
pub proof fn a_user_is_seen_as_they_are(record: BootstrapInfo)
    ensures
        record@.user_id == record.user_id@,
        record@.employee_id == record.employee_id,
        record@.org_id == record.org_id@,
        record@.name == record.name@,
        record@.is_manager == record.is_manager,
{
}

/// A symbol is seen with each of its parts in its own place.
pub proof fn a_symbol_is_seen_as_it_is(record: AbsenceSymbol)
    ensures
        record@.id == record.id@,
        record@.name == record.name@,
        is_text_of(record@.display_name, record.display_name),
{
}

/// A task is seen with each of its parts in its own place.
pub proof fn a_task_is_seen_as_it_is(record: ErrorTask)
    ensures
        record@.date == record.date@,
        record@.report_id == record.report_id@,
        record@.error_type == record.error_type@,
{
}

/// A record of credentials is seen with each of its parts in its own place.
pub proof fn credentials_are_seen_as_they_are(record: StoredCredentials)
    ensures
        record@.v == record.v,
        record@.password == record.password@,
        record@.local_master_key == record.local_master_key@,
{
}

/// Settings is seen with each of its parts in its own place.
pub proof fn settings_are_seen_as_they_are(record: Config)
    ensures
        record@.subdomain == record.subdomain@,
        record@.username == record.username@,
        is_text_of(record@.password, record.password),
        is_text_of(record@.payslip_folder, record.payslip_folder),
        is_text_of(record@.payslip_format, record.payslip_format),
{
}

/// A filled day is seen with each of its parts in its own place.
pub proof fn a_filled_day_is_seen_as_it_is(record: AutoFillDayResult)
    ensures
        record@.date == record.date@,
        record@.attendance_type == record.attendance_type@,
        is_text_of(record@.hours, record.hours),
        record@.status == record.status@,
        is_text_of(record@.error, record.error),
{
}

/// A day with an error is seen with the day and its targets.
pub proof fn an_error_day_is_seen_as_it_is(record: OverviewErrorDay, at: int)
    ensures
        record@.day == record.day@,
        record@.fix_targets.len() == record.fix_targets@.len(),
        0 <= at < record.fix_targets@.len() ==> record@.fix_targets[at]
            == record.fix_targets@[at]@,
{
}

/// An answered error is seen with each of its parts in its own place.
pub proof fn an_answered_error_is_seen_as_it_is(record: ErrorDay)
    ensures
        record@.date == record.date@,
        record@.day_name == record.day_name@,
        record@.error_message == record.error_message@,
        record.fix_params matches Some(params) ==> record@.fix_params == Some(
            (params.report_id@, params.error_type@),
        ),
        record.fix_params is None ==> record@.fix_params is None,
{
}

/// A suggestion is seen with each of its parts in its own place.
pub proof fn a_suggestion_is_seen_as_it_is(record: SuggestedActionPlan)
    ensures
        record matches SuggestedActionPlan::FixErrors { month, count, fixable_targets } ==> (
        record@ matches PlanView::FixErrors { month: seen, count: number, .. } && seen == month@
            && number == count),
        record matches SuggestedActionPlan::FillMissing { from, to, count } ==> record@ == (
        PlanView::FillMissing { from: from@, to: to@, count }),
{
}

/// A selected day is seen with each of its parts in its own place.
pub proof fn a_selected_day_is_seen_as_it_is(record: CalendarSubmitContext)
    ensures
        record@.url == record.url@,
        record@.date == record.date@,
        record@.employee_id == record.employee_id@,
        record@.fields == record.fields@,
        record@.reports.len() == record.reports@.len(),
{
}

/// A record of a partial answer is seen with each of its parts in its own
/// place.
pub proof fn a_partial_record_is_seen_as_it_is(record: DeltaEntry)
    ensures
        record@.kind == record.kind@,
        record@.id == record.id@,
        record@.content == record.content@,
{
}

/// A lock is seen with each of its parts in its own place.
pub proof fn a_lock_is_seen_as_it_is(record: LockSettings)
    ensures
        record@.version == record.version,
        record@.method == record.method@,
        record@.encrypt_metadata == record.encrypt_metadata,
        record@.owner_password == record.owner_password@,
        record@.user_password == record.user_password@,
{
}

/// A date is seen with its year, its month and its day.
pub(crate) proof fn a_date_is_seen_as_it_is(date: NaiveDate)
    ensures
        date@.year == date.year,
        date@.month == date.month,
        date@.day == date.day,
{
}

/// Lists are seen item by item, in their order.
pub proof fn lists_are_seen_item_by_item(
    days: Seq<CalendarDay>,
    changes: Seq<AttendanceChange>,
    types: Seq<AttendanceType>,
    targets: Seq<FixTarget>,
    symbols: Seq<AbsenceSymbol>,
    tasks: Seq<ErrorTask>,
    at: int,
)
    ensures
        day_views(days).len() == days.len(),
        0 <= at < days.len() ==> day_views(days)[at] == days[at]@,
        change_views(changes).len() == changes.len(),
        0 <= at < changes.len() ==> change_views(changes)[at] == changes[at]@,
        type_views(types).len() == types.len(),
        0 <= at < types.len() ==> type_views(types)[at] == types[at]@,
        target_views(targets).len() == targets.len(),
        0 <= at < targets.len() ==> target_views(targets)[at] == targets[at]@,
        symbol_views(symbols).len() == symbols.len(),
        0 <= at < symbols.len() ==> symbol_views(symbols)[at] == symbols[at]@,
        task_views(tasks).len() == tasks.len(),
        0 <= at < tasks.len() ==> task_views(tasks)[at] == tasks[at]@,
{
}

/// Hours are seen with the first as the first.
pub proof fn hours_are_seen_in_order(hours: Option<(String, String)>)
    ensures
        hours matches Some(pair) ==> hours_view(hours) == Some((pair.0@, pair.1@)),
        hours is None ==> hours_view(hours) is None,
{
}

/// A lookup that failed gives nothing, and one that did not what it found.
pub proof fn a_failed_lookup_gives_nothing(
    types: Result<Vec<AttendanceType>, ProviderError>,
    targets: Result<Vec<FixTarget>, ProviderError>,
)
    ensures
        types matches Ok(found) ==> found_types(types) == type_views(found@),
        types is Err ==> found_types(types).len() == 0,
        targets matches Ok(found) ==> found_targets(targets) == target_views(found@),
        targets is Err ==> found_targets(targets).len() == 0,
{
}

} // verus!
