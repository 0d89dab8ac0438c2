//! The records that attendance is kept in, whatever service provides them.

use crate::date::{weekday, CalendarDate, NaiveDate};
use crate::fields::FormFields;
use crate::json::{json_member, json_text, Json, JsonValue};
use crate::text::{copy_opt, opt_str, opt_text, texts};
use vstd::prelude::*;

verus! {

/// Who is signed in.
#[derive(Debug, Clone)]
pub struct UserIdentity {
    pub user_id: String,
    pub employee_id: String,
    pub display_name: String,
    pub is_manager: bool,
}

/// A kind of attendance that a day can be reported as.
#[derive(Debug, Clone)]
pub struct AttendanceType {
    pub code: String,
    pub name_he: String,
    pub name_en: Option<String>,
}

/// A kind of attendance as mathematics.
pub struct TypeView {
    pub code: Seq<char>,
    pub name_he: Seq<char>,
    pub name_en: Option<Seq<char>>,
}

impl View for AttendanceType {
    type V = TypeView;

    open spec fn view(&self) -> TypeView {
        TypeView { code: self.code@, name_he: self.name_he@, name_en: opt_text(self.name_en) }
    }
}

impl AttendanceType {
    /// A copy of the record.
    pub fn copy(&self) -> (copy: AttendanceType)
        ensures
            copy@ == self@,
    {
        AttendanceType {
            code: self.code.clone(),
            name_he: self.name_he.clone(),
            name_en: copy_opt(&self.name_en),
        }
    }
}

/// The views of a list of kinds.
pub open spec fn type_views(types: Seq<AttendanceType>) -> Seq<TypeView> {
    types.map_values(|item: AttendanceType| item@)
}

/// A symbol that absences are marked with.
#[derive(Debug, Clone)]
pub struct AbsenceSymbol {
    pub id: String,
    pub name: String,
    pub display_name: Option<String>,
}

/// How the attendance data for a day was determined.
#[derive(Debug, Clone, Copy, PartialEq, Eq, Structural)]
pub enum AttendanceSource {
    /// The user explicitly reported this day (chose a type, entered times, etc.).
    UserReported,
    /// The system auto-filled this day (typically as vacation) because the user
    /// didn't report.
    SystemAutoFill,
    /// A holiday or day-off set by the organization, not by the user.
    Holiday,
    /// No attendance data at all: the day is truly unreported.
    Unreported,
}

impl Default for AttendanceSource {
    fn default() -> (source: AttendanceSource)
        ensures
            source == AttendanceSource::Unreported,
    {
        AttendanceSource::Unreported
    }
}

/// A day of a month's attendance.
#[derive(Debug, Clone)]
pub struct CalendarDay {
    pub date: NaiveDate,
    pub day_name: String,
    pub has_error: bool,
    pub error_message: Option<String>,
    pub entry_time: Option<String>,
    pub exit_time: Option<String>,
    pub attendance_type: Option<String>,
    pub total_hours: Option<String>,
    pub source: AttendanceSource,
}

/// A day of a month's attendance as mathematics.
pub struct DayView {
    pub date: CalendarDate,
    pub day_name: Seq<char>,
    pub has_error: bool,
    pub error_message: Option<Seq<char>>,
    pub entry_time: Option<Seq<char>>,
    pub exit_time: Option<Seq<char>>,
    pub attendance_type: Option<Seq<char>>,
    pub total_hours: Option<Seq<char>>,
    pub source: AttendanceSource,
}

impl View for CalendarDay {
    type V = DayView;

    open spec fn view(&self) -> DayView {
        DayView {
            date: self.date@,
            day_name: self.day_name@,
            has_error: self.has_error,
            error_message: opt_text(self.error_message),
            entry_time: opt_text(self.entry_time),
            exit_time: opt_text(self.exit_time),
            attendance_type: opt_text(self.attendance_type),
            total_hours: opt_text(self.total_hours),
            source: self.source,
        }
    }
}

/// The views of a list of days.
pub open spec fn day_views(days: Seq<CalendarDay>) -> Seq<DayView> {
    days.map_values(|day: CalendarDay| day@)
}

/// Whether a day was reported by the user or set by the organization.
pub open spec fn reported(day: DayView) -> bool {
    day.source == AttendanceSource::UserReported || day.source == AttendanceSource::Holiday
}

/// Whether a date is a work day: Sunday to Thursday.
pub open spec fn work_day(date: CalendarDate) -> bool {
    weekday(date) < 5
}

impl CalendarDay {
    /// Whether the user actively reported this day.
    pub fn is_reported(&self) -> (answer: bool)
        ensures
            answer == reported(self@),
    {
        self.source == AttendanceSource::UserReported || self.source == AttendanceSource::Holiday
    }

    /// Whether the system auto-filled this day.
    pub fn is_auto_filled(&self) -> (answer: bool)
        ensures
            answer == (self@.source == AttendanceSource::SystemAutoFill),
    {
        self.source == AttendanceSource::SystemAutoFill
    }

    /// Whether this is a work day: Sunday to Thursday.
    pub fn is_work_day(&self) -> (answer: bool)
        ensures
            answer == work_day(self@.date),
    {
        self.date.num_days_from_sunday() < 5
    }

    /// A copy of the record.
    pub fn copy(&self) -> (copy: CalendarDay)
        ensures
            copy@ == self@,
    {
        CalendarDay {
            date: self.date,
            day_name: self.day_name.clone(),
            has_error: self.has_error,
            error_message: copy_opt(&self.error_message),
            entry_time: copy_opt(&self.entry_time),
            exit_time: copy_opt(&self.exit_time),
            attendance_type: copy_opt(&self.attendance_type),
            total_hours: copy_opt(&self.total_hours),
            source: self.source,
        }
    }
}

/// A month's attendance.
#[derive(Debug, Clone)]
pub struct MonthCalendar {
    pub month: NaiveDate,
    pub employee_id: String,
    pub days: Vec<CalendarDay>,
}

/// What is to be written for a day.
#[derive(Debug, Clone)]
pub struct AttendanceChange {
    pub date: NaiveDate,
    pub attendance_type_code: Option<String>,
    pub use_default_attendance_type: bool,
    pub entry_time: Option<String>,
    pub exit_time: Option<String>,
    pub comment: Option<String>,
    pub clear_entry: bool,
    pub clear_exit: bool,
    pub clear_comment: bool,
}

/// What is to be written for a day, as mathematics.
pub struct ChangeView {
    pub date: CalendarDate,
    pub attendance_type_code: Option<Seq<char>>,
    pub use_default_attendance_type: bool,
    pub entry_time: Option<Seq<char>>,
    pub exit_time: Option<Seq<char>>,
    pub comment: Option<Seq<char>>,
    pub clear_entry: bool,
    pub clear_exit: bool,
    pub clear_comment: bool,
}

impl View for AttendanceChange {
    type V = ChangeView;

    open spec fn view(&self) -> ChangeView {
        ChangeView {
            date: self.date@,
            attendance_type_code: opt_text(self.attendance_type_code),
            use_default_attendance_type: self.use_default_attendance_type,
            entry_time: opt_text(self.entry_time),
            exit_time: opt_text(self.exit_time),
            comment: opt_text(self.comment),
            clear_entry: self.clear_entry,
            clear_exit: self.clear_exit,
            clear_comment: self.clear_comment,
        }
    }
}

/// The views of a list of changes.
pub open spec fn change_views(changes: Seq<AttendanceChange>) -> Seq<ChangeView> {
    changes.map_values(|change: AttendanceChange| change@)
}

/// Whether a write is carried out or only shown.
#[derive(Debug, Clone, Copy, PartialEq, Eq, Structural)]
pub enum WriteMode {
    DryRun,
    Execute,
}

impl WriteMode {
    /// Whether the write is carried out.
    pub fn should_execute(self) -> (answer: bool)
        ensures
            answer == (self == WriteMode::Execute),
    {
        match self {
            WriteMode::Execute => true,
            WriteMode::DryRun => false,
        }
    }
}

/// What an optional JSON value holds.
pub open spec fn opt_json(value: Option<JsonValue>) -> Option<Json> {
    match value {
        Some(value) => Some(value.model()),
        None => None,
    }
}

/// What a write did or would do.
#[derive(Debug)]
pub struct WritePreview {
    pub executed: bool,
    pub summary: String,
    pub provider_debug: Option<JsonValue>,
}

/// What a write did or would do, as mathematics.
pub struct PreviewView {
    pub executed: bool,
    pub summary: Seq<char>,
    pub provider_debug: Option<Json>,
}

impl View for WritePreview {
    type V = PreviewView;

    open spec fn view(&self) -> PreviewView {
        PreviewView {
            executed: self.executed,
            summary: self.summary@,
            provider_debug: opt_json(self.provider_debug),
        }
    }
}

/// The text under a name in an optional JSON object.
pub open spec fn debug_text(debug: Option<Json>, key: Seq<char>) -> Option<Seq<char>> {
    match debug {
        Some(value) => match json_member(value, key) {
            Some(found) => json_text(found),
            None => None,
        },
        None => None,
    }
}

impl WritePreview {
    /// The text under a name in the provider's own data.
    pub fn debug_field(&self, key: &str) -> (text: Option<&str>)
        ensures
            opt_str(text) == debug_text(self@.provider_debug, key@),
    {
        match &self.provider_debug {
            Some(debug) => match debug.get(key) {
                Some(value) => value.as_str(),
                None => None,
            },
            None => None,
        }
    }
}

/// A day that the provider reports a problem with.
pub struct FixTarget {
    pub date: NaiveDate,
    pub issue_kind: Option<String>,
    pub provider_ref: String,
    pub metadata: FormFields,
}

/// A day with a problem, as mathematics.
pub struct TargetView {
    pub date: CalendarDate,
    pub issue_kind: Option<Seq<char>>,
    pub provider_ref: Seq<char>,
    pub metadata: Map<Seq<char>, Seq<char>>,
}

impl View for FixTarget {
    type V = TargetView;

    open spec fn view(&self) -> TargetView {
        TargetView {
            date: self.date@,
            issue_kind: opt_text(self.issue_kind),
            provider_ref: self.provider_ref@,
            metadata: self.metadata@,
        }
    }
}

/// The views of a list of targets.
pub open spec fn target_views(targets: Seq<FixTarget>) -> Seq<TargetView> {
    targets.map_values(|target: FixTarget| target@)
}

impl FixTarget {
    /// A copy of the record.
    pub fn copy(&self) -> (copy: FixTarget)
        ensures
            copy@ == self@,
    {
        FixTarget {
            date: self.date,
            issue_kind: copy_opt(&self.issue_kind),
            provider_ref: self.provider_ref.clone(),
            metadata: self.metadata.copy(),
        }
    }
}

/// A month's salary.
#[derive(Debug, Clone, Copy, PartialEq, Eq, Structural)]
pub struct SalaryEntry {
    pub month: NaiveDate,
    pub amount: u64,
}

/// The salary of some months, oldest first, and the two amounts that a change
/// is reckoned from: the one before the newest, and the newest.
#[derive(Debug, Clone)]
pub struct SalarySummary {
    pub label: String,
    pub entries: Vec<SalaryEntry>,
    pub latest_change: Option<(u64, u64)>,
}

/// A document that was stored.
#[derive(Debug, Clone)]
pub struct DocumentDownload {
    pub month: NaiveDate,
    pub path: String,
    pub size_bytes: usize,
}

/// Which report is wanted.
#[derive(Debug, Clone)]
pub enum ReportSpec {
    Named(String),
    Path(String),
}

/// The table of a report.
#[derive(Debug, Clone)]
pub struct ReportTable {
    pub name: String,
    pub headers: Vec<String>,
    pub rows: Vec<Vec<String>>,
}

/// The characters of rows of cells.
pub open spec fn row_texts(rows: Seq<Vec<String>>) -> Seq<Seq<Seq<char>>> {
    rows.map_values(|row: Vec<String>| texts(row@))
}

/// Why a request could not be met.
#[derive(Debug)]
pub struct ProviderError {
    pub code: String,
    pub message: String,
    pub retryable: bool,
    pub details: Option<JsonValue>,
}

/// Why a request could not be met, as mathematics.
pub struct ErrorView {
    pub code: Seq<char>,
    pub message: Seq<char>,
    pub retryable: bool,
    pub details: Option<Json>,
}

impl View for ProviderError {
    type V = ErrorView;

    open spec fn view(&self) -> ErrorView {
        ErrorView {
            code: self.code@,
            message: self.message@,
            retryable: self.retryable,
            details: opt_json(self.details),
        }
    }
}

/// An error that is not worth another try and has no details.
pub open spec fn plain_error(code: Seq<char>, message: Seq<char>) -> ErrorView {
    ErrorView { code, message, retryable: false, details: None }
}

/// An error in words.
pub open spec fn error_text(error: ErrorView) -> Seq<char> {
    error.code + ": "@ + error.message
}

impl ProviderError {
    /// An error that is not worth another try and has no details.
    pub fn new(code: &str, message: &str) -> (error: ProviderError)
        ensures
            error@ == plain_error(code@, message@),
    {
        ProviderError {
            code: code.to_owned(),
            message: message.to_owned(),
            retryable: false,
            details: None,
        }
    }

    /// The error, with another answer to whether a new try is worth it.
    pub fn retryable(self, retryable: bool) -> (error: ProviderError)
        ensures
            error@ == (ErrorView { retryable, ..self@ }),
    {
        ProviderError {
            code: self.code,
            message: self.message,
            retryable,
            details: self.details,
        }
    }

    /// The error with details.
    pub fn with_details(self, details: JsonValue) -> (error: ProviderError)
        ensures
            error@ == (ErrorView { details: Some(details.model()), ..self@ }),
    {
        ProviderError {
            code: self.code,
            message: self.message,
            retryable: self.retryable,
            details: Some(details),
        }
    }

    /// The error in words.
    pub fn text(&self) -> (text: String)
        ensures
            text@ == error_text(self@),
    {
        let mut text = self.code.clone();
        text.append(": ");
        text.append(self.message.as_str());
        text
    }
}

} // verus!
