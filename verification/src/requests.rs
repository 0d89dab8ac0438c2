//! What tools are asked for: their parameters, and what is made of them
//! before anything is read or written.

use crate::calendar::{is_time_pattern, time_pattern};
use crate::date::{iso_text, is_after, is_date, month_text, parsed_date, CalendarDate, NaiveDate};
use crate::hr_core::{
    plain_error, target_views, AttendanceChange, ChangeView, ErrorView, FixTarget, ProviderError,
    TargetView, WriteMode,
};
use crate::months::{first_of_month, month_shifted, month_start, previous_month_start};
use crate::text::{opt_str, split_once, split_once_at};
use crate::use_cases::{hours_view, targets_of_date, targets_on};
use vstd::prelude::*;

verus! {

/// Which month is wanted.
#[derive(Debug)]
pub struct MonthParam {
    /// The month, as `YYYY-MM`.
    pub month: String,
}

/// When one came or left.
#[derive(Debug)]
pub struct ClockParam {
    /// The time, as `HH:MM`.
    pub time: String,
    /// Whether the write is carried out.
    pub execute: Option<bool>,
}

/// Which days are to be filled.
#[derive(Debug)]
pub struct FillParam {
    /// The first date, as `YYYY-MM-DD`.
    pub from: String,
    /// The last date, as `YYYY-MM-DD`.
    pub to: String,
    /// When the days start, as `HH:MM`.
    pub entry: String,
    /// When the days end, as `HH:MM`.
    pub exit: String,
    /// The kind of attendance.
    pub attendance_type: Option<String>,
    /// Whether the write is carried out.
    pub execute: Option<bool>,
}

/// How the open days of a month are to be filled.
#[derive(Debug)]
pub struct AutoFillParam {
    /// The month, as `YYYY-MM`; the current one where it is left out.
    pub month: Option<String>,
    /// The kind of attendance, which is needed unless there are hours.
    pub attendance_type: Option<String>,
    /// The hours, as `HH:MM-HH:MM`.
    pub hours: Option<String>,
    /// Whether Fridays and Saturdays are filled too.
    pub include_weekends: Option<bool>,
    /// How many days may be filled, 10 where it is left out.
    pub max_days: Option<u32>,
    /// Whether the write is carried out.
    pub execute: Option<bool>,
}

/// How many months of salary are wanted.
#[derive(Debug)]
pub struct SalaryParam {
    /// How many months, 3 where it is left out.
    pub months: Option<u32>,
}

/// Which day is to be put right, and how.
#[derive(Debug)]
pub struct ResolveParam {
    /// The date, as `YYYY-MM-DD`.
    pub date: String,
    /// The kind of attendance.
    pub attendance_type: Option<String>,
    /// The hours, as `HH:MM-HH:MM`.
    pub hours: Option<String>,
    /// Whether the write is carried out.
    pub execute: Option<bool>,
}

/// Which month an overview is wanted of.
#[derive(Debug)]
pub struct OverviewParam {
    /// The month, as `YYYY-MM`; the current one where it is left out.
    pub month: Option<String>,
}

/// Which payslip is wanted, and where it goes.
#[derive(Debug)]
pub struct PayslipDownloadParam {
    /// The month, as `YYYY-MM`; the one before the current where it is left out.
    pub month: Option<String>,
    /// Where the document is stored.
    pub output_path: Option<String>,
    /// Whether the document itself is answered.
    pub with_bytes: Option<bool>,
}

// ---------------------------------------------------------------------------
// Dates and hours
// ---------------------------------------------------------------------------

/// The month that a text names, or why it names none.
pub open spec fn month_named(text: Seq<char>) -> Result<CalendarDate, Seq<char>> {
    parsed_date(text + "-01"@, "%Y-%m-%d"@)
}

/// The date that a text names, or why it names none.
pub open spec fn date_named(text: Seq<char>) -> Result<CalendarDate, Seq<char>> {
    parsed_date(text, "%Y-%m-%d"@)
}

/// Reads a month, as `YYYY-MM`.
pub fn read_month(value: &str) -> (month: Result<NaiveDate, String>)
    ensures
        match month {
            Ok(month) => month_named(value@) == Ok::<CalendarDate, Seq<char>>(month@) && is_date(
                month@,
            ),
            Err(reason) => month_named(value@) == Err::<CalendarDate, Seq<char>>(reason@),
        },
{
    let mut text = value.to_owned();
    text.append("-01");
    NaiveDate::parse_from_str(text.as_str(), "%Y-%m-%d")
}

/// Reads a date, as `YYYY-MM-DD`.
pub fn read_date(value: &str) -> (date: Result<NaiveDate, String>)
    ensures
        match date {
            Ok(date) => date_named(value@) == Ok::<CalendarDate, Seq<char>>(date@) && is_date(
                date@,
            ),
            Err(reason) => date_named(value@) == Err::<CalendarDate, Seq<char>>(reason@),
        },
{
    NaiveDate::parse_from_str(value, "%Y-%m-%d")
}

/// The error for a text that names no month.
pub open spec fn no_month(value: Seq<char>, reason: Seq<char>) -> ErrorView {
    plain_error("invalid_month"@, "invalid month '"@ + value + "': "@ + reason)
}

/// The error for a text that names no date.
pub open spec fn no_date(value: Seq<char>, reason: Seq<char>) -> ErrorView {
    plain_error("invalid_date"@, "invalid date '"@ + value + "': "@ + reason)
}

/// Reads a month that a tool is asked for.
pub fn parse_month(value: &str) -> (month: Result<NaiveDate, ProviderError>)
    ensures
        match (month, month_named(value@)) {
            (Ok(month), Ok(named)) => month@ == named && is_date(month@),
            (Err(error), Err(reason)) => error@ == no_month(value@, reason),
            _ => false,
        },
{
    match read_month(value) {
        Ok(month) => Ok(month),
        Err(reason) => {
            let mut message = "invalid month '".to_owned();
            message.append(value);
            message.append("': ");
            message.append(reason.as_str());
            Err(ProviderError::new("invalid_month", message.as_str()))
        },
    }
}

/// Reads a date that a tool is asked for.
pub fn parse_date(value: &str) -> (date: Result<NaiveDate, ProviderError>)
    ensures
        match (date, date_named(value@)) {
            (Ok(date), Ok(named)) => date@ == named && is_date(date@),
            (Err(error), Err(reason)) => error@ == no_date(value@, reason),
            _ => false,
        },
{
    match read_date(value) {
        Ok(date) => Ok(date),
        Err(reason) => {
            let mut message = "invalid date '".to_owned();
            message.append(value);
            message.append("': ");
            message.append(reason.as_str());
            Err(ProviderError::new("invalid_date", message.as_str()))
        },
    }
}

/// The month that is meant, where `otherwise` is meant by nothing.
pub open spec fn month_meant(
    value: Option<Seq<char>>,
    otherwise: CalendarDate,
) -> Result<CalendarDate, ErrorView> {
    match value {
        Some(value) => match month_named(value) {
            Ok(month) => Ok(month),
            Err(reason) => Err(no_month(value, reason)),
        },
        None => Ok(otherwise),
    }
}

/// Whether an outcome is the one that is meant.
pub open spec fn is_month(
    outcome: Result<NaiveDate, ProviderError>,
    meant: Result<CalendarDate, ErrorView>,
) -> bool {
    match (outcome, meant) {
        (Ok(month), Ok(wanted)) => month@ == wanted && is_date(month@),
        (Err(error), Err(wanted)) => error@ == wanted,
        _ => false,
    }
}

/// Reads a month; the current one where there is none.
pub fn parse_month_or_current(value: Option<&str>, today: NaiveDate) -> (month: Result<
    NaiveDate,
    ProviderError,
>)
    ensures
        is_month(month, month_meant(opt_str(value), first_of_month(today@))),
{
    match value {
        Some(value) => parse_month(value),
        None => Ok(month_start(today)),
    }
}

/// Reads a month; the one before the current where there is none.
pub fn parse_month_or_previous(value: Option<&str>, today: NaiveDate) -> (month: Result<
    NaiveDate,
    ProviderError,
>)
    requires
        is_date(month_shifted(today@, -1)),
    ensures
        is_month(month, month_meant(opt_str(value), month_shifted(today@, -1))),
{
    match value {
        Some(value) => parse_month(value),
        None => Ok(previous_month_start(today)),
    }
}

/// The error for hours that are not two times.
pub open spec fn no_hours() -> ErrorView {
    plain_error("invalid_hours"@, "hours must be in HH:MM-HH:MM format"@)
}

/// The two times of a range of hours, where both are times.
pub open spec fn hours_range(text: Seq<char>) -> Option<(Seq<char>, Seq<char>)> {
    match split_once(text, '-') {
        Some(parts) => if time_pattern(parts.0) && time_pattern(parts.1) {
            Some(parts)
        } else {
            None
        },
        None => None,
    }
}

/// Reads hours that a tool is asked for, as `HH:MM-HH:MM`.
pub fn parse_hours_range(value: &str) -> (hours: Result<(String, String), ProviderError>)
    ensures
        match (hours, hours_range(value@)) {
            (Ok(hours), Some(range)) => (hours.0@, hours.1@) == range,
            (Err(error), None) => error@ == no_hours(),
            _ => false,
        },
{
    match split_once_at(value, '-') {
        Some(parts) => {
            if is_time_pattern(parts.0.as_str()) && is_time_pattern(parts.1.as_str()) {
                Ok(parts)
            } else {
                Err(ProviderError::new("invalid_hours", "hours must be in HH:MM-HH:MM format"))
            }
        },
        None => Err(ProviderError::new("invalid_hours", "hours must be in HH:MM-HH:MM format")),
    }
}

/// Whether a write is carried out.
pub open spec fn mode_for(execute: bool) -> WriteMode {
    if execute {
        WriteMode::Execute
    } else {
        WriteMode::DryRun
    }
}

/// Whether a write is carried out.
pub fn write_mode(execute: bool) -> (mode: WriteMode)
    ensures
        mode == mode_for(execute),
{
    if execute {
        WriteMode::Execute
    } else {
        WriteMode::DryRun
    }
}

/// A value, or another where it is left out.
pub open spec fn or_default<A>(value: Option<A>, default: A) -> A {
    match value {
        Some(value) => value,
        None => default,
    }
}

/// Whether a write is carried out; it is not where nothing is said.
pub fn requested_mode(execute: Option<bool>) -> (mode: WriteMode)
    ensures
        mode == mode_for(or_default(execute, false)),
{
    write_mode(
        match execute {
            Some(execute) => execute,
            None => false,
        },
    )
}

/// How many months of salary are wanted.
pub fn requested_months(param: &SalaryParam) -> (months: u32)
    ensures
        months == or_default(param.months, 3u32),
{
    match param.months {
        Some(months) => months,
        None => 3,
    }
}

// ---------------------------------------------------------------------------
// Writes
// ---------------------------------------------------------------------------

/// What is written when one comes: the time, as a day of the usual kind.
pub open spec fn clock_in_view(date: CalendarDate, time: Seq<char>) -> ChangeView {
    ChangeView {
        date,
        attendance_type_code: None,
        use_default_attendance_type: true,
        entry_time: Some(time),
        exit_time: None,
        comment: None,
        clear_entry: false,
        clear_exit: false,
        clear_comment: false,
    }
}

/// What is written when one leaves: the time, and nothing else.
pub open spec fn clock_out_view(date: CalendarDate, time: Seq<char>) -> ChangeView {
    ChangeView {
        use_default_attendance_type: false,
        entry_time: None,
        exit_time: Some(time),
        ..clock_in_view(date, time)
    }
}

/// What is written when one comes.
pub fn clock_in_change(date: NaiveDate, time: &str) -> (change: AttendanceChange)
    ensures
        change@ == clock_in_view(date@, time@),
{
    AttendanceChange {
        date,
        attendance_type_code: None,
        use_default_attendance_type: true,
        entry_time: Some(time.to_owned()),
        exit_time: None,
        comment: None,
        clear_entry: false,
        clear_exit: false,
        clear_comment: false,
    }
}

/// What is written when one leaves.
pub fn clock_out_change(date: NaiveDate, time: &str) -> (change: AttendanceChange)
    ensures
        change@ == clock_out_view(date@, time@),
{
    AttendanceChange {
        date,
        attendance_type_code: None,
        use_default_attendance_type: false,
        entry_time: None,
        exit_time: Some(time.to_owned()),
        comment: None,
        clear_entry: false,
        clear_exit: false,
        clear_comment: false,
    }
}

/// The dates that are to be filled, or why there are none.
pub open spec fn range_asked(from: Seq<char>, to: Seq<char>) -> Result<
    (CalendarDate, CalendarDate),
    ErrorView,
> {
    match (date_named(from), date_named(to)) {
        (Err(reason), _) => Err(no_date(from, reason)),
        (_, Err(reason)) => Err(no_date(to, reason)),
        (Ok(first), Ok(last)) => if is_after(first, last) {
            Err(
                plain_error("invalid_fill_range"@, "'from' must be before or equal to 'to'"@),
            )
        } else {
            Ok((first, last))
        },
    }
}

/// Reads which days are to be filled.
pub fn parse_fill_range(param: &FillParam) -> (range: Result<
    (NaiveDate, NaiveDate),
    ProviderError,
>)
    ensures
        match (range, range_asked(param.from@, param.to@)) {
            (Ok(range), Ok(asked)) => (range.0@, range.1@) == asked && is_date(range.0@)
                && is_date(range.1@),
            (Err(error), Err(asked)) => error@ == asked,
            _ => false,
        },
{
    let from = match parse_date(param.from.as_str()) {
        Ok(from) => from,
        Err(error) => {
            return Err(error);
        },
    };
    let to = match parse_date(param.to.as_str()) {
        Ok(to) => to,
        Err(error) => {
            return Err(error);
        },
    };
    if from.is_after(to) {
        return Err(
            ProviderError::new("invalid_fill_range", "'from' must be before or equal to 'to'"),
        );
    }
    Ok((from, to))
}

/// How the open days of a month are to be filled.
#[derive(Debug)]
pub struct AutoFillRequest {
    pub month: NaiveDate,
    pub hours: Option<(String, String)>,
    pub include_weekends: bool,
    pub max_days: u32,
    pub mode: WriteMode,
}

/// The hours that are asked for, or why they are none.
pub open spec fn hours_asked(hours: Option<Seq<char>>) -> Result<
    Option<(Seq<char>, Seq<char>)>,
    ErrorView,
> {
    match hours {
        Some(hours) => match hours_range(hours) {
            Some(range) => Ok(Some(range)),
            None => Err(no_hours()),
        },
        None => Ok(None),
    }
}

/// Reads hours, where there are any.
pub fn parse_hours(hours: &Option<String>) -> (parsed: Result<
    Option<(String, String)>,
    ProviderError,
>)
    ensures
        match (parsed, hours_asked(crate::text::opt_text(*hours))) {
            (Ok(parsed), Ok(asked)) => hours_view(parsed) == asked,
            (Err(error), Err(asked)) => error@ == asked,
            _ => false,
        },
{
    match hours {
        Some(hours) => match parse_hours_range(hours.as_str()) {
            Ok(parts) => Ok(Some(parts)),
            Err(error) => Err(error),
        },
        None => Ok(None),
    }
}

/// Why a month cannot be filled as it is asked for: a month that is none,
/// hours that are none, or neither a kind nor hours.
pub open spec fn auto_fill_refusal(param: AutoFillParam, today: CalendarDate) -> Option<ErrorView> {
    match (
        month_meant(crate::text::opt_text(param.month), first_of_month(today)),
        hours_asked(crate::text::opt_text(param.hours)),
    ) {
        (Err(error), _) => Some(error),
        (_, Err(error)) => Some(error),
        (Ok(_), Ok(hours)) => if param.attendance_type is None && hours is None {
            Some(
                plain_error(
                    "invalid_auto_fill_request"@,
                    "auto-fill requires type or hours parameter"@,
                ),
            )
        } else {
            None
        },
    }
}

/// Reads how the open days of a month are to be filled.
pub fn parse_auto_fill(param: &AutoFillParam, today: NaiveDate) -> (request: Result<
    AutoFillRequest,
    ProviderError,
>)
    ensures
        match request {
            Ok(request) => {
                &&& auto_fill_refusal(*param, today@) is None
                &&& month_meant(crate::text::opt_text(param.month), first_of_month(today@)) == Ok::<
                    CalendarDate,
                    ErrorView,
                >(request.month@)
                &&& is_date(request.month@)
                &&& hours_asked(crate::text::opt_text(param.hours)) == Ok::<
                    Option<(Seq<char>, Seq<char>)>,
                    ErrorView,
                >(hours_view(request.hours))
                &&& request.include_weekends == or_default(param.include_weekends, false)
                &&& request.max_days == or_default(param.max_days, 10u32)
                &&& request.mode == mode_for(or_default(param.execute, false))
            },
            Err(error) => auto_fill_refusal(*param, today@) == Some(error@),
        },
{
    let month = match parse_month_or_current(crate::text::borrow_opt(&param.month), today) {
        Ok(month) => month,
        Err(error) => {
            return Err(error);
        },
    };
    let hours = match parse_hours(&param.hours) {
        Ok(hours) => hours,
        Err(error) => {
            return Err(error);
        },
    };
    if param.attendance_type.is_none() && hours.is_none() {
        return Err(
            ProviderError::new(
                "invalid_auto_fill_request",
                "auto-fill requires type or hours parameter",
            ),
        );
    }
    Ok(
        AutoFillRequest {
            month,
            hours,
            include_weekends: match param.include_weekends {
                Some(include_weekends) => include_weekends,
                None => false,
            },
            max_days: match param.max_days {
                Some(max_days) => max_days,
                None => 10,
            },
            mode: requested_mode(param.execute),
        },
    )
}

/// Checks that a payslip is wanted somewhere.
pub fn check_payslip_request(param: &PayslipDownloadParam) -> (refusal: Option<ProviderError>)
    ensures
        match refusal {
            Some(error) => !or_default(param.with_bytes, false) && param.output_path is None
                && error@ == plain_error(
                "invalid_payslip_request"@,
                "set include_bytes=true or provide output_path"@,
            ),
            None => or_default(param.with_bytes, false) || param.output_path is Some,
        },
{
    let with_bytes = match param.with_bytes {
        Some(with_bytes) => with_bytes,
        None => false,
    };
    if !with_bytes && param.output_path.is_none() {
        Some(
            ProviderError::new(
                "invalid_payslip_request",
                "set include_bytes=true or provide output_path",
            ),
        )
    } else {
        None
    }
}

// ---------------------------------------------------------------------------
// Targets
// ---------------------------------------------------------------------------

/// The one target of a date, or why a tool is given none.
pub open spec fn only_target(targets: Seq<TargetView>, date: CalendarDate) -> Result<
    TargetView,
    ErrorView,
> {
    let found = targets_on(targets, date);
    if found.len() == 1 {
        Ok(found[0])
    } else if found.len() == 0 {
        Err(
            plain_error(
                "fix_target_not_found"@,
                "no fix target found for "@ + iso_text(date) + ". Inspect shaon_errors for "@
                    + month_text(date) + " first."@,
            ),
        )
    } else {
        Err(
            plain_error(
                "multiple_fix_targets"@,
                "multiple fix targets found for "@ + iso_text(date)
                    + ". Inspect shaon_errors for that month first."@,
            ),
        )
    }
}

/// Finds the one target of a date for a tool.
pub fn find_fix_target(targets: &Vec<FixTarget>, date: NaiveDate) -> (target: Result<
    FixTarget,
    ProviderError,
>)
    ensures
        match (target, only_target(target_views(targets@), date@)) {
            (Ok(target), Ok(only)) => target@ == only,
            (Err(error), Err(only)) => error@ == only,
            _ => false,
        },
{
    let found = targets_of_date(targets, date);
    assert(target_views(found@).len() == found.len());
    if found.len() == 1 {
        assert(target_views(found@)[0] == found@[0]@);
        Ok(found[0].copy())
    } else if found.len() == 0 {
        let mut message = "no fix target found for ".to_owned();
        message.append(date.iso().as_str());
        message.append(". Inspect shaon_errors for ");
        message.append(date.year_month().as_str());
        message.append(" first.");
        Err(ProviderError::new("fix_target_not_found", message.as_str()))
    } else {
        let mut message = "multiple fix targets found for ".to_owned();
        message.append(date.iso().as_str());
        message.append(". Inspect shaon_errors for that month first.");
        Err(ProviderError::new("multiple_fix_targets", message.as_str()))
    }
}

} // verus!
