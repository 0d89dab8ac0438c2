//! Overviews, ranges and the filling of months.

use shaon::date::NaiveDate;
use shaon::fields::FormFields;
use shaon::hr_core::{
    AttendanceSource, AttendanceType, CalendarDay, FixTarget, MonthCalendar, ProviderError,
    UserIdentity, WriteMode, WritePreview,
};
use shaon::use_cases::{
    auto_fill, auto_fill_changes, build_overview, describe_attendance_types, error_days, fill_dates,
    fill_range, fix_day, is_day_missing, is_day_partial, plan_auto_fill, resolve_attendance_type,
    AutoFillOptions, FillRangeOptions, SuggestedActionPlan,
};

fn date(day: u32) -> NaiveDate {
    NaiveDate::from_ymd_opt(2026, 4, day).unwrap()
}

fn blank(day: u32) -> CalendarDay {
    CalendarDay {
        date: date(day),
        day_name: date(day).weekday_name(),
        has_error: false,
        error_message: None,
        entry_time: None,
        exit_time: None,
        attendance_type: None,
        total_hours: None,
        source: AttendanceSource::Unreported,
    }
}

fn worked(day: u32) -> CalendarDay {
    CalendarDay {
        entry_time: Some("09:00".to_string()),
        exit_time: Some("18:00".to_string()),
        attendance_type: Some("work day".to_string()),
        source: AttendanceSource::UserReported,
        ..blank(day)
    }
}

fn failed(day: u32) -> CalendarDay {
    CalendarDay { has_error: true, ..blank(day) }
}

fn calendar(days: Vec<CalendarDay>) -> MonthCalendar {
    MonthCalendar { month: date(1), employee_id: "27".to_string(), days }
}

fn kinds() -> Vec<AttendanceType> {
    vec![
        AttendanceType {
            code: "0".to_string(),
            name_he: "יום עבודה".to_string(),
            name_en: Some("work day".to_string()),
        },
        AttendanceType { code: "481".to_string(), name_he: "חופשה".to_string(), name_en: None },
    ]
}

fn target(day: u32, reference: &str) -> FixTarget {
    FixTarget {
        date: date(day),
        issue_kind: None,
        provider_ref: reference.to_string(),
        metadata: FormFields::new(),
    }
}

fn identity() -> UserIdentity {
    UserIdentity {
        user_id: "1".to_string(),
        employee_id: "27".to_string(),
        display_name: "Test User".to_string(),
        is_manager: false,
    }
}

fn options(mode: WriteMode) -> AutoFillOptions {
    AutoFillOptions {
        type_code: Some("0".to_string()),
        type_display: "work day".to_string(),
        hours: Some(("09:00".to_string(), "18:00".to_string())),
        include_weekends: false,
        mode,
        max_days: 10,
        today: date(30),
    }
}

#[test]
fn overviews_count_the_days_that_have_come() {
    // The 5th of April 2026 is a Sunday, the 10th a Friday.
    let days = vec![worked(5), blank(6), failed(7), blank(8), blank(10)];
    let overview = build_overview(
        identity(),
        calendar(days),
        Ok(kinds()),
        Ok(vec![target(7, "a:63"), target(7, "b:18"), target(20, "c:1")]),
        date(1),
        date(7),
    );
    assert_eq!(overview.summary.total_work_days, 3);
    assert_eq!(overview.summary.reported, 1);
    assert_eq!(overview.summary.errors, 1);
    assert_eq!(overview.summary.missing, 1);
    assert_eq!(overview.missing_days, vec![date(6)]);
    assert_eq!(overview.error_days.len(), 1);
    assert_eq!(overview.error_days[0].fix_targets.len(), 2);
    assert_eq!(overview.error_days[0].fix_target().unwrap().provider_ref, "b:18");
    assert_eq!(overview.suggested_actions.len(), 2);
    assert!(matches!(
        overview.suggested_actions[0],
        SuggestedActionPlan::FixErrors { count: 1, .. }
    ));
    assert!(matches!(
        overview.suggested_actions[1],
        SuggestedActionPlan::FillMissing { count: 1, .. }
    ));
}

#[test]
fn overviews_do_without_what_could_not_be_read() {
    let lost = || ProviderError::new("lost", "lost");
    let overview = build_overview(
        identity(),
        calendar(vec![worked(5)]),
        Err(lost()),
        Err(lost()),
        date(1),
        date(30),
    );
    assert_eq!(overview.attendance_types.len(), 0);
    assert_eq!(overview.suggested_actions.len(), 0);
}

#[test]
fn ranges_leave_weekends_out() {
    let dates: Vec<u32> = fill_dates(date(9), date(12), false).iter().map(|day| day.day()).collect();
    assert_eq!(dates, vec![9, 12]);
    let dates: Vec<u32> = fill_dates(date(9), date(12), true).iter().map(|day| day.day()).collect();
    assert_eq!(dates, vec![9, 10, 11, 12]);
    assert_eq!(fill_dates(date(12), date(9), true).len(), 0);
}

#[test]
fn ranges_are_filled_day_by_day() {
    let asked = FillRangeOptions {
        attendance_type_code: None,
        hours: Some(("09:00".to_string(), "18:00".to_string())),
        include_weekends: false,
        mode: WriteMode::DryRun,
    };
    let changes = fill_range(date(9), date(12), &asked).unwrap();
    assert_eq!(changes.len(), 2);
    assert_eq!(changes[0].date, date(9));
    assert!(changes[0].use_default_attendance_type);
    assert_eq!(changes[1].exit_time.as_deref(), Some("18:00"));
    let refused = fill_range(date(12), date(9), &asked).unwrap_err();
    assert_eq!(refused.code, "invalid_fill_range");
    let nothing = FillRangeOptions {
        attendance_type_code: None,
        hours: None,
        include_weekends: false,
        mode: WriteMode::DryRun,
    };
    assert_eq!(fill_range(date(9), date(12), &nothing).unwrap_err().code, "invalid_fill_request");
}

#[test]
fn kinds_without_hours_clear_the_times() {
    let asked = FillRangeOptions {
        attendance_type_code: Some("481".to_string()),
        hours: None,
        include_weekends: true,
        mode: WriteMode::Execute,
    };
    let changes = fill_range(date(9), date(9), &asked).unwrap();
    assert!(changes[0].clear_entry && changes[0].clear_exit);
    assert!(!changes[0].use_default_attendance_type);
}

#[test]
fn fixes_need_a_kind_or_hours() {
    assert!(fix_day(&target(9, "a:1"), None, None).is_err());
    let change = fix_day(&target(9, "a:1"), Some("0".to_string()), None).unwrap();
    assert_eq!(change.date, date(9));
    assert_eq!(change.attendance_type_code.as_deref(), Some("0"));
}

#[test]
fn days_are_missing_or_partial() {
    assert!(is_day_missing(&blank(5)));
    assert!(!is_day_missing(&worked(5)));
    let mut partial = worked(5);
    partial.exit_time = None;
    assert!(is_day_partial(&partial));
    assert!(!is_day_partial(&worked(5)));
    assert!(!is_day_partial(&blank(5)));
}

#[test]
fn only_open_days_are_filled() {
    let mut partial = worked(8);
    partial.exit_time = None;
    partial.source = AttendanceSource::Unreported;
    let month = calendar(vec![worked(5), blank(6), partial, blank(10), blank(12)]);
    let asked = options(WriteMode::DryRun);
    let plan = plan_auto_fill(&month, &asked).unwrap();
    assert_eq!(plan.dates, vec![date(6), date(12)]);
    assert_eq!(plan.dates.len() + plan.skipped.len(), month.days.len());
    assert!(plan.skipped.iter().any(|day| day.reason == "partial_data" && day.date == "2026-04-08 Wed"));
    assert_eq!(auto_fill_changes(&plan, &asked).len(), 0);
    let changes = auto_fill_changes(&plan, &options(WriteMode::Execute));
    assert_eq!(changes.len(), 2);
    assert_eq!(changes[0].entry_time.as_deref(), Some("09:00"));
    let result = auto_fill(date(1), plan, &asked, &Vec::new());
    assert_eq!(result.mode, "dry_run");
    assert_eq!(result.month, "2026-04");
    assert_eq!(result.filled.len(), 2);
    assert_eq!(result.filled[0].date, "2026-04-06 Mon");
    assert_eq!(result.filled[0].status, "would_fill");
    assert_eq!(result.filled[0].hours.as_deref(), Some("09:00-18:00"));
    assert_eq!(result.summary.total_candidates, 2);
    assert_eq!(result.summary.filled, 2);
    assert_eq!(result.summary.skipped, 3);
}

#[test]
fn no_more_days_are_written_than_allowed() {
    let month = calendar(vec![blank(5), blank(6), blank(7)]);
    let mut asked = options(WriteMode::Execute);
    asked.max_days = 2;
    assert!(plan_auto_fill(&month, &asked).is_err());
    asked.mode = WriteMode::DryRun;
    assert!(plan_auto_fill(&month, &asked).is_ok());
    asked.mode = WriteMode::Execute;
    asked.max_days = 3;
    assert!(plan_auto_fill(&month, &asked).is_ok());
}

#[test]
fn days_that_fail_are_counted_apart() {
    let month = calendar(vec![blank(5), blank(6)]);
    let asked = options(WriteMode::Execute);
    let plan = plan_auto_fill(&month, &asked).unwrap();
    let fine = WritePreview { executed: true, summary: "ok".to_string(), provider_debug: None };
    let outcomes = vec![Ok(fine), Err(ProviderError::new("refused", "no"))];
    let result = auto_fill(date(1), plan, &asked, &outcomes);
    assert_eq!(result.mode, "executed");
    assert_eq!(result.filled[0].status, "success");
    assert_eq!(result.filled[1].status, "failed");
    assert!(result.filled[1].error.as_deref().unwrap().contains("no"));
    assert_eq!(result.summary.filled, 1);
    assert_eq!(result.summary.failed, 1);
}

#[test]
fn kinds_are_resolved_by_code_or_name() {
    assert!(resolve_attendance_type(None, Ok(kinds())).unwrap().is_none());
    let code = resolve_attendance_type(Some("77"), Err(ProviderError::new("x", "y"))).unwrap().unwrap();
    assert_eq!((code.code.as_str(), code.display.as_str()), ("77", "77"));
    let named = resolve_attendance_type(Some("WORK Day"), Ok(kinds())).unwrap().unwrap();
    assert_eq!((named.code.as_str(), named.display.as_str()), ("0", "work day"));
    let hebrew = resolve_attendance_type(Some("חופשה"), Ok(kinds())).unwrap().unwrap();
    assert_eq!((hebrew.code.as_str(), hebrew.display.as_str()), ("481", "חופשה"));
    let unknown = resolve_attendance_type(Some("party"), Ok(kinds())).unwrap_err();
    assert_eq!(unknown.code, "unknown_attendance_type");
    assert_eq!(unknown.text(), "unknown_attendance_type: Unknown attendance type 'party'");
}

#[test]
fn kinds_are_described() {
    assert_eq!(describe_attendance_types(&Vec::new()), "No attendance types available.");
    assert_eq!(
        describe_attendance_types(&kinds()),
        "Available attendance types:\n  0 -- יום עבודה (work day)\n  481 -- חופשה\n"
    );
}

#[test]
fn days_with_errors_are_found() {
    let found = error_days(&calendar(vec![worked(5), failed(6), failed(7)]));
    assert_eq!(found.len(), 2);
    assert_eq!(found[0].date, date(6));
}
