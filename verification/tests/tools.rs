//! What tools answer.

use shaon::date::NaiveDate;
use shaon::fields::FormFields;
use shaon::hr_core::{
    AbsenceSymbol, AttendanceSource, AttendanceType, CalendarDay, DocumentDownload, FixTarget,
    MonthCalendar, ProviderError, ReportTable, SalaryEntry, SalarySummary, UserIdentity,
    WritePreview,
};
use shaon::json::{JsonValue, ObjectBuilder};
use shaon::requests::FillParam;
use shaon::responses::{
    absences_response, build_calendar_response, build_detailed_overview_response,
    build_errors_response as errors_of, build_overview_response, build_report_response,
    build_status_response, error_response, provider_write_output, subdomain_types_response,
    table_response, write_preview_json,
};
use shaon::tools::{
    auto_fill_response, download_response, fill_response, payslip_bytes_response,
    payslip_file_response, salary_response, short_errors_response, short_fill_response,
    short_overview_response, short_status_response,
};
use shaon::use_cases;

fn metadata(pairs: &[(&str, &str)]) -> FormFields {
    let mut fields = FormFields::new();
    for (key, value) in pairs {
        fields.insert(key.to_string(), value.to_string());
    }
    fields
}

/// The value at a place of an array.
fn item<'a>(value: &'a JsonValue, key: &str, index: usize) -> &'a JsonValue {
    match value.get(key) {
        Some(JsonValue::Array(values)) => &values[index],
        _ => panic!("no array {key}"),
    }
}

/// The text under a name.
fn text<'a>(value: &'a JsonValue, key: &str) -> Option<&'a str> {
    value.get(key).and_then(|found| found.as_str())
}

fn sample_overview(targets: Vec<FixTarget>) -> use_cases::OverviewData {
    let month = NaiveDate::from_ymd_opt(2026, 4, 1).unwrap();
    let fixable_targets = targets.iter().map(|target| target.copy()).collect();
    let missing_day = CalendarDay {
        date: NaiveDate::from_ymd_opt(2026, 4, 9).unwrap(),
        day_name: "Wed".to_string(),
        has_error: false,
        error_message: None,
        entry_time: None,
        exit_time: None,
        attendance_type: None,
        total_hours: None,
        source: AttendanceSource::Unreported,
    };
    let error_day = CalendarDay {
        date: NaiveDate::from_ymd_opt(2026, 4, 10).unwrap(),
        day_name: "Thu".to_string(),
        has_error: true,
        error_message: Some("missing report".to_string()),
        entry_time: None,
        exit_time: None,
        attendance_type: None,
        total_hours: None,
        source: AttendanceSource::Unreported,
    };

    use_cases::OverviewData {
        identity: UserIdentity {
            user_id: "123".to_string(),
            employee_id: "123".to_string(),
            display_name: "Test User".to_string(),
            is_manager: false,
        },
        month,
        calendar: MonthCalendar {
            month,
            employee_id: "123".to_string(),
            days: vec![missing_day.clone(), error_day.clone()],
        },
        attendance_types: Vec::new(),
        summary: use_cases::OverviewSummary {
            total_work_days: 2,
            reported: 0,
            missing: 1,
            errors: 1,
        },
        error_days: vec![use_cases::OverviewErrorDay {
            day: error_day,
            fix_targets: targets,
        }],
        missing_days: vec![missing_day.date],
        suggested_actions: vec![
            use_cases::SuggestedActionPlan::FixErrors {
                month,
                count: 1,
                fixable_targets,
            },
            use_cases::SuggestedActionPlan::FillMissing {
                from: missing_day.date,
                to: missing_day.date,
                count: 1,
            },
        ],
    }
}

#[test]
fn build_status_response_uses_stable_day_schema() {
    let overview = sample_overview(Vec::new());

    let value = build_status_response(&overview.calendar);

    assert_eq!(text(&value, "month"), Some("2026-04"));
    assert!(item(&value, "days", 0).get("day_name").is_some());
    assert!(item(&value, "days", 0).get("day").is_none());
    assert!(item(&value, "days", 0).get("source").is_some());
}

#[test]
fn build_errors_response_keeps_empty_fix_param_candidates_visible() {
    let overview = sample_overview(Vec::new());

    let value = errors_of(&overview).to_json();

    let candidates = item(&value, "errors", 0).get("fix_params_candidates");
    assert!(candidates.is_some());
    assert!(matches!(candidates, Some(JsonValue::Array(found)) if found.len() == 0));
}

#[test]
fn build_overview_response_uses_structured_missing_days_and_actions() {
    let date = NaiveDate::from_ymd_opt(2026, 4, 10).unwrap();
    let overview = sample_overview(vec![FixTarget {
        date,
        issue_kind: Some("missing_report".to_string()),
        provider_ref: "report:error".to_string(),
        metadata: metadata(&[("report_id", "report"), ("error_type", "error")]),
    }]);

    let value = build_overview_response(&overview);

    assert_eq!(text(item(&value, "missing_days", 0), "date"), Some("2026-04-09"));
    assert_eq!(text(item(&value, "missing_days", 0), "day_name"), Some("Wed"));
    assert_eq!(text(item(&value, "suggested_actions", 0), "kind"), Some("fix_errors"));
    assert_eq!(text(item(&value, "suggested_actions", 0), "month"), Some("2026-04"));
    assert!(item(&value, "suggested_actions", 0).get("params").is_none());
    assert_eq!(text(item(&value, "suggested_actions", 1), "kind"), Some("fill_missing"));
    assert_eq!(text(item(&value, "suggested_actions", 1), "from"), Some("2026-04-09"));
}

fn preview(executed: bool) -> WritePreview {
    let mut debug = ObjectBuilder::new();
    debug.put_text("url", "https://x");
    debug.put_text("employee_id", "27");
    WritePreview {
        executed,
        summary: "done".to_string(),
        provider_debug: Some(debug.build()),
    }
}

fn keys(value: &JsonValue) -> Vec<&str> {
    match value {
        JsonValue::Object(members) => members.iter().map(|member| member.0.as_str()).collect(),
        _ => panic!("no object"),
    }
}

#[test]
fn writes_are_answered_with_what_is_known() {
    let value = write_preview_json("clock_in", &preview(true));
    assert_eq!(text(&value, "action"), Some("clock_in"));
    assert_eq!(text(&value, "url"), Some("https://x"));
    assert!(matches!(value.get("executed"), Some(JsonValue::Bool(true))));
    assert!(matches!(value.get("payload_display"), Some(JsonValue::Null)));
    assert!(matches!(
        value.get("button").and_then(|button| button.get("name")),
        Some(JsonValue::Null)
    ));
    let value = provider_write_output("resolve", &preview(false));
    assert_eq!(
        keys(&value),
        vec!["action", "mode", "executed", "summary", "url", "employee_id"]
    );
    assert_eq!(text(&value, "mode"), Some("dry_run"));
}

#[test]
fn ranges_are_answered_day_by_day() {
    let param = FillParam {
        from: "2026-04-09".to_string(),
        to: "2026-04-12".to_string(),
        entry: "09:00".to_string(),
        exit: "18:00".to_string(),
        attendance_type: None,
        execute: Some(true),
    };
    let dates = vec![
        NaiveDate::from_ymd_opt(2026, 4, 9).unwrap(),
        NaiveDate::from_ymd_opt(2026, 4, 12).unwrap(),
    ];
    let previews = vec![preview(true), preview(true)];
    let value = fill_response(&param, &dates, &previews);
    assert!(matches!(value.get("days_processed"), Some(JsonValue::Number(Some(2), _))));
    assert!(matches!(value.get("execute"), Some(JsonValue::Bool(true))));
    assert_eq!(text(item(&value, "results", 1), "date"), Some("2026-04-12"));
    assert_eq!(text(item(&value, "results", 1), "action"), Some("fill_day"));
    let value = short_fill_response(&param, &dates, &previews);
    assert_eq!(keys(item(&value, "results", 0)), vec!["date", "executed", "employee_id"]);
}

#[test]
fn errors_are_answered_in_an_envelope() {
    let error = ProviderError::new("code", "message").retryable(true);
    let value = error_response(error);
    let inner = value.get("error").unwrap();
    assert_eq!(text(inner, "code"), Some("code"));
    assert_eq!(text(inner, "message"), Some("message"));
    assert!(matches!(inner.get("retryable"), Some(JsonValue::Bool(true))));
    assert!(matches!(inner.get("details"), Some(JsonValue::Null)));
}

#[test]
fn short_overviews_keep_what_actions_are_about_apart() {
    let date = NaiveDate::from_ymd_opt(2026, 4, 10).unwrap();
    let target = |reference: &str| FixTarget {
        date,
        issue_kind: None,
        provider_ref: reference.to_string(),
        metadata: metadata(&[]),
    };
    let overview = sample_overview(vec![target("a:1"), target("b:2")]);
    let value = short_overview_response(&overview);
    let action = item(&value, "suggested_actions", 0);
    assert_eq!(text(action.get("params").unwrap(), "month"), Some("2026-04"));
    assert_eq!(item(&value, "missing_days", 0).as_str(), Some("2026-04-09"));
    let fix = item(&value, "error_days", 0).get("fix_params").unwrap();
    assert_eq!(text(fix, "report_id"), Some("b"));
    let value = short_errors_response(&overview);
    assert!(matches!(value.get("error_count"), Some(JsonValue::Number(Some(1), _))));
    let value = short_status_response(&overview.calendar);
    assert_eq!(text(item(&value, "days", 0), "day"), Some("Wed"));
    let detailed = build_detailed_overview_response(&overview);
    assert_eq!(text(item(&detailed, "days", 0), "day_name"), Some("Wed"));
    assert_eq!(text(&build_calendar_response(&overview.calendar), "month"), Some("2026-04-01"));
}

#[test]
fn reports_are_answered_with_their_numbers() {
    let table = ReportTable {
        name: "hours".to_string(),
        headers: vec!["A".to_string(), "B".to_string()],
        rows: vec![vec!["1".to_string(), "2".to_string()]],
    };
    let value = build_report_response("named", "hours", &table);
    assert!(matches!(value.get("column_count"), Some(JsonValue::Number(Some(2), _))));
    assert!(matches!(value.get("row_count"), Some(JsonValue::Number(Some(1), _))));
    assert_eq!(text(item(&value, "columns", 1), "name"), Some("B"));
    assert_eq!(item(item(&value, "rows", 0), "cells", 1).as_str(), Some("2"));
    assert_eq!(keys(&table_response(&table)), vec!["name", "headers", "rows"]);
}

#[test]
fn payslips_are_answered_in_base64() {
    let month = NaiveDate::from_ymd_opt(2026, 3, 1).unwrap();
    let value = payslip_bytes_response(month, &b"%PDF".to_vec(), &None);
    assert_eq!(text(&value, "bytes_base64"), Some("JVBERg=="));
    assert!(matches!(value.get("path"), Some(JsonValue::Null)));
    assert!(matches!(value.get("size_bytes"), Some(JsonValue::Number(Some(4), _))));
    let download = DocumentDownload { month, path: "a.pdf".to_string(), size_bytes: 4 };
    assert_eq!(text(&payslip_file_response(&download), "path"), Some("a.pdf"));
    assert_eq!(text(&download_response(&download), "month"), Some("2026-03-01"));
}

#[test]
fn salaries_kinds_and_symbols_are_answered() {
    let month = NaiveDate::from_ymd_opt(2026, 3, 1).unwrap();
    let summary = SalarySummary {
        label: "gross".to_string(),
        entries: vec![SalaryEntry { month, amount: 5 }],
        latest_change: None,
    };
    let value = salary_response(&summary, JsonValue::Null, false);
    assert_eq!(text(item(&value, "entries", 0), "month"), Some("2026-03"));
    let value = salary_response(&summary, JsonValue::Null, true);
    assert_eq!(text(item(&value, "entries", 0), "month"), Some("2026-03-01"));
    let kinds = vec![AttendanceType {
        code: "0".to_string(),
        name_he: "x".to_string(),
        name_en: None,
    }];
    let value = subdomain_types_response("acme", &kinds);
    assert_eq!(text(item(&value, "types", 0), "code"), Some("0"));
    let symbols = vec![AbsenceSymbol {
        id: "481".to_string(),
        name: "y".to_string(),
        display_name: None,
    }];
    let value = absences_response(&symbols);
    assert!(matches!(value.get("symbol_count"), Some(JsonValue::Number(Some(1), _))));
    assert_eq!(text(item(&value, "symbols", 0), "id"), Some("481"));
}

#[test]
fn filled_months_are_answered() {
    let result = use_cases::AutoFillResult {
        month: "2026-04".to_string(),
        mode: "dry_run".to_string(),
        attendance_type: "work day".to_string(),
        filled: vec![use_cases::AutoFillDayResult {
            date: "2026-04-06 Mon".to_string(),
            attendance_type: "work day".to_string(),
            hours: None,
            status: "would_fill".to_string(),
            error: None,
        }],
        skipped: vec![use_cases::SkippedDay {
            date: "2026-04-10 Fri".to_string(),
            reason: "weekend".to_string(),
        }],
        summary: use_cases::AutoFillSummary {
            total_candidates: 1,
            filled: 1,
            skipped: 1,
            failed: 0,
        },
    };
    let value = auto_fill_response(&result);
    assert_eq!(text(item(&value, "filled", 0), "status"), Some("would_fill"));
    assert_eq!(text(item(&value, "skipped", 0), "reason"), Some("weekend"));
    assert!(matches!(
        value.get("summary").and_then(|summary| summary.get("skipped")),
        Some(JsonValue::Number(Some(1), _))
    ));
}
