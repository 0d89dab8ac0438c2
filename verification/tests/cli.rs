//! What commands are asked for.

use shaon::cli::{
    attendance_source_label, auto_fill_needs_more, build_day_change, check_range,
    detailed_calendar_lines, find_fix_target_for_date, format_number, overview_lines,
    parse_hours_range, payslip_line, provider_preview_lines, requested_report, salary_lines,
    submit_preview_lines, today_action, today_submit, ReportRequest, TodayAction,
};
use shaon::date::NaiveDate;
use shaon::fields::FormFields;
use shaon::hr_core::{
    AttendanceSource, CalendarDay, DocumentDownload, FixTarget, MonthCalendar, ReportSpec,
    SalaryEntry, SalarySummary, UserIdentity, WritePreview,
};
use shaon::responses::build_errors_response;
use shaon::submit::SubmitPreview;
use shaon::use_cases;

fn metadata(pairs: &[(&str, &str)]) -> FormFields {
    let mut fields = FormFields::new();
    for (key, value) in pairs {
        fields.insert(key.to_string(), value.to_string());
    }
    fields
}

fn sample_overview(targets: Vec<FixTarget>) -> use_cases::OverviewData {
    let month = NaiveDate::from_ymd_opt(2026, 4, 1).unwrap();
    let calendar_day = CalendarDay {
        date: NaiveDate::from_ymd_opt(2026, 4, 10).unwrap(),
        day_name: "Thu".to_string(),
        has_error: true,
        error_message: Some("missing report".to_string()),
        entry_time: None,
        exit_time: None,
        attendance_type: None,
        total_hours: None,
        source: AttendanceSource::Unreported,
    };

    use_cases::OverviewData {
        identity: UserIdentity {
            user_id: "123".to_string(),
            employee_id: "123".to_string(),
            display_name: "Test User".to_string(),
            is_manager: false,
        },
        month,
        calendar: MonthCalendar {
            month,
            employee_id: "123".to_string(),
            days: vec![calendar_day.clone()],
        },
        attendance_types: Vec::new(),
        summary: use_cases::OverviewSummary {
            total_work_days: 1,
            reported: 0,
            missing: 1,
            errors: 1,
        },
        error_days: vec![use_cases::OverviewErrorDay {
            day: calendar_day,
            fix_targets: targets,
        }],
        missing_days: Vec::new(),
        suggested_actions: Vec::new(),
    }
}

#[test]
fn find_fix_target_for_date_returns_the_matching_target() {
    let target = FixTarget {
        date: NaiveDate::from_ymd_opt(2026, 4, 10).unwrap(),
        issue_kind: Some("missing_report".to_string()),
        provider_ref: "report:error".to_string(),
        metadata: metadata(&[("report_id", "report"), ("error_type", "error")]),
    };
    let overview = sample_overview(vec![target.copy()]);

    let found = find_fix_target_for_date(
        &overview.error_days[0].fix_targets,
        NaiveDate::from_ymd_opt(2026, 4, 10).unwrap(),
    )
    .ok()
    .unwrap();

    assert_eq!(found.date, target.date);
    assert_eq!(found.issue_kind, target.issue_kind);
    assert_eq!(found.provider_ref, target.provider_ref);
    assert_eq!(found.metadata.to_pairs(), target.metadata.to_pairs());
}

#[test]
fn find_fix_target_for_date_fails_when_missing() {
    let overview = sample_overview(Vec::new());

    let err = find_fix_target_for_date(
        &overview.error_days[0].fix_targets,
        NaiveDate::from_ymd_opt(2026, 4, 10).unwrap(),
    )
    .err()
    .unwrap();

    assert!(err
        .to_string()
        .contains("No fix target found for 2026-04-10"));
}

#[test]
fn find_fix_target_for_date_fails_when_multiple_targets_match() {
    let date = NaiveDate::from_ymd_opt(2026, 4, 10).unwrap();
    let overview = sample_overview(vec![
        FixTarget {
            date,
            issue_kind: Some("missing_report".to_string()),
            provider_ref: "report-1:63".to_string(),
            metadata: metadata(&[("report_id", "report-1"), ("error_type", "63")]),
        },
        FixTarget {
            date,
            issue_kind: Some("missing_report".to_string()),
            provider_ref: "report-2:18".to_string(),
            metadata: metadata(&[("report_id", "report-2"), ("error_type", "18")]),
        },
    ]);

    let err = find_fix_target_for_date(&overview.error_days[0].fix_targets, date)
        .err()
        .unwrap();

    assert!(err
        .to_string()
        .contains("Found multiple fix targets for 2026-04-10"));
}

#[test]
fn build_errors_response_preserves_multiple_fix_param_candidates() {
    let date = NaiveDate::from_ymd_opt(2026, 4, 10).unwrap();
    let overview = sample_overview(vec![
        FixTarget {
            date,
            issue_kind: Some("missing_report".to_string()),
            provider_ref: "report-1:63".to_string(),
            metadata: metadata(&[("report_id", "report-1"), ("error_type", "63")]),
        },
        FixTarget {
            date,
            issue_kind: Some("missing_report".to_string()),
            provider_ref: "report-2:18".to_string(),
            metadata: metadata(&[("report_id", "report-2"), ("error_type", "18")]),
        },
    ]);

    let response = build_errors_response(&overview);

    assert_eq!(response.error_count, 1);
    assert_eq!(response.errors[0].fix_params, None);
    assert_eq!(response.errors[0].fix_params_candidates.len(), 2);
}


#[test]
fn hours_are_two_times_of_day() {
    assert_eq!(
        parse_hours_range("09:00-18:00"),
        Ok(("09:00".to_string(), "18:00".to_string()))
    );
    let wrong = Err("hours must be in HH:MM-HH:MM format".to_string());
    assert_eq!(parse_hours_range("09:00"), wrong);
    assert_eq!(parse_hours_range("09:00-25:00"), wrong);
    assert_eq!(parse_hours_range("09:00-18:00-19:00"), wrong);
}

#[test]
fn a_day_is_reported_with_a_kind_or_hours() {
    let date = NaiveDate::from_ymd_opt(2026, 4, 10).unwrap();
    let hours = Some(("09:00".to_string(), "18:00".to_string()));
    let refused = build_day_change(date, None, None).unwrap_err();
    assert_eq!(refused, "attendance report day requires --type or --hours");
    let change = build_day_change(date, None, hours).unwrap();
    assert!(change.use_default_attendance_type);
    assert_eq!(change.entry_time.as_deref(), Some("09:00"));
    let change = build_day_change(date, Some("481".to_string()), None).unwrap();
    assert!(!change.use_default_attendance_type);
    assert!(change.entry_time.is_none() && !change.clear_entry);
}

#[test]
fn today_is_reported_in_or_out() {
    assert_eq!(today_action(true, false, true), Ok(TodayAction::In));
    assert_eq!(today_action(true, true, false), Ok(TodayAction::In));
    assert_eq!(today_action(false, true, false), Ok(TodayAction::Out));
    assert_eq!(
        today_action(false, false, false).unwrap_err(),
        "attendance report today requires one of --in or --out"
    );
    assert_eq!(
        today_action(false, true, true).unwrap_err(),
        "--type is only supported with `shaon attendance report today --in`"
    );
    let date = NaiveDate::from_ymd_opt(2026, 4, 10).unwrap();
    let comes = today_submit(TodayAction::In, date, "09:00", None);
    assert_eq!(comes.entry_time.as_deref(), Some("09:00"));
    assert!(comes.default_work_day && comes.exit_time.is_none());
    let named = today_submit(TodayAction::In, date, "09:00", Some("120".to_string()));
    assert!(!named.default_work_day);
    let leaves = today_submit(TodayAction::Out, date, "18:00", None);
    assert_eq!(leaves.exit_time.as_deref(), Some("18:00"));
    assert!(!leaves.default_work_day && leaves.entry_time.is_none());
}

#[test]
fn ranges_end_after_they_start() {
    let early = NaiveDate::from_ymd_opt(2026, 4, 9).unwrap();
    let late = NaiveDate::from_ymd_opt(2026, 4, 10).unwrap();
    assert_eq!(check_range(early, late), None);
    assert_eq!(check_range(early, early), None);
    assert_eq!(
        check_range(late, early).as_deref(),
        Some("--from must be before or equal to --to")
    );
}

#[test]
fn a_month_is_filled_with_a_kind_or_hours() {
    assert_eq!(
        auto_fill_needs_more(Some("list")),
        "attendance auto-fill requires --type or --hours.\nlist"
    );
    assert!(auto_fill_needs_more(None).ends_with("or pass --type <code>."));
}

#[test]
fn reports_have_a_kind_and_a_place() {
    let (kind, requested, spec) = requested_report(ReportRequest::Named("hours".to_string()));
    assert_eq!((kind, requested.as_str()), ("named", "hours"));
    assert!(matches!(spec, ReportSpec::Named(name) if name == "hours"));
    let (kind, requested, spec) = requested_report(ReportRequest::Sheet);
    assert_eq!((kind, requested.as_str()), ("sheet", "sheet"));
    assert!(matches!(spec, ReportSpec::Path(path) if path.ends_with("HoursAnalysis.aspx")));
    let (kind, _, spec) = requested_report(ReportRequest::Corrections);
    assert_eq!(kind, "corrections");
    assert!(matches!(spec, ReportSpec::Path(path) if path.ends_with("HoursReportLog.aspx")));
}

#[test]
fn numbers_are_written_in_groups() {
    assert_eq!(format_number(0), "0");
    assert_eq!(format_number(999), "999");
    assert_eq!(format_number(1000), "1,000");
    assert_eq!(format_number(12_345_067), "12,345,067");
    assert_eq!(format_number(u64::MAX), "18,446,744,073,709,551,615");
    for value in [7u64, 1_000_000, 1_002_003, 99_999] {
        assert_eq!(format_number(value).replace(',', ""), value.to_string());
    }
}

#[test]
fn overviews_are_shown() {
    let mut overview = sample_overview(Vec::new());
    let day = NaiveDate::from_ymd_opt(2026, 4, 9).unwrap();
    overview.missing_days = vec![day];
    overview.suggested_actions = vec![
        use_cases::SuggestedActionPlan::FixErrors {
            month: overview.month,
            count: 1,
            fixable_targets: Vec::new(),
        },
        use_cases::SuggestedActionPlan::FillMissing { from: day, to: day, count: 1 },
    ];
    assert_eq!(
        overview_lines(&overview),
        vec![
            "User: Test User (employee 123)",
            "Month: 2026-04 -- 0/1 reported, 1 errors, 1 missing",
            "",
            "Missing days:",
            "  2026-04-09 (Thu)",
            "",
            "Error days:",
            "  2026-04-10 (Thu) -- missing report",
            "",
            "Suggested actions:",
            "  [fix_errors] 1 day(s) have attendance errors -- shaon attendance errors --month 2026-04",
            "  [fill_missing] 1 work day(s) have no attendance report -- shaon attendance report range --from 2026-04-09 --to 2026-04-09 --type <type> --hours <HH:MM-HH:MM>",
        ]
    );
    overview.missing_days = Vec::new();
    overview.error_days = Vec::new();
    overview.suggested_actions = Vec::new();
    assert_eq!(overview_lines(&overview).len(), 2);
}

#[test]
fn months_are_shown_in_detail() {
    let overview = sample_overview(Vec::new());
    let lines = detailed_calendar_lines(&overview.calendar);
    assert_eq!(lines[0], "Calendar 2026-04 (employee 123)");
    assert_eq!(lines.len(), 4);
    assert_eq!(lines[3], format!("{:<73}yes", "2026-04-10  Thu"));
    assert!(lines[1].ends_with("Hours  Error") && lines[2].len() == lines[1].len());
    assert_eq!(attendance_source_label(AttendanceSource::UserReported), "user");
    assert_eq!(attendance_source_label(AttendanceSource::SystemAutoFill), "auto");
    assert_eq!(attendance_source_label(AttendanceSource::Holiday), "holiday");
    assert_eq!(attendance_source_label(AttendanceSource::Unreported), "");
}

#[test]
fn writes_are_shown() {
    let preview = SubmitPreview {
        url: "https://x".to_string(),
        button_name: "b".to_string(),
        button_value: "v".to_string(),
        employee_id: "27".to_string(),
        payload_display: "payload".to_string(),
        executed: false,
    };
    assert_eq!(
        submit_preview_lines("report-today-in", &preview),
        vec![
            "report-today-in [DRY RUN]",
            "Target URL: https://x",
            "Employee ID: 27",
            "Button: b = v",
            "payload",
        ]
    );
    let bare = WritePreview { executed: true, summary: "done".to_string(), provider_debug: None };
    assert_eq!(provider_preview_lines("resolve", &bare), vec!["resolve [EXECUTED]", "done"]);
}

#[test]
fn salaries_and_payslips_are_shown() {
    let month = NaiveDate::from_ymd_opt(2026, 3, 1).unwrap();
    let summary = SalarySummary {
        label: "gross".to_string(),
        entries: vec![SalaryEntry { month, amount: 12_345 }],
        latest_change: None,
    };
    assert_eq!(salary_lines(&summary), vec!["Salary row: gross", "2026-03: 12,345"]);
    let nameless = SalarySummary { label: "".to_string(), ..summary };
    assert_eq!(salary_lines(&nameless), vec!["2026-03: 12,345"]);
    let download = DocumentDownload { month, path: "a.pdf".to_string(), size_bytes: 10 };
    assert_eq!(
        payslip_line(&download),
        "Saved password-protected payslip for 2026-03 to a.pdf (10 bytes)"
    );
}
