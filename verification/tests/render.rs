//! The lines that are shown at a terminal.

use shaon::date::NaiveDate;
use shaon::hr_core::{
    AbsenceSymbol, AttendanceSource, AttendanceType, CalendarDay, MonthCalendar, ReportTable,
};
use shaon::ontology::{Moment, OrgOntology};
use shaon::render::{
    absence_symbol_lines, attendance_type_lines, auto_fill_lines, calendar_lines,
    employee_error_lines, error_day_lines, ontology_lines, pad_or_truncate, report_lines,
};
use shaon::use_cases::{AutoFillDayResult, AutoFillResult, AutoFillSummary, SkippedDay};

fn month(days: Vec<CalendarDay>) -> MonthCalendar {
    MonthCalendar {
        month: NaiveDate::from_ymd_opt(2026, 4, 1).unwrap(),
        employee_id: "27".to_string(),
        days,
    }
}

fn day(number: u32, has_error: bool, source: AttendanceSource) -> CalendarDay {
    let date = NaiveDate::from_ymd_opt(2026, 4, number).unwrap();
    CalendarDay {
        date,
        day_name: date.weekday_name(),
        has_error,
        error_message: None,
        entry_time: None,
        exit_time: None,
        attendance_type: None,
        total_hours: None,
        source,
    }
}

#[test]
fn errors_are_listed_in_columns() {
    let mut second = day(7, true, AttendanceSource::Unreported);
    second.error_message = Some("no exit".to_string());
    let calendar = month(vec![
        day(5, false, AttendanceSource::UserReported),
        day(6, true, AttendanceSource::Unreported),
        second,
    ]);
    let lines = error_day_lines(&calendar);
    assert_eq!(lines[0], "Attendance errors for 2026-04 (27): 2 day(s)");
    assert_eq!(lines[1], "");
    assert_eq!(lines[2], format!("Date        Day    {:<40}", "Error"));
    assert_eq!(lines[3], format!("----------  -----  {}", "-".repeat(40)));
    assert_eq!(lines[4], format!("2026-04-06  Mon    {:<40}", "missing report"));
    assert_eq!(lines[5], format!("2026-04-07  Tue    {:<40}", "no exit"));
    assert_eq!(lines.len(), 6);
    let lines = employee_error_lines(&calendar);
    assert_eq!(lines[0], "Errors for 2026-04 (employee 27): 2 day(s)");
    assert_eq!(lines.len(), 6);
    let fine = month(vec![day(5, false, AttendanceSource::UserReported)]);
    assert_eq!(error_day_lines(&fine), vec!["No attendance errors found."]);
    assert_eq!(employee_error_lines(&fine), vec!["No errors found for 2026-04 (employee 27)"]);
}

#[test]
fn months_are_shown_with_their_totals() {
    let mut worked = day(5, false, AttendanceSource::UserReported);
    worked.entry_time = Some("09:00".to_string());
    worked.exit_time = Some("18:00".to_string());
    worked.attendance_type = Some("work day".to_string());
    worked.total_hours = Some("9:00".to_string());
    let lines = calendar_lines(&month(vec![
        worked,
        day(6, true, AttendanceSource::Unreported),
        day(7, false, AttendanceSource::Unreported),
    ]));
    assert_eq!(lines[0], "Attendance for 2026-04 (employee 27)");
    assert_eq!(lines[2], "Date        Day    Entry  Exit   Type             Hours  Status");
    assert_eq!(lines[3], "----------  -----  -----  -----  ---------------  -----  ------");
    assert_eq!(lines[4], "2026-04-05  Sun    09:00  18:00  work day         9:00   ok    ");
    assert_eq!(lines[5], "2026-04-06  Mon    -      -      -                -      x     ");
    assert_eq!(lines[6], "2026-04-07  Tue    -      -      -                -      ?     ");
    assert_eq!(lines[7], "");
    assert_eq!(lines[8], "3 days: 1 reported, 1 errors, 1 missing");
}

fn filled(status: &str, error: Option<&str>) -> AutoFillDayResult {
    AutoFillDayResult {
        date: "2026-04-06 Mon".to_string(),
        attendance_type: "work day".to_string(),
        hours: Some("09:00-18:00".to_string()),
        status: status.to_string(),
        error: error.map(|text| text.to_string()),
    }
}

#[test]
fn filled_months_are_reported() {
    let mut result = AutoFillResult {
        month: "2026-04".to_string(),
        mode: "dry_run".to_string(),
        attendance_type: "work day".to_string(),
        filled: vec![filled("would_fill", None)],
        skipped: vec![
            SkippedDay { date: "2026-04-07 Tue".to_string(), reason: "partial_data".to_string() },
            SkippedDay { date: "2026-04-10 Fri".to_string(), reason: "weekend".to_string() },
        ],
        summary: AutoFillSummary { total_candidates: 1, filled: 1, skipped: 2, failed: 0 },
    };
    assert_eq!(
        auto_fill_lines(&result),
        vec![
            "Auto-fill 2026-04 [DRY RUN]",
            "",
            "  2026-04-06 Mon \u{2014} work day 09:00-18:00 [would fill]",
            "",
            "Skipped (partial data):",
            "  2026-04-07 Tue \u{2014} skipped (partial data)",
            "",
            "Summary: 1 days to fill, 2 skipped",
            "Run with --execute to submit.",
        ]
    );
    result.mode = "executed".to_string();
    result.skipped = Vec::new();
    result.filled = vec![
        filled("success", None),
        filled("failed", Some("refused")),
        filled("failed", None),
        filled("odd", None),
    ];
    result.summary = AutoFillSummary { total_candidates: 4, filled: 2, skipped: 0, failed: 2 };
    let lines = auto_fill_lines(&result);
    assert_eq!(lines[0], "Auto-fill 2026-04");
    assert!(lines[2].ends_with(" [filled]"));
    assert!(lines[3].ends_with(" [FAILED: refused]"));
    assert!(lines[4].ends_with(" [FAILED: unknown error]"));
    assert!(lines[5].ends_with(" [odd]"));
    assert_eq!(lines[7], "Summary: 2 filled, 2 failed, 0 skipped");
}

fn kind(code: &str, name_he: &str, name_en: Option<&str>) -> AttendanceType {
    AttendanceType {
        code: code.to_string(),
        name_he: name_he.to_string(),
        name_en: name_en.map(|text| text.to_string()),
    }
}

#[test]
fn kinds_are_shown_as_wide_as_their_bytes() {
    assert_eq!(attendance_type_lines(&Vec::new()), vec!["No attendance types found."]);
    let lines = attendance_type_lines(&vec![kind("0", "חופשה", Some("vacation")), kind("481", "x", None)]);
    assert_eq!(lines[0], "Code  Hebrew      English ");
    assert_eq!(lines[1], "----  ----------  --------");
    assert_eq!(lines[2], "0     חופשה       vacation");
    assert_eq!(lines[3], "481   x                   ");
    let ontology = OrgOntology {
        subdomain: "acme".to_string(),
        types: vec![kind("0", "x", None)],
        fetched_at: Moment { seconds: 1775682000, nanos: 5 },
    };
    let lines = ontology_lines(&ontology).unwrap();
    assert_eq!(lines[0], "Code  Hebrew  English");
    assert_eq!(lines[3], "");
    assert_eq!(lines[4], "Cached from acme at 2026-04-08 21:00 UTC");
    let never = OrgOntology { fetched_at: Moment { seconds: i64::MAX, nanos: 0 }, ..ontology };
    assert!(ontology_lines(&never).is_none());
}

#[test]
fn symbols_are_shown() {
    assert_eq!(absence_symbol_lines(&Vec::new()), vec!["No absence symbols found."]);
    let lines = absence_symbol_lines(&vec![AbsenceSymbol {
        id: "481".to_string(),
        name: "vacation".to_string(),
        display_name: Some("Vacation".to_string()),
    }]);
    assert_eq!(lines[0], "ID      Name                  Display");
    assert_eq!(lines[1], format!("------  {}  {}", "-".repeat(20), "-".repeat(30)));
    assert_eq!(lines[2], "481     vacation              Vacation");
}

fn table(headers: &[&str], rows: &[&[&str]]) -> ReportTable {
    ReportTable {
        name: "report".to_string(),
        headers: headers.iter().map(|cell| cell.to_string()).collect(),
        rows: rows
            .iter()
            .map(|row| row.iter().map(|cell| cell.to_string()).collect())
            .collect(),
    }
}

#[test]
fn reports_line_up() {
    let long = "x".repeat(50);
    let lines = report_lines(&table(&["A", "Name"], &[&["1", &long], &["22", "b", "extra"]]));
    assert_eq!(lines[0], format!("A   {:<40}       ", "Name"));
    assert_eq!(lines[1], format!("--  {}  -----", "-".repeat(40)));
    assert_eq!(lines[2], format!("1   {}       ", "x".repeat(40)));
    assert_eq!(lines[3], format!("22  {:<40}  extra", "b"));
    assert_eq!(lines[4], "");
    assert_eq!(lines[5], "(2 rows)");
    assert!(lines[..4].iter().all(|line| line.chars().count() == lines[0].chars().count()));
}

#[test]
fn empty_reports_say_so() {
    assert_eq!(report_lines(&table(&[], &[])), vec!["(empty report - no data rows found)"]);
    assert_eq!(report_lines(&table(&[], &[&[]])), vec!["(empty report - no columns found)"]);
    assert_eq!(report_lines(&table(&[], &[&["abc"]])), vec!["abc", "", "(1 rows)"]);
    assert_eq!(pad_or_truncate("abc", 2), "ab");
    assert_eq!(pad_or_truncate("abc", 5), "abc  ");
}
