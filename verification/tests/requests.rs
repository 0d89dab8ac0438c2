//! What tools are asked for.

use shaon::date::NaiveDate;
use shaon::fields::FormFields;
use shaon::hr_core::{FixTarget, WriteMode};
use shaon::requests::{
    check_payslip_request, clock_in_change, clock_out_change, find_fix_target, parse_auto_fill,
    parse_date, parse_fill_range, parse_hours, parse_hours_range, parse_month,
    parse_month_or_current, parse_month_or_previous, requested_mode, requested_months, write_mode,
    AutoFillParam, FillParam, PayslipDownloadParam, SalaryParam,
};

fn today() -> NaiveDate {
    NaiveDate::from_ymd_opt(2026, 1, 15).unwrap()
}

fn date(year: i32, month: u32, day: u32) -> NaiveDate {
    NaiveDate::from_ymd_opt(year, month, day).unwrap()
}

#[test]
fn months_and_dates_are_read() {
    assert_eq!(parse_month("2026-04").ok(), Some(date(2026, 4, 1)));
    let wrong = parse_month("April").unwrap_err();
    assert_eq!(wrong.code, "invalid_month");
    assert!(wrong.message.starts_with("invalid month 'April': "));
    assert_eq!(parse_date("2026-04-09").ok(), Some(date(2026, 4, 9)));
    let wrong = parse_date("2026-02-30").unwrap_err();
    assert_eq!(wrong.code, "invalid_date");
    assert!(wrong.message.starts_with("invalid date '2026-02-30': "));
    assert_eq!(parse_month_or_current(None, today()).ok(), Some(date(2026, 1, 1)));
    assert_eq!(parse_month_or_current(Some("2026-04"), today()).ok(), Some(date(2026, 4, 1)));
    assert_eq!(parse_month_or_previous(None, today()).ok(), Some(date(2025, 12, 1)));
    assert!(parse_month_or_previous(Some("x"), today()).is_err());
}

#[test]
fn hours_are_cut_at_the_dash() {
    assert_eq!(
        parse_hours_range("09:00-18:00").ok(),
        Some(("09:00".to_string(), "18:00".to_string()))
    );
    for wrong in ["917", "9-17-x", "9am-5pm", "09:00-25:00"] {
        let refused = parse_hours_range(wrong).unwrap_err();
        assert_eq!(refused.code, "invalid_hours");
        assert_eq!(refused.message, "hours must be in HH:MM-HH:MM format");
    }
    assert_eq!(parse_hours(&None).ok(), Some(None));
    assert!(parse_hours(&Some("x".to_string())).is_err());
}

#[test]
fn nothing_is_written_unless_told() {
    assert_eq!(requested_mode(None), WriteMode::DryRun);
    assert_eq!(requested_mode(Some(false)), WriteMode::DryRun);
    assert_eq!(requested_mode(Some(true)), WriteMode::Execute);
    assert_eq!(write_mode(true), WriteMode::Execute);
    assert!(WriteMode::Execute.should_execute() && !WriteMode::DryRun.should_execute());
    assert_eq!(requested_months(&SalaryParam { months: None }), 3);
    assert_eq!(requested_months(&SalaryParam { months: Some(7) }), 7);
}

#[test]
fn clocks_write_one_time() {
    let comes = clock_in_change(today(), "09:00");
    assert_eq!(comes.entry_time.as_deref(), Some("09:00"));
    assert!(comes.use_default_attendance_type && comes.exit_time.is_none());
    let leaves = clock_out_change(today(), "18:00");
    assert_eq!(leaves.exit_time.as_deref(), Some("18:00"));
    assert!(!leaves.use_default_attendance_type && leaves.entry_time.is_none());
}

fn fill(from: &str, to: &str) -> FillParam {
    FillParam {
        from: from.to_string(),
        to: to.to_string(),
        entry: "09:00".to_string(),
        exit: "18:00".to_string(),
        attendance_type: None,
        execute: None,
    }
}

#[test]
fn ranges_are_read() {
    let range = parse_fill_range(&fill("2026-04-09", "2026-04-12")).ok();
    assert_eq!(range, Some((date(2026, 4, 9), date(2026, 4, 12))));
    let wrong = parse_fill_range(&fill("2026-04-12", "2026-04-09")).unwrap_err();
    assert_eq!(wrong.code, "invalid_fill_range");
    assert_eq!(parse_fill_range(&fill("x", "2026-04-09")).unwrap_err().code, "invalid_date");
    assert_eq!(parse_fill_range(&fill("2026-04-09", "x")).unwrap_err().code, "invalid_date");
}

fn auto(attendance_type: Option<&str>, hours: Option<&str>) -> AutoFillParam {
    AutoFillParam {
        month: None,
        attendance_type: attendance_type.map(|text| text.to_string()),
        hours: hours.map(|text| text.to_string()),
        include_weekends: None,
        max_days: None,
        execute: None,
    }
}

#[test]
fn filled_months_are_asked_for() {
    let request = parse_auto_fill(&auto(Some("0"), None), today()).unwrap();
    assert_eq!(request.month, date(2026, 1, 1));
    assert_eq!(request.max_days, 10);
    assert!(!request.include_weekends);
    assert_eq!(request.mode, WriteMode::DryRun);
    let request = parse_auto_fill(&auto(None, Some("09:00-18:00")), today()).unwrap();
    assert_eq!(request.hours, Some(("09:00".to_string(), "18:00".to_string())));
    let refused = parse_auto_fill(&auto(None, None), today()).unwrap_err();
    assert_eq!(refused.code, "invalid_auto_fill_request");
    assert_eq!(parse_auto_fill(&auto(None, Some("x")), today()).unwrap_err().code, "invalid_hours");
    let mut wrong = auto(Some("0"), None);
    wrong.month = Some("x".to_string());
    assert_eq!(parse_auto_fill(&wrong, today()).unwrap_err().code, "invalid_month");
}

#[test]
fn payslips_go_somewhere() {
    let mut param = PayslipDownloadParam { month: None, output_path: None, with_bytes: None };
    assert_eq!(check_payslip_request(&param).unwrap().code, "invalid_payslip_request");
    param.with_bytes = Some(true);
    assert!(check_payslip_request(&param).is_none());
    param.with_bytes = Some(false);
    param.output_path = Some("a.pdf".to_string());
    assert!(check_payslip_request(&param).is_none());
}

#[test]
fn the_one_target_of_a_date_is_found() {
    let target = |day: u32, reference: &str| FixTarget {
        date: date(2026, 4, day),
        issue_kind: None,
        provider_ref: reference.to_string(),
        metadata: FormFields::new(),
    };
    let targets = vec![target(9, "a:1"), target(10, "b:2"), target(10, "c:3")];
    assert_eq!(find_fix_target(&targets, date(2026, 4, 9)).ok().unwrap().provider_ref, "a:1");
    let many = find_fix_target(&targets, date(2026, 4, 10)).err().unwrap();
    assert_eq!(many.code, "multiple_fix_targets");
    let none = find_fix_target(&targets, date(2026, 4, 11)).err().unwrap();
    assert_eq!(
        none.message,
        "no fix target found for 2026-04-11. Inspect shaon_errors for 2026-04 first."
    );
}
