//! What the provider makes of changes and targets.

use shaon::date::NaiveDate;
use shaon::fields::FormFields;
use shaon::hr_core::{AttendanceChange, FixTarget};
use shaon::provider::{
    change_to_submit, error_clear_submit, fix_params, fix_strategy, submit_to_change, FixStrategy,
    MISSING_REPORT_ERROR_TYPE, WORK_DAY_TYPE_CODE, WORK_FROM_HOME_TYPE_CODE,
};
use shaon::submit::AttendanceSubmit;

fn metadata(pairs: &[(&str, &str)]) -> FormFields {
    let mut fields = FormFields::new();
    for (key, value) in pairs {
        fields.insert(key.to_string(), value.to_string());
    }
    fields
}

#[test]
fn change_to_submit_keeps_semantic_fields_and_disables_default_work_day() {
    let change = AttendanceChange {
        date: NaiveDate::from_ymd_opt(2026, 4, 10).unwrap(),
        attendance_type_code: Some("0".to_string()),
        use_default_attendance_type: false,
        entry_time: Some("09:00".to_string()),
        exit_time: Some("18:00".to_string()),
        comment: Some("office".to_string()),
        clear_entry: false,
        clear_exit: false,
        clear_comment: false,
    };

    let submit = change_to_submit(&change);

    assert_eq!(submit.date, change.date);
    assert_eq!(submit.attendance_type_code, change.attendance_type_code);
    assert_eq!(submit.entry_time, change.entry_time);
    assert_eq!(submit.exit_time, change.exit_time);
    assert_eq!(submit.comment, change.comment);
    assert!(!submit.default_work_day);
}

#[test]
fn fix_params_prefer_explicit_metadata() {
    let target = FixTarget {
        date: NaiveDate::from_ymd_opt(2026, 4, 10).unwrap(),
        issue_kind: Some("missing".to_string()),
        provider_ref: "ignored:ignored".to_string(),
        metadata: metadata(&[("report_id", "report-1"), ("error_type", "63")]),
    };

    let params = fix_params(&target).unwrap();

    assert_eq!(params, ("report-1".to_string(), "63".to_string()));
}

#[test]
fn fix_params_fall_back_to_provider_ref() {
    let target = FixTarget {
        date: NaiveDate::from_ymd_opt(2026, 4, 10).unwrap(),
        issue_kind: None,
        provider_ref: "report-2:18".to_string(),
        metadata: FormFields::new(),
    };

    let params = fix_params(&target).unwrap();

    assert_eq!(params, ("report-2".to_string(), "18".to_string()));
}

#[test]
fn invalid_fix_target_returns_structured_error() {
    let target = FixTarget {
        date: NaiveDate::from_ymd_opt(2026, 4, 10).unwrap(),
        issue_kind: None,
        provider_ref: "broken".to_string(),
        metadata: FormFields::new(),
    };

    let err = fix_params(&target).unwrap_err();

    assert_eq!(err.code, "invalid_fix_target");
    assert!(err.message.contains("2026-04-10"));
    assert!(err.details.is_some());
}

#[test]
fn missing_report_wfh_uses_two_step_fix_strategy() {
    let submit = AttendanceSubmit {
        date: NaiveDate::from_ymd_opt(2026, 4, 9).unwrap(),
        attendance_type_code: Some(WORK_FROM_HOME_TYPE_CODE.to_string()),
        entry_time: Some("09:00".to_string()),
        exit_time: Some("18:00".to_string()),
        comment: None,
        clear_entry: false,
        clear_exit: false,
        clear_comment: false,
        default_work_day: false,
    };

    assert_eq!(
        fix_strategy(MISSING_REPORT_ERROR_TYPE, &submit),
        FixStrategy::ErrorWizardThenCalendar
    );
}

#[test]
fn non_wfh_fixes_stay_on_error_wizard() {
    let submit = AttendanceSubmit {
        date: NaiveDate::from_ymd_opt(2026, 4, 9).unwrap(),
        attendance_type_code: Some("481".to_string()),
        entry_time: None,
        exit_time: None,
        comment: None,
        clear_entry: false,
        clear_exit: false,
        clear_comment: false,
        default_work_day: false,
    };

    assert_eq!(
        fix_strategy(MISSING_REPORT_ERROR_TYPE, &submit),
        FixStrategy::ErrorWizardOnly
    );
    assert_eq!(
        fix_strategy("18", &submit),
        FixStrategy::ErrorWizardOnly
    );
}

#[test]
fn error_clear_submit_rewrites_work_from_home_to_work_day() {
    let submit = AttendanceSubmit {
        date: NaiveDate::from_ymd_opt(2026, 4, 9).unwrap(),
        attendance_type_code: Some(WORK_FROM_HOME_TYPE_CODE.to_string()),
        entry_time: Some("09:00".to_string()),
        exit_time: Some("18:00".to_string()),
        comment: Some("home".to_string()),
        clear_entry: false,
        clear_exit: false,
        clear_comment: false,
        default_work_day: false,
    };

    let cleared = error_clear_submit(&submit);

    assert_eq!(
        cleared.attendance_type_code.as_deref(),
        Some(WORK_DAY_TYPE_CODE)
    );
    assert_eq!(cleared.entry_time, submit.entry_time);
    assert_eq!(cleared.exit_time, submit.exit_time);
    assert_eq!(cleared.comment, submit.comment);
    assert!(!cleared.default_work_day);
}


#[test]
fn a_write_stands_for_the_change_it_came_from() {
    let change = AttendanceChange {
        date: NaiveDate::from_ymd_opt(2026, 4, 10).unwrap(),
        attendance_type_code: None,
        use_default_attendance_type: true,
        entry_time: Some("09:00".to_string()),
        exit_time: None,
        comment: Some("office".to_string()),
        clear_entry: false,
        clear_exit: true,
        clear_comment: false,
    };
    let back = submit_to_change(change_to_submit(&change));
    assert_eq!(back.date, change.date);
    assert_eq!(back.attendance_type_code, change.attendance_type_code);
    assert!(back.use_default_attendance_type);
    assert_eq!(back.entry_time, change.entry_time);
    assert_eq!(back.exit_time, change.exit_time);
    assert_eq!(back.comment, change.comment);
    assert!(!back.clear_entry && back.clear_exit && !back.clear_comment);
}
