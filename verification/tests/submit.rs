//! Writing a day: the form that is sent, the answer, and the reports that are
//! already there.

use shaon::date::NaiveDate;
use shaon::existing::{
    conflicting_absence_reports, parse_calendar_existing_reports, parse_row_data_entries,
    CalendarExistingReport, CalendarSubmitContext, EMPTY_OBJECT_ID,
};
use shaon::fields::FormFields;
use shaon::forms::DeltaEntries;
use shaon::submit::{
    build_dirty_fields_json, calendar_grid_dom_id, extract_submit_error_message,
    merge_delta_fields, AttendanceSubmit,
};

#[test]
fn dirty_fields_json_matches_browser_shape_for_completion_submit() {
    let submit = AttendanceSubmit {
        date: NaiveDate::from_ymd_opt(2026, 4, 9).unwrap(),
        attendance_type_code: Some("120".to_string()),
        entry_time: None,
        exit_time: None,
        comment: None,
        clear_entry: false,
        clear_exit: false,
        clear_comment: false,
        default_work_day: false,
    };

    let json = build_dirty_fields_json(&submit, 27, EMPTY_OBJECT_ID, true);

    assert!(json.contains("\"ManualEntry\":true"));
    assert!(json.contains("\"ManualExit\":true"));
    assert!(json.contains("\"Comment\":true"));
    assert!(json.contains("\"Symbol.SymbolId\":true"));
    assert!(json.contains("\"CompletionToStandard\":true"));
    assert!(json.contains("\"EmployeeId\":27"));
    assert!(json.contains("\"ReportDate\":\"2026-4-9\""));
    assert!(json.contains(&format!("\"ObjectId\":\"{}\"", EMPTY_OBJECT_ID)));
}

#[test]
fn dirty_fields_json_uses_passed_object_id() {
    let submit = AttendanceSubmit {
        date: NaiveDate::from_ymd_opt(2026, 4, 9).unwrap(),
        attendance_type_code: Some("120".to_string()),
        entry_time: Some("09:00".to_string()),
        exit_time: Some("18:00".to_string()),
        comment: Some("office".to_string()),
        clear_entry: false,
        clear_exit: false,
        clear_comment: false,
        default_work_day: false,
    };

    let json = build_dirty_fields_json(&submit, 27, "report-1", false);

    assert!(json.contains("\"ObjectId\":\"report-1\""));
    assert!(!json.contains("\"CompletionToStandard\":true"));
}

#[test]
fn merge_delta_fields_applies_hidden_and_panel_updates() {
    let mut base = FormFields::new();
    base.insert("__VIEWSTATE".to_string(), "old-state".to_string());
    base.insert("__calendarSelectedDays".to_string(), "9596".to_string());
    let mut entries = DeltaEntries::new();
    entries.insert(
        "hiddenField".to_string(),
        "__VIEWSTATE".to_string(),
        "new-state".to_string(),
    );
    entries.insert(
        "updatePanel".to_string(),
        "ctl00_mp_calendarUpdator".to_string(),
        r#"<input type="hidden" name="__calendarSelectedDays" value="9598,9595" />
               <input type="text" name="ctl00$mp$scriptBox" value="" />"#
            .to_string(),
    );

    let merged = merge_delta_fields(&base, &entries);

    assert_eq!(
        merged.get("__VIEWSTATE").map(String::as_str),
        Some("new-state")
    );
    assert_eq!(
        merged.get("__calendarSelectedDays").map(String::as_str),
        Some("9598,9595")
    );
    assert_eq!(
        merged.get("ctl00$mp$scriptBox").map(String::as_str),
        Some("")
    );
}

#[test]
fn extract_submit_error_message_reads_alert_from_delta() {
    let delta =
        "40|scriptStartupBlock|ScriptContentNoTags|alert('09/04 - קיים דיווח בזמן המדווח');|";

    assert_eq!(
        extract_submit_error_message(delta).as_deref(),
        Some("09/04 - קיים דיווח בזמן המדווח")
    );
}

#[test]
fn extract_submit_error_message_reads_hwarning_from_delta() {
    let delta =
        "35|scriptStartupBlock|ScriptContentNoTags|HWarning('יש לבחור סוג דיווח אחר');|";

    assert_eq!(
        extract_submit_error_message(delta).as_deref(),
        Some("יש לבחור סוג דיווח אחר")
    );
}

#[test]
fn parse_calendar_existing_reports_extracts_delete_target_metadata() {
    let html = r#"
        <html><body>
            <table>
                <tr id="ctl00_mp_RG_Days_460627_2026_04_EmployeeReports_row_0_1">
                    <td>
                        <select>
                            <option value="">בחר</option>
                            <option selected="selected" value="481" isAbsenceSymbol="true">vacation</option>
                        </select>
                    </td>
                </tr>
            </table>
            <script>
                $create(Hilan.HilanNet.Web.Controls.HAttendanceGrid.HReportsGridRow.HReportsGridRowBehavior, {"RowData":"[{\"ID\":\"628cce48-84b5-4a3d-b507-c40169cdfefe\",\"IsRange\":false,\"EmployeeId\":27,\"ReportDate\":\"\\/Date(1775682000000)\\/\",\"IsReportDeleted\":false,\"Symbol\":{\"First\":\"481\",\"Second\":\"vacation\"}}]","RowDate":"2026-4-9"});
            </script>
        </body></html>
    "#;

    let reports = parse_calendar_existing_reports(
        html,
        "460627",
        NaiveDate::from_ymd_opt(2026, 4, 9).unwrap(),
    )
    .unwrap();

    assert_eq!(reports.len(), 1);
    assert_eq!(reports[0].object_id, "628cce48-84b5-4a3d-b507-c40169cdfefe");
    assert_eq!(reports[0].employee_id, 27);
    assert_eq!(reports[0].symbol_code.as_deref(), Some("481"));
    assert_eq!(reports[0].symbol_name.as_deref(), Some("vacation"));
    assert!(reports[0].is_absence);
    assert_eq!(
        reports[0].row_name,
        "ctl00$mp$RG_Days_460627_2026_04$cellOf_SysColumn_Delete_EmployeeReports_row_0_1$sysCol_EmployeeReports_row_0_1"
    );
    assert_eq!(reports[0].report_date_iso_utc, "2026-04-08T21:00:00.000Z");
}

#[test]
fn conflicting_absence_reports_collects_all_non_matching_absence_rows() {
    let date = NaiveDate::from_ymd_opt(2026, 4, 9).unwrap();
    let context = CalendarSubmitContext {
        url: "https://example.test/calendar".to_string(),
        date,
        employee_id: "460627".to_string(),
        fields: FormFields::new(),
        reports: vec![
            CalendarExistingReport {
                object_id: "keep-match".to_string(),
                employee_id: 27,
                row_name: "row-0".to_string(),
                symbol_code: Some("120".to_string()),
                symbol_name: Some("work from home".to_string()),
                is_absence: true,
                report_date_iso_utc: "2026-04-08T21:00:00.000Z".to_string(),
            },
            CalendarExistingReport {
                object_id: "delete-vacation".to_string(),
                employee_id: 27,
                row_name: "row-1".to_string(),
                symbol_code: Some("481".to_string()),
                symbol_name: Some("vacation".to_string()),
                is_absence: true,
                report_date_iso_utc: "2026-04-08T21:00:00.000Z".to_string(),
            },
            CalendarExistingReport {
                object_id: "keep-non-absence".to_string(),
                employee_id: 27,
                row_name: "row-2".to_string(),
                symbol_code: Some("0".to_string()),
                symbol_name: Some("work day".to_string()),
                is_absence: false,
                report_date_iso_utc: "2026-04-08T21:00:00.000Z".to_string(),
            },
            CalendarExistingReport {
                object_id: "delete-sick".to_string(),
                employee_id: 27,
                row_name: "row-3".to_string(),
                symbol_code: Some("999".to_string()),
                symbol_name: Some("sick".to_string()),
                is_absence: true,
                report_date_iso_utc: "2026-04-08T21:00:00.000Z".to_string(),
            },
        ],
    };

    let reports = conflicting_absence_reports(&context, "120");
    let object_ids = reports
        .iter()
        .map(|report| report.object_id.as_str())
        .collect::<Vec<_>>();

    assert_eq!(object_ids, vec!["delete-vacation", "delete-sick"]);
}

#[test]
fn parse_row_data_entries_uses_row_data_for_requested_date() {
    let html = r#"
        <script>
            $create(Hilan.HilanNet.Web.Controls.HAttendanceGrid.HReportsGridRow.HReportsGridRowBehavior, {"RowData":"[{\"ID\":\"first-row\",\"IsRange\":false,\"EmployeeId\":27,\"ReportDate\":\"\\/Date(1775595600000)\\/\",\"IsReportDeleted\":false,\"Symbol\":{\"First\":\"481\",\"Second\":\"vacation\"}}]","RowDate":"2026-4-8"});
            $create(Hilan.HilanNet.Web.Controls.HAttendanceGrid.HReportsGridRow.HReportsGridRowBehavior, {"RowData":"[{\"ID\":\"second-row\",\"IsRange\":false,\"EmployeeId\":27,\"ReportDate\":\"\\/Date(1775682000000)\\/\",\"IsReportDeleted\":false,\"Symbol\":{\"First\":\"120\",\"Second\":\"work from home\"}}]","RowDate":"2026-4-9"});
        </script>
    "#;

    let rows = parse_row_data_entries(html, NaiveDate::from_ymd_opt(2026, 4, 9).unwrap())
        .expect("parse requested row data");

    assert_eq!(rows.len(), 1);
    assert_eq!(rows[0].id, "second-row");
    assert_eq!(rows[0].symbol_code.as_deref(), Some("120"));
}

#[test]
fn delete_action_key_matches_browser_shape() {
    let date = NaiveDate::from_ymd_opt(2026, 4, 9).unwrap();
    let action_key = format!(
        "{}_action",
        calendar_grid_dom_id("460627", date).replace('_', "$")
    );

    assert_eq!(
        action_key,
        "ctl00$mp$RG$Days$460627$2026$04$reportsGrid_action"
    );
}

