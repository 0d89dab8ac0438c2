//! Reading the calendar page: day numbers, cells, detail rows and months.

use shaon::attendance::{merge_calendar_days, parse_calendar_html, try_parse_day_row};
use shaon::calendar::{
    cell_visible_text, extract_day_number_strict, is_time_pattern, normalized_cell_value,
    preferred_source, source_from_calendar_state,
};
use shaon::date::NaiveDate;
use shaon::dom::{Page, Selector};
use shaon::fields::FormFields;
use shaon::hr_core::AttendanceSource;
use shaon::months::{
    calendar_selected_day_value, days_in_month, displayed_month, month_field_value, month_range,
    previous_month_start, shift_month,
};

#[test]
fn test_extract_day_number_strict_time_strings() {
    assert_eq!(extract_day_number_strict("09:00"), None);
    assert_eq!(extract_day_number_strict("12:30-18:00"), None);
    assert_eq!(extract_day_number_strict("9:00"), None);
    assert_eq!(extract_day_number_strict("23:59"), None);
    assert_eq!(extract_day_number_strict("0:00"), None);
}

#[test]
fn test_extract_day_number_strict_valid_days() {
    assert_eq!(extract_day_number_strict("9"), Some(9));
    assert_eq!(extract_day_number_strict("9 Sunday"), Some(9));
    assert_eq!(extract_day_number_strict("31"), Some(31));
    assert_eq!(extract_day_number_strict("1"), Some(1));
    assert_eq!(extract_day_number_strict(" 15 "), Some(15));
    assert_eq!(extract_day_number_strict("28"), Some(28));
}

#[test]
fn test_extract_day_number_strict_invalid() {
    assert_eq!(extract_day_number_strict("0"), None);
    assert_eq!(extract_day_number_strict("32"), None);
    assert_eq!(extract_day_number_strict("abc"), None);
    assert_eq!(extract_day_number_strict(""), None);
    assert_eq!(extract_day_number_strict("  "), None);
    assert_eq!(extract_day_number_strict("100"), None);
}

#[test]
fn visual_calendar_cell_parses_work_day_from_message_text() {
    let html = r#"
        <html><body><table><tbody><tr>
            <td class="cDIES" Days="9437" tabindex="0" aria-label="2">
                <table class="iDSIE">
                    <tr class="dayImageNumberContainer">
                        <td class="dTS">2</td>
                        <td class="imageContainerStyle"></td>
                    </tr>
                    <tr>
                        <td class="calendarMessageCell" colspan="2"><div class="cDM">6:55</div></td>
                    </tr>
                </table>
            </td>
        </tr></tbody></table></body></html>
    "#;
    let month = NaiveDate::from_ymd_opt(2025, 11, 1).unwrap();

    let days = parse_calendar_html(html, month);
    let day = days
        .iter()
        .find(|day| day.date == NaiveDate::from_ymd_opt(2025, 11, 2).unwrap())
        .expect("day 2025-11-02");

    assert_eq!(day.entry_time.as_deref(), Some("6:55"));
    assert_eq!(day.attendance_type.as_deref(), Some("work day"));
    assert_eq!(day.source, AttendanceSource::UserReported);
    assert!(day.is_reported());
    assert!(!day.has_error);
}

#[test]
fn selected_day_detail_row_enriches_visual_calendar_status() {
    let html = r#"
        <html><body>
            <table><tbody><tr>
                <td class="cDIES CSD" Days="9612" tabindex="0" aria-label="26" title="9:00">
                    <table class="iDSIE">
                        <tr class="dayImageNumberContainer">
                            <td class="dTS">26</td>
                            <td class="imageContainerStyle"></td>
                        </tr>
                        <tr>
                            <td class="calendarMessageCell" colspan="2"><div class="cDM">9:00</div></td>
                        </tr>
                    </table>
                </td>
            </tr></tbody></table>
            <table><tbody>
                <tr id="ctl00_mp_RG_Days_460627_2026_04_row_0">
                    <td id="ctl00_mp_RG_Days_460627_2026_04_cellOf_ReportDate_row_0" ov="26/04 יום&nbsp;א">
                        <span>26/04 יום&nbsp;א</span>
                    </td>
                    <td>
                        <table><tbody>
                            <tr id="ctl00_mp_RG_Days_460627_2026_04_EmployeeReports_row_0_0">
                                <td>
                                    <input name="ctl00$mp$RG_Days_460627_2026_04$cellOf_ManualEntry_EmployeeReports_row_0_0$ManualEntry_EmployeeReports_row_0_0" value="09:00" />
                                </td>
                                <td>
                                    <input name="ctl00$mp$RG_Days_460627_2026_04$cellOf_ManualExit_EmployeeReports_row_0_0$ManualExit_EmployeeReports_row_0_0" value="18:00" />
                                </td>
                                <td>
                                    <select name="ctl00$mp$RG_Days_460627_2026_04$cellOf_Symbol.SymbolId_EmployeeReports_row_0_0$Symbol.SymbolId_EmployeeReports_row_0_0">
                                        <option value="0">work day</option>
                                        <option selected="selected" value="120">work from home</option>
                                    </select>
                                </td>
                            </tr>
                        </tbody></table>
                    </td>
                </tr>
            </tbody></table>
        </body></html>
    "#;
    let month = NaiveDate::from_ymd_opt(2026, 4, 1).unwrap();

    let days = parse_calendar_html(html, month);
    let day = days
        .iter()
        .find(|day| day.date == NaiveDate::from_ymd_opt(2026, 4, 26).unwrap())
        .expect("day 2026-04-26");

    assert_eq!(day.entry_time.as_deref(), Some("09:00"));
    assert_eq!(day.exit_time.as_deref(), Some("18:00"));
    assert_eq!(day.attendance_type.as_deref(), Some("work from home"));
    assert_eq!(day.source, AttendanceSource::UserReported);
}

#[test]
fn visual_calendar_cell_parses_fh_x_as_system_auto_fill() {
    let html = r#"
        <html><body><table><tbody><tr>
            <td class="cDIES cED" Days="9441" tabindex="0" aria-label="6">
                <table class="iDSIE">
                    <tr class="dayImageNumberContainer">
                        <td class="dTS">6</td>
                        <td class="imageContainerStyle">
                            <span class="calendarIcon mx-1 fh-x"></span>
                        </td>
                    </tr>
                    <tr>
                        <td class="calendarMessageCell" colspan="2"><div class="cDM">&nbsp;</div></td>
                    </tr>
                </table>
            </td>
        </tr></tbody></table></body></html>
    "#;
    let month = NaiveDate::from_ymd_opt(2025, 11, 1).unwrap();

    let days = parse_calendar_html(html, month);
    let day = days
        .iter()
        .find(|day| day.date == NaiveDate::from_ymd_opt(2025, 11, 6).unwrap())
        .expect("day 2025-11-06");

    assert_eq!(day.attendance_type.as_deref(), Some("vacation"));
    assert_eq!(day.source, AttendanceSource::SystemAutoFill);
    assert!(day.is_auto_filled());
    assert!(!day.is_reported());
    assert!(!day.has_error);
    assert!(day.entry_time.is_none());
}

#[test]
fn visual_calendar_cell_parses_calendar_absence_day_as_user_reported() {
    let html = r#"
        <html><body><table><tbody><tr>
            <td class="calendarAbcenseDay" Days="9255" tabindex="0" aria-label="4" title="vacation">
                <table class="iDSIE">
                    <tr class="dayImageNumberContainer">
                        <td class="dTS">4</td>
                        <td class="imageContainerStyle"></td>
                    </tr>
                    <tr>
                        <td class="calendarMessageCell" colspan="2"><div class="cDM">&nbsp;</div></td>
                    </tr>
                </table>
            </td>
        </tr></tbody></table></body></html>
    "#;
    let month = NaiveDate::from_ymd_opt(2025, 4, 1).unwrap();

    let days = parse_calendar_html(html, month);
    let day = days
        .iter()
        .find(|day| day.date == NaiveDate::from_ymd_opt(2025, 4, 4).unwrap())
        .expect("day 2025-04-04");

    assert_eq!(day.attendance_type.as_deref(), Some("vacation"));
    assert_eq!(day.source, AttendanceSource::UserReported);
    assert!(day.is_reported());
    assert!(!day.is_auto_filled());
}

#[test]
fn visual_calendar_cell_parses_holiday_as_holiday_source() {
    let html = r#"
        <html><body><table><tbody><tr>
            <td class="cHD" Days="9521" tabindex="0" aria-label="25" title="חג">
                <table class="iDSIE">
                    <tr class="dayImageNumberContainer">
                        <td class="dTS">25</td>
                        <td class="imageContainerStyle"></td>
                    </tr>
                    <tr>
                        <td class="calendarMessageCell" colspan="2"><div class="cDM">חג</div></td>
                    </tr>
                </table>
            </td>
        </tr></tbody></table></body></html>
    "#;
    let month = NaiveDate::from_ymd_opt(2025, 9, 1).unwrap();

    let days = parse_calendar_html(html, month);
    let day = days
        .iter()
        .find(|day| day.date == NaiveDate::from_ymd_opt(2025, 9, 25).unwrap())
        .expect("day 2025-09-25");

    assert_eq!(day.attendance_type.as_deref(), Some("חג"));
    assert_eq!(day.source, AttendanceSource::Holiday);
    assert!(day.is_reported());
    assert!(!day.is_auto_filled());
}

#[test]
fn displayed_month_reads_hidden_calendar_month() {
    let mut fields = FormFields::new();
    fields.insert("ctl00$mp$currentMonth".to_string(), "01/04/2026".to_string());

    assert_eq!(
        displayed_month(&fields).unwrap(),
        NaiveDate::from_ymd_opt(2026, 4, 1).unwrap()
    );
}

#[test]
fn shift_month_moves_across_year_boundaries() {
    assert_eq!(
        shift_month(NaiveDate::from_ymd_opt(2026, 1, 1).unwrap(), -1),
        NaiveDate::from_ymd_opt(2025, 12, 1).unwrap()
    );
    assert_eq!(
        shift_month(NaiveDate::from_ymd_opt(2026, 12, 1).unwrap(), 1),
        NaiveDate::from_ymd_opt(2027, 1, 1).unwrap()
    );
}

#[test]
fn days_in_month_handles_leap_and_non_leap_february() {
    assert_eq!(
        days_in_month(NaiveDate::from_ymd_opt(2024, 2, 1).unwrap()),
        29
    );
    assert_eq!(
        days_in_month(NaiveDate::from_ymd_opt(2025, 2, 1).unwrap()),
        28
    );
}


const CALENDAR_ROW: &str = r#"
    <tr id="ctl00_mp_RG_Days_460627_2026_04_row_0">
        <td id="ctl00_mp_RG_Days_460627_2026_04_cellOf_ReportDate_row_0" ov="10/04 יום&nbsp;ו">
            <span>10/04 יום&nbsp;ו</span>
        </td>
        <td></td>
        <td>
            <table><tbody>
                <tr id="ctl00_mp_RG_Days_460627_2026_04_EmployeeReports_row_0_0">
                    <td ov="0">
                        <select name="ctl00$mp$RG_Days_460627_2026_04$cellOf_Symbol.SymbolId_EmployeeReports_row_0_0$Symbol.SymbolId_EmployeeReports_row_0_0">
                            <option value="481">vacation</option>
                            <option value="0" selected="selected">work day</option>
                            <option value="120">work from home</option>
                        </select>
                    </td>
                </tr>
            </tbody></table>
        </td>
    </tr>
"#;

#[test]
fn live_employee_wrapper_cell_does_not_expand_all_dropdown_options() {
    let page = Page::parse(&format!("<table><tbody>{CALENDAR_ROW}</tbody></table>"));
    let row = page.select(Selector::ReportDayRow)[0];
    let cells: Vec<usize> =
        page.children(row).into_iter().filter(|&at| page.is_named(at, "td")).collect();

    let text = cell_visible_text(&page, cells[2]);

    assert_eq!(text, "work day");
}

#[test]
fn live_calendar_row_parses_default_work_day_type() {
    let html = format!("<html><body><table><tbody>{CALENDAR_ROW}</tbody></table></body></html>");
    let month = NaiveDate::from_ymd_opt(2026, 4, 1).unwrap();

    let days = parse_calendar_html(&html, month);
    let expected_date = NaiveDate::from_ymd_opt(2026, 4, 10).unwrap();
    let day = days.iter().find(|day| day.date == expected_date).unwrap();

    assert_eq!(day.attendance_type.as_deref(), Some("work day"));
}

#[test]
fn drop_downs_without_a_selected_option_show_the_original_one() {
    let row = CALENDAR_ROW.replace(" selected=\"selected\"", "");
    let page = Page::parse(&format!("<table><tbody>{row}</tbody></table>"));
    let row = page.select(Selector::ReportDayRow)[0];
    let cells: Vec<usize> =
        page.children(row).into_iter().filter(|&at| page.is_named(at, "td")).collect();
    assert_eq!(cell_visible_text(&page, cells[2]), "work day");
}

#[test]
fn cells_without_a_value_hold_none() {
    assert_eq!(normalized_cell_value(Some(" \u{a0} ")), None);
    assert_eq!(normalized_cell_value(Some("--:--")), None);
    assert_eq!(normalized_cell_value(Some("&nbsp;")), None);
    assert_eq!(normalized_cell_value(None), None);
    assert_eq!(normalized_cell_value(Some(" 09:00\u{a0}")), Some("09:00".to_string()));
}

#[test]
fn times_of_day_have_hours_and_minutes() {
    assert!(is_time_pattern("09:00"));
    assert!(is_time_pattern("9:5"));
    assert!(is_time_pattern("+9:05"));
    assert!(is_time_pattern("23:59"));
    assert!(!is_time_pattern("24:00"));
    assert!(!is_time_pattern("10:60"));
    assert!(!is_time_pattern("10"));
    assert!(!is_time_pattern("10:00:00"));
    assert!(!is_time_pattern(" 9:00"));
}

#[test]
fn rows_of_text_are_read_as_days() {
    let month = NaiveDate::from_ymd_opt(2026, 4, 1).unwrap();
    let cells: Vec<String> =
        ["9", "Thu", "09:00", "18:00", "work day"].iter().map(|cell| cell.to_string()).collect();
    let day = try_parse_day_row(&cells, month).unwrap();
    assert_eq!(day.date, NaiveDate::from_ymd_opt(2026, 4, 9).unwrap());
    assert_eq!(day.entry_time.as_deref(), Some("09:00"));
    assert_eq!(day.exit_time.as_deref(), Some("18:00"));
    assert_eq!(day.total_hours, None);
    let none: Vec<String> = vec!["no day".to_string()];
    assert!(try_parse_day_row(&none, month).is_none());
}

#[test]
fn the_total_stands_behind_entry_and_exit() {
    let month = NaiveDate::from_ymd_opt(2026, 4, 1).unwrap();
    let cells: Vec<String> = ["10", "Fri", "09:00", "18:00", "work day", "9:00"]
        .iter()
        .map(|cell| cell.to_string())
        .collect();
    let day = try_parse_day_row(&cells, month).unwrap();
    assert_eq!(day.date, NaiveDate::from_ymd_opt(2026, 4, 10).unwrap());
    assert_eq!(day.day_name, "Fri");
    assert_eq!(day.entry_time.as_deref(), Some("09:00"));
    assert_eq!(day.exit_time.as_deref(), Some("18:00"));
    assert_eq!(day.attendance_type.as_deref(), Some("work day"));
    assert_eq!(day.total_hours.as_deref(), Some("9:00"));
    assert!(!day.has_error);
    assert_eq!(day.source, AttendanceSource::UserReported);
}

#[test]
fn records_of_a_date_are_merged() {
    let month = NaiveDate::from_ymd_opt(2026, 4, 1).unwrap();
    let row = |texts: &[&str]| {
        let cells: Vec<String> = texts.iter().map(|cell| cell.to_string()).collect();
        try_parse_day_row(&cells, month).unwrap()
    };
    let later = row(&["10", "Fri", "08:00", "12:00"]);
    let first = row(&["9", "Thu", "09:00", "18:00"]);
    let again = row(&["9", "Thu", "09:00", "18:00", "work day"]);
    let days = merge_calendar_days(vec![later, first, again]);
    let dates: Vec<String> = days.iter().map(|day| day.date.iso()).collect();
    assert_eq!(dates, vec!["2026-04-09", "2026-04-10"]);
}

#[test]
fn sources_are_ranked() {
    assert_eq!(
        preferred_source(AttendanceSource::Unreported, AttendanceSource::Holiday),
        AttendanceSource::Holiday
    );
    assert_eq!(
        preferred_source(AttendanceSource::UserReported, AttendanceSource::Unreported),
        AttendanceSource::UserReported
    );
    assert_eq!(
        source_from_calendar_state("cDIES", None, None),
        AttendanceSource::Unreported
    );
}

#[test]
fn months_are_written_and_shifted() {
    let date = NaiveDate::from_ymd_opt(2026, 4, 9).unwrap();
    assert_eq!(month_field_value(date), "01/04/2026");
    assert_eq!(calendar_selected_day_value(date), "9595");
    assert_eq!(previous_month_start(date), NaiveDate::from_ymd_opt(2026, 3, 1).unwrap());
    let back = shift_month(shift_month(date, 14), -14);
    assert_eq!(back, NaiveDate::from_ymd_opt(2026, 4, 1).unwrap());
    let months: Vec<String> =
        month_range(NaiveDate::from_ymd_opt(2025, 12, 1).unwrap(), 3).iter().map(|month| month.year_month()).collect();
    assert_eq!(months, vec!["2025-12", "2026-01", "2026-02"]);
    assert!(displayed_month(&FormFields::new()).is_err());
}
