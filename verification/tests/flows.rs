//! What is done step by step: finding a month, reading it, writing a day and
//! fixing one.

use shaon::date::NaiveDate;
use shaon::existing::{
    calendar_submit_context, plan_delete, select_day_overrides, selection_answered,
    CalendarExistingReport, CalendarSubmitContext,
};
use shaon::fields::FormFields;
use shaon::flows::{preview_submit, SubmitAction, SubmitFlow};
use shaon::hr_core::{AttendanceChange, FixTarget, WriteMode};
use shaon::navigation::{MonthNavigation, NavAction};
use shaon::provider::{FixAction, FixFlow, FixStage};
use shaon::reading::{CalendarReading, ReadStage};
use shaon::submit::{plan_replay, AttendanceSubmit, SubmitPage};

fn month_page(year: i32, month: u32) -> String {
    format!(
        r#"<html><body><form id="aspnetForm">
        <input type="hidden" name="ctl00$mp$currentMonth" value="01/{month:02}/{year}" />
        <input type="hidden" name="ctl00$mp$Strip$hCurrentItemId" value="460627" />
        </form></body></html>"#
    )
}

fn fields_of(html: &str) -> FormFields {
    shaon::forms::parse_aspx_form_fields(html)
}

fn first(year: i32, month: u32) -> NaiveDate {
    NaiveDate::from_ymd_opt(year, month, 1).unwrap()
}

fn start(shown: (i32, u32), wanted: (i32, u32)) -> MonthNavigation {
    let html = month_page(shown.0, shown.1);
    let fields = fields_of(&html);
    MonthNavigation::start(html, fields, first(wanted.0, wanted.1)).ok().unwrap()
}

#[test]
fn a_month_that_is_shown_is_taken() {
    let way = start((2026, 4), (2026, 4));
    assert!(matches!(way.next_action(), NavAction::Arrived));
    assert!(way.into_page().0.contains("01/04/2026"));
}

#[test]
fn a_month_is_asked_for_in_three_ways() {
    let way = start((2026, 4), (2026, 2));
    assert!(matches!(way.next_action(), NavAction::PressButton { .. }));
    let way = way.answered(Err("lost".to_string())).ok().unwrap();
    match way.next_action() {
        NavAction::RaiseEvent { argument, .. } => assert_eq!(argument, "01/02/2026"),
        _ => panic!("unexpected action"),
    }
    let way = way.answered(Ok(month_page(2026, 4))).ok().unwrap();
    assert!(!matches!(way.next_action(), NavAction::Arrived));
    let way = way.answered(Ok(month_page(2026, 3))).ok().unwrap();
    assert!(!matches!(way.next_action(), NavAction::Arrived));
    let way = way.answered(Ok(month_page(2026, 2))).ok().unwrap();
    assert!(matches!(way.next_action(), NavAction::Arrived));
}

#[test]
fn steps_that_lead_nowhere_are_errors() {
    let way = start((2026, 4), (2026, 2));
    let way = way.answered(Err("lost".to_string())).ok().unwrap();
    let way = way.answered(Err("lost".to_string())).ok().unwrap();
    let stuck = way.answered(Ok(month_page(2026, 4))).err().unwrap();
    assert!(stuck.contains("did not change displayed month from 2026-04"));
}

#[test]
fn the_search_for_a_month_ends() {
    let mut way = start((2026, 4), (2023, 1));
    let mut shown = 0;
    let mut asked = 0;
    loop {
        match way.next_action() {
            NavAction::Stuck(message) => {
                assert!(message.contains("exceeded 24 steps"));
                break;
            }
            NavAction::Arrived => panic!("the month was never shown"),
            _ => {
                asked += 1;
                shown = 1 - shown;
                way = way.answered(Ok(month_page(2026, 4 + shown))).ok().unwrap();
            }
        }
    }
    assert!(asked <= 26);
}

#[test]
fn months_without_data_are_read_day_by_day() {
    let html = month_page(2026, 2);
    let reading = CalendarReading::start(&html, fields_of(&html), first(2026, 2)).ok().unwrap();
    assert!(matches!(reading.stage, ReadStage::Grid));
    let mut reading = reading.grid_answered(Err("lost".to_string()));
    let mut probes = 0;
    while let ReadStage::Probe(_) = reading.stage {
        probes += 1;
        reading = reading.probe_answered(Ok(month_page(2026, 2))).ok().unwrap();
    }
    assert_eq!(probes, 28);
    let calendar = reading.into_calendar();
    assert_eq!(calendar.employee_id, "460627");
    assert_eq!(calendar.month, first(2026, 2));
    assert_eq!(calendar.days.len(), 28);
}

#[test]
fn months_need_an_employee() {
    let refused = CalendarReading::start("<html></html>", FormFields::new(), first(2026, 2));
    assert_eq!(
        refused.err().unwrap(),
        "Could not find employee ID (hCurrentItemId) on calendar page"
    );
}

fn day() -> NaiveDate {
    NaiveDate::from_ymd_opt(2026, 4, 9).unwrap()
}

fn vacation() -> CalendarExistingReport {
    CalendarExistingReport {
        object_id: "old".to_string(),
        employee_id: 27,
        row_name: "row-1".to_string(),
        symbol_code: Some("481".to_string()),
        symbol_name: Some("vacation".to_string()),
        is_absence: true,
        report_date_iso_utc: "2026-04-08T21:00:00.000Z".to_string(),
    }
}

fn context(reports: Vec<CalendarExistingReport>) -> CalendarSubmitContext {
    let mut fields = FormFields::new();
    fields.insert("__VIEWSTATE".to_string(), "state".to_string());
    CalendarSubmitContext {
        url: "https://example.test/calendar".to_string(),
        date: day(),
        employee_id: "460627".to_string(),
        fields,
        reports,
    }
}

fn submit(code: &str) -> AttendanceSubmit {
    AttendanceSubmit {
        date: day(),
        attendance_type_code: Some(code.to_string()),
        entry_time: Some("09:00".to_string()),
        exit_time: Some("18:00".to_string()),
        comment: None,
        clear_entry: false,
        clear_exit: false,
        clear_comment: false,
        default_work_day: false,
    }
}

const ACCEPTED: &str = "3|hiddenField|__VIEWSTATE|abc|";
const REFUSED: &str = "12|scriptStartupBlock|ScriptContentNoTags|alert('no');|";

#[test]
fn what_is_in_the_way_is_deleted_first() {
    let flow = SubmitFlow::start(submit("120"), context(vec![vacation()]));
    let flow = match flow.next_action() {
        SubmitAction::Delete { report, plan } => {
            assert_eq!(report.object_id, "old");
            assert!(plan.preview.executed);
            flow.deleted(&report, Ok(ACCEPTED.to_string()))
        }
        _ => panic!("nothing was deleted"),
    };
    assert!(matches!(flow.next_action(), SubmitAction::Identify));
    let flow = flow.identified(Ok(("460627".to_string(), 27)));
    assert!(matches!(flow.next_action(), SubmitAction::Save(_)));
    let flow = flow.saved(Ok(ACCEPTED.to_string()));
    match flow.next_action() {
        SubmitAction::Finish(Ok(preview)) => assert!(preview.executed),
        _ => panic!("not finished"),
    }
}

#[test]
fn a_refused_day_is_tried_once_more() {
    let conflict = "alert('09/04 - קיים דיווח בזמן המדווח');";
    let refused = format!("40|scriptStartupBlock|ScriptContentNoTags|{conflict}|");
    let mut flow = SubmitFlow::start(submit("120"), context(Vec::new()));
    let mut saves = 0;
    let mut reloads = 0;
    let outcome = loop {
        flow = match flow.next_action() {
            SubmitAction::Delete { report, .. } => flow.deleted(&report, Ok(ACCEPTED.to_string())),
            SubmitAction::Identify => flow.identified(Ok(("460627".to_string(), 27))),
            SubmitAction::Save(_) => {
                saves += 1;
                flow.saved(Ok(refused.clone()))
            }
            SubmitAction::Reload => {
                reloads += 1;
                flow.reloaded(Ok(context(vec![vacation()])))
            }
            SubmitAction::Finish(outcome) => break outcome,
        };
    };
    assert_eq!(saves, 2);
    assert_eq!(reloads, 1);
    assert!(outcome.unwrap_err().contains("קיים דיווח"));
}

#[test]
fn a_day_that_is_refused_otherwise_is_not_tried_again() {
    let flow = SubmitFlow::start(submit("120"), context(Vec::new()));
    let flow = flow.identified(Ok(("460627".to_string(), 27))).saved(Ok(REFUSED.to_string()));
    match flow.next_action() {
        SubmitAction::Finish(Err(message)) => assert!(message.contains("no")),
        _ => panic!("not finished"),
    }
}

#[test]
fn a_shown_day_names_its_steps() {
    let preview = preview_submit(&submit("120"), context(vec![vacation()]), "460627", 27);
    assert!(!preview.executed);
    assert!(preview.payload_display.contains("delete the conflicting calendar row"));
}

#[test]
fn writes_carry_the_fields_of_the_day() {
    let mut fields = FormFields::new();
    fields.insert("__VIEWSTATE".to_string(), "state".to_string());
    let plan = plan_replay(
        "https://example.test/calendar",
        &submit("120"),
        "report-1",
        "save",
        true,
        &fields,
        SubmitPage::Calendar,
        "460627",
        27,
    );
    assert_eq!(plan.preview.button_value, "save");
    assert!(plan.overrides.iter().any(|pair| pair.1 == "09:00"));
    assert!(plan.overrides.iter().any(|pair| pair.1 == "18:00"));
    assert!(plan.overrides.iter().any(|pair| pair.1.contains("report-1")));
}

#[test]
fn deletions_name_their_report() {
    let plan = plan_delete(&context(vec![vacation()]), &vacation(), false);
    assert!(!plan.preview.executed);
    assert!(plan.overrides.iter().any(|pair| pair.0.ends_with("_action")));
    assert!(plan.overrides.iter().any(|pair| pair.1.contains("old")));
}

#[test]
fn days_are_selected_on_the_page() {
    let overrides = select_day_overrides(day());
    assert!(overrides.contains(&("__calendarSelectedDays".to_string(), ",9595".to_string())));
    let refused = selection_answered(&FormFields::new(), "<html></html>", day());
    assert!(refused.is_err());
    let bare = calendar_submit_context(
        "https://example.test/calendar",
        day(),
        "460627".to_string(),
        FormFields::new(),
        "<html></html>",
    );
    assert_eq!(bare.ok().unwrap().reports.len(), 0);
}

fn target() -> FixTarget {
    FixTarget {
        date: day(),
        issue_kind: None,
        provider_ref: "report-1:63".to_string(),
        metadata: FormFields::new(),
    }
}

fn change(code: &str) -> AttendanceChange {
    AttendanceChange {
        date: day(),
        attendance_type_code: Some(code.to_string()),
        use_default_attendance_type: false,
        entry_time: Some("09:00".to_string()),
        exit_time: Some("18:00".to_string()),
        comment: None,
        clear_entry: false,
        clear_exit: false,
        clear_comment: false,
    }
}

/// Carries a fix out and counts what is sent.
fn run_fix(code: &str, mode: WriteMode) -> (u32, FixStage) {
    let mut fix = FixFlow::start("https://example.test", &target(), &change(code), mode).ok().unwrap();
    let mut sent = 0;
    loop {
        fix = match fix.next_action() {
            FixAction::LoadForm(url) => {
                assert!(url.contains("report-1"));
                fix.form_loaded(Ok(FormFields::new()))
            }
            FixAction::Identify => fix.identified(Ok(("460627".to_string(), 27))),
            FixAction::Save { .. } => {
                sent += 1;
                fix.saved(Ok(ACCEPTED.to_string()))
            }
            FixAction::OpenCalendar => fix.calendar_opened(Ok(context(vec![vacation()]))),
            FixAction::Delete { report, .. } => {
                sent += 1;
                fix.deleted(&report, Ok(ACCEPTED.to_string()))
            }
            FixAction::Write => {
                sent += 1;
                let flow = preview_submit(&submit(code), context(Vec::new()), "460627", 27);
                fix.written(Ok(flow))
            }
            FixAction::Finish => return (sent, fix.stage),
        };
    }
}

#[test]
fn fixes_are_sent_to_the_wizard() {
    let (sent, stage) = run_fix("481", WriteMode::Execute);
    assert_eq!(sent, 1);
    match stage {
        FixStage::Finished(Ok(preview)) => assert!(preview.executed),
        _ => panic!("not finished"),
    }
}

#[test]
fn work_from_home_takes_the_calendar_too() {
    let (sent, stage) = run_fix("120", WriteMode::Execute);
    assert!(sent >= 2);
    assert!(matches!(stage, FixStage::Finished(Ok(_))));
}

#[test]
fn shown_fixes_send_nothing() {
    for code in ["481", "120"] {
        let (sent, stage) = run_fix(code, WriteMode::DryRun);
        assert_eq!(sent, 0);
        match stage {
            FixStage::Finished(Ok(preview)) => assert!(!preview.executed),
            _ => panic!("not finished"),
        }
    }
}
