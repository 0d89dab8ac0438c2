//! Addresses, sending, cookies and salaries.

use shaon::client::{
    asmx_url, base_url_of, calendar_page_url, check_login, contains_salary_rows, date_picker_state,
    decrypt_cookie_blob, encrypt_cookie_blob, encrypt_with_nonce, extract_amount, is_login_redirect,
    is_pdf, is_transient, is_transient_status, latest_change, may_be_session, org_id_in, parse_salary_summary, payslip_path,
    payslip_url, retry_backoff, salary_month_range, salary_summary_from_initial_data,
    FailureCause, IoFailure, LoginResponse, SalaryCell, SalaryInitialData, SalaryTableColumn, SendEvent, SendStep, Sending,
    COOKIE_KEY_LEN, COOKIE_NONCE_LEN,
};
use shaon::config::Config;
use shaon::date::NaiveDate;
use shaon::fields::FormFields;
use shaon::hr_core::SalaryEntry;
use shaon::salary::{SalaryAction, SalaryFetch, SalaryStage};

fn salary_data() -> SalaryInitialData {
    SalaryInitialData {
        selected_dates: vec!["03/2026".to_string()],
        selected_single_date: Some("03/2026".to_string()),
        table_columns: vec![
            SalaryTableColumn { name: "Range".to_string(), display_name: "טווח".to_string() },
            SalaryTableColumn { name: "Bruto".to_string(), display_name: "ברוטו".to_string() },
        ],
        table_data: vec![vec![
            ("Bruto".to_string(), SalaryCell::Number(Some(12_345))),
            ("Range".to_string(), SalaryCell::Text("מרץ 2026".to_string())),
        ]],
    }
}

#[test]
fn salary_summary_from_initial_data_uses_bruto_column() {
    let summary = salary_summary_from_initial_data(&salary_data(), 1).unwrap();

    assert_eq!(summary.label, "ברוטו");
    assert_eq!(summary.entries.len(), 1);
    assert_eq!(
        summary.entries[0].month,
        NaiveDate::from_ymd_opt(2026, 3, 1).unwrap()
    );
    assert_eq!(summary.entries[0].amount, 12_345);
    assert!(summary.latest_change.is_none());
}

#[test]
fn salary_summary_from_initial_data_accepts_partial_month_data() {
    let summary = salary_summary_from_initial_data(&salary_data(), 2).unwrap();

    assert_eq!(summary.label, "ברוטו");
    assert_eq!(summary.entries.len(), 1);
    assert_eq!(
        summary.entries[0].month,
        NaiveDate::from_ymd_opt(2026, 3, 1).unwrap()
    );
    assert_eq!(summary.entries[0].amount, 12_345);
}

#[test]
fn cookie_encryption_round_trip() {
    let key = vec![0x5a; COOKIE_KEY_LEN];
    let plaintext = br#"{"cookies":[{"name":"HBrowserId","value":"abc123"}]}"#.to_vec();

    let encrypted = encrypt_cookie_blob(&key, &plaintext).unwrap();

    assert_ne!(encrypted, plaintext);
    assert!(encrypted.len() > COOKIE_NONCE_LEN);

    let decrypted = decrypt_cookie_blob(&key, &encrypted).unwrap();
    assert_eq!(decrypted, plaintext);
}

#[test]
fn cookies_do_not_open_with_another_key() {
    let key = vec![1u8; COOKIE_KEY_LEN];
    let other = vec![2u8; COOKIE_KEY_LEN];
    let blob = encrypt_with_nonce(&key, &vec![7u8; COOKIE_NONCE_LEN], &b"cookies".to_vec()).unwrap();
    assert_eq!(&blob[..COOKIE_NONCE_LEN], &[7u8; COOKIE_NONCE_LEN]);
    assert_eq!(decrypt_cookie_blob(&key, &blob).unwrap(), b"cookies".to_vec());
    assert_eq!(blob.len(), COOKIE_NONCE_LEN + b"cookies".len() + 16);
    assert_eq!(
        decrypt_cookie_blob(&other, &blob).unwrap_err(),
        "decrypt cookie blob: aead::Error"
    );
    assert!(decrypt_cookie_blob(&key, &vec![0u8; 3]).is_err());
    let first = encrypt_cookie_blob(&key, &b"cookies".to_vec()).unwrap();
    let second = encrypt_cookie_blob(&key, &b"cookies".to_vec()).unwrap();
    assert_ne!(first, second);
}

#[test]
fn addresses_are_built_from_the_base() {
    let base = "https://acme.hilan.co.il";
    assert_eq!(
        calendar_page_url(base),
        "https://acme.hilan.co.il/Hilannetv2/Attendance/calendarpage.aspx?isOnSelf=true"
    );
    assert!(asmx_url(base, "HHomeTasksApiapi", "GetData").ends_with("HHomeTasksApiapi.asmx/GetData"));
    assert_eq!(
        payslip_url(base, NaiveDate::from_ymd_opt(2026, 3, 1).unwrap(), "12", "345"),
        "https://acme.hilan.co.il/Hilannetv2/PersonalFile/PdfPaySlip.aspx?Date=01/03/2026&UserId=12345"
    );
}

#[test]
fn payslips_go_where_they_are_asked_for() {
    let mut config = Config {
        subdomain: "acme".to_string(),
        username: "12345".to_string(),
        password: None,
        payslip_folder: None,
        payslip_format: None,
    };
    let month = NaiveDate::from_ymd_opt(2026, 3, 1).unwrap();
    let some = |text: &str, directory: bool| Some((text.to_string(), directory));
    assert_eq!(payslip_path(&config, month, None).unwrap(), vec!["2026-03.pdf"]);
    assert_eq!(payslip_path(&config, month, some("out", true)).unwrap(), vec!["out", "2026-03.pdf"]);
    assert_eq!(payslip_path(&config, month, some("a.pdf", false)).unwrap(), vec!["a.pdf"]);
    config.payslip_folder = Some("slips".to_string());
    config.payslip_format = Some("slip %B %y.pdf".to_string());
    assert_eq!(payslip_path(&config, month, None).unwrap(), vec!["slips", "slip March 26.pdf"]);
    config.payslip_format = Some("%Q".to_string());
    assert_eq!(payslip_path(&config, month, None), None);
}

#[test]
fn organizations_are_named_in_the_page() {
    let page = r#"<script>window.bootstrap={"OrgId":"1234"}</script>"#;
    assert_eq!(org_id_in(page).unwrap(), "1234");
    assert!(org_id_in("<html></html>").is_err());
}

#[test]
fn refused_logins_say_why() {
    let fine = LoginResponse {
        is_fail: false,
        is_show_captcha: Some(false),
        code: None,
        error_message: None,
    };
    assert_eq!(check_login(&fine, "https://acme.hilan.co.il"), None);
    let failed = LoginResponse {
        is_fail: true,
        is_show_captcha: None,
        code: Some(7),
        error_message: Some("bad password".to_string()),
    };
    assert!(check_login(&failed, "https://acme.hilan.co.il").unwrap().contains("bad password"));
    let captcha = LoginResponse {
        is_fail: true,
        is_show_captcha: Some(true),
        code: None,
        error_message: None,
    };
    assert!(check_login(&captcha, "https://acme.hilan.co.il").unwrap().contains("https://acme.hilan.co.il"));
}

#[test]
fn requests_are_sent_again_at_most_three_times() {
    let mut sending = Sending::start(true);
    let mut waits = Vec::new();
    loop {
        match sending.after(SendEvent::Failed { transient: true }) {
            SendStep::WaitAndSend { sending: next, millis } => {
                waits.push(millis);
                sending = next;
            }
            SendStep::Fail => break,
            _ => panic!("unexpected step"),
        }
    }
    assert_eq!(waits, vec![500, 1000, 2000]);
    assert_eq!(retry_backoff(2), 1000);
}

#[test]
fn writes_are_sent_once() {
    let step = Sending::start(false).after(SendEvent::Failed { transient: true });
    assert!(matches!(step, SendStep::Fail));
}

#[test]
fn statuses_and_pages_are_told_apart() {
    assert!(is_transient_status(500) && is_transient_status(502) && is_transient_status(503));
    assert!(!is_transient_status(404) && !is_transient_status(501));
    assert!(is_login_redirect("https://acme.hilan.co.il/login"));
    assert!(!is_login_redirect("https://acme.hilan.co.il/Hilannetv2/Attendance/calendarpage.aspx"));
    assert!(is_pdf(&b"%PDF-1.5".to_vec()));
    assert!(!is_pdf(&b"%PD".to_vec()));
    assert!(!is_pdf(&b"<html>".to_vec()));
}

#[test]
fn amounts_are_the_digits_of_a_cell() {
    assert_eq!(extract_amount("12,345"), Some(12_345));
    assert_eq!(extract_amount("none"), None);
}

#[test]
fn changes_are_reckoned_between_the_two_newest() {
    let entry = |year: i32, month: u32, amount: u64| SalaryEntry {
        month: NaiveDate::from_ymd_opt(year, month, 1).unwrap(),
        amount,
    };
    assert_eq!(latest_change(&vec![entry(2026, 3, 5)]), None);
    let pair = latest_change(&vec![entry(2026, 1, 7), entry(2026, 2, 10_000), entry(2026, 3, 11_000)]);
    assert_eq!(pair, Some((10_000, 11_000)));
    assert_eq!(latest_change(&vec![entry(2026, 2, 0), entry(2026, 3, 11_000)]), None);
}

#[test]
fn salary_months_end_before_today() {
    let today = NaiveDate::from_ymd_opt(2026, 1, 15).unwrap();
    let months: Vec<String> =
        salary_month_range(today, 3).iter().map(|month| month.year_month()).collect();
    assert_eq!(months.len(), 3);
    assert!(months.contains(&"2025-12".to_string()));
    assert!(months.contains(&"2025-10".to_string()));
}

#[test]
fn salary_pages_without_rows_are_errors() {
    let months = salary_month_range(NaiveDate::from_ymd_opt(2026, 4, 1).unwrap(), 1);
    assert!(!contains_salary_rows("<html></html>"));
    assert!(parse_salary_summary("<html></html>", &months).is_err());
    let state = date_picker_state(months[0], months[0]);
    assert!(state.contains("2026"));
}

#[test]
fn subdomains_cannot_bend_addresses() {
    assert_eq!(base_url_of("acme").unwrap(), "https://acme.hilan.co.il");
    assert_eq!(base_url_of("a-b.C9").unwrap(), "https://a-b.C9.hilan.co.il");
    for wrong in ["evil.test/", "a b", "a@b", "חג"] {
        assert!(base_url_of(wrong).unwrap_err().contains("contains invalid characters"));
    }
    assert!(!may_be_session(1));
    assert!(may_be_session(2));
}

#[test]
fn failures_that_may_pass_are_told_apart() {
    let request = |timeout: bool| FailureCause::Request { timeout, connect: false, request: false };
    assert!(is_transient(&vec![FailureCause::Other, request(true)]));
    assert!(!is_transient(&vec![FailureCause::Other, request(false)]));
    assert!(is_transient(&vec![request(false), FailureCause::Io(IoFailure::BrokenPipe)]));
    assert!(!is_transient(&vec![FailureCause::Io(IoFailure::Other), request(true)]));
    assert!(!is_transient(&Vec::new()));
}

/// A page with a row of salaries.
const SALARY_PAGE: &str = r#"<html><body><form id="aspnetForm">
    <input type="hidden" name="__VIEWSTATE" value="s" />
    <table><tr class="RSGrid"><td>gross</td><td>10,000</td><td>11,000</td></tr></table>
    </form></body></html>"#;

#[test]
fn salaries_are_asked_of_the_service_first() {
    assert_eq!(
        SalaryFetch::start(0).err().unwrap(),
        "months must be greater than 0"
    );
    let fetch = SalaryFetch::start(1).ok().unwrap();
    assert!(matches!(fetch.next_action(), SalaryAction::AskService));
    let fetch = fetch.service_answered(Ok(salary_data()));
    assert!(matches!(fetch.next_action(), SalaryAction::Finish));
    match fetch.stage {
        SalaryStage::Finished(Ok(summary)) => assert_eq!(summary.entries[0].amount, 12_345),
        _ => panic!("not finished"),
    }
    assert!(SalaryFetch::start(u32::MAX).is_ok());
}

#[test]
fn salaries_are_read_from_the_page_else() {
    let today = NaiveDate::from_ymd_opt(2026, 4, 15).unwrap();
    let fetch = SalaryFetch::start(2).ok().unwrap();
    let fetch = fetch.service_answered(Err("lost".to_string()));
    assert!(matches!(fetch.next_action(), SalaryAction::FallBack));
    let fetch = fetch.fell_back(today);
    match fetch.next_action() {
        SalaryAction::Post(form) => assert!(form.contains(&(
            "__DatePicker_State".to_string(),
            "01/02/2026,0,30/03/2026,0".to_string()
        ))),
        _ => panic!("nothing is posted"),
    }
    let fetch = fetch.posted(Ok("<html></html>".to_string()));
    assert!(matches!(fetch.next_action(), SalaryAction::Load));
    let mut fields = FormFields::new();
    fields.insert("__VIEWSTATE".to_string(), "s".to_string());
    let fetch = fetch.loaded(Ok(("<html></html>".to_string(), fields)));
    match fetch.next_action() {
        SalaryAction::Post(form) => {
            assert!(form.contains(&("__VIEWSTATE".to_string(), "s".to_string())))
        }
        _ => panic!("nothing is posted"),
    }
    let fetch = fetch.posted(Ok("<html></html>".to_string()));
    match fetch.stage {
        SalaryStage::Finished(Err(message)) => {
            assert_eq!(message, "Could not find a salary row in the summary table")
        }
        _ => panic!("not finished"),
    }
}

#[test]
fn salary_pages_without_fields_end_the_fetch() {
    let today = NaiveDate::from_ymd_opt(2026, 4, 15).unwrap();
    let fetch = SalaryFetch::start(2).ok().unwrap();
    let fetch = fetch.service_answered(Err("lost".to_string()));
    assert!(matches!(fetch.next_action(), SalaryAction::FallBack));
    let fetch = fetch.fell_back(today);
    let fetch = fetch.posted(Ok("<html></html>".to_string()));
    let fetch = fetch.loaded(Ok(("<html></html>".to_string(), FormFields::new())));
    match fetch.stage {
        SalaryStage::Finished(Err(message)) => assert!(message.contains("hidden fields")),
        _ => panic!("not finished"),
    }
}

#[test]
fn salaries_on_the_page_are_paired_with_their_months() {
    let today = NaiveDate::from_ymd_opt(2026, 4, 15).unwrap();
    let fetch = SalaryFetch::start(2).ok().unwrap();
    let fetch = fetch.service_answered(Err("lost".to_string()));
    assert!(matches!(fetch.next_action(), SalaryAction::FallBack));
    let fetch = fetch.fell_back(today);
    let fetch = fetch.posted(Ok(SALARY_PAGE.to_string()));
    match fetch.stage {
        SalaryStage::Finished(Ok(summary)) => {
            assert_eq!(summary.label, "gross");
            assert_eq!(summary.entries[0].month, NaiveDate::from_ymd_opt(2026, 2, 1).unwrap());
            assert_eq!(summary.entries[1].amount, 11_000);
            assert_eq!(summary.latest_change, Some((10_000, 11_000)));
        }
        _ => panic!("not finished"),
    }
}
