//! What the service's JSON answers say.

use shaon::api::{
    fix_targets_of_month, parse_absences_initial_data, parse_bootstrap_info, parse_error_task_link,
    parse_error_tasks, parse_tasks_count, target_of_task, ApiError, ErrorTask,
};
use shaon::date::NaiveDate;
use shaon::json::{parse_json, JsonValue, ObjectBuilder};

const GET_DATA: &str = r#"{
    "PrincipalUser": {
        "UserId": "999999",
        "EmployeeId": 99,
        "Name": "Test User",
        "IsManager": false,
        "OrganizationId": null
    },
    "OrganizationId": "1234"
}"#;

const TASKS: &str = r#"{
    "Tasks": [
        {
            "Title": "Missing report",
            "Link": "/Hilannetv2/Attendance/EmployeeErrorHandling.aspx?date=09%2F04%2F2026&reportId=00000000-0000-0000-0000-000000000000&errorType=63"
        },
        {
            "Title": "Missing report",
            "link": "/Hilannetv2/Attendance/EmployeeErrorHandling.aspx?date=06/04/2026&reportId=00000000-0000-0000-0000-000000000000&errorType=63"
        },
        {
            "Title": "The same again",
            "Nested": {
                "link": "/Hilannetv2/Attendance/EmployeeErrorHandling.aspx?date=06/04/2026&reportId=00000000-0000-0000-0000-000000000000&errorType=63"
            }
        },
        { "Title": "Something else", "Link": "/Hilannetv2/Other.aspx?date=01/04/2026" }
    ]
}"#;

#[test]
fn live_get_data_fixture_parses_without_d_wrapper() {
    let data = parse_bootstrap_info(GET_DATA).unwrap();

    assert_eq!(data.user_id, "999999");
    assert_eq!(data.employee_id, 99);
    assert_eq!(data.org_id, "1234");
}

#[test]
fn live_get_initial_data_fixture_parses_without_d_wrapper() {
    let text = r#"{"Symbols":[
        {"Id":"481","Name":"חופשה","DisplayName":"vacation"},
        {"Id":"999","Name":"מחלה"}
    ]}"#;

    let data = parse_absences_initial_data(text).unwrap();

    assert_eq!(data.symbols.len(), 2);
    assert_eq!(data.symbols[0].id, "481");
    assert_eq!(data.symbols[0].name, "חופשה");
    assert_eq!(data.symbols[0].display_name.as_deref(), Some("vacation"));
    assert_eq!(data.symbols[1].display_name, None);
}

#[test]
fn live_get_tasks_count_fixture_parses_plain_number_response() {
    let data = parse_tasks_count("0").unwrap();

    assert_eq!(data.tasks_count, 0);
}

#[test]
fn tasks_count_parses_an_object_too() {
    assert_eq!(parse_tasks_count(r#"{"TasksCount": 7}"#).unwrap().tasks_count, 7);
    assert!(matches!(parse_tasks_count("-1"), Err(ApiError::WrongShape)));
    assert!(matches!(parse_tasks_count(r#""3""#), Err(ApiError::WrongShape)));
    assert!(matches!(parse_tasks_count("{"), Err(ApiError::NotJson(_))));
}

#[test]
fn tasks_get_data_fixture_extracts_error_fix_params() {
    let tasks = parse_error_tasks(TASKS).unwrap();

    assert_eq!(tasks.len(), 2);
    assert_eq!(tasks[0].date, NaiveDate::from_ymd_opt(2026, 4, 9).unwrap());
    assert_eq!(tasks[0].report_id, "00000000-0000-0000-0000-000000000000");
    assert_eq!(tasks[0].error_type, "63");
    assert_eq!(tasks[1].date, NaiveDate::from_ymd_opt(2026, 4, 6).unwrap());
    assert_eq!(tasks[1].report_id, "00000000-0000-0000-0000-000000000000");
    assert_eq!(tasks[1].error_type, "63");
}

#[test]
fn bootstrap_takes_the_organization_of_the_user() {
    let text = r#"{"PrincipalUser":{"UserId":"1","EmployeeId":2,"Name":"A","IsManager":true,
        "OrganizationId":"77"}}"#;
    let data = parse_bootstrap_info(text).unwrap();
    assert_eq!(data.org_id, "77");
    assert!(data.is_manager);
    let identity = data.into_identity();
    assert_eq!(identity.user_id, "1");
    assert_eq!(identity.employee_id, "2");
    assert_eq!(identity.display_name, "A");
    assert!(identity.is_manager);
}

#[test]
fn bootstrap_names_what_is_wrong() {
    let none = r#"{"PrincipalUser":{"UserId":"1","EmployeeId":2,"Name":"A","IsManager":true}}"#;
    assert!(matches!(parse_bootstrap_info(none), Err(ApiError::NoOrganization)));
    assert!(matches!(parse_bootstrap_info(r#"{"a":1}"#), Err(ApiError::WrongShape)));
    assert!(matches!(parse_bootstrap_info("nothing"), Err(ApiError::NotJson(_))));
}

#[test]
fn links_without_all_parameters_are_no_tasks() {
    let page = "/x/EmployeeErrorHandling.aspx";
    assert!(parse_error_task_link(&format!("{page}?date=01/02/2026&reportId=a")).is_none());
    assert!(parse_error_task_link(&format!("{page}?date=31/02/2026&reportId=a&errorType=1")).is_none());
    assert!(parse_error_task_link(&format!("{page}?date=01/02/2026&reportId=a&errorType")).is_none());
    assert!(parse_error_task_link("/x/Other.aspx?date=01/02/2026&reportId=a&errorType=1").is_none());
    let task = parse_error_task_link(&format!("{page}?date=01%2F02%2F2026&reportId=a%20b&errorType=1"));
    assert_eq!(task.unwrap().report_id, "a b");
}

#[test]
fn targets_name_the_task_they_stand_for() {
    let task = ErrorTask {
        date: NaiveDate::from_ymd_opt(2026, 4, 9).unwrap(),
        report_id: "r".to_string(),
        error_type: "63".to_string(),
    };
    let target = target_of_task(&task);
    assert_eq!(target.provider_ref, "r:63");
    assert_eq!(target.metadata.get("report_id").map(String::as_str), Some("r"));
    assert_eq!(target.metadata.get("error_type").map(String::as_str), Some("63"));
}

#[test]
fn only_targets_of_the_month_are_kept() {
    let tasks = parse_error_tasks(TASKS).unwrap();
    let april = fix_targets_of_month(&tasks, NaiveDate::from_ymd_opt(2026, 4, 1).unwrap());
    let may = fix_targets_of_month(&tasks, NaiveDate::from_ymd_opt(2026, 5, 1).unwrap());
    assert_eq!(april.len(), 2);
    assert_eq!(may.len(), 0);
}

#[test]
fn json_trees_are_read_as_they_are() {
    let value = parse_json(r#"{"b": [1, "x", null, true, 1.5], "a": {"c": "d"}}"#).unwrap();
    match value.get("b") {
        Some(JsonValue::Array(values)) => {
            assert!(matches!(&values[0], JsonValue::Number(Some(1), _)));
            assert_eq!(values[1].as_str(), Some("x"));
            assert!(matches!(&values[2], JsonValue::Null));
            assert!(matches!(&values[3], JsonValue::Bool(true)));
            assert!(matches!(&values[4], JsonValue::Number(None, text) if text == "1.5"));
        }
        _ => panic!("no array"),
    }
    assert_eq!(value.get("a").and_then(|a| a.get("c")).and_then(|c| c.as_str()), Some("d"));
    assert!(value.get("z").is_none());
    assert!(parse_json("[1,").is_err());
}

#[test]
fn objects_keep_their_members_in_order() {
    let mut object = ObjectBuilder::new();
    object.put_text("z", "1");
    object.put_number("a", 2);
    object.put_bool("m", false);
    match object.build() {
        JsonValue::Object(members) => {
            let keys: Vec<&str> = members.iter().map(|member| member.0.as_str()).collect();
            assert_eq!(keys, vec!["z", "a", "m"]);
        }
        _ => panic!("no object"),
    }
}

#[test]
fn records_may_be_objects_or_arrays_but_not_repeat_a_field() {
    let listed = r#"[["7", 9, "Dana", true, "55"], null]"#;
    let data = parse_bootstrap_info(listed).unwrap();
    assert_eq!((data.user_id.as_str(), data.employee_id, data.org_id.as_str()), ("7", 9, "55"));
    let twice = r#"{"PrincipalUser":{"UserId":"1","UserId":"2","EmployeeId":9,"Name":"n","IsManager":false},"OrganizationId":"5"}"#;
    assert!(matches!(parse_bootstrap_info(twice), Err(ApiError::WrongShape)));
    let other = r#"{"x":1e999,"x":"\ud800","PrincipalUser":{"UserId":"1","EmployeeId":9,"Name":"n","IsManager":false,"y":{},"y":[]},"OrganizationId":"5"}"#;
    assert_eq!(parse_bootstrap_info(other).unwrap().user_id, "1");

    assert!(matches!(
        parse_tasks_count(r#"{"TasksCount":1,"TasksCount":1}"#),
        Err(ApiError::WrongShape)
    ));
    assert!(matches!(parse_tasks_count("[1]"), Err(ApiError::WrongShape)));

    let symbols = parse_absences_initial_data(r#"[[["481","a",null],{"Id":"2","Name":"b"}]]"#);
    let symbols = symbols.unwrap().symbols;
    assert_eq!(symbols[0].id, "481");
    assert_eq!(symbols[1].name, "b");
    assert!(parse_absences_initial_data(r#"{"Symbols":[["481","a"]]}"#).is_err());
    assert!(parse_absences_initial_data(r#"{"Symbols":[],"Symbols":[]}"#).is_err());
    assert_eq!(parse_absences_initial_data(r#"{ "Symbols" : [ ] }"#).unwrap().symbols.len(), 0);
}
