//! Forms of pages: their fields, what is sent, and partial answers.

use shaon::dom::{DomNode, Page, Selector, SELECTOR_COUNT};
use shaon::fields::FormFields;
use shaon::forms::{
    async_form, button_form, event_form, format_form_fields_for_display, parse_aspx_delta,
    parse_aspx_form_fields,
};
use shaon::hr_core::AbsenceSymbol;
use shaon::ontology::{
    cache_use, merge_types, parse_symbol_dropdown, resolve_auto_fill_type, CacheUse, Moment,
    OrgOntology,
};
use shaon::reports::{parse_report_html, report_url, table_url};
use shaon::submit::{
    check_submit_response, employee_of_page, extract_js_message, fields_after_response,
    is_whole_page, retain_browser_fields, SubmitPage,
};

fn pair(key: &str, value: &str) -> (String, String) {
    (key.to_string(), value.to_string())
}

#[test]
fn forms_hold_the_fields_that_a_browser_sends() {
    let html = r#"<html><body><form id="aspnetForm">
        <input type="hidden" name="__VIEWSTATE" value="state" />
        <input type="text" name="text" value="x" />
        <input type="text" name="empty" />
        <input type="checkbox" name="off" value="1" />
        <input type="checkbox" name="on" value="1" checked="checked" />
        <input type="radio" name="pick" value="1" />
        <input type="radio" name="pick" value="2" checked />
        <input type="submit" name="button" value="Go" />
        <input type="text" value="nameless" />
        <select name="choice"><option value="1">a</option><option value="2" selected>b</option></select>
        <textarea name="area">words</textarea>
    </form></body></html>"#;
    let fields = parse_aspx_form_fields(html);
    assert_eq!(fields.get("__VIEWSTATE").map(String::as_str), Some("state"));
    assert_eq!(fields.get("text").map(String::as_str), Some("x"));
    assert_eq!(fields.get("empty").map(String::as_str), Some(""));
    assert_eq!(fields.get("choice").map(String::as_str), Some("2"));
    assert_eq!(fields.get("area").map(String::as_str), Some("words"));
    assert!(!fields.contains_key("off"));
    assert_eq!(fields.get("on").map(String::as_str), Some("on"));
    assert_eq!(fields.get("pick").map(String::as_str), Some("2"));
    assert!(!fields.contains_key("button"));
}

#[test]
fn requests_carry_what_was_pressed() {
    let mut fields = FormFields::new();
    fields.insert("a".to_string(), "1".to_string());
    let overrides = vec![pair("a", "2"), pair("b", "3")];
    let pressed = button_form(&fields, &overrides, "go", "Go");
    assert_eq!(pressed.to_pairs(), vec![pair("a", "2"), pair("b", "3"), pair("go", "Go")]);
    let raised = event_form(&fields, &overrides, "target", "argument");
    assert_eq!(raised.get("__EVENTTARGET").map(String::as_str), Some("target"));
    assert_eq!(raised.get("__EVENTARGUMENT").map(String::as_str), Some("argument"));
    let partial = async_form(&fields, &overrides, "ctl00$ms", "ctl00$ms|go", "target", "argument");
    assert_eq!(partial.get("ctl00$ms").map(String::as_str), Some("ctl00$ms|go"));
    assert_eq!(partial.get("__ASYNCPOST").map(String::as_str), Some("true"));
}

#[test]
fn secrets_are_shown_in_part() {
    let mut fields = FormFields::new();
    fields.insert("__VIEWSTATE".to_string(), "0123456789".to_string());
    fields.insert("plain".to_string(), "0123456789".to_string());
    let shown = format_form_fields_for_display(&fields, &vec![pair("extra", "1")]);
    assert!(shown.contains("0123...(10 chars)"));
    assert!(!shown.contains("__VIEWSTATE=0123456789"));
    assert!(shown.contains("plain"));
    assert!(shown.contains("extra"));
}

#[test]
fn partial_answers_are_cut_by_length() {
    let answer = "5|updatePanel|panel|<b/>x|3|hiddenField|__VIEWSTATE|abc|2|other|id|חג|";
    let entries = parse_aspx_delta(answer);
    assert_eq!(entries.entries.len(), 3);
    let content = |id: &str| {
        entries.entries.iter().find(|entry| entry.id == id).map(|entry| entry.content.as_str())
    };
    assert_eq!(content("panel"), Some("<b/>x"));
    assert_eq!(content("__VIEWSTATE"), Some("abc"));
    assert_eq!(content("id"), Some("חג"));
}

#[test]
fn answers_tell_whether_they_are_pages() {
    assert!(is_whole_page("<!DOCTYPE html><html></html>"));
    assert!(!is_whole_page("3|hiddenField|a|abc|"));
    assert_eq!(extract_js_message("alert('no');").as_deref(), Some("no"));
    assert_eq!(extract_js_message("nothing"), None);
    assert_eq!(check_submit_response("3|hiddenField|a|abc|"), None);
    let refused = check_submit_response("12|scriptStartupBlock|ScriptContentNoTags|alert('no');|");
    assert_eq!(refused.as_deref(), Some("Hilan rejected attendance submit: no"));
}

#[test]
fn fields_follow_the_answer() {
    let mut fields = FormFields::new();
    fields.insert("__VIEWSTATE".to_string(), "old".to_string());
    let after = fields_after_response(&fields, "3|hiddenField|__VIEWSTATE|abc|");
    assert_eq!(after.get("__VIEWSTATE").map(String::as_str), Some("abc"));
}

#[test]
fn only_fields_of_the_browser_are_sent() {
    let mut fields = FormFields::new();
    fields.insert("__VIEWSTATE".to_string(), "state".to_string());
    fields.insert("something$else".to_string(), "x".to_string());
    fields.insert("day$entry".to_string(), "09:00".to_string());
    let kept = retain_browser_fields(&fields, SubmitPage::Calendar, Some("day$"));
    assert!(kept.contains_key("__VIEWSTATE"));
    assert!(kept.contains_key("day$entry"));
    assert!(!kept.contains_key("something$else"));
    assert_eq!(employee_of_page(&FormFields::new(), "27"), "27");
}

#[test]
fn pages_are_searched_by_selectors() {
    let page = Page::parse("<table><tr><td> a <b>b</b></td><td>c</td></tr></table>");
    let cells = page.select(Selector::TableCell);
    assert_eq!(cells.len(), 2);
    assert_eq!(page.spaced_text(cells[0]), "a b");
    assert_eq!(page.text_in(cells[1]), "c");
    let tables = page.select(Selector::Table);
    assert_eq!(page.select_in(tables[0], Selector::TableCell), cells);
    assert!(page.is_named(cells[0], "td"));
}

#[test]
fn reports_are_the_table_of_their_page() {
    let html = r#"<html><body><table class="GridView">
        <tr><th>Name</th><th>Hours</th></tr>
        <tr><td>A</td><td>8</td></tr>
        <tr><td>B</td><td>9</td></tr>
    </table></body></html>"#;
    let table = parse_report_html(html).unwrap();
    assert_eq!(table.headers, vec!["Name", "Hours"]);
    assert_eq!(table.rows, vec![vec!["A", "8"], vec!["B", "9"]]);
    assert!(parse_report_html("<html></html>").is_none());
    assert!(report_url("https://x", "a b").starts_with("https://x/"));
    assert!(report_url("https://x", "a b").contains("a%20b"));
    assert!(report_url("https://x", "aZ9-_.~/\u{5d0}").ends_with("=aZ9-_.~%2F%D7%90"));
    assert_eq!(table_url("https://x", "/p"), "https://x/p");
    assert_eq!(table_url("https://x", "https://y/p"), "https://y/p");
}

#[test]
fn kinds_are_kept_for_a_day() {
    let now = Moment { seconds: 1_000_000, nanos: 0 };
    assert_eq!(cache_use(None, now), CacheUse::Fetch);
    assert_eq!(cache_use(Some(Moment { seconds: 999_999, nanos: 0 }), now), CacheUse::Use);
    assert!(matches!(
        cache_use(Some(Moment { seconds: 1_000_000 - 86_400, nanos: 0 }), now),
        CacheUse::Refresh(_)
    ));
}

#[test]
fn kinds_are_read_from_the_page_and_from_the_symbols() {
    let html = r#"<select name="x$Symbol.SymbolId$y">
        <option value="">-</option>
        <option value="0">work day</option>
        <option value="481">חופשה</option>
    </select>"#;
    let pairs = parse_symbol_dropdown(html);
    assert!(pairs.contains(&pair("0", "work day")));
    let symbols = vec![AbsenceSymbol {
        id: "481".to_string(),
        name: "חופשה".to_string(),
        display_name: Some("vacation".to_string()),
    }];
    let types = merge_types(pairs, &symbols).unwrap();
    let vacation = types.iter().find(|item| item.code == "481").unwrap();
    assert_eq!(vacation.name_he, "חופשה");
    let work = types.iter().find(|item| item.code == "0").unwrap();
    assert_eq!(work.name_he, "");
    assert_eq!(work.name_en.as_deref(), Some("work day"));
    assert!(merge_types(Vec::new(), &Vec::new()).is_err());
}

#[test]
fn kinds_to_fill_with_are_named() {
    let kept = || {
        let symbols = vec![AbsenceSymbol {
            id: "481".to_string(),
            name: "חופשה".to_string(),
            display_name: None,
        }];
        let types = merge_types(vec![pair("481", "חופשה")], &symbols).unwrap();
        OrgOntology {
            subdomain: "acme".to_string(),
            types,
            fetched_at: Moment { seconds: 0, nanos: 0 },
        }
    };
    assert_eq!(resolve_auto_fill_type(None, None), Ok((None, "".to_string())));
    assert_eq!(
        resolve_auto_fill_type(None, Some("12")),
        Ok((Some("12".to_string()), "12".to_string()))
    );
    let missing = resolve_auto_fill_type(None, Some("vacation")).unwrap_err();
    assert!(missing.contains("needs cached ontology"));
    let named = resolve_auto_fill_type(Some(Ok(kept())), Some("חופשה")).unwrap();
    assert_eq!(named.0.as_deref(), Some("481"));
    assert!(resolve_auto_fill_type(Some(Ok(kept())), Some("12")).is_err());
    let broken = resolve_auto_fill_type(Some(Err("broken".to_string())), Some("12"));
    assert_eq!(broken.unwrap_err(), "broken");
}

#[test]
fn a_page_holds_positions_that_fit() {
    let text = || DomNode { size: 1, name: None, attributes: Vec::new(), text: Some("a".to_string()) };
    let lists = |count: usize, found: usize| {
        let mut lists: Vec<Vec<usize>> = Vec::new();
        for _ in 0..count {
            lists.push(vec![found]);
        }
        lists
    };
    assert!(Page::from_parts(vec![text()], lists(SELECTOR_COUNT, 0)).is_some());
    assert!(Page::from_parts(vec![text()], lists(SELECTOR_COUNT, 1)).is_none());
    assert!(Page::from_parts(vec![text()], lists(SELECTOR_COUNT - 1, 0)).is_none());
    let mut wide = text();
    wide.size = 2;
    assert!(Page::from_parts(vec![wide], lists(SELECTOR_COUNT, 0)).is_none());
}

#[test]
fn new_overrides_are_masked_too() {
    let overrides = vec![
        ("H-XSRF-Token".to_string(), "abcdefghijkl".to_string()),
        ("plain".to_string(), "value".to_string()),
    ];
    let shown = format_form_fields_for_display(&FormFields::new(), &overrides);
    assert!(!shown.contains("abcdefghijkl"));
    assert_eq!(shown, "  H-XSRF-Token = abcd...(12 chars) [NEW]\n  plain = value [NEW]");
}

#[test]
fn a_form_that_is_cut_off_from_the_tree_is_found() {
    let html = r#"<html><body><form id="aspnetForm"><input type="hidden" name="a" value="1"></form><frameset></frameset></html>"#;
    let fields = parse_aspx_form_fields(html);
    assert_eq!(fields.len(), 1);
    assert_eq!(fields.key_at(0), "a");
    assert_eq!(fields.value_at(0), "1");
}

#[test]
fn an_attribute_in_a_namespace_is_another_one() {
    let page = Page::parse(r#"<svg><a xlink:title="other" class="c">x</a></svg>"#);
    let mut found = 0;
    for at in 0..page.len() {
        if page.is_named(at, "a") {
            assert_eq!(page.attr(at, "title"), None);
            assert_eq!(page.attr(at, "class"), Some("c"));
            found += 1;
        }
    }
    assert_eq!(found, 1);
}
