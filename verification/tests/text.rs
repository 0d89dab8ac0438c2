//! Texts, dates and sorted fields.

use shaon::date::{is_weekend, minute_of, moment_from_millis, NaiveDate};
use shaon::fields::FormFields;
use shaon::text::{
    contains_text, count_digits, chars_of, decimal_text, find_last, is_before, join, left_align,
    padded_text, parse_int, parse_up_to, repeat, replace_char, second_piece_of, signed_padded_text,
    split_at_char, split_once_at, split_words, starts_with_text, ends_with_text, trim,
};

fn owned(texts: &[&str]) -> Vec<String> {
    texts.iter().map(|text| text.to_string()).collect()
}

#[test]
fn texts_are_cut_and_put_together() {
    assert_eq!(split_at_char("a:b::c", ':'), owned(&["a", "b", "", "c"]));
    assert_eq!(split_at_char("", ':'), owned(&[""]));
    assert_eq!(split_once_at("k=v=w", '='), Some(("k".to_string(), "v=w".to_string())));
    assert_eq!(split_once_at("kv", '='), None);
    assert_eq!(split_words("  a\u{a0}b \n c "), owned(&["a", "b", "c"]));
    assert_eq!(join(&owned(&["a", "b"]), ", "), "a, b");
    assert_eq!(join(&Vec::new(), ", "), "");
    assert_eq!(trim(" \t x y \n"), "x y");
    assert_eq!(replace_char("a_b_c", '_', '$'), "a$b$c");
    assert_eq!(second_piece_of("a'b'c", "'").as_deref(), Some("b"));
    assert_eq!(second_piece_of("abc", "'"), None);
}

#[test]
fn texts_are_searched() {
    assert!(contains_text("attendance", "tend"));
    assert!(!contains_text("attendance", "dent"));
    assert!(contains_text("x", ""));
    assert!(starts_with_text("prefix", "pre") && !starts_with_text("pre", "prefix"));
    assert!(ends_with_text("prefix", "fix") && !ends_with_text("fix", "prefix"));
    assert_eq!(find_last(&chars_of("abcabc"), &chars_of("bc")), Some(4));
    assert_eq!(count_digits(&chars_of("12a3")), 2);
}

#[test]
fn numbers_are_written_and_read() {
    assert_eq!(decimal_text(0), "0");
    assert_eq!(decimal_text(u64::MAX), "18446744073709551615");
    assert_eq!(padded_text(7, 3), "007");
    assert_eq!(padded_text(1234, 3), "1234");
    assert_eq!(signed_padded_text(-5, 4), "-005");
    assert_eq!(parse_up_to("+42", 100), Some(42));
    assert_eq!(parse_up_to("101", 100), None);
    assert_eq!(parse_up_to("", 100), None);
    assert_eq!(parse_up_to("4 ", 100), None);
    assert_eq!(parse_int("-9223372036854775808"), Some(i64::MIN));
    assert_eq!(parse_int("9223372036854775808"), None);
}

#[test]
fn columns_are_filled_up() {
    assert_eq!(left_align("ab", 4), "ab  ");
    assert_eq!(left_align("abcdef", 4), "abcdef");
    assert_eq!(left_align("יום", 5), "יום  ");
    assert_eq!(repeat('-', 3), "---");
}

#[test]
fn texts_are_ordered_as_strings_are() {
    let words = ["", "a", "ab", "b", "B", "ת", "ab", "\u{10000}", "\u{ffff}"];
    for first in words {
        for second in words {
            assert_eq!(is_before(first, second), first < second);
        }
    }
}

#[test]
fn dates_follow_the_calendar() {
    let date = |year: i32, month: u32, day: u32| NaiveDate::from_ymd_opt(year, month, day);
    assert!(date(2024, 2, 29).is_some());
    assert!(date(2025, 2, 29).is_none());
    assert!(date(1900, 2, 29).is_none());
    assert!(date(2000, 2, 29).is_some());
    assert!(date(2026, 13, 1).is_none());
    assert!(date(300000, 1, 1).is_none());
    assert_eq!(date(1, 1, 1).unwrap().num_days_from_ce(), 1);
    assert_eq!(date(2026, 4, 9).unwrap().num_days_from_sunday(), 4);
    assert_eq!(date(2025, 12, 31).unwrap().succ_opt(), date(2026, 1, 1));
    assert_eq!(date(2024, 2, 28).unwrap().succ_opt(), date(2024, 2, 29));
    assert_eq!(date(262142, 12, 31).unwrap().succ_opt(), None);
    assert!(is_weekend(date(2026, 4, 10).unwrap()));
    assert!(is_weekend(date(2026, 4, 11).unwrap()));
    assert!(!is_weekend(date(2026, 4, 12).unwrap()));
}

#[test]
fn dates_are_in_the_order_of_their_numbers() {
    let mut current = NaiveDate::from_ymd_opt(2023, 12, 25).unwrap();
    for _ in 0..800 {
        let next = current.succ_opt().unwrap();
        assert_eq!(next.num_days_from_ce(), current.num_days_from_ce() + 1);
        assert_eq!(next.num_days_from_sunday(), (current.num_days_from_sunday() + 1) % 7);
        assert!(next.is_after(current));
        assert!(!current.is_after(next));
        current = next;
    }
}

#[test]
fn dates_are_written_after_patterns() {
    let date = NaiveDate::from_ymd_opt(2026, 4, 9).unwrap();
    assert_eq!(date.iso(), "2026-04-09");
    assert_eq!(date.year_month(), "2026-04");
    assert_eq!(date.slashed(), "09/04/2026");
    assert_eq!(date.weekday_name(), "Thu");
    assert_eq!(date.format("%d.%m.%y").as_deref(), Some("09.04.26"));
    assert_eq!(date.format("%H"), None);
    let far = NaiveDate::from_ymd_opt(12345, 6, 7).unwrap();
    assert_eq!(far.iso(), "+12345-06-07");
    let early = NaiveDate::from_ymd_opt(-1, 6, 7).unwrap();
    assert_eq!(early.iso(), "-0001-06-07");
    assert_eq!(
        NaiveDate::parse_from_str("2026-04-09", "%Y-%m-%d"),
        Ok(date)
    );
    assert!(NaiveDate::parse_from_str("2026-02-30", "%Y-%m-%d").is_err());
}

#[test]
fn moments_are_written_in_utc() {
    assert_eq!(moment_from_millis(0).as_deref(), Some("1970-01-01T00:00:00.000Z"));
    assert_eq!(
        moment_from_millis(1775682000123).as_deref(),
        Some("2026-04-08T21:00:00.123Z")
    );
    assert_eq!(moment_from_millis(i64::MAX), None);
    assert_eq!(minute_of(1775682000).as_deref(), Some("2026-04-08 21:00 UTC"));
    assert_eq!(minute_of(i64::MAX), None);
}

#[test]
fn fields_are_kept_in_order() {
    let mut fields = FormFields::new();
    fields.insert("b".to_string(), "1".to_string());
    fields.insert("a".to_string(), "2".to_string());
    fields.insert("c".to_string(), "3".to_string());
    fields.insert("b".to_string(), "4".to_string());
    let pair = |key: &str, value: &str| (key.to_string(), value.to_string());
    assert_eq!(fields.to_pairs(), vec![pair("a", "2"), pair("b", "4"), pair("c", "3")]);
    assert_eq!(fields.get("b").map(String::as_str), Some("4"));
    assert!(!fields.contains_key("z"));
    fields.remove("a");
    assert_eq!(fields.len(), 2);
    assert_eq!(fields.copy().to_pairs(), fields.to_pairs());
}
