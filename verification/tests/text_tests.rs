use elowen_api::ids::new_id;
use elowen_api::json::{Json, JsonObject};
use elowen_api::order::{insert_text, text_less, text_set, texts_less};
use elowen_api::scan::{
    ascii_lower, chars_of, contains, decimal, earliest, ends_with, find, first_needle, first_present,
    is_any, is_space, join_texts, lines, lower_text, same_text, signed_decimal, split_at, split_by,
    text_of, trim_text, words, CharClass,
};
use elowen_api::time::{now, Timestamp, FIRST_SECOND, LAST_SECOND};

fn strings(values: &[&str]) -> Vec<String> {
    values.iter().map(|value| value.to_string()).collect()
}

fn pieces(values: Vec<Vec<char>>) -> Vec<String> {
    values.iter().map(|value| text_of(value)).collect()
}

fn instant(secs: i64, nanos: u32) -> Timestamp {
    Timestamp::from_parts(secs, nanos).expect("the calendar holds the instant")
}

#[test]
fn white_space_is_what_std_calls_white_space() {
    for n in 0..=0x10_FFFFu32 {
        if let Some(c) = char::from_u32(n) {
            assert_eq!(is_space(c), c.is_whitespace(), "U+{n:04X}");
        }
    }
}

#[test]
fn ascii_case_is_what_std_calls_ascii_case() {
    for n in 0..=0x24Fu32 {
        if let Some(c) = char::from_u32(n) {
            assert_eq!(ascii_lower(c), c.to_ascii_lowercase());
        }
    }
    assert_eq!(lower_text("ÄBC-Zz9"), "Äbc-zz9");
}

#[test]
fn texts_are_split_like_std_splits_them() {
    for sample in ["", "a", "a,b", ",", ",,a", "a,", "é, ü ,\u{2003}x"] {
        let chars = chars_of(sample);
        let expected: Vec<String> = sample.split(',').map(|part| part.to_string()).collect();
        assert_eq!(pieces(split_by(&chars, &CharClass::Just(','))), expected);
        let expected: Vec<String> = sample.split(", ").map(|part| part.to_string()).collect();
        assert_eq!(pieces(split_at(&chars, &[',', ' '])), expected);
        let expected: Vec<String> = sample.split_whitespace().map(|part| part.to_string()).collect();
        assert_eq!(pieces(words(&chars)), expected);
        assert_eq!(trim_text(sample), sample.trim());
    }
    for sample in ["", "\n", "a\n", "a\r\nb", "a\n\nb", "a\r", "\r\n\r\n", "a\nb\r\n"] {
        let expected: Vec<String> = sample.lines().map(|part| part.to_string()).collect();
        assert_eq!(pieces(lines(&chars_of(sample))), expected, "{sample:?}");
    }
}

#[test]
fn texts_are_searched_like_std_searches_them() {
    let s = chars_of("one two one");
    assert_eq!(find(&s, &['o', 'n', 'e']), Some(0));
    assert_eq!(find(&s, &['t', 'w', 'o']), Some(4));
    assert_eq!(find(&s, &['x']), None);
    assert_eq!(find(&s, &[]), Some(0));
    assert!(contains(&s, "o o"));
    assert!(ends_with(&s, " one"));
    assert!(!ends_with(&s, "one two one "));
    assert_eq!(earliest(&s, &["one ", " t", "x"]), 0);
    assert_eq!(earliest(&s, &["x", " t"]), 3);
    assert_eq!(earliest(&s, &["x"]), 11);
    assert_eq!(first_needle(&s, &["x", "two", "one"]), Some(1));
    assert_eq!(first_needle(&s, &["x"]), None);
    let parts = vec![chars_of("  "), chars_of(" b "), chars_of("c")];
    assert_eq!(first_present(&parts), Some(chars_of(" b ")));
    assert!(is_any("b", &["a", "b"]));
    assert!(!is_any("c", &["a", "b"]));
    assert!(same_text("é", "é"));
    assert!(!same_text("e", "é"));
}

#[test]
fn numbers_are_written_in_decimal() {
    for n in [0u64, 7, 10, 99, 100, 18_446_744_073_709_551_615] {
        assert_eq!(decimal(n), n.to_string());
    }
    for n in [0i32, -1, 42, i32::MAX, i32::MIN] {
        assert_eq!(signed_decimal(n), n.to_string());
    }
    assert_eq!(join_texts(&strings(&["a", "", "b"]), ", "), "a, , b");
    assert_eq!(join_texts(&[], ", "), "");
}

#[test]
fn order_of_texts_is_the_order_of_std() {
    let samples = strings(&["", "a", "ab", "b", "B", "é", "z", "aé", "a-"]);
    for a in &samples {
        for b in &samples {
            assert_eq!(text_less(&chars_of(a), &chars_of(b)), a < b);
        }
    }
    let lists = [
        strings(&[]),
        strings(&["a"]),
        strings(&["a", "b"]),
        strings(&["b"]),
        strings(&["", "b"]),
    ];
    for a in &lists {
        for b in &lists {
            assert_eq!(texts_less(a, b), a < b);
        }
    }
}

#[test]
fn sets_are_ascending_and_hold_each_text_once() {
    let values = strings(&["b", "a", "b", "", "c", "a"]);
    let set = text_set(&values);
    assert_eq!(set, strings(&["", "a", "b", "c"]));
    assert_eq!(text_set(&set), set);
    let mut list = set;
    insert_text(&mut list, "b".to_string());
    assert_eq!(list, strings(&["", "a", "b", "c"]));
    insert_text(&mut list, "bb".to_string());
    assert_eq!(list, strings(&["", "a", "b", "bb", "c"]));
}

#[test]
fn ids_are_new_each_time() {
    let first = new_id();
    let second = new_id();
    assert_ne!(first, second);
    for id in [first, second] {
        assert_eq!(id.chars().count(), 26);
        assert!(id
            .chars()
            .all(|c| c.is_ascii_digit() || (c.is_ascii_uppercase() && !"ILOU".contains(c))));
    }
}

#[test]
fn json_objects_are_read_by_key() {
    let value = JsonObject::new()
        .with_text("name", "  x ")
        .with_optional_text("none", None)
        .with("flag", Json::Bool(true))
        .with_text("name", "second")
        .build();
    assert_eq!(value.get("name").and_then(|entry| entry.as_str()), Some("  x "));
    assert_eq!(value.present_text("name").as_deref(), Some("x"));
    assert_eq!(value.get("flag").and_then(|entry| entry.as_bool()), Some(true));
    assert!(matches!(value.get("none"), Some(Json::Null)));
    assert!(value.get("other").is_none());
    assert!(Json::Text("x".to_string()).get("name").is_none());
    assert_eq!(value.present_text("flag"), None);
    let copy = value.copy();
    assert_eq!(format!("{copy:?}"), format!("{value:?}"));
}

#[test]
fn the_calendar_has_ends() {
    assert!(Timestamp::from_parts(FIRST_SECOND, 0).is_some());
    assert!(Timestamp::from_parts(FIRST_SECOND - 1, 0).is_none());
    assert!(Timestamp::from_parts(LAST_SECOND, 999_999_999).is_some());
    assert!(Timestamp::from_parts(LAST_SECOND + 1, 0).is_none());
    assert!(Timestamp::from_parts(59, 1_500_000_000).is_some());
    assert!(Timestamp::from_parts(58, 1_500_000_000).is_none());
    assert!(Timestamp::from_parts(-1, 1_500_000_000).is_some());
    assert!(Timestamp::from_parts(59, 2_000_000_000).is_none());
    assert!(instant(FIRST_SECOND, 0).to_rfc3339().starts_with("-262143-01-01T00:00:00"));
    assert!(instant(LAST_SECOND, 0).to_rfc3339().starts_with("+262142-12-31T23:59:59"));
}

#[test]
fn instants_are_written_in_rfc3339() {
    assert_eq!(instant(0, 0).to_rfc3339(), "1970-01-01T00:00:00+00:00");
    assert_eq!(instant(0, 0).to_json_text(), "1970-01-01T00:00:00Z");
    let t = instant(1_700_000_000, 120_000_000);
    assert_eq!(t.to_rfc3339(), "2023-11-14T22:13:20.120+00:00");
    assert_eq!(t.to_json_text(), "2023-11-14T22:13:20.120Z");
    assert_eq!(instant(59, 1_000_000_000).to_json_text(), "1970-01-01T00:00:60Z");
}

#[test]
fn instants_are_compared_and_moved() {
    let t = instant(1_000, 500);
    assert!(instant(1_000, 501).is_after(t));
    assert!(instant(1_001, 0).is_after(t));
    assert!(!t.is_after(t));
    assert_eq!(instant(1_010, 499).seconds_since(t), 9);
    assert_eq!(instant(1_010, 500).seconds_since(t), 10);
    assert_eq!(instant(990, 501).seconds_since(t), -9);
    assert_eq!(instant(990, 500).seconds_since(t), -10);
    let later = t.later_by(90).expect("the calendar holds it");
    assert_eq!((later.seconds(), later.nanoseconds()), (1_090, 500));
    assert!(t.later_by(u64::MAX).is_none());
    assert!(instant(LAST_SECOND, 0).later_by(1).is_none());
    assert_eq!(instant(LAST_SECOND - 1, 7).later_by(1).map(|t| t.nanoseconds()), Some(7));
    assert!(now().seconds() > 1_600_000_000);
}

#[test]
fn leap_seconds_end() {
    let leap = instant(59, 1_250_000_000);
    let after = leap.later_by(1).expect("the calendar holds it");
    assert_eq!((after.seconds(), after.nanoseconds()), (60, 250_000_000));
    let still = leap.later_by(0).expect("the calendar holds it");
    assert_eq!((still.seconds(), still.nanoseconds()), (59, 1_250_000_000));
    assert_eq!(instant(60, 0).seconds_since(leap), 0);
    assert_eq!(instant(62, 250_000_000).seconds_since(leap), 3);
    assert_eq!(leap.seconds_since(instant(58, 250_000_000)), 2);
    assert_eq!(leap.seconds_since(instant(62, 250_000_000)), -3);
}
