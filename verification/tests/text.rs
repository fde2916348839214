//! Texts, their order, patterns, JSON values and notes.

use access_map::json::Json;
use access_map::keyed::{keyed_pairs, put_pair};
use access_map::model::PermissionSummary;
use access_map::notes::{note_if, push_unique_note};
use access_map::order::{is_less, sort_dedup};
use access_map::paging::{next_page_number, next_page_while_filled};
use access_map::permissions::{file_permission, sort_permission_summary, PermissionClass};
use access_map::text::{
    byte_width, contains, ends_with, eq_ignore_ascii_case, find, find_byte, i64_text,
    is_whitespace, join, keep_bare, keep_filled, lines, parse_decimal, parse_signed, replace,
    shorten, split, split_commas, split_once, split_whitespace, starts_with, strip_prefix,
    strip_suffix, to_ascii_lowercase, trim, trim_end_char, trim_quotes, trim_start_char, u64_text,
};
use access_map::wildcard::wildcard_matches;

fn strings(list: &[&str]) -> Vec<String> {
    list.iter().map(|item| item.to_string()).collect()
}

const SAMPLES: [&str; 12] = [
    "",
    " ",
    "abc",
    "  abc\t",
    "a,b,,c",
    "\u{85}x\u{3000}",
    "één twee",
    "line\nnext\r\nlast\n",
    "///a//b///",
    "Zażółć gęślą",
    "a://b://c",
    "\"quoted'",
];

#[test]
fn white_space_is_that_of_std() {
    for code in 0..=0x10FFFFu32 {
        if let Some(c) = char::from_u32(code) {
            assert_eq!(is_whitespace(c), c.is_whitespace(), "{code:x}");
        }
    }
}

#[test]
fn texts_are_handled_as_std_does() {
    for s in SAMPLES {
        assert_eq!(trim(s), s.trim());
        assert_eq!(lines(s), s.lines().map(str::to_string).collect::<Vec<_>>());
        assert_eq!(split(s, ','), s.split(',').map(str::to_string).collect::<Vec<_>>());
        assert_eq!(
            split_whitespace(s),
            s.split_whitespace().map(str::to_string).collect::<Vec<_>>()
        );
        assert_eq!(
            split_once(s, "://"),
            s.split_once("://").map(|(a, b)| (a.to_string(), b.to_string()))
        );
        assert_eq!(trim_start_char(s, '/'), s.trim_start_matches('/'));
        assert_eq!(trim_end_char(s, '/'), s.trim_end_matches('/'));
        assert_eq!(to_ascii_lowercase(s), s.to_ascii_lowercase());
        assert_eq!(replace(s, 'a', "<>"), s.replace('a', "<>"));
        for t in SAMPLES {
            assert_eq!(contains(s, t), s.contains(t));
            assert_eq!(starts_with(s, t), s.starts_with(t));
            assert_eq!(ends_with(s, t), s.ends_with(t));
            assert_eq!(strip_prefix(s, t), s.strip_prefix(t).map(str::to_string));
            assert_eq!(strip_suffix(s, t), s.strip_suffix(t).map(str::to_string));
            assert_eq!(eq_ignore_ascii_case(s, t), s.eq_ignore_ascii_case(t));
            assert_eq!(is_less(s, t), s < t);
        }
        let total = s.chars().count();
        assert_eq!(byte_width(s, total), s.len() as u128);
        for byte in 0..=s.len() {
            assert_eq!(find_byte(s, byte as u128).is_some(), s.is_char_boundary(byte));
        }
        assert!(find_byte(s, s.len() as u128 + 1).is_none());
    }
}

#[test]
fn positions_count_characters() {
    assert_eq!(find("één twee", "twee"), Some(4));
    assert_eq!(find("abc", "x"), None);
    assert_eq!(shorten("één twee", 3), "één");
    assert_eq!(trim_quotes("\"'a'\""), "a");
}

#[test]
fn numbers_are_read_and_written() {
    for n in [0u64, 7, 10, 1234567890, u64::MAX] {
        assert_eq!(u64_text(n), n.to_string());
        assert_eq!(parse_decimal(&n.to_string()), Some(n));
    }
    for n in [0i64, -1, i64::MIN, i64::MAX] {
        assert_eq!(i64_text(n), n.to_string());
        assert_eq!(parse_signed(&n.to_string()), Some(n));
    }
    assert_eq!(parse_decimal("18446744073709551616"), None);
    assert_eq!(parse_decimal(""), None);
    assert_eq!(parse_signed("-"), None);
    assert_eq!(parse_signed("9223372036854775808"), None);
}

#[test]
fn lists_are_joined_and_kept() {
    assert_eq!(join(&strings(&["a", "b"]), ", "), "a, b");
    assert_eq!(split_commas(" a, ,b "), strings(&["a", "b"]));
    assert_eq!(keep_filled(&Some(" a ".to_string())).as_deref(), Some(" a "));
    assert_eq!(keep_bare(&Some(" a ".to_string())).as_deref(), Some("a"));
    assert_eq!(keep_bare(&Some("  ".to_string())), None);
}

#[test]
fn sorted_lists_hold_nothing_twice() {
    let list = strings(&["b", "a", "ä", "b", ""]);
    let mut expected = list.clone();
    expected.sort();
    expected.dedup();
    let sorted = sort_dedup(list);
    assert_eq!(sorted, expected);
    assert_eq!(sort_dedup(sorted.clone()), sorted);
}

#[test]
fn pairs_are_kept_by_key() {
    let mut pairs: Vec<(String, String)> = Vec::new();
    put_pair(&mut pairs, "b".to_string(), "1".to_string());
    put_pair(&mut pairs, "a".to_string(), "2".to_string());
    put_pair(&mut pairs, "b".to_string(), "3".to_string());
    assert_eq!(
        pairs,
        vec![("a".to_string(), "2".to_string()), ("b".to_string(), "3".to_string())]
    );
    assert_eq!(keyed_pairs(&pairs), pairs);
}

#[test]
fn notes_are_made_once() {
    let mut notes: Vec<String> = Vec::new();
    push_unique_note(&mut notes, "a".to_string());
    push_unique_note(&mut notes, "a".to_string());
    note_if(&mut notes, false, "b");
    note_if(&mut notes, true, "c");
    assert_eq!(notes, strings(&["a", "c"]));
}

#[test]
fn full_pages_are_followed() {
    assert_eq!(next_page_number(1, false, 100, 100), Some(2));
    assert_eq!(next_page_number(1, false, 99, 100), None);
    assert_eq!(next_page_number(1, true, 100, 100), None);
}

#[test]
fn pages_are_followed_up_to_an_empty_one() {
    assert_eq!(next_page_while_filled(1, false, 1), Some(2));
    assert_eq!(next_page_while_filled(7, false, 100), Some(8));
    assert_eq!(next_page_while_filled(1, false, 0), None);
    assert_eq!(next_page_while_filled(1, true, 100), None);
}

#[test]
fn permissions_are_filed_by_class() {
    let mut summary = PermissionSummary::default();
    assert!(summary.is_empty());
    file_permission(&mut summary, PermissionClass::Risky, "b".to_string());
    file_permission(&mut summary, PermissionClass::Risky, "a".to_string());
    file_permission(&mut summary, PermissionClass::Risky, "b".to_string());
    file_permission(&mut summary, PermissionClass::PrivilegeEscalation, "c".to_string());
    assert_eq!(summary.total(), 4);
    sort_permission_summary(&mut summary);
    assert_eq!(summary.risky, strings(&["a", "b"]));
    assert_eq!(summary.total(), 3);
}

#[test]
fn json_values_are_written_as_serde_does() {
    let value = Json::Object(vec![
        ("a\"b".to_string(), Json::Text("line\n\u{1}\u{7f}é\\/".to_string())),
        ("list".to_string(), Json::Array(vec![Json::Null, Json::Bool(true)])),
        ("n".to_string(), Json::Number("12".to_string())),
    ]);
    let expected: serde_json::Value = serde_json::from_str(&value.to_text()).unwrap();
    assert_eq!(expected.to_string(), value.to_text());
    assert_eq!(Json::Text("plain".to_string()).shown(), "plain");
    assert_eq!(Json::Bool(false).shown(), "false");
}

#[test]
fn json_fields_are_found() {
    let value = Json::Object(vec![
        ("a".to_string(), Json::Object(vec![("b".to_string(), Json::Text("c".to_string()))])),
        ("n".to_string(), Json::Number("-5".to_string())),
        ("l".to_string(), Json::Array(vec![])),
    ]);
    assert!(value.get_in("a", "b").is_some());
    assert!(value.get_in("a", "x").is_none());
    assert!(value.has_array("l"));
    assert_eq!(value.integer_at("n"), Some(-5));
    assert_eq!(value.text_at("n"), None);
}

#[test]
fn patterns_match_bytes() {
    assert!(wildcard_matches("*", ""));
    assert!(wildcard_matches("*", "iam:PassRole"));
    assert!(!wildcard_matches("*", "*a"));
    assert!(wildcard_matches("iam:PassRole", "iam:PassRole"));
    assert!(!wildcard_matches("iam:PassRole", "iam:PassRol"));
    assert!(!wildcard_matches("iam:PassRole", "*"));
    assert!(wildcard_matches("a*c*e", "abcde"));
    assert!(!wildcard_matches("a*c", "abcd"));
    assert!(wildcard_matches("a??c", "aéc"));
    assert!(!wildcard_matches("a?c", "aéc"));
    assert!(wildcard_matches("**x**", "x"));
    assert!(!wildcard_matches("?", ""));
}
