use giskard::json::Json;
use giskard::table::Table;
use giskard::text::{
    bounded_utf8_preview, chars_of, first_visible_char, is_blank, push_decimal, push_signed, same, trim_line_ending,
};

#[test]
fn documents_are_read_and_printed() {
    let value = Json::read(b" { \"b\" : [1, -2, 1.50, \"x\\n\"], \"a\" : null } ").unwrap();
    assert_eq!(value.to_text(), r#"{"a":null,"b":[1,-2,1.5,"x\n"]}"#);
    assert!(Json::read(b"{").is_none());
    assert!(Json::read(b"1 2").is_none());
    assert_eq!(Json::Unsigned(u64::MAX).to_text(), u64::MAX.to_string());
    assert_eq!(Json::Decimal("2.5".into()).to_text(), "2.5");
    assert_eq!(value.clone().to_text(), value.to_text());
}

#[test]
fn members_are_found_by_key() {
    let value = Json::object().with("a", Json::Bool(true)).with("b", Json::text("t")).with("a", Json::Null);
    assert!(value.get("a").unwrap().is_null(), "a later entry counts");
    assert_eq!(value.text_at("b"), Some("t"));
    assert_eq!(value.text_at("a"), None);
    assert!(value.get("c").is_none() && value.at("c").is_null());
    assert!(Json::Null.at("c").is_null());
    assert!(value.at("b").is_text("t") && !value.at("b").is_text("T"));
    assert_eq!(value.to_text(), r#"{"a":null,"b":"t"}"#);
}

#[test]
fn texts_are_compared_and_trimmed_by_character() {
    assert!(same("é", "é") && !same("é", "e\u{301}") && !same("a", "ab"));
    assert!(is_blank(" \t\u{2003}\u{85}") && !is_blank("\u{200b}"));
    assert_eq!(first_visible_char("\u{3000} {x"), Some('{'));
    assert_eq!(first_visible_char("  "), None);
    assert_eq!(chars_of("aé"), vec!['a', 'é']);
    for (line, expected) in [("a\r\n", "a"), ("a\n", "a"), ("a\r", "a\r"), ("\n\n", "\n"), ("", "")] {
        let mut text = line.to_string();
        trim_line_ending(&mut text);
        assert_eq!(text, expected);
    }
}

#[test]
fn previews_never_split_a_character() {
    assert_eq!(bounded_utf8_preview("aé€", 0), "");
    assert_eq!(bounded_utf8_preview("aé€", 2), "a");
    assert_eq!(bounded_utf8_preview("aé€", 3), "aé");
    assert_eq!(bounded_utf8_preview("aé€", 5), "aé");
    assert_eq!(bounded_utf8_preview("aé€", 6), "aé€");
}

#[test]
fn numerals_are_decimal() {
    let mut text = String::from("n=");
    push_decimal(&mut text, u64::MAX);
    assert_eq!(text, format!("n={}", u64::MAX));
    for n in [0, 7, -7, 10, i64::MIN, i64::MAX] {
        let mut text = String::new();
        push_signed(&mut text, n);
        assert_eq!(text, n.to_string());
    }
}

#[test]
fn a_key_has_one_value() {
    let mut table: Table<u8> = Table::new();
    table.insert("a".into(), 1);
    table.insert("b".into(), 2);
    table.insert("a".into(), 3);
    assert_eq!(table.len(), 2);
    assert_eq!(table.get("a"), Some(&3));
    assert_eq!(table.remove("a"), Some(3));
    assert_eq!(table.remove("a"), None);
    assert!(!table.contains("a") && table.contains("b"));
    assert_eq!(table.keys(), vec!["b".to_string()]);
}
