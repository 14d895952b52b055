use transducer_agent::json::{
    copy_value, encode_value, is_json_number, is_well_formed, members_are_well_formed,
    push_number, push_text, push_value, JsonMember, JsonValue,
};
use transducer_agent::text::{
    count_lines, cut, decimal_text, has_char, is_white_space, rest_after, same_text,
    signed_decimal_text, strip_prefix, trim, utf8_bytes,
};

#[test]
fn trimming_is_that_of_the_standard_library() {
    for s in [
        "", " ", "a", " a ", "\t\n\u{b}\u{c}\ra\u{85}", "\u{a0}\u{1680}x y\u{2000}\u{200a}",
        "\u{2028}\u{2029}z\u{202f}\u{205f}\u{3000}", "\u{200b}a\u{200b}", "\u{feff}a", "a\u{1f}",
    ] {
        assert_eq!(trim(s), s.trim());
    }
}

#[test]
fn white_space_is_that_of_the_standard_library() {
    for n in 0..=0x10ffffu32 {
        if let Some(c) = char::from_u32(n) {
            assert_eq!(is_white_space(c), c.is_whitespace());
        }
    }
}

#[test]
fn searching_is_that_of_the_standard_library() {
    for (s, p) in [
        ("", ""), ("a", ""), ("", "a"), ("aab", "ab"), ("x to y to z", " to "), ("abc", "abcd"),
        ("\u{e9}\u{e9}x", "\u{e9}x"),
    ] {
        assert_eq!(rest_after(s, p), s.find(p).map(|at| s[at + p.len()..].to_string()));
        assert_eq!(strip_prefix(s, p), s.strip_prefix(p).map(|rest| rest.to_string()));
    }
    assert!(has_char("a/b", '/'));
    assert!(!has_char("ab", '/'));
    assert!(same_text("ab", "ab"));
    assert!(!same_text("ab", "aB"));
}

#[test]
fn lines_are_those_of_the_standard_library() {
    for s in ["", "a", "a\n", "a\nb", "\n", "\n\n", "a\r\nb\r\n", "\r", "a\n\nb"] {
        assert_eq!(count_lines(s), s.lines().count());
    }
}

#[test]
fn cuts_fall_between_characters() {
    assert_eq!(cut("abc", 0), "");
    assert_eq!(cut("abc", 2), "ab");
    assert_eq!(cut("h\u{e9}llo", 3), "h\u{e9}");
    assert_eq!(cut("abc", 3), "abc");
}

#[test]
fn numbers_are_written_in_decimal() {
    for n in [0u64, 7, 10, 99, 100, 1234567890, u64::MAX] {
        assert_eq!(decimal_text(n), n.to_string());
    }
    for n in [0i32, 7, -7, i32::MAX, i32::MIN] {
        assert_eq!(signed_decimal_text(n), n.to_string());
    }
}

#[test]
fn bytes_are_those_of_utf8() {
    assert_eq!(utf8_bytes("h\u{e9}"), "h\u{e9}".as_bytes());
}

#[test]
fn json_parts_are_put_together() {
    assert_eq!(encode_value(&JsonValue::Array(vec![])), "[]");
    let mut items = vec![];
    push_value(&mut items, JsonValue::Number("1".to_string()));
    assert_eq!(encode_value(&JsonValue::Array(items)), "[1]");
    let mut members = vec![];
    push_text(&mut members, "a", "b\"c");
    push_number(&mut members, "d", 12);
    assert_eq!(encode_value(&JsonValue::Object(members)), "{\"a\":\"b\\\"c\",\"d\":12}");
}

#[test]
fn json_strings_are_escaped() {
    let mut text = String::new();
    for n in 0..0x250u32 {
        text.push(char::from_u32(n).unwrap());
    }
    let encoded = encode_value(&JsonValue::Text(text.clone()));
    assert!(encoded.starts_with(
        "\"\\u0000\\u0001\\u0002\\u0003\\u0004\\u0005\\u0006\\u0007\\b\\t\\n\\u000b\\f\\r\\u000e\\u000f\\u0010"
    ));
    assert!(encoded.contains("\\u001a\\u001b\\u001c\\u001d\\u001e\\u001f !\\\"#$"));
    assert!(encoded.contains("Z[\\\\]^"));
    assert!(encoded.contains("~\u{7f}\u{80}"));
    let read: String = serde_json::from_str(&encoded).unwrap();
    assert_eq!(read, text);
}

#[test]
fn json_values_are_read_back() {
    let value = JsonValue::Object(vec![
        JsonMember {
            key: "k\\".to_string(),
            value: JsonValue::Text("\u{8}\t\u{7f}\u{e9}/".to_string()),
        },
        JsonMember {
            key: "n".to_string(),
            value: JsonValue::Array(vec![JsonValue::Number("1.25".to_string()), JsonValue::Null]),
        },
        JsonMember { key: "o".to_string(), value: JsonValue::Object(vec![]) },
    ]);
    let read: serde_json::Value = serde_json::from_str(&encode_value(&value)).unwrap();
    assert_eq!(read["k\\"], "\u{8}\t\u{7f}\u{e9}/");
    assert_eq!(read["n"][0].as_f64(), Some(1.25));
    assert!(read["n"][1].is_null());
    assert_eq!(encode_value(&value), serde_json::to_string(&read).unwrap());
    assert_eq!(encode_value(&copy_value(&value)), encode_value(&value));
    assert_eq!(encode_value(&value.clone()), encode_value(&value));
}

#[test]
fn numbers_are_those_of_json() {
    for literal in [
        "0", "-0", "7", "10", "-12", "1.5", "0.25", "-1.5e3", "1e9", "1E+9", "1e-09", "0.0e0",
    ] {
        assert!(is_json_number(literal), "{}", literal);
        assert!(serde_json::from_str::<serde_json::Value>(literal).is_ok());
    }
    for literal in [
        "", "-", "+1", "01", "-01", "1.", ".5", "1.e3", "1e", "1e+", "1-+e", "e1", "1.5.2", "1e2e3",
        "0x1", "1 ", "--1", "1e1.5", "a",
    ] {
        assert!(!is_json_number(literal), "{}", literal);
    }
}

#[test]
fn keys_are_distinct_at_every_depth() {
    let member = |key: &str, value: JsonValue| JsonMember { key: key.to_string(), value };
    let twice = || vec![member("a", JsonValue::Null), member("a", JsonValue::Null)];
    assert!(!members_are_well_formed(&twice()));
    assert!(members_are_well_formed(&vec![
        member("a", JsonValue::Null),
        member("b", JsonValue::Object(vec![member("a", JsonValue::Null)])),
    ]));
    let nested = JsonValue::Array(vec![JsonValue::Object(twice())]);
    assert!(!is_well_formed(&nested));
    assert!(!is_well_formed(&JsonValue::Object(vec![member("x", nested)])));
    assert!(!is_well_formed(&JsonValue::Array(vec![JsonValue::Number("1-+e".to_string())])));
    assert!(is_well_formed(&JsonValue::Array(vec![JsonValue::Number("1".to_string())])));
}
