use imessage_yaml::scalar::{
    write_kv_bool, write_kv_i32, write_kv_i64, write_kv_literal_opt_str, write_kv_literal_str,
    write_kv_opt_f64, write_kv_opt_i32, write_kv_opt_str, write_kv_str, write_timestamp_parts,
};
use imessage_yaml::text::{indent, yaml_quote};

#[test]
fn quotes_plain_text() {
    assert_eq!(yaml_quote("abc"), "\"abc\"");
    assert_eq!(yaml_quote(""), "\"\"");
    assert_eq!(yaml_quote("caf\u{e9} \u{1f600}"), "\"caf\u{e9} \u{1f600}\"");
}

#[test]
fn quotes_escapes() {
    assert_eq!(yaml_quote("a\\b\"c"), "\"a\\\\b\\\"c\"");
    assert_eq!(yaml_quote("a\nb\rc\td"), "\"a\\nb\\rc\\td\"");
}

#[test]
fn quotes_control_characters_in_hexadecimal() {
    assert_eq!(yaml_quote("\u{0}\u{1f}\u{7f}\u{9f}"), "\"\\u0000\\u001F\\u007F\\u009F\"");
    assert_eq!(yaml_quote("\u{20}\u{7e}\u{a0}"), "\"\u{20}\u{7e}\u{a0}\"");
}

#[test]
fn quoting_agrees_with_the_control_property() {
    for code in 0u32..0x3000 {
        if let Some(c) = char::from_u32(code) {
            let quoted = yaml_quote(&c.to_string());
            assert_eq!(quoted.contains('\\'), c.is_control() || c == '\\' || c == '"');
            if c.is_control() && c != '\n' && c != '\r' && c != '\t' {
                assert_eq!(quoted, format!("\"\\u{:04X}\"", code));
            }
        }
    }
}

#[test]
fn different_strings_are_quoted_differently() {
    assert_ne!(yaml_quote("\\n"), yaml_quote("\n"));
    assert_ne!(yaml_quote("\\u0000"), yaml_quote("\u{0}"));
    assert_ne!(yaml_quote("\""), yaml_quote("\\\""));
}

#[test]
fn indents() {
    let mut out = String::from("a");
    indent(&mut out, 0);
    assert_eq!(out, "a");
    indent(&mut out, 3);
    assert_eq!(out, "a   ");
}

#[test]
fn string_entries() {
    let mut out = String::from("x\n");
    write_kv_str(&mut out, 2, "key", "a \"b\"");
    assert_eq!(out, "x\n  key: \"a \\\"b\\\"\"\n");
    let mut out = String::new();
    write_kv_opt_str(&mut out, 0, "key", Some("v"));
    write_kv_opt_str(&mut out, 1, "other", None);
    assert_eq!(out, "key: \"v\"\n other: null\n");
}

#[test]
fn literal_entries() {
    let mut out = String::new();
    write_kv_literal_str(&mut out, 2, "text", "one\n two\n\nthree");
    assert_eq!(out, "  text: |\n    one\n     two\n    \n    three\n");
    let mut out = String::new();
    write_kv_literal_str(&mut out, 0, "text", "");
    assert_eq!(out, "text: |\n  \n");
    let mut out = String::new();
    write_kv_literal_str(&mut out, 0, "text", "a\n");
    assert_eq!(out, "text: |\n  a\n  \n");
    let mut out = String::new();
    write_kv_literal_opt_str(&mut out, 2, "text", None);
    write_kv_literal_opt_str(&mut out, 2, "text", Some("b"));
    assert_eq!(out, "  text: null\n  text: |\n    b\n");
}

#[test]
fn literal_entries_agree_with_splitting() {
    for value in ["", "\n", "a", "a\nb", "\n\na\n", "a\r\nb", "- x: 1\ny: 2"] {
        let mut expected = String::from("    k: |\n");
        for line in value.split('\n') {
            expected.push_str("      ");
            expected.push_str(line);
            expected.push('\n');
        }
        let mut out = String::new();
        write_kv_literal_str(&mut out, 4, "k", value);
        assert_eq!(out, expected);
    }
}

#[test]
fn integer_entries() {
    let mut out = String::new();
    write_kv_i32(&mut out, 4, "n", 0);
    write_kv_i32(&mut out, 0, "n", -7);
    write_kv_i32(&mut out, 0, "n", i32::MIN);
    write_kv_opt_i32(&mut out, 0, "n", Some(12));
    write_kv_opt_i32(&mut out, 0, "n", None);
    assert_eq!(out, "    n: 0\nn: -7\nn: -2147483648\nn: 12\nn: null\n");
}

#[test]
fn large_integers_agree_with_decimal_notation() {
    for n in [0, 9, 10, 99, 100, 1_000_000, -1, -10, i64::MAX, i64::MIN, i64::MIN + 1] {
        let mut out = String::new();
        write_kv_i64(&mut out, 0, "n", n);
        assert_eq!(out, format!("n: {}\n", n));
    }
}

#[test]
fn number_and_truth_entries() {
    let mut out = String::new();
    write_kv_opt_f64(&mut out, 2, "height", Some(&1.5f64.to_string()));
    write_kv_opt_f64(&mut out, 2, "width", None);
    write_kv_bool(&mut out, 0, "yes", true);
    write_kv_bool(&mut out, 0, "no", false);
    assert_eq!(out, "  height: 1.5\n  width: null\nyes: true\nno: false\n");
}

#[test]
fn timestamps() {
    let mut out = String::new();
    write_timestamp_parts(&mut out, 6, "sent", 5, Some("2020-01-01T00:00:00+00:00"), Some("Jan 1"));
    assert_eq!(
        out,
        "      sent:\n        raw: 5\n        local: \"2020-01-01T00:00:00+00:00\"\n        display: \"Jan 1\"\n"
    );
    let mut out = String::new();
    write_timestamp_parts(&mut out, 0, "read", 0, Some("x"), Some("y"));
    assert_eq!(out, "read:\n  raw: 0\n  local: null\n  display: null\n");
    let mut out = String::new();
    write_timestamp_parts(&mut out, 0, "read", -3, None, None);
    assert_eq!(out, "read:\n  raw: -3\n  local: null\n  display: null\n");
}
