use rust_agent::json::{obj_lookup, scan_object, scan_string, scan_value, skip_ws};

fn chars(s: &str) -> Vec<char> {
    s.chars().collect()
}

#[test]
fn scans_simple_values() {
    assert_eq!(scan_value(&chars("true"), 0), Some(4));
    assert_eq!(scan_value(&chars("false"), 0), Some(5));
    assert_eq!(scan_value(&chars("null"), 0), Some(4));
    assert_eq!(scan_value(&chars("0"), 0), Some(1));
    assert_eq!(scan_value(&chars("-12.5e+3"), 0), Some(8));
    assert_eq!(scan_value(&chars("\"hi\""), 0), Some(4));
}

#[test]
fn rejects_malformed_values() {
    assert_eq!(scan_value(&chars("tru"), 0), None);
    assert_eq!(scan_value(&chars("01"), 0), Some(1));
    assert_eq!(scan_value(&chars("-"), 0), None);
    assert_eq!(scan_value(&chars("1."), 0), None);
    assert_eq!(scan_value(&chars("1e"), 0), None);
    assert_eq!(scan_value(&chars("\"unterminated"), 0), None);
    assert_eq!(scan_value(&chars("x"), 0), None);
}

#[test]
fn scans_nested_structures() {
    let text = chars("{ \"a\": [1, {\"b\": null}, \"s\"], \"c\": false }");
    assert_eq!(scan_object(&text, 0), Some(text.len()));
    assert_eq!(scan_value(&chars("[ ]"), 0), Some(3));
    assert_eq!(scan_value(&chars("[1,2,3]"), 0), Some(7));
    assert_eq!(scan_value(&chars("[1,]"), 0), None);
    assert_eq!(scan_object(&chars("{\"a\":1,}"), 0), None);
}

#[test]
fn string_content_is_decoded() {
    let (end, content) = scan_string(&chars("\"a\\n\\\"b\\\\c\""), 0).expect("scan");
    assert_eq!(end, 11);
    let s: String = content.into_iter().collect();
    assert_eq!(s, "a\n\"b\\c");
}

#[test]
fn control_characters_and_unknown_escapes_are_rejected() {
    assert!(scan_string(&chars("\"a\tb\""), 0).is_none());
    assert!(scan_string(&chars("\"a\\qb\""), 0).is_none());
}

#[test]
fn unicode_escapes_are_decoded() {
    let (end, content) = scan_string(&chars("\"a\\u0041\\u00e9\\u3000b\""), 0).expect("scan");
    assert_eq!(end, 22);
    let s: String = content.into_iter().collect();
    assert_eq!(s, "aA\u{00e9}\u{3000}b");
}

#[test]
fn surrogate_values_and_bad_hex_are_rejected() {
    assert!(scan_string(&chars("\"\\uD800\""), 0).is_none());
    assert!(scan_string(&chars("\"\\uDFFF\""), 0).is_none());
    assert!(scan_string(&chars("\"\\u12G4\""), 0).is_none());
    assert!(scan_string(&chars("\"\\u123\""), 0).is_none());
}

#[test]
fn object_lookup_finds_first_member() {
    let text = chars("{\"a\": 1, \"b\": \"two\", \"a\": 3}");
    let (start, end) = obj_lookup(&text, 0, &chars("b")).expect("member b");
    let got: String = text[start..end].iter().collect();
    assert_eq!(got, "\"two\"");
    // duplicate keys: the first occurrence wins
    let (s2, e2) = obj_lookup(&text, 0, &chars("a")).expect("member a");
    let got2: String = text[s2..e2].iter().collect();
    assert_eq!(got2, "1");
    assert!(obj_lookup(&text, 0, &chars("missing")).is_none());
}

#[test]
fn whitespace_is_skipped() {
    let text = chars("  \t\n\r x");
    assert_eq!(skip_ws(&text, 0), 6);
    assert_eq!(skip_ws(&text, 6), 6);
    assert_eq!(skip_ws(&chars("   "), 0), 3);
}
