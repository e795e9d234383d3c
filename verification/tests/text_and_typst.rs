use pcbfapi::text::{same_text, trim_str, u64_to_decimal};
use pcbfapi::typst::{
    build_single_page_script, build_typst_runner_script, escape_typst_string, json_str, json_str_array,
    json_to_typst, quote_typst_string, JsonValue, PAGE_SCRIPT_HEAD, RUNNER_SCRIPT_TAIL,
};

/// Reads back a string escaped for a Typst string literal.
fn unescape(s: &str) -> String {
    let mut out = String::new();
    let mut chars = s.chars();
    while let Some(c) = chars.next() {
        if c == '\\' {
            match chars.next() {
                Some('n') => out.push('\n'),
                Some('r') => out.push('\r'),
                Some('t') => out.push('\t'),
                Some(other) => out.push(other),
                None => out.push('\\'),
            }
        } else {
            out.push(c);
        }
    }
    out
}

#[test]
fn trim_removes_unicode_white_space_at_both_ends() {
    assert_eq!(trim_str("  \t a b \n"), "a b");
    assert_eq!(trim_str("\u{2003}x\u{00a0}"), "x");
    assert_eq!(trim_str("   "), "");
    assert_eq!(trim_str(""), "");
}

#[test]
fn decimal_text_of_numbers() {
    assert_eq!(u64_to_decimal(0), "0");
    assert_eq!(u64_to_decimal(42), "42");
    assert_eq!(u64_to_decimal(u64::MAX), "18446744073709551615");
}

#[test]
fn same_text_compares_characters() {
    assert!(same_text("default", "default"));
    assert!(!same_text("default", "Default"));
    assert!(!same_text("a", "ab"));
}

#[test]
fn escape_typst_string_escapes_quotes_backslashes_and_controls() {
    assert_eq!(escape_typst_string("a\"b\\c\nd\re\tf"), "a\\\"b\\\\c\\nd\\re\\tf");
    assert_eq!(escape_typst_string("plain"), "plain");
    assert_eq!(escape_typst_string(""), "");
}

#[test]
fn escaping_is_undone_by_reading_back() {
    for s in ["", "x", "\\", "\"\"", "line\nbreak\r\tend", "a\\nb", "ünï\\\"cödé"] {
        assert_eq!(unescape(&escape_typst_string(s)), s);
    }
}

#[test]
fn quote_typst_string_wraps_escaped_text() {
    assert_eq!(quote_typst_string("say \"hi\""), "\"say \\\"hi\\\"\"");
}

#[test]
fn json_to_typst_scalars() {
    assert_eq!(json_to_typst(&JsonValue::Null), "none");
    assert_eq!(json_to_typst(&JsonValue::Bool(true)), "true");
    assert_eq!(json_to_typst(&JsonValue::Bool(false)), "false");
    assert_eq!(json_to_typst(&JsonValue::Number("3.5".to_string())), "3.5");
    assert_eq!(json_to_typst(&json_str("a\"b")), "\"a\\\"b\"");
}

#[test]
fn json_to_typst_arrays() {
    assert_eq!(json_to_typst(&JsonValue::Array(vec![])), "()");
    assert_eq!(json_to_typst(&JsonValue::Array(vec![JsonValue::Number("1".to_string())])), "(1,)");
    let two = JsonValue::Array(vec![JsonValue::Number("1".to_string()), json_str("x")]);
    assert_eq!(json_to_typst(&two), "(1, \"x\")");
    let nested = JsonValue::Array(vec![JsonValue::Array(vec![]), JsonValue::Null]);
    assert_eq!(json_to_typst(&nested), "((), none)");
}

#[test]
fn json_to_typst_objects_lowercase_size_strings() {
    assert_eq!(json_to_typst(&JsonValue::Object(vec![])), "(:)");
    let o = JsonValue::Object(vec![
        ("size".to_string(), json_str("A4")),
        ("orientation".to_string(), JsonValue::Bool(true)),
    ]);
    assert_eq!(json_to_typst(&o), "(\"size\": \"a4\", \"orientation\": true)");
    let not_string = JsonValue::Object(vec![("size".to_string(), JsonValue::Number("3".to_string()))]);
    assert_eq!(json_to_typst(&not_string), "(\"size\": 3)");
    let other_key = JsonValue::Object(vec![("Size".to_string(), json_str("A4"))]);
    assert_eq!(json_to_typst(&other_key), "(\"Size\": \"A4\")");
    let quoted_key = JsonValue::Object(vec![("a\"k".to_string(), JsonValue::Null)]);
    assert_eq!(json_to_typst(&quoted_key), "(\"a\\\"k\": none)");
}

#[test]
fn json_string_arrays() {
    let a = json_str_array(&vec!["x".to_string(), "y".to_string()]);
    assert_eq!(a, JsonValue::Array(vec![json_str("x"), json_str("y")]));
}

#[test]
fn single_page_script_layout_then_project() {
    let s = build_single_page_script("LAYOUT", "(a: 1)");
    assert!(s.starts_with(PAGE_SCRIPT_HEAD));
    assert!(s.contains("#import \"@preview/cmarker:0.1.10\""));
    let layout_at = s.find("LAYOUT").unwrap();
    let project_at = s.find("#let project = (a: 1)").unwrap();
    assert!(layout_at < project_at);
    assert!(s.contains("#let p = project.pages.at(0)"));
    assert!(s.ends_with("#render_page(p.layout, p.local_fields, global_fields, p.content, p.path)\n"));
}

#[test]
fn runner_script_project_then_layout() {
    let s = build_typst_runner_script("LAYOUT", "(b: 2)");
    let project_at = s.find("#let project = (b: 2)").unwrap();
    let layout_at = s.find("LAYOUT").unwrap();
    assert!(project_at < layout_at);
    assert!(s.ends_with(RUNNER_SCRIPT_TAIL));
    assert!(s.contains("if i > 0 { pagebreak() }"));
}

#[test]
fn single_page_script_exact_text() {
    let expected = format!(
        r#"
#import "@preview/cmarker:0.1.10"

// --- INJECTED LAYOUT DEFINITION ---
{}

// --- INJECTED PROJECT DATA ---
#let project = {}
#let global_fields = project.global_fields
#let p = project.pages.at(0)

// --- EXECUTION ---
#render_page(p.layout, p.local_fields, global_fields, p.content, p.path)
"#,
        "#let render_page(..) = none", "(global_fields: (:), pages: ())"
    );
    assert_eq!(
        build_single_page_script("#let render_page(..) = none", "(global_fields: (:), pages: ())"),
        expected
    );
}
