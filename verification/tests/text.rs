use digital_pantry::text::{i64_text, join_strings, lowercase_text, milli_string, normalize_name, trim_text, u64_text};

#[test]
fn decimal_texts() {
    assert_eq!(u64_text(0), "0");
    assert_eq!(u64_text(42), "42");
    assert_eq!(u64_text(u64::MAX), "18446744073709551615");
    assert_eq!(i64_text(-7), "-7");
    assert_eq!(i64_text(i64::MIN), "-9223372036854775808");
}

#[test]
fn milli_texts() {
    assert_eq!(milli_string(1500), "1.5");
    assert_eq!(milli_string(3000), "3");
    assert_eq!(milli_string(-250), "-0.25");
    assert_eq!(milli_string(1), "0.001");
    assert_eq!(milli_string(10), "0.01");
    assert_eq!(milli_string(120), "0.12");
    assert_eq!(milli_string(0), "0");
}

#[test]
fn trim_and_lowercase() {
    assert_eq!(trim_text("\u{a0} a b \n"), "a b");
    assert_eq!(trim_text("   "), "");
    assert_eq!(lowercase_text("ÀB"), "àb");
    assert_eq!(normalize_name("  Whole MILK "), "whole milk");
    assert_eq!(normalize_name(" \u{2003}\t"), "");
    assert_eq!(trim_text("x"), "x");
    assert_eq!(trim_text(""), "");
    assert_eq!(lowercase_text(""), "");
}

#[test]
fn joins() {
    let v = vec!["a".to_string(), "b".to_string(), "c".to_string()];
    assert_eq!(join_strings(&v, ", "), "a, b, c");
    assert_eq!(join_strings(&Vec::new(), ", "), "");
}
