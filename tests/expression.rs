use sbom_license::expression::{is_blank_text, is_space_char, split_license_expression, strip_parens};
use sbom_license::spdx_license::{resolve_license_name, LicenseInfo};

fn strings(v: &[&str]) -> Vec<String> {
    v.iter().map(|s| s.to_string()).collect()
}

fn info(id: &str, name: &str) -> LicenseInfo {
    LicenseInfo {
        extracted_text: format!("text of {}", id),
        license_id: id.to_string(),
        name: name.to_string(),
        comment: String::new(),
    }
}

#[test]
fn split_nested_expression_in_order() {
    let ids = split_license_expression("MIT OR (Apache-2.0 AND Custom-1)");
    assert_eq!(ids, strings(&["MIT", "Apache-2.0", "Custom-1"]));
}

#[test]
fn split_single_identifier() {
    assert_eq!(split_license_expression("MIT"), strings(&["MIT"]));
}

#[test]
fn split_empty_expression_gives_nothing() {
    assert!(split_license_expression("").is_empty());
    assert!(split_license_expression("()").is_empty());
}

#[test]
fn split_drops_blank_tokens() {
    assert_eq!(split_license_expression("MIT OR  OR GPL-2.0"), strings(&["MIT", "GPL-2.0"]));
    assert_eq!(split_license_expression(" OR MIT AND "), strings(&["MIT"]));
    assert_eq!(split_license_expression("MIT OR   OR X"), strings(&["MIT", "X"]));
}

#[test]
fn split_operators_are_case_sensitive() {
    assert_eq!(split_license_expression("MIT or Apache-2.0"), strings(&["MIT or Apache-2.0"]));
    assert_eq!(split_license_expression("MIT OR Apache-2.0 and BSD"), strings(&["MIT", "Apache-2.0 and BSD"]));
}

#[test]
fn split_then_rejoin_without_and() {
    let expr = "(MIT OR Apache-2.0) OR BSD-3-Clause";
    let joined = split_license_expression(expr).join(" OR ");
    assert_eq!(joined, strip_parens(expr));
    assert_eq!(joined, "MIT OR Apache-2.0 OR BSD-3-Clause");
}

#[test]
fn strip_parens_removes_every_paren() {
    assert_eq!(strip_parens("((A OR B) AND (C))"), "A OR B AND C");
    assert_eq!(strip_parens("plain"), "plain");
    assert_eq!(strip_parens(""), "");
}

#[test]
fn blank_text_detection() {
    assert!(is_blank_text(""));
    assert!(is_blank_text(" \t\n"));
    assert!(is_blank_text("\u{3000}\u{a0}"));
    assert!(!is_blank_text(" a "));
    assert!(is_space_char('\u{2028}'));
    assert!(!is_space_char('x'));
}

#[test]
fn resolve_finds_name() {
    let table = vec![info("Custom-1", "My Custom License"), info("Custom-2", "Other")];
    assert_eq!(resolve_license_name(&"Custom-1".to_string(), &table), "My Custom License");
    assert_eq!(resolve_license_name(&"Custom-2".to_string(), &table), "Other");
}

#[test]
fn resolve_first_match_wins() {
    let table = vec![info("X", "First"), info("X", "Second")];
    assert_eq!(resolve_license_name(&"X".to_string(), &table), "First");
}

#[test]
fn resolve_unknown_falls_back_to_identifier() {
    let table = vec![info("Custom-1", "My Custom License")];
    assert_eq!(resolve_license_name(&"MIT".to_string(), &table), "MIT");
    assert_eq!(resolve_license_name(&"MIT".to_string(), &Vec::new()), "MIT");
}

#[test]
fn resolve_is_idempotent_on_display_names() {
    let table = vec![info("Custom-1", "My Custom License")];
    let once = resolve_license_name(&"Custom-1".to_string(), &table);
    let twice = resolve_license_name(&once, &table);
    assert_eq!(once, twice);
}
