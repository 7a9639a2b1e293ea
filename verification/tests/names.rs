use nwnarmory::derive::derive_name_rule;
use nwnarmory::names::{build_substitute, wildcard_match};
use nwnarmory::replace::{replace_no_case, replace_no_case_checked};

#[test]
fn wildcard_basic() {
    assert!(wildcard_match("pm??_belt???", "pm01_belt001"));
    assert!(!wildcard_match("pm??_belt???", "pf01_belt001"));
    assert!(wildcard_match("*", "anything"));
}

#[test]
fn substitute_halfling() {
    assert_eq!(build_substitute("pm01_belt001", "??a*"), "pma1_belt001");
}

#[test]
fn replace_no_case_basic() {
    assert_eq!(
        replace_no_case("bitmap PM01_BELT001", "pm01_belt001", "pm01a_belt001"),
        "bitmap pm01a_belt001"
    );
}

#[test]
fn replacement_where_lowercasing_shifts_offsets() {
    // U+212A KELVIN SIGN lowercases to a one-byte 'k'.
    assert_eq!(
        replace_no_case_checked("\u{212A} other", "source", "target"),
        Some("\u{212A} other".to_string())
    );
    assert_eq!(replace_no_case_checked("\u{212A} source", "source", "target"), None);
    assert_eq!(
        replace_no_case_checked("node SOURCE_g source", "source", "target"),
        Some("node target_g target".to_string())
    );
    assert_eq!(replace_no_case_checked("abc", "", "x"), Some("abc".to_string()));
}

#[test]
fn substitute_edge_cases() {
    assert_eq!(build_substitute("alpha", "same"), "same");
    assert_eq!(build_substitute("ab", "???x"), "abx");
    assert_eq!(build_substitute("pmh0", "??a*"), "pma0");
    assert_eq!(build_substitute("name", "a/b:c"), "abc");
    assert_eq!(build_substitute("name", "*"), "name");
    assert_eq!(build_substitute("name", "?"), "n");
}

#[test]
fn wildcard_edge_cases() {
    assert!(wildcard_match("", ""));
    assert!(!wildcard_match("", "a"));
    assert!(wildcard_match("**", ""));
    assert!(wildcard_match("a*b*c", "aXXbYYc"));
    assert!(!wildcard_match("a*b*c", "aXXbYY"));
    assert!(wildcard_match("*b", "*xb"));
    assert!(wildcard_match("?", "\u{e9}"));
    assert!(!wildcard_match("pm??", "pm0"));
}

#[test]
fn plain_patterns_match_only_themselves() {
    assert!(wildcard_match("pmh0_belt001", "pmh0_belt001"));
    assert!(!wildcard_match("pmh0_belt001", "pmh0_belt002"));
    assert!(!wildcard_match("pmh0_belt001", "pmh0_belt0011"));
}

#[test]
fn rules_apply_in_order_with_their_target_names() {
    let rules = vec![
        ("pm??_belt???".to_string(), "??a*".to_string()),
        ("pf*".to_string(), "x".to_string()),
        ("pm*".to_string(), "??d*".to_string()),
    ];
    let t = nwnarmory::names::rule_targets("pm01_belt001", &rules);
    assert_eq!(t, vec![(0, "pma1_belt001".to_string()), (2, "pmd1_belt001".to_string())]);
    assert!(nwnarmory::names::rule_targets("zz", &rules).is_empty());
}

#[test]
fn replacement_defined_when_offsets_shift_after_last_name() {
    // U+0130 lowercases to two characters; U+212A to a one-byte 'k'.
    assert_eq!(
        replace_no_case_checked("bitmap PM01_BELT001 \u{130}", "pm01_belt001", "pm01a_belt001"),
        Some("bitmap pm01a_belt001 \u{130}".to_string())
    );
    assert_eq!(
        replace_no_case_checked("source \u{212A}", "source", "target"),
        Some("target \u{212A}".to_string())
    );
    assert_eq!(replace_no_case_checked("source \u{130} source", "source", "target"), None);
}

#[test]
fn replacement_is_leftmost_and_non_overlapping() {
    assert_eq!(replace_no_case("aaaa", "aa", "b"), "bb");
    assert_eq!(replace_no_case("aaa", "AA", "b"), "ba");
    assert_eq!(replace_no_case("xAbAb", "ab", "-"), "x--");
    assert_eq!(replace_no_case_checked("PLAIN ascii Line", "line", "row"), Some("PLAIN ascii row".to_string()));
}

#[test]
fn derived_rule_for_a_standard_part() {
    let (m, s) = derive_name_rule("pmh0_chest001", "pma0_chest001");
    assert_eq!(m, "pm??_chest???");
    assert_eq!(s, "??a*");
    assert!(wildcard_match(&m, "pmh0_chest001"));
    assert_eq!(build_substitute("pmh0_chest001", &s), "pma0_chest001");
}

#[test]
fn derived_rule_changes_gender_and_race() {
    let (m, s) = derive_name_rule("PMH0_Chest001", "pfa0_chest001");
    assert_eq!(m, "pm??_chest???");
    assert_eq!(s, "?fa*");
    assert_eq!(build_substitute("pmh0_chest001", &s), "pfa0_chest001");
}

#[test]
fn derived_rule_for_other_names() {
    assert_eq!(derive_name_rule("robe12", "robe12"), ("robe??".to_string(), "*".to_string()));
    assert_eq!(derive_name_rule("helm", "helmx"), ("helm".to_string(), "????x".to_string()));
    assert_eq!(derive_name_rule("cloak_a", "cloak_b"), ("cloak_a".to_string(), "??????b".to_string()));
    assert_eq!(build_substitute("helm", "????x"), "helmx");
    assert_eq!(build_substitute("cloak_a", "??????b"), "cloak_b");
    let (m, s) = derive_name_rule("longname", "ln");
    assert_eq!(m, "longname");
    assert_eq!(s, "?n");
    assert_eq!(build_substitute("longname", &s), "ln");
}
