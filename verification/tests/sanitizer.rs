//! Tests for the identifier sanitizer and the synthesized root names.

use speculate2::extension::to_ident;
use speculate2::root_ident;

fn chars(s: &str) -> Vec<char> {
    s.chars().collect()
}

#[test]
fn empty_text_becomes_placeholder() {
    assert_eq!(to_ident(&chars("")), chars("_"));
}

#[test]
fn leading_digit_and_runs_collapse() {
    assert_eq!(to_ident(&chars("123 abc!")), chars("_123_abc"));
}

#[test]
fn valid_identifier_unchanged() {
    assert_eq!(to_ident(&chars("abc")), chars("abc"));
    assert_eq!(to_ident(&chars("can_add_stuff")), chars("can_add_stuff"));
}

#[test]
fn trailing_underscore_stripped() {
    assert_eq!(to_ident(&chars("abc_")), chars("abc"));
}

#[test]
fn all_punctuation_degenerates_to_placeholder() {
    assert_eq!(to_ident(&chars("!")), chars("_"));
    assert_eq!(to_ident(&chars("!!! ???")), chars("_"));
}

#[test]
fn spaces_collapse_to_single_separators() {
    assert_eq!(to_ident(&chars("can add 1 and 2")), chars("can_add_1_and_2"));
}

#[test]
fn unicode_identifier_unchanged() {
    assert_eq!(to_ident(&chars("\u{65e5}\u{672c}")), chars("\u{65e5}\u{672c}"));
}

#[test]
fn root_names_spell_the_counter() {
    assert_eq!(root_ident(0), chars("speculate2_0"));
    assert_eq!(root_ident(12), chars("speculate2_12"));
    assert_eq!(root_ident(907), chars("speculate2_907"));
}

#[test]
fn root_names_differ_for_different_counters() {
    assert_ne!(root_ident(3), root_ident(4));
    assert_ne!(root_ident(1), root_ident(10));
}
