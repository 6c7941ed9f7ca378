use spotnowplay::text::replacement_surely_stops;
use spotnowplay::text::{chars_of, contains, ends_with, join_strs, replace_all, replace_recursively};

#[test]
fn replace_all_replaces_every_occurrence() {
    assert_eq!(replace_all("a-b-a", "a", "xy"), "xy-b-xy");
}

#[test]
fn replace_all_is_leftmost_and_non_overlapping() {
    assert_eq!(replace_all("aaa", "aa", "b"), "ba");
    assert_eq!(replace_all("abc", "zz", "q"), "abc");
    assert_eq!(replace_all("", "a", "b"), "");
}

#[test]
fn replace_recursively_fills_a_placeholder() {
    assert_eq!(replace_recursively("%TITLE%/%ARTISTS%", "%TITLE%", "Song"), "Song/%ARTISTS%");
}

#[test]
fn replace_recursively_repeats_until_no_occurrence() {
    // "aaab" -> "aab" -> "ab" -> "b"
    assert_eq!(replace_recursively("aaab", "ab", "b"), "b");
    // "aabb" -> "ab" -> ""
    assert_eq!(replace_recursively("aabb", "ab", ""), "");
}

#[test]
fn replace_recursively_is_idempotent() {
    let once = replace_recursively("x%T%%T%y", "%T%", "-");
    assert_eq!(once, "x--y");
    assert_eq!(replace_recursively(&once, "%T%", "-"), once);
}

#[test]
fn replace_recursively_without_occurrence_keeps_text() {
    assert_eq!(replace_recursively("plain ♪ text", "%TITLE%", "x"), "plain ♪ text");
}

#[test]
fn contains_finds_patterns() {
    assert!(contains("hello world", "o w"));
    assert!(!contains("hello", "world"));
    assert!(contains("abc", ""));
    assert!(!contains("", "a"));
}

#[test]
fn ends_with_checks_suffix() {
    assert!(ends_with("scene obs-spotify.text", "obs-spotify.text"));
    assert!(!ends_with("obs-spotify.text scene", "obs-spotify.text"));
    assert!(!ends_with("text", "obs-spotify.text"));
    assert!(ends_with("abc", ""));
}

#[test]
fn join_strs_puts_separator_between_parts() {
    assert_eq!(join_strs(&vec!["A", "B", "C"], ", "), "A, B, C");
    assert_eq!(join_strs(&vec!["Solo"], ", "), "Solo");
    assert_eq!(join_strs(&vec![], ", "), "");
}

#[test]
fn chars_of_reads_unicode() {
    assert_eq!(chars_of("♪x"), vec!['♪', 'x']);
}

#[test]
fn replace_all_with_empty_pattern_inserts_everywhere() {
    assert_eq!(replace_all("abc", "", "x"), "xaxbxcx");
    assert_eq!(replace_all("", "", "x"), "x");
}

#[test]
fn replacement_surely_stops_conditions() {
    // empty pattern: never stops
    assert!(!replacement_surely_stops("", "x"));
    // replacement shorter than the pattern
    assert!(replacement_surely_stops("%TITLE%", "%TITLE"));
    // a character of the pattern missing from the replacement
    assert!(replacement_surely_stops("%TITLE%", "Some Song"));
    // replacement holding every character of the pattern
    assert!(!replacement_surely_stops("%TITLE%", "%TITLE% live"));
    assert!(!replacement_surely_stops("ab", "ba"));
}

#[test]
fn repeated_replacement_equals_repeated_replacement_of_one_pass() {
    let s = "aaabb";
    let once = replace_all(s, "ab", "");
    assert_eq!(once, "aab");
    assert_eq!(replace_recursively(s, "ab", ""), replace_recursively(&once, "ab", ""));
    assert_eq!(replace_recursively(s, "ab", ""), "a");
}
