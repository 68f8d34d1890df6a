use std::ops::Range;

use enso::autocomplete::{get_best_candidates, get_matches, AutocompleteMap, AutocompleteSuggestion, CandidateSuggestion};

fn strings(names: &[&str]) -> Vec<String> {
    names.iter().map(|name| String::from(*name)).collect()
}

fn sugg(name: &str, matches: Vec<Range<usize>>, value: usize) -> AutocompleteSuggestion<usize> {
    AutocompleteSuggestion {
        name: String::from(name),
        matches,
        value,
    }
}

fn cand(name: &'static str, matches: Vec<Range<usize>>) -> CandidateSuggestion<'static> {
    CandidateSuggestion { name, matches }
}

#[test]
fn test_autocomplete_map_works() {
    let mut am = AutocompleteMap::new();
    am.insert("boop", 1);
    am.insert("goop", 2);
    am.insert("boink", 3);
    assert_eq!(
        am.autocomplete("bo", 500),
        vec![sugg("boink", vec![0..2], 3), sugg("boop", vec![0..2], 1)]
    );
}

#[test]
fn test_get_best_candidates_ignores_nonmatches() {
    assert_eq!(
        get_best_candidates("bo", &strings(&["hi", "there"]), 500),
        vec![]
    );
}

#[test]
fn test_get_best_candidates_returns_suggs_sorted_by_earliest_char_match() {
    assert_eq!(
        get_best_candidates("t", &strings(&["quit", "tada"]), 500),
        vec![cand("tada", vec![0..1]), cand("quit", vec![3..4])]
    );
}

#[test]
fn test_get_best_candidates_returns_lexicographically_sorted_matches() {
    assert_eq!(
        get_best_candidates("bo", &strings(&["boop", "boink"]), 500),
        vec![cand("boink", vec![0..2]), cand("boop", vec![0..2])]
    );
}

#[test]
fn test_get_best_candidates_truncates_matches() {
    assert_eq!(
        get_best_candidates("bo", &strings(&["boop", "boink"]), 1),
        vec![cand("boink", vec![0..2])]
    );
}

#[test]
fn test_get_matches_returns_empty_vec() {
    assert_eq!(get_matches("boop", "goop"), vec![]);
    assert_eq!(get_matches("", "goop"), vec![]);
}

#[test]
fn test_get_matches_only_works_when_all_chars_match() {
    assert_eq!(get_matches("boop", "bop"), vec![]);
}

#[test]
fn test_get_matches_returns_full_matches() {
    assert_eq!(get_matches("boop", "boop"), vec![0..4]);
}

#[test]
fn test_get_matches_returns_contiguous_matches() {
    assert_eq!(get_matches("popper", "party popper"), vec![6..12]);
}

#[test]
fn get_matches_reports_the_first_occurrence() {
    assert_eq!(get_matches("ab", "xxabab"), vec![2..4]);
}

#[test]
fn get_matches_is_case_sensitive() {
    assert_eq!(get_matches("Bo", "boop"), vec![]);
}

#[test]
fn get_matches_counts_bytes_for_non_ascii_names() {
    assert_eq!(get_matches("x", "\u{e9}x"), vec![2..3]);
}

#[test]
fn empty_query_suggests_nothing() {
    let mut am = AutocompleteMap::new();
    am.insert("boop", 1);
    am.insert("goop", 2);
    assert_eq!(am.autocomplete("", 500), vec![]);
}

#[test]
fn zero_max_results_suggests_nothing() {
    let mut am = AutocompleteMap::new();
    am.insert("boop", 1);
    assert_eq!(am.autocomplete("bo", 0), vec![]);
}

#[test]
fn ranking_prefers_earliest_match() {
    let mut am = AutocompleteMap::new();
    am.insert("quit", 1);
    am.insert("tada", 2);
    assert_eq!(
        am.autocomplete("t", 500),
        vec![sugg("tada", vec![0..1], 2), sugg("quit", vec![3..4], 1)]
    );
}

#[test]
fn ranking_ties_break_by_name_and_truncate() {
    let mut am = AutocompleteMap::new();
    am.insert("boop", 1);
    am.insert("boink", 2);
    assert_eq!(am.autocomplete("bo", 1), vec![sugg("boink", vec![0..2], 2)]);
}

#[test]
fn insert_overwrites_and_returns_previous_value() {
    let mut am = AutocompleteMap::new();
    assert_eq!(am.insert("boop", 1), None);
    assert_eq!(am.insert("boop", 7), Some(1));
    assert_eq!(am.autocomplete("boop", 5), vec![sugg("boop", vec![0..4], 7)]);
}

#[test]
fn remove_and_contains() {
    let mut am = AutocompleteMap::new();
    am.insert("boop", 1);
    am.insert("goop", 2);
    assert!(am.contains("boop"));
    assert_eq!(am.remove("boop"), Some(1));
    assert!(!am.contains("boop"));
    assert!(am.contains("goop"));
    assert_eq!(am.remove("boop"), None);
    assert_eq!(am.autocomplete("oop", 5), vec![sugg("goop", vec![1..4], 2)]);
}
