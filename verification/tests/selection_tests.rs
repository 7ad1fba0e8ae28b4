use canvas_fuzzy_finder::selection::{parse_selection, trim_spaces, ParseError};
use canvas_fuzzy_finder::split::{find_in, split_on_str, str_eq};

#[test]
fn selection_yields_the_link_field() {
    let r = parse_selection("Syllabus || https://x/1 || Algorithms");
    assert_eq!(r, Ok("https://x/1".to_string()));
}

#[test]
fn empty_selection_is_a_parse_error() {
    assert_eq!(parse_selection(""), Err(ParseError::TooFewFields));
}

#[test]
fn selection_without_separator_is_a_parse_error() {
    assert_eq!(parse_selection("no separators here"), Err(ParseError::TooFewFields));
}

#[test]
fn two_field_selection_yields_second_field() {
    assert_eq!(parse_selection("title || https://x/2"), Ok("https://x/2".to_string()));
}

#[test]
fn split_recovers_fields_of_a_formatted_line() {
    let line = canvas_fuzzy_finder::listing::format_line(
        "Week 1: Intro",
        "https://x/a?b=c",
        "Data & More",
    );
    let chosen = line.trim();
    let fields = split_on_str(chosen, " || ");
    assert_eq!(fields, vec!["Week 1: Intro", "https://x/a?b=c", "Data & More"]);
}

#[test]
fn split_keeps_empty_segments() {
    let fields = split_on_str("a ||  || b", " || ");
    assert_eq!(fields, vec!["a", "", "b"]);
}

#[test]
fn split_of_text_without_separator_is_one_segment() {
    assert_eq!(split_on_str("plain", " || "), vec!["plain"]);
}

#[test]
fn find_in_locates_first_occurrence_only() {
    assert_eq!(find_in("a || b || c", " || ", 0), Some(1));
    assert_eq!(find_in("a || b || c", " || ", 2), Some(6));
    assert_eq!(find_in("a || b || c", " || ", 7), None);
}

#[test]
fn trim_strips_surrounding_whitespace_only() {
    assert_eq!(trim_spaces("  a line \n"), "a line");
    assert_eq!(trim_spaces("\t\r\nx\u{3000}"), "x");
    assert_eq!(trim_spaces("untouched"), "untouched");
    assert_eq!(trim_spaces("a  b"), "a  b");
}

#[test]
fn trim_of_whitespace_only_is_empty() {
    assert_eq!(trim_spaces("   \n\t"), "");
    assert_eq!(trim_spaces(""), "");
    assert_eq!(trim_spaces(" "), "");
}

#[test]
fn trimmed_selector_output_parses() {
    let raw = "Syllabus || https://x/1 || Algorithms\n";
    let chosen = trim_spaces(raw);
    assert_eq!(parse_selection(&chosen), Ok("https://x/1".to_string()));
}

#[test]
fn str_eq_compares_by_characters() {
    assert!(str_eq("macos", "macos"));
    assert!(!str_eq("macos", "linux"));
    assert!(!str_eq("macos", "macOS"));
    assert!(!str_eq("macos", "maco"));
}
