use gptranslate::history::{is_near_duplicate, levenshtein_distance};
use gptranslate::normalize::clean_text_for_translation;

#[test]
fn normalizer_trims_every_line() {
    let out = clean_text_for_translation("  hello  \n\n   world   ");
    assert_eq!(out, "hello\n\nworld");
}

#[test]
fn normalizer_preserves_blank_lines() {
    let out = clean_text_for_translation("a\n\n\nb");
    assert_eq!(out, "a\n\n\nb");
    assert_eq!(out.lines().count(), 4);
}

#[test]
fn normalizer_keeps_line_count_with_blanks() {
    let input = "  one  \n\n  two\t\n three ";
    let out = clean_text_for_translation(input);
    assert_eq!(out, "one\n\ntwo\nthree");
    assert_eq!(out.split('\n').count(), input.lines().count());
    for line in out.split('\n') {
        assert_eq!(line, line.trim());
    }
}

#[test]
fn normalizer_drops_a_trailing_newline() {
    assert_eq!(clean_text_for_translation("abc\n"), "abc");
    assert_eq!(clean_text_for_translation(""), "");
    assert_eq!(clean_text_for_translation("   "), "");
}

#[test]
fn normalizer_strips_carriage_returns() {
    assert_eq!(clean_text_for_translation("a\r\nb"), "a\nb");
}

#[test]
fn levenshtein_counts_edits() {
    assert_eq!(levenshtein_distance("kitten", "sitting"), 3);
    assert_eq!(levenshtein_distance("", "abc"), 3);
    assert_eq!(levenshtein_distance("abc", "abc"), 0);
    assert_eq!(levenshtein_distance("flaw", "lawn"), 2);
}

#[test]
fn near_duplicates_are_recognized() {
    assert!(is_near_duplicate(
        "Hello world, how are you today",
        "Hello world, how are you today?"
    ));
    assert!(!is_near_duplicate(
        "Hello world, how are you today",
        "Completely different text here!"
    ));
    assert!(is_near_duplicate("", ""));
    assert!(!is_near_duplicate("", "something"));
}
