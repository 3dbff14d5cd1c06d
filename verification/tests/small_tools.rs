use cwl::entry::Options;
use cwl::palindrome::{is_alphanumeric, is_pal_loop, is_pal_recursion, remove_non_alphanumeric};
use cwl::strutil::chars_to_string;
use cwl::temperature::{parse_unit, TemperatureUnit};
use cwl::words::{capitalize_first, get_word_counts, split_words};
use cwl::strutil::chars_of;

#[test]
fn options_is_none() {
    assert!(Options { chars: false, words: false, lines: false }.is_none());
    assert!(!Options { chars: true, words: false, lines: false }.is_none());
    assert!(!Options { chars: false, words: false, lines: true }.is_none());
}

#[test]
fn alphanumeric_test() {
    assert!(is_alphanumeric(&'a'));
    assert!(is_alphanumeric(&'Z'));
    assert!(is_alphanumeric(&'7'));
    assert!(!is_alphanumeric(&'!'));
    assert!(!is_alphanumeric(&' '));
    assert!(!is_alphanumeric(&'é'));
}

#[test]
fn sanitizing_removes_punctuation_and_spaces() {
    assert_eq!(remove_non_alphanumeric("race car!"), "racecar");
    assert_eq!(remove_non_alphanumeric("161"), "161");
    assert_eq!(remove_non_alphanumeric("?!, ."), "");
}

#[test]
fn palindromes_ignore_case() {
    assert!(is_pal_loop("Kayak"));
    assert!(is_pal_recursion("Kayak"));
    assert!(is_pal_loop("161"));
    assert!(is_pal_recursion("161"));
    assert!(!is_pal_loop("abc"));
    assert!(!is_pal_recursion("abc"));
    assert!(is_pal_loop(""));
    assert!(is_pal_recursion(""));
    assert!(is_pal_loop(&remove_non_alphanumeric("race car")));
    assert!(is_pal_recursion(&remove_non_alphanumeric("race car")));
}

#[test]
fn capitalize_first_uppercases_only_the_head() {
    assert_eq!(capitalize_first("hello"), "Hello");
    assert_eq!(capitalize_first("Star"), "Star");
    assert_eq!(capitalize_first(""), "");
    assert_eq!(capitalize_first("a b"), "A b");
}

#[test]
fn unit_parsing_trims_and_lowercases() {
    assert_eq!(parse_unit(" C "), Some(TemperatureUnit::C));
    assert_eq!(parse_unit("f"), Some(TemperatureUnit::F));
    assert_eq!(parse_unit("K\n"), Some(TemperatureUnit::K));
    assert_eq!(parse_unit("x"), None);
    assert_eq!(parse_unit(""), None);
    assert_eq!(parse_unit("cc"), None);
}

#[test]
fn splitting_words() {
    let ws = split_words(&chars_of("a  bc\td"));
    let got: Vec<String> = ws.iter().map(chars_to_string).collect();
    assert_eq!(got, vec!["a".to_string(), "bc".to_string(), "d".to_string()]);
    assert!(split_words(&chars_of("  ")).is_empty());
}

#[test]
fn word_counts_of_the_movie_titles() {
    let counts = get_word_counts();
    let find = |key: &str| -> Option<usize> {
        counts.iter().find(|p| p.0 == key).map(|p| p.1)
    };
    assert_eq!(find("star"), Some(4));
    assert_eq!(find("christmas"), Some(5));
    assert_eq!(find("love"), Some(2));
    assert_eq!(find("bang"), Some(2));
    assert_eq!(find("carol"), Some(2));
    assert_eq!(find("Star"), None);
    assert_eq!(find("nope"), None);
}
