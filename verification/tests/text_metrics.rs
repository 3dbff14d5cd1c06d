use cwl::strutil::{chars_of, chars_to_string};
use cwl::text::{count_chars, count_lines, count_words, trim_chars};

#[test]
fn char_count_counts_scalar_values() {
    let v = chars_of("ab\ncd");
    assert_eq!(count_chars(&v), 5);
    let empty = chars_of("");
    assert_eq!(count_chars(&empty), 0);
    let accented = chars_of("héllo");
    assert_eq!(count_chars(&accented), 5);
}

#[test]
fn word_count_counts_maximal_runs() {
    assert_eq!(count_words(&chars_of("hello  world\t")), 2);
    assert_eq!(count_words(&chars_of("one two  three")), 3);
    assert_eq!(count_words(&chars_of("")), 0);
    assert_eq!(count_words(&chars_of("   \t\n ")), 0);
    assert_eq!(count_words(&chars_of("solo")), 1);
}

#[test]
fn line_count_handles_terminators() {
    assert_eq!(count_lines(&chars_of("ab\ncd")), 2);
    assert_eq!(count_lines(&chars_of("ab\n")), 1);
    assert_eq!(count_lines(&chars_of("")), 0);
    assert_eq!(count_lines(&chars_of("\n\n")), 2);
    assert_eq!(count_lines(&chars_of("one\ntwo\nthree")), 3);
}

#[test]
fn trim_removes_edge_whitespace() {
    let t = trim_chars(&chars_of("  a b \t"));
    assert_eq!(chars_to_string(&t), "a b");
    let all_ws = trim_chars(&chars_of(" \t "));
    assert_eq!(chars_to_string(&all_ws), "");
    let none = trim_chars(&chars_of("xy"));
    assert_eq!(chars_to_string(&none), "xy");
}
