use cwl::entry::{build_entry, Entry, FsSnapshot, Options};
use cwl::render::{render_directory, render_file, render_name_only, render_report};

fn all_metrics() -> Options {
    Options { chars: true, words: true, lines: true }
}

#[test]
fn empty_selection_names_the_directory_only() {
    let dir = FsSnapshot::Dir {
        name: "d".to_string(),
        entries: vec![
            Some(FsSnapshot::File { name: "d/f".to_string(), read: Ok("text".to_string()) }),
            Some(FsSnapshot::Dir { name: "d/sub".to_string(), entries: vec![] }),
        ],
    };
    let o = Options { chars: false, words: false, lines: false };
    assert_eq!(render_report(&dir, &o), "Directory name: \"d\"\n");
}

#[test]
fn empty_selection_names_the_file_only() {
    let f = FsSnapshot::File { name: "f".to_string(), read: Ok("text".to_string()) };
    let o = Options { chars: false, words: false, lines: false };
    assert_eq!(render_report(&f, &o), "File name: \"f\"\n");
}

#[test]
fn name_only_lines() {
    assert_eq!(render_name_only(true, "x"), "File name: \"x\"\n");
    assert_eq!(render_name_only(false, "y"), "Directory name: \"y\"\n");
}

#[test]
fn report_of_example_content() {
    let f = FsSnapshot::File { name: "f".to_string(), read: Ok("ab\ncd".to_string()) };
    let o = Options { chars: true, words: false, lines: true };
    assert_eq!(render_report(&f, &o), "File name: \"f\", char count: 5, line count: 2\n");
}

#[test]
fn report_of_empty_top_level_file() {
    let f = FsSnapshot::File { name: "f".to_string(), read: Ok(String::new()) };
    let o = Options { chars: false, words: true, lines: false };
    assert_eq!(render_report(&f, &o), "File \"f\" is empty\n");
}

#[test]
fn report_of_read_failure() {
    let f = FsSnapshot::File { name: "f".to_string(), read: Err("boom".to_string()) };
    assert_eq!(
        render_report(&f, &all_metrics()),
        "File name: \"f\", error: boom\n",
    );
}

#[test]
fn report_of_invalid_path() {
    let f = FsSnapshot::Other { name: "weird".to_string() };
    let e = build_entry(&f, &all_metrics(), true);
    assert_eq!(
        render_file(&e, &all_metrics()),
        "File name: \"weird\", error: Invalid path\n",
    );
}

#[test]
fn empty_directory_renders_its_own_line() {
    let d = FsSnapshot::Dir { name: "d".to_string(), entries: vec![] };
    assert_eq!(render_report(&d, &all_metrics()), "Directory \"d\" is empty\n");
}

#[test]
fn directory_report_lists_children_in_order() {
    let dir = FsSnapshot::Dir {
        name: "d".to_string(),
        entries: vec![
            Some(FsSnapshot::File { name: "d/a".to_string(), read: Ok("one two\n".to_string()) }),
            Some(FsSnapshot::Dir { name: "d/sub".to_string(), entries: vec![] }),
            Some(FsSnapshot::File { name: "d/b".to_string(), read: Ok(String::new()) }),
        ],
    };
    let o = Options { chars: false, words: true, lines: false };
    let expected = "Directory name: \"d\"\n\
                    File name: \"d/a\", word count: 2\n\
                    Directory \"d/sub\" is empty\n\
                    File name: \"d/b\", word count: 0\n";
    assert_eq!(render_report(&dir, &o), expected);
}

#[test]
fn counts_of_ten_or_more_render_all_digits() {
    let f = FsSnapshot::File {
        name: "f".to_string(),
        read: Ok("abcdefghij kl".to_string()),
    };
    let o = Options { chars: true, words: true, lines: true };
    assert_eq!(
        render_report(&f, &o),
        "File name: \"f\", char count: 13, word count: 2, line count: 1\n",
    );
}

#[test]
fn rendering_a_directory_as_file_emits_nothing() {
    let e = Entry::Directory { name: "d".to_string(), contents: vec![] };
    assert_eq!(render_file(&e, &all_metrics()), "");
    let f = Entry::File {
        name: "f".to_string(),
        char_count: None,
        word_count: None,
        line_count: None,
        error: None,
    };
    assert_eq!(render_directory(&f, &all_metrics()), "");
}
