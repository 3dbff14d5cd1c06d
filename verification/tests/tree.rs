use cwl::entry::{build_entry, Entry, EntryError, FsSnapshot, Options};

fn words_only() -> Options {
    Options { chars: false, words: true, lines: false }
}

fn empty_file(name: &str) -> FsSnapshot {
    FsSnapshot::File { name: name.to_string(), read: Ok(String::new()) }
}

#[test]
fn top_level_empty_file_is_an_error() {
    let e = build_entry(&empty_file("f.txt"), &words_only(), true);
    match e {
        Entry::File { name, char_count, word_count, line_count, error } => {
            assert_eq!(name, "f.txt");
            assert_eq!(char_count, None);
            assert_eq!(word_count, None);
            assert_eq!(line_count, None);
            assert_eq!(error, Some(EntryError::EmptyFile));
        },
        Entry::Directory { .. } => panic!("expected a file node"),
    }
}

#[test]
fn nested_empty_file_counts_zero() {
    let dir = FsSnapshot::Dir {
        name: "d".to_string(),
        entries: vec![Some(empty_file("d/f.txt"))],
    };
    let e = build_entry(&dir, &words_only(), false);
    match e {
        Entry::Directory { name, contents } => {
            assert_eq!(name, "d");
            assert_eq!(contents.len(), 1);
            match &contents[0] {
                Entry::File { word_count, error, .. } => {
                    assert_eq!(*word_count, Some(0));
                    assert_eq!(*error, None);
                },
                Entry::Directory { .. } => panic!("expected a file node"),
            }
        },
        Entry::File { .. } => panic!("expected a directory node"),
    }
}

#[test]
fn unreadable_child_is_swallowed() {
    let dir = FsSnapshot::Dir {
        name: "d".to_string(),
        entries: vec![
            Some(FsSnapshot::File { name: "d/ok.txt".to_string(), read: Ok("hi".to_string()) }),
            None,
        ],
    };
    let e = build_entry(&dir, &words_only(), false);
    match e {
        Entry::Directory { contents, .. } => {
            assert_eq!(contents.len(), 1);
            match &contents[0] {
                Entry::File { name, error, .. } => {
                    assert_eq!(name, "d/ok.txt");
                    assert_eq!(*error, None);
                },
                Entry::Directory { .. } => panic!("expected a file node"),
            }
        },
        Entry::File { .. } => panic!("expected a directory node"),
    }
}

#[test]
fn building_twice_gives_identical_trees() {
    let make = || FsSnapshot::Dir {
        name: "d".to_string(),
        entries: vec![
            Some(FsSnapshot::File { name: "d/a".to_string(), read: Ok("x y\nz".to_string()) }),
            Some(FsSnapshot::Dir { name: "d/sub".to_string(), entries: vec![] }),
            Some(FsSnapshot::File { name: "d/b".to_string(), read: Err("denied".to_string()) }),
        ],
    };
    let o = Options { chars: true, words: true, lines: true };
    let e1 = build_entry(&make(), &o, false);
    let e2 = build_entry(&make(), &o, false);
    assert_eq!(e1, e2);
}

#[test]
fn read_failure_keeps_the_message() {
    let snap = FsSnapshot::File { name: "f".to_string(), read: Err("boom".to_string()) };
    let e = build_entry(&snap, &words_only(), true);
    match e {
        Entry::File { char_count, word_count, line_count, error, .. } => {
            assert_eq!(char_count, None);
            assert_eq!(word_count, None);
            assert_eq!(line_count, None);
            assert_eq!(error, Some(EntryError::Io("boom".to_string())));
        },
        Entry::Directory { .. } => panic!("expected a file node"),
    }
}

#[test]
fn invalid_path_is_an_error_node() {
    let snap = FsSnapshot::Other { name: "weird".to_string() };
    let e = build_entry(&snap, &words_only(), true);
    match e {
        Entry::File { error, .. } => assert_eq!(error, Some(EntryError::InvalidPath)),
        Entry::Directory { .. } => panic!("expected a file node"),
    }
}

#[test]
fn selected_metrics_of_example_content() {
    let snap = FsSnapshot::File { name: "f".to_string(), read: Ok("ab\ncd".to_string()) };
    let o = Options { chars: true, words: false, lines: true };
    let e = build_entry(&snap, &o, true);
    match e {
        Entry::File { char_count, word_count, line_count, error, .. } => {
            assert_eq!(char_count, Some(5));
            assert_eq!(word_count, None);
            assert_eq!(line_count, Some(2));
            assert_eq!(error, None);
        },
        Entry::Directory { .. } => panic!("expected a file node"),
    }
}

#[test]
fn unselected_metrics_stay_absent() {
    let snap = FsSnapshot::File { name: "f".to_string(), read: Ok("one two".to_string()) };
    let e = build_entry(&snap, &words_only(), true);
    match e {
        Entry::File { char_count, word_count, line_count, error, .. } => {
            assert_eq!(char_count, None);
            assert_eq!(word_count, Some(2));
            assert_eq!(line_count, None);
            assert_eq!(error, None);
        },
        Entry::Directory { .. } => panic!("expected a file node"),
    }
}
