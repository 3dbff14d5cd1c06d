use vstd::prelude::*;
use crate::strutil::chars_of;
use crate::text::{count_chars, count_lines, count_words, line_count_spec, word_count_spec};

verus! {

/// The metrics selection: which of the three counts were requested.
#[derive(Clone, Copy, Debug)]
pub struct Options {
    pub chars: bool,
    pub words: bool,
    pub lines: bool,
}

impl Options {
    /// True when no metric at all was requested.
    pub open spec fn spec_is_none(&self) -> bool {
        !self.chars && !self.words && !self.lines
    }

    /// Returns true if none of the options are specified.
    pub fn is_none(&self) -> (r: bool)
        ensures
            r == self.spec_is_none(),
    {
        !self.chars && !self.words && !self.lines
    }
}

/// The error recorded on a file node: the distinguished empty-file case, the
/// invalid-path case, or a read failure carrying the underlying message.
#[derive(Debug, Clone, PartialEq)]
pub enum EntryError {
    EmptyFile,
    InvalidPath,
    Io(String),
}

/// Mathematical form of an `EntryError`.
pub enum EntryErrorV {
    EmptyFile,
    InvalidPath,
    Io(Seq<char>),
}

impl View for EntryError {
    type V = EntryErrorV;

    open spec fn view(&self) -> EntryErrorV {
        match self {
            EntryError::EmptyFile => EntryErrorV::EmptyFile,
            EntryError::InvalidPath => EntryErrorV::InvalidPath,
            EntryError::Io(m) => EntryErrorV::Io(m@),
        }
    }
}

/// Represents a file or directory.
#[derive(Debug, PartialEq)]
pub enum Entry {
    File {
        name: String,
        char_count: Option<usize>,
        word_count: Option<usize>,
        line_count: Option<usize>,
        error: Option<EntryError>,
    },
    Directory {
        name: String,
        contents: Vec<Entry>,
    },
}

/// Mathematical form of an `Entry`.
#[verifier::ext_equal]
pub enum EntryV {
    File {
        name: Seq<char>,
        char_count: Option<nat>,
        word_count: Option<nat>,
        line_count: Option<nat>,
        error: Option<EntryErrorV>,
    },
    Directory {
        name: Seq<char>,
        contents: Seq<EntryV>,
    },
}

/// The view of one entry.
pub open spec fn entry_view(e: Entry) -> EntryV
    decreases e,
{
    match e {
        Entry::File { name, char_count, word_count, line_count, error } => EntryV::File {
            name: name@,
            char_count: match char_count {
                Some(n) => Some(n as nat),
                None => None,
            },
            word_count: match word_count {
                Some(n) => Some(n as nat),
                None => None,
            },
            line_count: match line_count {
                Some(n) => Some(n as nat),
                None => None,
            },
            error: match error {
                Some(er) => Some(er@),
                None => None,
            },
        },
        Entry::Directory { name, contents } => EntryV::Directory {
            name: name@,
            contents: entries_view(contents@),
        },
    }
}

/// The views of a sequence of entries, in order.
pub open spec fn entries_view(es: Seq<Entry>) -> Seq<EntryV>
    decreases es,
{
    if es.len() == 0 {
        Seq::empty()
    } else {
        seq![entry_view(es[0])] + entries_view(es.drop_first())
    }
}

impl View for Entry {
    type V = EntryV;

    open spec fn view(&self) -> EntryV {
        entry_view(*self)
    }
}

/// What one directory-level read of the filesystem showed: a regular file
/// together with the outcome of reading it (the error message on failure), a
/// directory with its immediate entries (`None` for a child whose enumeration
/// failed, which the build swallows), or a path that is neither.
#[derive(Debug, PartialEq)]
pub enum FsSnapshot {
    File { name: String, read: Result<String, String> },
    Dir { name: String, entries: Vec<Option<FsSnapshot>> },
    Other { name: String },
}

/// Mathematical form of an `FsSnapshot`.
#[verifier::ext_equal]
pub enum FsSnapshotV {
    File { name: Seq<char>, read: Result<Seq<char>, Seq<char>> },
    Dir { name: Seq<char>, entries: Seq<Option<FsSnapshotV>> },
    Other { name: Seq<char> },
}

/// The view of one snapshot node.
pub open spec fn snapshot_view(s: FsSnapshot) -> FsSnapshotV
    decreases s,
{
    match s {
        FsSnapshot::File { name, read } => FsSnapshotV::File {
            name: name@,
            read: match read {
                Ok(c) => Ok(c@),
                Err(m) => Err(m@),
            },
        },
        FsSnapshot::Dir { name, entries } => FsSnapshotV::Dir {
            name: name@,
            entries: snapshot_entries_view(entries@),
        },
        FsSnapshot::Other { name } => FsSnapshotV::Other { name: name@ },
    }
}

/// The views of a directory's enumerated children, in order.
pub open spec fn snapshot_entries_view(es: Seq<Option<FsSnapshot>>) -> Seq<Option<FsSnapshotV>>
    decreases es,
{
    if es.len() == 0 {
        Seq::empty()
    } else {
        seq![
            match es[0] {
                Some(c) => Some(snapshot_view(c)),
                None => None,
            },
        ] + snapshot_entries_view(es.drop_first())
    }
}

impl View for FsSnapshot {
    type V = FsSnapshotV;

    open spec fn view(&self) -> FsSnapshotV {
        snapshot_view(*self)
    }
}

/// A file node that records an error and no counts.
pub open spec fn error_entry(name: Seq<char>, err: EntryErrorV) -> EntryV {
    EntryV::File {
        name,
        char_count: None,
        word_count: None,
        line_count: None,
        error: Some(err),
    }
}

/// A file node carrying, for each selected metric, the count the content
/// gives, and no error.
pub open spec fn counted_entry(name: Seq<char>, content: Seq<char>, o: Options) -> EntryV {
    EntryV::File {
        name,
        char_count: if o.chars {
            Some(content.len())
        } else {
            None
        },
        word_count: if o.words {
            Some(word_count_spec(content))
        } else {
            None
        },
        line_count: if o.lines {
            Some(line_count_spec(content))
        } else {
            None
        },
        error: None,
    }
}

/// The tree that building from snapshot `s` must produce: a failed read or an
/// invalid path becomes an error node; an empty file read at top level with a
/// non-empty selection becomes the distinguished empty-file error node; any
/// other file gets the selected counts; a directory collects the build of each
/// readable child, in order, and drops the unreadable ones.
pub open spec fn build_spec(s: FsSnapshotV, o: Options, top: bool) -> EntryV
    decreases s,
{
    match s {
        FsSnapshotV::File { name, read } => match read {
            Result::Err(msg) => error_entry(name, EntryErrorV::Io(msg)),
            Result::Ok(content) => {
                if top && content.len() == 0 && !o.spec_is_none() {
                    error_entry(name, EntryErrorV::EmptyFile)
                } else {
                    counted_entry(name, content, o)
                }
            },
        },
        FsSnapshotV::Dir { name, entries } => EntryV::Directory {
            name,
            contents: build_children_spec(entries, o),
        },
        FsSnapshotV::Other { name } => error_entry(name, EntryErrorV::InvalidPath),
    }
}

/// The children a directory build produces: one built node per readable
/// child, none for a child whose enumeration failed.
pub open spec fn build_children_spec(es: Seq<Option<FsSnapshotV>>, o: Options) -> Seq<EntryV>
    decreases es,
{
    if es.len() == 0 {
        Seq::empty()
    } else {
        (match es[0] {
            Some(c) => seq![build_spec(c, o, false)],
            None => Seq::<EntryV>::empty(),
        }) + build_children_spec(es.drop_first(), o)
    }
}

/// The length of `entries_view` equals the input length.
pub proof fn lemma_entries_view_len(es: Seq<Entry>)
    ensures
        entries_view(es).len() == es.len(),
    decreases es,
{
    if es.len() > 0 {
        lemma_entries_view_len(es.drop_first());
    }
}

/// Index form of `entries_view`: element by element.
pub proof fn lemma_entries_view_index(es: Seq<Entry>, i: int)
    requires
        0 <= i < es.len(),
    ensures
        entries_view(es).len() == es.len(),
        entries_view(es)[i] == entry_view(es[i]),
    decreases es,
{
    lemma_entries_view_len(es);
    if i > 0 {
        lemma_entries_view_index(es.drop_first(), i - 1);
    }
}

/// Appending one entry appends its view.
proof fn lemma_entries_view_push(es: Seq<Entry>, e: Entry)
    ensures
        entries_view(es.push(e)) == entries_view(es) + seq![entry_view(e)],
    decreases es,
{
    reveal_with_fuel(entries_view, 2);
    if es.len() == 0 {
        assert(es.push(e)[0] == e);
        assert(es.push(e).drop_first() =~= Seq::<Entry>::empty());
        assert(entries_view(es.push(e)) =~= entries_view(es) + seq![entry_view(e)]);
    } else {
        assert(es.push(e)[0] == es[0]);
        assert(es.push(e).drop_first() =~= es.drop_first().push(e));
        lemma_entries_view_push(es.drop_first(), e);
        assert(entries_view(es.push(e)) =~= entries_view(es) + seq![entry_view(e)]);
    }
}

/// The children of a one-longer enumeration are the children so far plus the
/// contribution of the new child.
proof fn lemma_build_children_push(es: Seq<Option<FsSnapshotV>>, x: Option<FsSnapshotV>, o: Options)
    ensures
        build_children_spec(es.push(x), o) == build_children_spec(es, o) + (match x {
            Some(c) => seq![build_spec(c, o, false)],
            None => Seq::<EntryV>::empty(),
        }),
    decreases es,
{
    reveal_with_fuel(build_children_spec, 2);
    if es.len() == 0 {
        assert(es.push(x)[0] == x);
        assert(es.push(x).drop_first() =~= Seq::<Option<FsSnapshotV>>::empty());
        assert(build_children_spec(es.push(x), o) =~= build_children_spec(es, o) + (match x {
            Some(c) => seq![build_spec(c, o, false)],
            None => Seq::<EntryV>::empty(),
        }));
    } else {
        assert(es.push(x)[0] == es[0]);
        assert(es.push(x).drop_first() =~= es.drop_first().push(x));
        lemma_build_children_push(es.drop_first(), x, o);
        assert(build_children_spec(es.push(x), o) =~= build_children_spec(es, o) + (match x {
            Some(c) => seq![build_spec(c, o, false)],
            None => Seq::<EntryV>::empty(),
        }));
    }
}

/// Index form of `snapshot_entries_view`: element by element.
proof fn lemma_snapshot_entries_view_index(es: Seq<Option<FsSnapshot>>, i: int)
    requires
        0 <= i < es.len(),
    ensures
        snapshot_entries_view(es).len() == es.len(),
        snapshot_entries_view(es)[i] == (match es[i] {
            Some(c) => Some(snapshot_view(c)),
            None => None,
        }),
    decreases es,
{
    lemma_snapshot_entries_view_len(es);
    if i > 0 {
        lemma_snapshot_entries_view_index(es.drop_first(), i - 1);
    }
}

/// The length of `snapshot_entries_view` equals the input length.
proof fn lemma_snapshot_entries_view_len(es: Seq<Option<FsSnapshot>>)
    ensures
        snapshot_entries_view(es).len() == es.len(),
    decreases es,
{
    if es.len() > 0 {
        lemma_snapshot_entries_view_len(es.drop_first());
    }
}

/// Builds an entry for the given snapshot and options. `is_top_level`
/// controls how to treat an empty file: only a top-level file gets the
/// distinguished empty-file error.
pub fn build_entry(snap: &FsSnapshot, options: &Options, is_top_level: bool) -> (e: Entry)
    ensures
        e@ == build_spec(snap@, *options, is_top_level),
    decreases *snap,
{
    match snap {
        FsSnapshot::File { name, read } => {
            match read {
                Err(msg) => Entry::File {
                    name: name.clone(),
                    char_count: None,
                    word_count: None,
                    line_count: None,
                    error: Some(EntryError::Io(msg.clone())),
                },
                Ok(content) => {
                    let cs = chars_of(content.as_str());
                    if is_top_level && cs.len() == 0 && !options.is_none() {
                        Entry::File {
                            name: name.clone(),
                            char_count: None,
                            word_count: None,
                            line_count: None,
                            error: Some(EntryError::EmptyFile),
                        }
                    } else {
                        Entry::File {
                            name: name.clone(),
                            char_count: if options.chars {
                                Some(count_chars(&cs))
                            } else {
                                None
                            },
                            word_count: if options.words {
                                Some(count_words(&cs))
                            } else {
                                None
                            },
                            line_count: if options.lines {
                                Some(count_lines(&cs))
                            } else {
                                None
                            },
                            error: None,
                        }
                    }
                },
            }
        },
        FsSnapshot::Dir { name, entries } => {
            let ghost ev = snapshot_entries_view(entries@);
            proof {
                lemma_snapshot_entries_view_len(entries@);
            }
            let mut contents: Vec<Entry> = Vec::new();
            let mut i: usize = 0;
            proof {
                assert(ev.take(0) =~= Seq::<Option<FsSnapshotV>>::empty());
            }
            while i < entries.len()
                invariant
                    0 <= i <= entries@.len(),
                    *snap == (FsSnapshot::Dir { name: *name, entries: *entries }),
                    ev == snapshot_entries_view(entries@),
                    ev.len() == entries@.len(),
                    entries_view(contents@) == build_children_spec(ev.take(i as int), *options),
                decreases entries@.len() - i,
            {
                proof {
                    lemma_snapshot_entries_view_index(entries@, i as int);
                    assert(ev.take(i + 1) =~= ev.take(i as int).push(ev[i as int]));
                    lemma_build_children_push(ev.take(i as int), ev[i as int], *options);
                }
                match &entries[i] {
                    Some(child) => {
                        proof {
                            assert(snap->Dir_entries == *entries);
                            assert(decreases_to!(*snap => snap->Dir_entries));
                            assert(decreases_to!(*snap => *entries));
                            assert(decreases_to!(*entries => entries@));
                            assert(decreases_to!(entries@ => entries@[i as int]));
                            assert(decreases_to!(entries@[i as int] => *child));
                            assert(decreases_to!(*snap => *child));
                        }
                        let built = build_entry(child, options, false);
                        proof {
                            lemma_entries_view_push(contents@, built);
                        }
                        contents.push(built);
                    },
                    None => {},
                }
                i = i + 1;
            }
            proof {
                assert(ev.take(i as int) =~= ev);
            }
            Entry::Directory { name: name.clone(), contents }
        },
        FsSnapshot::Other { name } => Entry::File {
            name: name.clone(),
            char_count: None,
            word_count: None,
            line_count: None,
            error: Some(EntryError::InvalidPath),
        },
    }
}

/// Building is a function of the snapshot and the selection alone: two builds
/// from an unmodified snapshot yield structurally identical trees.
pub proof fn lemma_build_idempotent(s: FsSnapshotV, o: Options, top: bool, e1: EntryV, e2: EntryV)
    requires
        e1 == build_spec(s, o, top),
        e2 == build_spec(s, o, top),
    ensures
        e1 == e2,
{
}

/// With only the word metric selected, an empty file at top level becomes the
/// distinguished empty-file error node, while the same empty file nested one
/// level inside a directory becomes a success node with word count zero.
pub proof fn lemma_empty_file_asymmetry(file_name: Seq<char>, dir_name: Seq<char>)
    ensures
        ({
            let o = Options { chars: false, words: true, lines: false };
            let f = FsSnapshotV::File { name: file_name, read: Result::Ok(Seq::empty()) };
            &&& build_spec(f, o, true) == error_entry(file_name, EntryErrorV::EmptyFile)
            &&& build_spec(
                FsSnapshotV::Dir { name: dir_name, entries: seq![Some(f)] },
                o,
                false,
            ) == (EntryV::Directory {
                name: dir_name,
                contents: seq![
                    EntryV::File {
                        name: file_name,
                        char_count: None,
                        word_count: Some(0),
                        line_count: None,
                        error: None,
                    },
                ],
            })
        }),
{
    let o = Options { chars: false, words: true, lines: false };
    let f = FsSnapshotV::File { name: file_name, read: Result::Ok(Seq::empty()) };
    let es: Seq<Option<FsSnapshotV>> = seq![Some(f)];
    reveal_with_fuel(build_children_spec, 2);
    assert(word_count_spec(Seq::<char>::empty()) == 0);
    assert(es.drop_first() =~= Seq::<Option<FsSnapshotV>>::empty());
    assert(build_children_spec(es, o) =~= seq![build_spec(f, o, false)]);
    assert(build_spec(f, o, false) == (EntryV::File {
        name: file_name,
        char_count: None,
        word_count: Some(0),
        line_count: None,
        error: None,
    }));
}

} // verus!
