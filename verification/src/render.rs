use vstd::prelude::*;
use crate::entry::{
    build_entry, build_spec, entries_view, lemma_entries_view_index, lemma_entries_view_len,
    Entry, EntryError, EntryErrorV, EntryV, FsSnapshot, FsSnapshotV, Options,
};
use crate::strutil::{append_chars, append_str, chars_to_string};

verus! {

/// The decimal digit character for `d`.
pub open spec fn digit_char(d: nat) -> char {
    if d == 0 {
        '0'
    } else if d == 1 {
        '1'
    } else if d == 2 {
        '2'
    } else if d == 3 {
        '3'
    } else if d == 4 {
        '4'
    } else if d == 5 {
        '5'
    } else if d == 6 {
        '6'
    } else if d == 7 {
        '7'
    } else if d == 8 {
        '8'
    } else {
        '9'
    }
}

/// The decimal notation of `n`, most significant digit first, with no sign
/// and no leading zero except for `n == 0` itself.
pub open spec fn dec_str(n: nat) -> Seq<char>
    decreases n,
{
    if n < 10 {
        seq![digit_char(n)]
    } else {
        dec_str(n / 10).push(digit_char(n % 10))
    }
}

/// The digit character for `d`.
fn digit_to_char(d: usize) -> (c: char)
    requires
        d < 10,
    ensures
        c == digit_char(d as nat),
{
    if d == 0 {
        '0'
    } else if d == 1 {
        '1'
    } else if d == 2 {
        '2'
    } else if d == 3 {
        '3'
    } else if d == 4 {
        '4'
    } else if d == 5 {
        '5'
    } else if d == 6 {
        '6'
    } else if d == 7 {
        '7'
    } else if d == 8 {
        '8'
    } else {
        '9'
    }
}

/// The decimal notation of `n` as characters.
pub fn dec_chars(n: usize) -> (v: Vec<char>)
    ensures
        v@ == dec_str(n as nat),
    decreases n,
{
    if n < 10 {
        let mut v: Vec<char> = Vec::new();
        v.push(digit_to_char(n));
        proof {
            assert(v@ =~= seq![digit_char(n as nat)]);
        }
        v
    } else {
        let mut v = dec_chars(n / 10);
        v.push(digit_to_char(n % 10));
        proof {
            assert(v@ =~= dec_str((n as nat) / 10).push(digit_char((n as nat) % 10)));
        }
        v
    }
}

/// The count to show for a metric: the computed count, or zero where none
/// was recorded.
pub open spec fn count_or_zero(c: Option<nat>) -> nat {
    match c {
        Some(n) => n,
        None => 0,
    }
}

/// The line rendered for a file node: the dedicated template for the
/// distinguished empty-file error, the error template otherwise on an error,
/// and else the name followed by one labeled count per selected metric, in
/// the fixed character, word, line order.
pub open spec fn render_file_spec(
    name: Seq<char>,
    cc: Option<nat>,
    wc: Option<nat>,
    lc: Option<nat>,
    err: Option<EntryErrorV>,
    o: Options,
) -> Seq<char> {
    match err {
        Some(EntryErrorV::EmptyFile) => "File \""@ + name + "\" is empty\n"@,
        Some(EntryErrorV::InvalidPath) => "File name: \""@ + name + "\", error: Invalid path\n"@,
        Some(EntryErrorV::Io(m)) => "File name: \""@ + name + "\", error: "@ + m + "\n"@,
        None => "File name: \""@ + name + "\""@ + (if o.chars {
            ", char count: "@ + dec_str(count_or_zero(cc))
        } else {
            Seq::<char>::empty()
        }) + (if o.words {
            ", word count: "@ + dec_str(count_or_zero(wc))
        } else {
            Seq::<char>::empty()
        }) + (if o.lines {
            ", line count: "@ + dec_str(count_or_zero(lc))
        } else {
            Seq::<char>::empty()
        }) + "\n"@,
    }
}

/// What rendering an entry as a file emits: the file line for a file node,
/// nothing for a directory node.
pub open spec fn render_entry_file_spec(e: EntryV, o: Options) -> Seq<char> {
    match e {
        EntryV::File { name, char_count, word_count, line_count, error } => render_file_spec(
            name,
            char_count,
            word_count,
            line_count,
            error,
            o,
        ),
        EntryV::Directory { .. } => Seq::<char>::empty(),
    }
}

/// What rendering an entry as a directory emits: the is-empty line for a
/// childless directory, else the directory header followed by each child's
/// rendering in order; nothing for a file node.
pub open spec fn render_dir_spec(e: EntryV, o: Options) -> Seq<char>
    decreases e, 0int,
{
    match e {
        EntryV::Directory { name, contents } => if contents.len() == 0 {
            "Directory \""@ + name + "\" is empty\n"@
        } else {
            "Directory name: \""@ + name + "\"\n"@ + render_children_spec(contents, o)
        },
        EntryV::File { .. } => Seq::<char>::empty(),
    }
}

/// What one child contributes: dispatched on its tag.
pub open spec fn render_child_spec(e: EntryV, o: Options) -> Seq<char>
    decreases e, 1int,
{
    match e {
        EntryV::File { .. } => render_entry_file_spec(e, o),
        EntryV::Directory { .. } => render_dir_spec(e, o),
    }
}

/// The concatenation of the children's renderings, in order.
pub open spec fn render_children_spec(es: Seq<EntryV>, o: Options) -> Seq<char>
    decreases es, 0int,
{
    if es.len() == 0 {
        Seq::<char>::empty()
    } else {
        render_child_spec(es[0], o) + render_children_spec(es.drop_first(), o)
    }
}

/// One more child renders after the ones before it.
proof fn lemma_render_children_push(es: Seq<EntryV>, x: EntryV, o: Options)
    ensures
        render_children_spec(es.push(x), o) == render_children_spec(es, o) + render_child_spec(
            x,
            o,
        ),
    decreases es,
{
    reveal_with_fuel(render_children_spec, 2);
    if es.len() == 0 {
        assert(es.push(x)[0] == x);
        assert(es.push(x).drop_first() =~= Seq::<EntryV>::empty());
        assert(render_children_spec(es.push(x), o) =~= render_children_spec(es, o)
            + render_child_spec(x, o));
    } else {
        assert(es.push(x)[0] == es[0]);
        assert(es.push(x).drop_first() =~= es.drop_first().push(x));
        lemma_render_children_push(es.drop_first(), x, o);
        assert(render_children_spec(es.push(x), o) =~= render_children_spec(es, o)
            + render_child_spec(x, o));
    }
}

/// Prints a file entry.
#[verifier::rlimit(50)]
pub fn render_file(e: &Entry, options: &Options) -> (r: String)
    ensures
        r@ == render_entry_file_spec(e@, *options),
{
    match e {
        Entry::File { name, char_count, word_count, line_count, error } => {
            let mut out: Vec<char> = Vec::new();
            match error {
                Some(err) => match err {
                    EntryError::EmptyFile => {
                        append_str(&mut out, "File \"");
                        append_str(&mut out, name.as_str());
                        append_str(&mut out, "\" is empty\n");
                    },
                    EntryError::InvalidPath => {
                        append_str(&mut out, "File name: \"");
                        append_str(&mut out, name.as_str());
                        append_str(&mut out, "\", error: Invalid path\n");
                    },
                    EntryError::Io(m) => {
                        append_str(&mut out, "File name: \"");
                        append_str(&mut out, name.as_str());
                        append_str(&mut out, "\", error: ");
                        append_str(&mut out, m.as_str());
                        append_str(&mut out, "\n");
                    },
                },
                None => {
                    append_str(&mut out, "File name: \"");
                    append_str(&mut out, name.as_str());
                    append_str(&mut out, "\"");
                    if options.chars {
                        append_str(&mut out, ", char count: ");
                        let n: usize = match char_count {
                            Some(v) => *v,
                            None => 0,
                        };
                        let d = dec_chars(n);
                        append_chars(&mut out, &d);
                    }
                    if options.words {
                        append_str(&mut out, ", word count: ");
                        let n: usize = match word_count {
                            Some(v) => *v,
                            None => 0,
                        };
                        let d = dec_chars(n);
                        append_chars(&mut out, &d);
                    }
                    if options.lines {
                        append_str(&mut out, ", line count: ");
                        let n: usize = match line_count {
                            Some(v) => *v,
                            None => 0,
                        };
                        let d = dec_chars(n);
                        append_chars(&mut out, &d);
                    }
                    append_str(&mut out, "\n");
                },
            }
            proof {
                assert(out@ =~= render_entry_file_spec(e@, *options));
            }
            chars_to_string(&out)
        },
        Entry::Directory { .. } => {
            let r = String::new();
            proof {
                assert(r@ =~= render_entry_file_spec(e@, *options));
            }
            r
        },
    }
}

/// Prints a directory entry recursively.
pub fn render_directory(e: &Entry, options: &Options) -> (r: String)
    ensures
        r@ == render_dir_spec(e@, *options),
    decreases *e,
{
    match e {
        Entry::Directory { name, contents } => {
            let mut out: Vec<char> = Vec::new();
            if contents.len() == 0 {
                append_str(&mut out, "Directory \"");
                append_str(&mut out, name.as_str());
                append_str(&mut out, "\" is empty\n");
            } else {
                let ghost cv = entries_view(contents@);
                proof {
                    lemma_entries_view_len(contents@);
                }
                append_str(&mut out, "Directory name: \"");
                append_str(&mut out, name.as_str());
                append_str(&mut out, "\"\n");
                let ghost header = out@;
                let mut i: usize = 0;
                proof {
                    assert(cv.take(0) =~= Seq::<EntryV>::empty());
                    assert(out@ =~= header + render_children_spec(cv.take(0), *options));
                }
                while i < contents.len()
                    invariant
                        0 <= i <= contents@.len(),
                        *e == (Entry::Directory { name: *name, contents: *contents }),
                        cv == entries_view(contents@),
                        cv.len() == contents@.len(),
                        out@ == header + render_children_spec(cv.take(i as int), *options),
                    decreases contents@.len() - i,
                {
                    proof {
                        lemma_entries_view_index(contents@, i as int);
                        assert(cv.take(i + 1) =~= cv.take(i as int).push(cv[i as int]));
                        lemma_render_children_push(cv.take(i as int), cv[i as int], *options);
                    }
                    let child: &Entry = &contents[i];
                    match child {
                        Entry::File { .. } => {
                            let s = render_file(child, options);
                            append_str(&mut out, s.as_str());
                        },
                        Entry::Directory { .. } => {
                            proof {
                                assert(e->Directory_contents == *contents);
                                assert(decreases_to!(*e => e->Directory_contents));
                                assert(decreases_to!(*contents => contents@));
                                assert(decreases_to!(contents@ => contents@[i as int]));
                                assert(decreases_to!(*e => *child));
                            }
                            let s = render_directory(child, options);
                            append_str(&mut out, s.as_str());
                        },
                    }
                    i = i + 1;
                }
                proof {
                    assert(cv.take(i as int) =~= cv);
                }
            }
            proof {
                assert(out@ =~= render_dir_spec(e@, *options));
            }
            chars_to_string(&out)
        },
        Entry::File { .. } => {
            let r = String::new();
            proof {
                assert(r@ =~= render_dir_spec(e@, *options));
            }
            r
        },
    }
}

/// The single line the caller emits when no metric was selected: the name
/// alone, under the file or the directory header.
pub open spec fn name_only_spec(is_file: bool, name: Seq<char>) -> Seq<char> {
    if is_file {
        "File name: \""@ + name + "\"\n"@
    } else {
        "Directory name: \""@ + name + "\"\n"@
    }
}

/// Emits the name-only line used when no metric was selected.
pub fn render_name_only(is_file: bool, name: &str) -> (r: String)
    ensures
        r@ == name_only_spec(is_file, name@),
{
    let mut out: Vec<char> = Vec::new();
    if is_file {
        append_str(&mut out, "File name: \"");
    } else {
        append_str(&mut out, "Directory name: \"");
    }
    append_str(&mut out, name);
    append_str(&mut out, "\"\n");
    proof {
        assert(out@ =~= name_only_spec(is_file, name@));
    }
    chars_to_string(&out)
}

/// The whole report for a scan of `s` under selection `o`: with an empty
/// selection only the name line; otherwise the rendering of the built tree,
/// a top-level build for a file and a non-top-level build for a directory;
/// nothing for a path that is neither.
pub open spec fn report_spec(s: FsSnapshotV, o: Options) -> Seq<char> {
    if o.spec_is_none() {
        match s {
            FsSnapshotV::File { name, .. } => name_only_spec(true, name),
            FsSnapshotV::Dir { name, .. } => name_only_spec(false, name),
            FsSnapshotV::Other { .. } => Seq::<char>::empty(),
        }
    } else {
        match s {
            FsSnapshotV::File { .. } => render_entry_file_spec(build_spec(s, o, true), o),
            FsSnapshotV::Dir { .. } => render_dir_spec(build_spec(s, o, false), o),
            FsSnapshotV::Other { .. } => Seq::<char>::empty(),
        }
    }
}

/// Builds the tree for `snap` and renders it, or emits the name-only line
/// when no metric was selected.
pub fn render_report(snap: &FsSnapshot, options: &Options) -> (r: String)
    ensures
        r@ == report_spec(snap@, *options),
{
    if options.is_none() {
        match snap {
            FsSnapshot::File { name, .. } => render_name_only(true, name.as_str()),
            FsSnapshot::Dir { name, .. } => render_name_only(false, name.as_str()),
            FsSnapshot::Other { .. } => {
                let r = String::new();
                proof {
                    assert(r@ =~= report_spec(snap@, *options));
                }
                r
            },
        }
    } else {
        match snap {
            FsSnapshot::File { .. } => {
                let e = build_entry(snap, options, true);
                render_file(&e, options)
            },
            FsSnapshot::Dir { .. } => {
                let e = build_entry(snap, options, false);
                render_directory(&e, options)
            },
            FsSnapshot::Other { .. } => {
                let r = String::new();
                proof {
                    assert(r@ =~= report_spec(snap@, *options));
                }
                r
            },
        }
    }
}

} // verus!
