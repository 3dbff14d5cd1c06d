use vstd::prelude::*;

verus! {

/// A character with the Unicode `White_Space` property, the class that
/// whitespace-delimited word splitting and trimming go by.
pub open spec fn is_ws_char(c: char) -> bool {
    let u = c as u32;
    ||| u == 0x9
    ||| u == 0xA
    ||| u == 0xB
    ||| u == 0xC
    ||| u == 0xD
    ||| u == 0x20
    ||| u == 0x85
    ||| u == 0xA0
    ||| u == 0x1680
    ||| (0x2000 <= u && u <= 0x200A)
    ||| u == 0x2028
    ||| u == 0x2029
    ||| u == 0x202F
    ||| u == 0x205F
    ||| u == 0x3000
}

/// Decides whether `c` has the Unicode `White_Space` property.
pub fn is_whitespace_char(c: char) -> (r: bool)
    ensures
        r == is_ws_char(c),
{
    let u = c as u32;
    u == 0x9 || u == 0xA || u == 0xB || u == 0xC || u == 0xD || u == 0x20 || u == 0x85
        || u == 0xA0 || u == 0x1680 || (0x2000 <= u && u <= 0x200A) || u == 0x2028 || u == 0x2029
        || u == 0x202F || u == 0x205F || u == 0x3000
}

/// Counts the maximal non-whitespace runs of `s`, scanning from the left;
/// `prev_ws` says whether the character before `s` (if any) was whitespace,
/// so a run is counted exactly once, at its first character.
pub open spec fn wc_rec(s: Seq<char>, prev_ws: bool) -> nat
    decreases s.len(),
{
    if s.len() == 0 {
        0
    } else {
        (if !is_ws_char(s[0]) && prev_ws {
            1nat
        } else {
            0nat
        }) + wc_rec(s.drop_first(), is_ws_char(s[0]))
    }
}

/// The number of maximal non-whitespace runs (words) in `s`.
pub open spec fn word_count_spec(s: Seq<char>) -> nat {
    wc_rec(s, true)
}

/// The number of `'\n'` characters in `s`.
pub open spec fn newline_count(s: Seq<char>) -> nat
    decreases s.len(),
{
    if s.len() == 0 {
        0
    } else {
        (if s[0] == '\n' {
            1nat
        } else {
            0nat
        }) + newline_count(s.drop_first())
    }
}

/// The number of lines of `s`: zero for empty content, the number of line
/// terminators when the content ends in one, and one more than the number of
/// line terminators otherwise.
pub open spec fn line_count_spec(s: Seq<char>) -> nat {
    if s.len() == 0 {
        0
    } else if s[s.len() - 1] == '\n' {
        newline_count(s)
    } else {
        newline_count(s) + 1
    }
}

/// The number of Unicode scalar values held by `v`.
pub fn count_chars(v: &Vec<char>) -> (n: usize)
    ensures
        n == v@.len(),
{
    v.len()
}

/// Counts the words of `v`: the maximal runs of non-whitespace characters.
pub fn count_words(v: &Vec<char>) -> (n: usize)
    ensures
        n == word_count_spec(v@),
{
    let mut i: usize = 0;
    let mut count: usize = 0;
    let mut prev_ws: bool = true;
    proof {
        assert(v@.skip(0) =~= v@);
    }
    while i < v.len()
        invariant
            0 <= i <= v@.len(),
            count <= i,
            word_count_spec(v@) == count + wc_rec(v@.skip(i as int), prev_ws),
        decreases v@.len() - i,
    {
        proof {
            assert(v@.skip(i as int).len() > 0);
            assert(v@.skip(i as int)[0] == v@[i as int]);
            assert(v@.skip(i as int).drop_first() =~= v@.skip(i + 1));
        }
        let ws = is_whitespace_char(v[i]);
        if !ws && prev_ws {
            count = count + 1;
        }
        prev_ws = ws;
        i = i + 1;
    }
    proof {
        assert(v@.skip(i as int) =~= Seq::<char>::empty());
    }
    count
}

/// The newline count never exceeds the length, and is strictly below it
/// when the final character is not a newline.
proof fn lemma_newline_count_bound(s: Seq<char>)
    ensures
        newline_count(s) <= s.len(),
        s.len() > 0 && s[s.len() - 1] != '\n' ==> newline_count(s) < s.len(),
    decreases s.len(),
{
    if s.len() > 0 {
        lemma_newline_count_bound(s.drop_first());
        if s.len() > 1 {
            assert(s.drop_first()[s.drop_first().len() - 1] == s[s.len() - 1]);
        }
    }
}

/// Counts the lines of `v`, treating `'\n'` as the line terminator: a final
/// segment without a terminator still counts as a line.
pub fn count_lines(v: &Vec<char>) -> (n: usize)
    ensures
        n == line_count_spec(v@),
{
    let mut i: usize = 0;
    let mut nl: usize = 0;
    proof {
        assert(v@.skip(0) =~= v@);
    }
    while i < v.len()
        invariant
            0 <= i <= v@.len(),
            nl <= i,
            newline_count(v@) == nl + newline_count(v@.skip(i as int)),
        decreases v@.len() - i,
    {
        proof {
            assert(v@.skip(i as int).len() > 0);
            assert(v@.skip(i as int)[0] == v@[i as int]);
            assert(v@.skip(i as int).drop_first() =~= v@.skip(i + 1));
        }
        if v[i] == '\n' {
            nl = nl + 1;
        }
        i = i + 1;
    }
    proof {
        assert(v@.skip(i as int) =~= Seq::<char>::empty());
        lemma_newline_count_bound(v@);
    }
    if v.len() == 0 {
        0
    } else if v[v.len() - 1] == '\n' {
        nl
    } else {
        nl + 1
    }
}

/// `s` with its leading whitespace removed.
pub open spec fn trim_start_spec(s: Seq<char>) -> Seq<char>
    decreases s.len(),
{
    if s.len() == 0 {
        s
    } else if is_ws_char(s[0]) {
        trim_start_spec(s.drop_first())
    } else {
        s
    }
}

/// `s` with its trailing whitespace removed.
pub open spec fn trim_end_spec(s: Seq<char>) -> Seq<char>
    decreases s.len(),
{
    if s.len() == 0 {
        s
    } else if is_ws_char(s[s.len() - 1]) {
        trim_end_spec(s.drop_last())
    } else {
        s
    }
}

/// `s` with whitespace removed from both ends.
pub open spec fn trim_spec(s: Seq<char>) -> Seq<char> {
    trim_end_spec(trim_start_spec(s))
}

/// Removes leading and trailing whitespace.
pub fn trim_chars(v: &Vec<char>) -> (r: Vec<char>)
    ensures
        r@ == trim_spec(v@),
{
    let mut start: usize = 0;
    proof {
        assert(v@.skip(0) =~= v@);
    }
    while start < v.len() && is_whitespace_char(v[start])
        invariant
            0 <= start <= v@.len(),
            trim_start_spec(v@) == trim_start_spec(v@.skip(start as int)),
        decreases v@.len() - start,
    {
        proof {
            assert(v@.skip(start as int)[0] == v@[start as int]);
            assert(v@.skip(start as int).drop_first() =~= v@.skip(start + 1));
        }
        start = start + 1;
    }
    proof {
        if start == v@.len() {
            assert(v@.skip(start as int) =~= Seq::<char>::empty());
        } else {
            assert(v@.skip(start as int)[0] == v@[start as int]);
        }
        assert(trim_start_spec(v@) == v@.skip(start as int));
        assert(v@.subrange(start as int, v@.len() as int) =~= v@.skip(start as int));
    }
    let mut end: usize = v.len();
    while end > start && is_whitespace_char(v[end - 1])
        invariant
            start <= end <= v@.len(),
            trim_start_spec(v@) == v@.skip(start as int),
            trim_end_spec(v@.skip(start as int)) == trim_end_spec(
                v@.subrange(start as int, end as int),
            ),
        decreases end,
    {
        proof {
            let sub = v@.subrange(start as int, end as int);
            assert(sub[sub.len() - 1] == v@[end - 1]);
            assert(sub.drop_last() =~= v@.subrange(start as int, end - 1));
        }
        end = end - 1;
    }
    proof {
        if end == start {
            assert(v@.subrange(start as int, end as int) =~= Seq::<char>::empty());
        } else {
            let sub = v@.subrange(start as int, end as int);
            assert(sub[sub.len() - 1] == v@[end - 1]);
        }
        assert(trim_spec(v@) == v@.subrange(start as int, end as int));
    }
    let mut r: Vec<char> = Vec::new();
    let mut j: usize = start;
    proof {
        assert(r@ =~= v@.subrange(start as int, start as int));
    }
    while j < end
        invariant
            start <= j <= end <= v@.len(),
            r@ == v@.subrange(start as int, j as int),
        decreases end - j,
    {
        r.push(v[j]);
        proof {
            assert(r@ =~= v@.subrange(start as int, j + 1));
        }
        j = j + 1;
    }
    r
}

/// An all-whitespace sequence holds no word at all, under either flag for the
/// preceding character.
proof fn lemma_wc_rec_all_ws(s: Seq<char>, prev_ws: bool)
    requires
        forall|i: int| 0 <= i < s.len() ==> is_ws_char(s[i]),
    ensures
        wc_rec(s, prev_ws) == 0,
    decreases s.len(),
{
    if s.len() > 0 {
        assert(forall|i: int|
            0 <= i < s.drop_first().len() ==> s.drop_first()[i] == s[i + 1]);
        lemma_wc_rec_all_ws(s.drop_first(), is_ws_char(s[0]));
    }
}

/// A string that is empty or made of whitespace alone has word count zero.
pub proof fn lemma_word_count_all_ws(s: Seq<char>)
    requires
        forall|i: int| 0 <= i < s.len() ==> is_ws_char(s[i]),
    ensures
        word_count_spec(s) == 0,
{
    lemma_wc_rec_all_ws(s, true);
}

} // verus!
