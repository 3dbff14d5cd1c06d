use vstd::prelude::*;
use vstd::string::StrSliceExecFns;

verus! {

/// The character sequence that Unicode lowercasing yields for `s`; the result
/// depends on the characters of `s` alone.
pub uninterp spec fn lower_of(s: Seq<char>) -> Seq<char>;

/// The character sequence that Unicode uppercasing yields for the single
/// character `c`; the result depends on `c` alone.
pub uninterp spec fn upper_of(c: char) -> Seq<char>;

/// Relies on str::to_lowercase: returns the Unicode lowercase form of `s`,
/// a function of the characters of `s` alone.
#[verifier::external_body]
pub(crate) fn lowercase(s: &str) -> (r: String)
    ensures
        r@ == lower_of(s@),
{
    s.to_lowercase()
}

/// Relies on char::to_uppercase: returns the Unicode uppercase form of `c`,
/// a function of `c` alone.
#[verifier::external_body]
pub(crate) fn upper_char(c: char) -> (r: String)
    ensures
        r@ == upper_of(c),
{
    c.to_uppercase().collect()
}

/// Relies on String::push: appends the given character to the end of the
/// string.
#[verifier::external_body]
pub(crate) fn push_char(s: &mut String, c: char)
    ensures
        final(s)@ == old(s)@.push(c),
{
    s.push(c);
}

/// The characters of `s`, in order.
pub fn chars_of(s: &str) -> (v: Vec<char>)
    ensures
        v@ == s@,
{
    let n = s.unicode_len();
    let mut v: Vec<char> = Vec::new();
    let mut i: usize = 0;
    proof {
        assert(v@ =~= s@.take(0));
    }
    while i < n
        invariant
            0 <= i <= n,
            n == s@.len(),
            v@ == s@.take(i as int),
        decreases n - i,
    {
        v.push(s.get_char(i));
        proof {
            assert(v@ =~= s@.take(i + 1));
        }
        i = i + 1;
    }
    proof {
        assert(v@ =~= s@);
    }
    v
}

/// Builds the string whose characters are exactly those of `v`, in order.
pub fn chars_to_string(v: &Vec<char>) -> (s: String)
    ensures
        s@ == v@,
{
    let mut s = String::new();
    let mut i: usize = 0;
    proof {
        assert(s@ =~= v@.take(0));
    }
    while i < v.len()
        invariant
            0 <= i <= v@.len(),
            s@ == v@.take(i as int),
        decreases v@.len() - i,
    {
        push_char(&mut s, v[i]);
        proof {
            assert(s@ =~= v@.take(i + 1));
        }
        i = i + 1;
    }
    proof {
        assert(s@ =~= v@);
    }
    s
}

/// Appends the characters of `v` to the end of `out`.
pub fn append_chars(out: &mut Vec<char>, v: &Vec<char>)
    ensures
        final(out)@ == old(out)@ + v@,
{
    let ghost orig: Seq<char> = out@;
    let mut i: usize = 0;
    proof {
        assert(out@ =~= orig + v@.take(0));
    }
    while i < v.len()
        invariant
            0 <= i <= v@.len(),
            out@ == orig + v@.take(i as int),
        decreases v@.len() - i,
    {
        out.push(v[i]);
        proof {
            assert(out@ =~= orig + v@.take(i + 1));
        }
        i = i + 1;
    }
    proof {
        assert(out@ =~= orig + v@);
    }
}

/// Appends the characters of `s` to the end of `out`.
pub fn append_str(out: &mut Vec<char>, s: &str)
    ensures
        final(out)@ == old(out)@ + s@,
{
    let ghost orig: Seq<char> = out@;
    let n = s.unicode_len();
    let mut i: usize = 0;
    proof {
        assert(out@ =~= orig + s@.take(0));
    }
    while i < n
        invariant
            0 <= i <= n,
            n == s@.len(),
            out@ == orig + s@.take(i as int),
        decreases n - i,
    {
        out.push(s.get_char(i));
        proof {
            assert(out@ =~= orig + s@.take(i + 1));
        }
        i = i + 1;
    }
    proof {
        assert(out@ =~= orig + s@);
    }
}

} // verus!
