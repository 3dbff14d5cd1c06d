use vstd::prelude::*;
use crate::strutil::{chars_of, chars_to_string, lower_of, lowercase};

verus! {

/// An ASCII alphanumeric character: a decimal digit or an ASCII letter.
pub open spec fn is_ascii_alnum(c: char) -> bool {
    let u = c as u32;
    (0x30 <= u && u <= 0x39) || (0x41 <= u && u <= 0x5A) || (0x61 <= u && u <= 0x7A)
}

/// Returns true if the &char is an ASCII alphanumeric character.
pub fn is_alphanumeric(c: &char) -> (r: bool)
    ensures
        r == is_ascii_alnum(*c),
{
    let u = *c as u32;
    (0x30 <= u && u <= 0x39) || (0x41 <= u && u <= 0x5A) || (0x61 <= u && u <= 0x7A)
}

/// The subsequence of ASCII alphanumeric characters of `s`, in order.
pub open spec fn alnum_filter(s: Seq<char>) -> Seq<char>
    decreases s.len(),
{
    if s.len() == 0 {
        Seq::empty()
    } else {
        (if is_ascii_alnum(s[0]) {
            seq![s[0]]
        } else {
            Seq::<char>::empty()
        }) + alnum_filter(s.drop_first())
    }
}

/// Returns a sanitized input string with non-alphanumeric characters removed.
pub fn remove_non_alphanumeric(s: &str) -> (r: String)
    ensures
        r@ == alnum_filter(s@),
{
    let v = chars_of(s);
    let mut out: Vec<char> = Vec::new();
    let mut i: usize = 0;
    proof {
        assert(v@.skip(0) =~= v@);
        assert(out@ + alnum_filter(v@.skip(0)) =~= alnum_filter(v@));
    }
    while i < v.len()
        invariant
            0 <= i <= v@.len(),
            v@ == s@,
            alnum_filter(v@) == out@ + alnum_filter(v@.skip(i as int)),
        decreases v@.len() - i,
    {
        proof {
            assert(v@.skip(i as int)[0] == v@[i as int]);
            assert(v@.skip(i as int).drop_first() =~= v@.skip(i + 1));
        }
        let c = v[i];
        if is_alphanumeric(&c) {
            out.push(c);
        }
        proof {
            assert(alnum_filter(v@) =~= out@ + alnum_filter(v@.skip(i + 1)));
        }
        i = i + 1;
    }
    proof {
        assert(v@.skip(i as int) =~= Seq::<char>::empty());
        assert(out@ =~= alnum_filter(v@));
    }
    chars_to_string(&out)
}

/// Whether `s` reads the same forward and backward.
pub open spec fn is_palindrome(s: Seq<char>) -> bool {
    forall|i: int| 0 <= i < s.len() ==> #[trigger] s[i] == s[s.len() - 1 - i]
}

/// A sequence of at least two characters is a palindrome exactly when its
/// ends agree and the part between them is one.
proof fn lemma_palindrome_step(t: Seq<char>)
    requires
        t.len() >= 2,
    ensures
        is_palindrome(t) <==> (t[0] == t[t.len() - 1] && is_palindrome(
            t.subrange(1, t.len() - 1),
        )),
{
    let n = t.len() as int;
    let m = t.subrange(1, n - 1);
    if is_palindrome(t) {
        assert(t[0] == t[n - 1]);
        assert forall|j: int| 0 <= j < m.len() implies #[trigger] m[j] == m[m.len() - 1 - j] by {
            assert(m[j] == t[j + 1]);
            assert(t[j + 1] == t[n - 1 - (j + 1)]);
            assert(m[m.len() - 1 - j] == t[n - 2 - j]);
        }
        assert(is_palindrome(m));
    }
    if t[0] == t[n - 1] && is_palindrome(m) {
        assert forall|i: int| 0 <= i < n implies #[trigger] t[i] == t[n - 1 - i] by {
            if 0 < i < n - 1 {
                assert(t[i] == m[i - 1]);
                assert(m[i - 1] == m[m.len() - 1 - (i - 1)]);
                assert(m[m.len() - 1 - (i - 1)] == t[n - 1 - i]);
            }
        }
        assert(is_palindrome(t));
    }
}

/// Checks if the input string is a palindrome by iterating over its
/// lowercased characters from both directions simultaneously and comparing
/// them.
pub fn is_pal_loop(s: &str) -> (r: bool)
    ensures
        r == is_palindrome(lower_of(s@)),
{
    let lower = lowercase(s);
    let v = chars_of(lower.as_str());
    let mut i: usize = 0;
    while i < v.len()
        invariant
            0 <= i <= v@.len(),
            v@ == lower_of(s@),
            forall|j: int| 0 <= j < i ==> #[trigger] v@[j] == v@[v@.len() - 1 - j],
        decreases v@.len() - i,
    {
        if v[i] != v[v.len() - 1 - i] {
            proof {
                assert(v@[i as int] != v@[v@.len() - 1 - i as int]);
                assert(!is_palindrome(v@));
            }
            return false;
        }
        i = i + 1;
    }
    proof {
        assert(is_palindrome(v@));
    }
    true
}

/// The palindrome check on the character range `[lo, hi)` of `v`, comparing
/// the two ends and recursing on the part between them.
fn pal_range(v: &Vec<char>, lo: usize, hi: usize) -> (r: bool)
    requires
        lo <= hi <= v@.len(),
    ensures
        r == is_palindrome(v@.subrange(lo as int, hi as int)),
    decreases hi - lo,
{
    let ghost t = v@.subrange(lo as int, hi as int);
    if hi - lo < 2 {
        proof {
            assert(is_palindrome(t));
        }
        true
    } else {
        proof {
            lemma_palindrome_step(t);
            assert(t[0] == v@[lo as int]);
            assert(t[t.len() - 1] == v@[hi - 1]);
            assert(t.subrange(1, t.len() - 1) =~= v@.subrange(lo + 1, hi - 1));
        }
        if v[lo] == v[hi - 1] {
            pal_range(v, lo + 1, hi - 1)
        } else {
            false
        }
    }
}

/// Checks if the input string is a palindrome by recursively comparing the
/// first and last characters of its lowercased form and then the part
/// between them.
pub fn is_pal_recursion(s: &str) -> (r: bool)
    ensures
        r == is_palindrome(lower_of(s@)),
{
    let lower = lowercase(s);
    let v = chars_of(lower.as_str());
    let r = pal_range(&v, 0, v.len());
    proof {
        assert(v@.subrange(0, v@.len() as int) =~= v@);
    }
    r
}

} // verus!
