use vstd::prelude::*;
use crate::strutil::{chars_of, chars_to_string, lower_of, lowercase, upper_char, upper_of};
use crate::text::{is_whitespace_char, is_ws_char, wc_rec, word_count_spec};

verus! {

/// The movie titles the word counts are drawn from.
pub open spec fn titles_spec() -> Seq<Seq<char>> {
    seq![
        "Love Actually"@,
        "STAR WARS"@,
        "From Russia With love"@,
        "Dr. Strangelove"@,
        "Bourne Ultimatum"@,
        "The fault in our stars"@,
        "Bourne supremacy"@,
        "A star is born"@,
        "Starsky and Hutch"@,
        "Star Trek"@,
        "Lover's Paradise"@,
        "A Christmas Star"@,
        "Chitty Chitty Bang Bang"@,
        "Ernest Saves Christmas"@,
        "A CHRISTMAS CAROL"@,
        "That Darn Cat !"@,
        "The Muppet Christmas Carol"@,
        "White Christmas"@,
        "Farenheit 451"@,
    ]
}

/// The list of movie titles to use for this program.
pub fn movie_titles() -> (r: Vec<&'static str>)
    ensures
        r@.len() == titles_spec().len(),
        forall|i: int| 0 <= i < r@.len() ==> #[trigger] r@[i]@ == titles_spec()[i],
{
    let mut v: Vec<&'static str> = Vec::new();
    v.push("Love Actually");
    v.push("STAR WARS");
    v.push("From Russia With love");
    v.push("Dr. Strangelove");
    v.push("Bourne Ultimatum");
    v.push("The fault in our stars");
    v.push("Bourne supremacy");
    v.push("A star is born");
    v.push("Starsky and Hutch");
    v.push("Star Trek");
    v.push("Lover's Paradise");
    v.push("A Christmas Star");
    v.push("Chitty Chitty Bang Bang");
    v.push("Ernest Saves Christmas");
    v.push("A CHRISTMAS CAROL");
    v.push("That Darn Cat !");
    v.push("The Muppet Christmas Carol");
    v.push("White Christmas");
    v.push("Farenheit 451");
    v
}

/// The views of a sequence of character vectors.
pub open spec fn vecs_view(s: Seq<Vec<char>>) -> Seq<Seq<char>> {
    s.map_values(|w: Vec<char>| w@)
}

/// The views of a sequence of strings.
pub open spec fn strings_view(s: Seq<String>) -> Seq<Seq<char>> {
    s.map_values(|x: String| x@)
}

/// The words of `s` read left to right: `cur` is the non-whitespace run being
/// read, `acc` the words already read.
pub open spec fn split_ws_acc(s: Seq<char>, cur: Seq<char>, acc: Seq<Seq<char>>) -> Seq<Seq<char>>
    decreases s.len(),
{
    if s.len() == 0 {
        if cur.len() > 0 {
            acc.push(cur)
        } else {
            acc
        }
    } else if is_ws_char(s[0]) {
        if cur.len() > 0 {
            split_ws_acc(s.drop_first(), Seq::empty(), acc.push(cur))
        } else {
            split_ws_acc(s.drop_first(), Seq::empty(), acc)
        }
    } else {
        split_ws_acc(s.drop_first(), cur.push(s[0]), acc)
    }
}

/// The whitespace-separated words of `s`: its maximal non-whitespace runs,
/// in order.
pub open spec fn words_of(s: Seq<char>) -> Seq<Seq<char>> {
    split_ws_acc(s, Seq::empty(), Seq::empty())
}

/// Splits `v` into its whitespace-separated words.
pub fn split_words(v: &Vec<char>) -> (r: Vec<Vec<char>>)
    ensures
        vecs_view(r@) == words_of(v@),
{
    let mut acc: Vec<Vec<char>> = Vec::new();
    let mut cur: Vec<char> = Vec::new();
    let mut i: usize = 0;
    proof {
        assert(v@.skip(0) =~= v@);
        assert(vecs_view(acc@) =~= Seq::<Seq<char>>::empty());
        assert(cur@ =~= Seq::<char>::empty());
    }
    while i < v.len()
        invariant
            0 <= i <= v@.len(),
            words_of(v@) == split_ws_acc(v@.skip(i as int), cur@, vecs_view(acc@)),
        decreases v@.len() - i,
    {
        proof {
            assert(v@.skip(i as int)[0] == v@[i as int]);
            assert(v@.skip(i as int).drop_first() =~= v@.skip(i + 1));
            if cur@.len() == 0 {
                assert(cur@ =~= Seq::<char>::empty());
            }
        }
        let c = v[i];
        if is_whitespace_char(c) {
            if cur.len() > 0 {
                let ghost w = cur@;
                let ghost av = vecs_view(acc@);
                acc.push(cur);
                proof {
                    assert(vecs_view(acc@) =~= av.push(w));
                }
                cur = Vec::new();
                proof {
                    assert(cur@ =~= Seq::<char>::empty());
                }
            }
        } else {
            cur.push(c);
        }
        i = i + 1;
    }
    proof {
        assert(v@.skip(i as int) =~= Seq::<char>::empty());
    }
    if cur.len() > 0 {
        let ghost w = cur@;
        let ghost av = vecs_view(acc@);
        acc.push(cur);
        proof {
            assert(vecs_view(acc@) =~= av.push(w));
        }
    }
    acc
}

/// `split_ws_acc` yields one word per counted run: the accumulated words,
/// plus the runs of `s`, plus the unfinished run if one is open.
proof fn lemma_split_ws_acc_len(s: Seq<char>, cur: Seq<char>, acc: Seq<Seq<char>>)
    ensures
        split_ws_acc(s, cur, acc).len() == acc.len() + wc_rec(s, cur.len() == 0) + (if cur.len()
            > 0 {
            1nat
        } else {
            0nat
        }),
    decreases s.len(),
{
    if s.len() == 0 {
    } else if is_ws_char(s[0]) {
        if cur.len() > 0 {
            lemma_split_ws_acc_len(s.drop_first(), Seq::empty(), acc.push(cur));
        } else {
            lemma_split_ws_acc_len(s.drop_first(), Seq::empty(), acc);
        }
    } else {
        lemma_split_ws_acc_len(s.drop_first(), cur.push(s[0]), acc);
    }
}

/// The number of whitespace-separated words of `s` equals its word count:
/// splitting and counting agree on every text.
pub proof fn lemma_words_len_is_word_count(s: Seq<char>)
    ensures
        words_of(s).len() == word_count_spec(s),
{
    lemma_split_ws_acc_len(s, Seq::empty(), Seq::empty());
}

/// The words of one title, lowercased, in order.
pub open spec fn lowered_words(t: Seq<char>) -> Seq<Seq<char>> {
    words_of(t).map_values(|w: Seq<char>| lower_of(w))
}

/// The lowercased words of a list of titles, title by title, in order.
pub open spec fn words_of_titles(ts: Seq<Seq<char>>) -> Seq<Seq<char>>
    decreases ts,
{
    if ts.len() == 0 {
        Seq::empty()
    } else {
        lowered_words(ts[0]) + words_of_titles(ts.drop_first())
    }
}

/// The lowercased words of every movie title.
pub open spec fn all_title_words() -> Seq<Seq<char>> {
    words_of_titles(titles_spec())
}

/// One more title contributes its lowered words after the ones before it.
proof fn lemma_words_of_titles_push(ts: Seq<Seq<char>>, t: Seq<char>)
    ensures
        words_of_titles(ts.push(t)) == words_of_titles(ts) + lowered_words(t),
    decreases ts,
{
    reveal_with_fuel(words_of_titles, 2);
    if ts.len() == 0 {
        assert(ts.push(t)[0] == t);
        assert(ts.push(t).drop_first() =~= Seq::<Seq<char>>::empty());
        assert(words_of_titles(ts.push(t)) =~= words_of_titles(ts) + lowered_words(t));
    } else {
        assert(ts.push(t)[0] == ts[0]);
        assert(ts.push(t).drop_first() =~= ts.drop_first().push(t));
        lemma_words_of_titles_push(ts.drop_first(), t);
        assert(words_of_titles(ts.push(t)) =~= words_of_titles(ts) + lowered_words(t));
    }
}

/// Counts the occurrences of each distinct word of `words`: every word
/// appears exactly once as a key, with its number of occurrences.
fn histogram(words: &Vec<String>) -> (r: Vec<(String, usize)>)
    ensures
        forall|i: int, j: int| 0 <= i < j < r@.len() ==> r@[i].0@ != r@[j].0@,
        forall|i: int|
            0 <= i < r@.len() ==> (#[trigger] r@[i]).1 as nat == strings_view(
                words@,
            ).to_multiset().count(r@[i].0@) && r@[i].1 >= 1,
        forall|w: Seq<char>|
            strings_view(words@).contains(w) ==> exists|i: int|
                0 <= i < r@.len() && (#[trigger] r@[i]).0@ == w,
{
    let ghost wsv = strings_view(words@);
    let mut r: Vec<(String, usize)> = Vec::new();
    let mut t: usize = 0;
    proof {
        assert(wsv.take(0) =~= Seq::<Seq<char>>::empty());
    }
    while t < words.len()
        invariant
            0 <= t <= words@.len(),
            wsv == strings_view(words@),
            wsv.len() == words@.len(),
            forall|i: int, j: int| 0 <= i < j < r@.len() ==> r@[i].0@ != r@[j].0@,
            forall|i: int|
                0 <= i < r@.len() ==> (#[trigger] r@[i]).1 as nat == wsv.take(
                    t as int,
                ).to_multiset().count(r@[i].0@),
            forall|i: int| 0 <= i < r@.len() ==> (#[trigger] r@[i]).1 >= 1 && r@[i].1 <= t,
            forall|w: Seq<char>|
                wsv.take(t as int).contains(w) ==> exists|i: int|
                    0 <= i < r@.len() && (#[trigger] r@[i]).0@ == w,
        decreases words@.len() - t,
    {
        let w = &words[t];
        proof {
            assert(wsv[t as int] == w@);
        }
        let mut idx: usize = 0;
        let mut pos: usize = 0;
        let mut found: bool = false;
        while idx < r.len()
            invariant
                0 <= idx <= r@.len(),
                t < words@.len(),
                wsv == strings_view(words@),
                wsv[t as int] == w@,
                found ==> pos < r@.len() && r@[pos as int].0@ == w@,
                !found ==> forall|i: int| 0 <= i < idx ==> r@[i].0@ != w@,
            decreases r@.len() - idx,
        {
            if !found {
                if r[idx].0 == *w {
                    found = true;
                    pos = idx;
                }
            }
            idx = idx + 1;
        }
        proof {
            assert(wsv.take(t + 1) =~= wsv.take(t as int).push(wsv[t as int]));
            wsv.take(t as int).to_multiset_ensures();
        }
        if found {
            let ghost old_r = r@;
            let c: usize = r[pos].1;
            r[pos].1 = c + 1;
            proof {
                assert(r@ =~= old_r.update(pos as int, (old_r[pos as int].0, (c + 1) as usize)));
                assert forall|i: int|
                    0 <= i < r@.len() implies (#[trigger] r@[i]).1 as nat == wsv.take(
                        t + 1,
                    ).to_multiset().count(r@[i].0@) by {
                    if i == pos {
                        assert(r@[i].0@ == w@);
                    } else {
                        assert(r@[i] == old_r[i]);
                        assert(r@[i].0@ != w@);
                    }
                }
                assert forall|w2: Seq<char>|
                    #[trigger] wsv.take(t + 1).contains(w2) implies exists|i: int|
                        0 <= i < r@.len() && (#[trigger] r@[i]).0@ == w2 by {
                    if w2 == w@ {
                        assert(r@[pos as int].0@ == w2);
                    } else {
                        let k = choose|k: int|
                            0 <= k < wsv.take(t + 1).len() && #[trigger] wsv.take(t + 1)[k] == w2;
                        assert(wsv.take(t as int)[k] == w2);
                        assert(wsv.take(t as int).contains(w2));
                        let i0 = choose|i: int| 0 <= i < old_r.len() && (#[trigger] old_r[i]).0@ == w2;
                        assert(r@[i0].0@ == w2);
                    }
                }
            }
        } else {
            let key = w.clone();
            let ghost old_r = r@;
            r.push((key, 1));
            proof {
                assert(!wsv.take(t as int).contains(w@));
                assert(wsv.take(t as int).to_multiset().count(w@) == 0);
                assert forall|i: int|
                    0 <= i < r@.len() implies (#[trigger] r@[i]).1 as nat == wsv.take(
                        t + 1,
                    ).to_multiset().count(r@[i].0@) by {
                    if i < old_r.len() {
                        assert(r@[i] == old_r[i]);
                        assert(r@[i].0@ != w@);
                    } else {
                        assert(r@[i].0@ == w@);
                    }
                }
                assert forall|w2: Seq<char>|
                    #[trigger] wsv.take(t + 1).contains(w2) implies exists|i: int|
                        0 <= i < r@.len() && (#[trigger] r@[i]).0@ == w2 by {
                    if w2 == w@ {
                        assert(r@[old_r.len() as int].0@ == w2);
                    } else {
                        let k = choose|k: int|
                            0 <= k < wsv.take(t + 1).len() && #[trigger] wsv.take(t + 1)[k] == w2;
                        assert(wsv.take(t as int)[k] == w2);
                        assert(wsv.take(t as int).contains(w2));
                        let i0 = choose|i: int| 0 <= i < old_r.len() && (#[trigger] old_r[i]).0@ == w2;
                        assert(r@[i0].0@ == w2);
                    }
                }
            }
        }
        t = t + 1;
    }
    proof {
        assert(wsv.take(t as int) =~= wsv);
    }
    r
}

/// Iterates the entries in the movie title list and returns the words with
/// their respective counts: each lowercased word of the titles appears
/// exactly once as a key, paired with the number of times it occurs over all
/// titles.
pub fn get_word_counts() -> (r: Vec<(String, usize)>)
    ensures
        forall|i: int, j: int| 0 <= i < j < r@.len() ==> r@[i].0@ != r@[j].0@,
        forall|i: int|
            0 <= i < r@.len() ==> (#[trigger] r@[i]).1 as nat
                == all_title_words().to_multiset().count(r@[i].0@) && r@[i].1 >= 1,
        forall|w: Seq<char>|
            all_title_words().contains(w) ==> exists|i: int|
                0 <= i < r@.len() && (#[trigger] r@[i]).0@ == w,
{
    let titles = movie_titles();
    let mut all: Vec<String> = Vec::new();
    let mut j: usize = 0;
    proof {
        assert(titles_spec().take(0) =~= Seq::<Seq<char>>::empty());
        assert(strings_view(all@) =~= words_of_titles(titles_spec().take(0)));
    }
    while j < titles.len()
        invariant
            0 <= j <= titles@.len(),
            titles@.len() == titles_spec().len(),
            forall|i: int| 0 <= i < titles@.len() ==> #[trigger] titles@[i]@ == titles_spec()[i],
            strings_view(all@) == words_of_titles(titles_spec().take(j as int)),
        decreases titles@.len() - j,
    {
        let ghost tj = titles_spec()[j as int];
        let tv = chars_of(titles[j]);
        let words = split_words(&tv);
        let ghost lw = lowered_words(tj);
        let ghost base = strings_view(all@);
        proof {
            assert(tv@ == tj);
            assert(vecs_view(words@) == words_of(tj));
            assert(lw.len() == words@.len());
            assert(base + lw.take(0) =~= base);
        }
        let mut k: usize = 0;
        while k < words.len()
            invariant
                0 <= k <= words@.len(),
                vecs_view(words@) == words_of(tj),
                lw == lowered_words(tj),
                lw.len() == words@.len(),
                strings_view(all@) == base + lw.take(k as int),
            decreases words@.len() - k,
        {
            let wstr = chars_to_string(&words[k]);
            let lowered = lowercase(wstr.as_str());
            let ghost av = strings_view(all@);
            proof {
                assert(wstr@ == vecs_view(words@)[k as int]);
                assert(lw[k as int] == lower_of(words_of(tj)[k as int]));
                assert(lowered@ == lw[k as int]);
            }
            all.push(lowered);
            proof {
                assert(strings_view(all@) =~= av.push(lw[k as int]));
                assert(base + lw.take(k + 1) =~= (base + lw.take(k as int)).push(lw[k as int]));
            }
            k = k + 1;
        }
        proof {
            assert(lw.take(k as int) =~= lw);
            assert(titles_spec().take(j + 1) =~= titles_spec().take(j as int).push(tj));
            lemma_words_of_titles_push(titles_spec().take(j as int), tj);
        }
        j = j + 1;
    }
    proof {
        assert(titles_spec().take(j as int) =~= titles_spec());
    }
    histogram(&all)
}

/// Converts the first character of the input string to upper case and
/// returns it.
pub fn capitalize_first(s: &str) -> (r: String)
    ensures
        s@.len() == 0 ==> r@ == Seq::<char>::empty(),
        s@.len() > 0 ==> r@ == upper_of(s@[0]) + s@.drop_first(),
{
    let v = chars_of(s);
    if v.len() == 0 {
        let r = String::new();
        proof {
            assert(r@ =~= Seq::<char>::empty());
        }
        r
    } else {
        let up = upper_char(v[0]);
        let mut out = chars_of(up.as_str());
        let mut j: usize = 1;
        proof {
            assert(out@ =~= upper_of(s@[0]) + s@.subrange(1, 1));
        }
        while j < v.len()
            invariant
                1 <= j <= v@.len(),
                v@ == s@,
                out@ == upper_of(s@[0]) + s@.subrange(1, j as int),
            decreases v@.len() - j,
        {
            out.push(v[j]);
            proof {
                assert(out@ =~= upper_of(s@[0]) + s@.subrange(1, j + 1));
            }
            j = j + 1;
        }
        proof {
            assert(s@.subrange(1, s@.len() as int) =~= s@.drop_first());
        }
        chars_to_string(&out)
    }
}

} // verus!
