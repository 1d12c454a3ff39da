//! Splitting written orders into words, and matching keywords without regard to case.
use vstd::prelude::*;

verus! {

/// ASCII whitespace, which separates the words of an order.
pub open spec fn is_ws(c: char) -> bool {
    c == ' ' || c == '\t' || c == '\n' || c == '\r' || c == '\x0C'
}

/// Length of the word at the front of `s`: the characters before the first whitespace.
pub open spec fn word_len(s: Seq<char>) -> nat
    decreases s.len(),
{
    if s.len() == 0 || is_ws(s[0]) {
        0
    } else {
        1 + word_len(s.drop_first())
    }
}

/// The whitespace-separated words of `s`, in order.
pub open spec fn words_of(s: Seq<char>) -> Seq<Seq<char>>
    decreases s.len(),
{
    if s.len() == 0 {
        Seq::empty()
    } else if is_ws(s[0]) {
        words_of(s.drop_first())
    } else {
        let k = word_len(s);
        if 0 < k <= s.len() {
            seq![s.take(k as int)] + words_of(s.skip(k as int))
        } else {
            Seq::empty()
        }
    }
}

/// A character matches a lowercase keyword character in either case.
pub open spec fn ci_char(c: char, k: char) -> bool {
    c == k || ('a' <= k && k <= 'z' && (c as u32) + 32 == (k as u32))
}

/// A word matches a lowercase keyword in any mix of case.
pub open spec fn ci_eq(w: Seq<char>, k: Seq<char>) -> bool {
    w.len() == k.len() && forall|i: int| 0 <= i < w.len() ==> ci_char(w[i], k[i])
}

proof fn lemma_word_len_le(s: Seq<char>)
    ensures
        word_len(s) <= s.len(),
    decreases s.len(),
{
    if s.len() > 0 && !is_ws(s[0]) {
        lemma_word_len_le(s.drop_first());
    }
}

/// Whether a character is ASCII whitespace.
pub fn is_ws_char(c: char) -> (r: bool)
    ensures
        r == is_ws(c),
{
    c == ' ' || c == '\t' || c == '\n' || c == '\r' || c == '\x0C'
}

/// Splits `s` into its whitespace-separated words.
pub fn split_words(s: &str) -> (r: Vec<&str>)
    ensures
        r@.map_values(|w: &str| w@) == words_of(s@),
{
    let n = s.unicode_len();
    let mut res: Vec<&str> = Vec::new();
    let mut i: usize = 0;
    proof {
        assert(s@.skip(0) =~= s@);
        assert(res@.map_values(|w: &str| w@) + words_of(s@) =~= words_of(s@));
    }
    while i < n
        invariant
            i <= n,
            n == s@.len(),
            words_of(s@) == res@.map_values(|w: &str| w@) + words_of(s@.skip(i as int)),
        decreases n - i,
    {
        let c = s.get_char(i);
        let ghost rest = s@.skip(i as int);
        if is_ws_char(c) {
            proof {
                assert(rest[0] == c);
                assert(rest.drop_first() =~= s@.skip(i + 1));
            }
            i = i + 1;
        } else {
            let mut j: usize = i + 1;
            proof {
                assert(rest[0] == c);
                assert(rest.drop_first() =~= s@.skip(i + 1));
            }
            while j < n && !is_ws_char(s.get_char(j))
                invariant
                    i < j <= n,
                    n == s@.len(),
                    rest == s@.skip(i as int),
                    word_len(rest) == (j - i) + word_len(s@.skip(j as int)),
                decreases n - j,
            {
                proof {
                    let t = s@.skip(j as int);
                    assert(t[0] == s@[j as int]);
                    assert(t.drop_first() =~= s@.skip(j + 1));
                }
                j = j + 1;
            }
            proof {
                let t = s@.skip(j as int);
                if j < n {
                    assert(t[0] == s@[j as int]);
                }
                assert(word_len(t) == 0);
                lemma_word_len_le(rest);
                assert(rest.take((j - i) as int) =~= s@.subrange(i as int, j as int));
                assert(rest.skip((j - i) as int) =~= s@.skip(j as int));
            }
            let w = s.substring_char(i, j);
            let ghost prev = res@;
            res.push(w);
            proof {
                assert(res@.map_values(|w: &str| w@) =~= prev.map_values(|w: &str| w@).push(w@));
                assert(seq![w@] + words_of(s@.skip(j as int)) =~= words_of(rest));
                assert(res@.map_values(|w: &str| w@) + words_of(s@.skip(j as int)) =~= prev.map_values(
                    |w: &str| w@,
                ) + words_of(rest));
            }
            i = j;
        }
    }
    proof {
        assert(s@.skip(n as int) =~= Seq::<char>::empty());
        assert(res@.map_values(|w: &str| w@) + Seq::<Seq<char>>::empty() =~= res@.map_values(
            |w: &str| w@,
        ));
    }
    res
}

/// Whether a character matches a lowercase keyword character in either case.
pub fn ci_char_eq(c: char, k: char) -> (r: bool)
    ensures
        r == ci_char(c, k),
{
    c == k || ('a' <= k && k <= 'z' && (c as u32) + 32 == (k as u32))
}

/// Whether the word `w` is the lowercase keyword `k` in any mix of case.
pub fn is_keyword(w: &str, k: &str) -> (r: bool)
    ensures
        r == ci_eq(w@, k@),
{
    let n = w.unicode_len();
    let m = k.unicode_len();
    if n != m {
        return false;
    }
    let mut i: usize = 0;
    while i < n
        invariant
            i <= n,
            n == w@.len(),
            m == k@.len(),
            n == m,
            forall|j: int| 0 <= j < i ==> ci_char(w@[j], k@[j]),
        decreases n - i,
    {
        if !ci_char_eq(w.get_char(i), k.get_char(i)) {
            return false;
        }
        i = i + 1;
    }
    true
}

} // verus!
