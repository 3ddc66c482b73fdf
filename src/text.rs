//! Text helpers: substring search and splitting at commas.
use vstd::prelude::*;

use crate::codec::texts;

verus! {

/// `pat` occurs in `s` at position `i`.
pub open spec fn occurs_at_spec(s: Seq<char>, pat: Seq<char>, i: int) -> bool {
    0 <= i && i + pat.len() <= s.len() && s.subrange(i, i + pat.len()) == pat
}

/// `pat` occurs in `s`.
pub open spec fn contains_text(s: Seq<char>, pat: Seq<char>) -> bool {
    exists|i: int| #[trigger] occurs_at_spec(s, pat, i)
}

/// The pieces of `w` between commas, as `str::split(',')` gives them: an
/// empty text is one empty piece, and a trailing comma ends in one.
pub open spec fn split_commas(w: Seq<char>) -> Seq<Seq<char>>
    decreases w.len(),
{
    if w.len() == 0 {
        seq![Seq::empty()]
    } else {
        let p = split_commas(w.drop_last());
        if w.last() == ',' {
            p.push(Seq::empty())
        } else {
            p.update(p.len() - 1, p.last().push(w.last()))
        }
    }
}

proof fn lemma_split_commas_nonempty(w: Seq<char>)
    ensures
        split_commas(w).len() >= 1,
    decreases w.len(),
{
    if w.len() > 0 {
        lemma_split_commas_nonempty(w.drop_last());
    }
}

pub fn occurs_at(s: &str, pat: &str, i: usize) -> (r: bool)
    requires
        i + pat@.len() <= s@.len(),
    ensures
        r == (s@.subrange(i as int, i + pat@.len()) == pat@),
{
    let sl = s.unicode_len();
    let n = pat.unicode_len();
    let mut k: usize = 0;
    while k < n
        invariant
            n == pat@.len(),
            sl == s@.len(),
            i + n <= s@.len(),
            k <= n,
            forall|j: int| 0 <= j < k ==> s@[i + j] == pat@[j],
        decreases n - k,
    {
        if s.get_char(i + k) != pat.get_char(k) {
            assert(s@.subrange(i as int, i + pat@.len())[k as int] != pat@[k as int]);
            return false;
        }
        k = k + 1;
    }
    assert(s@.subrange(i as int, i + pat@.len()) =~= pat@);
    true
}

/// Whether `pat` occurs in `s`.
pub fn text_contains(s: &str, pat: &str) -> (r: bool)
    ensures
        r == contains_text(s@, pat@),
{
    let n = s.unicode_len();
    let m = pat.unicode_len();
    if m > n {
        assert forall|j: int| !#[trigger] occurs_at_spec(s@, pat@, j) by {};
        return false;
    }
    let last = n - m;
    let mut i: usize = 0;
    while i <= last
        invariant
            n == s@.len(),
            m == pat@.len(),
            m <= n,
            last == n - m,
            forall|j: int| 0 <= j < i ==> !#[trigger] occurs_at_spec(s@, pat@, j),
        decreases last - i,
    {
        if occurs_at(s, pat, i) {
            assert(occurs_at_spec(s@, pat@, i as int));
            return true;
        }
        if i == last {
            assert forall|j: int| !#[trigger] occurs_at_spec(s@, pat@, j) by {
                if 0 <= j <= i {
                }
            };
            return false;
        }
        i = i + 1;
    }
    false
}

/// The pieces of `s` between commas, as `str::split(',')` gives them.
pub fn split_commas_text(s: &str) -> (r: Vec<String>)
    ensures
        texts(r@) == split_commas(s@),
{
    let n = s.unicode_len();
    let mut pieces: Vec<String> = Vec::new();
    let mut start: usize = 0;
    let mut i: usize = 0;
    assert(texts(pieces@).push(s@.subrange(0, 0)) =~~= split_commas(s@.subrange(0, 0)));
    while i < n
        invariant
            n == s@.len(),
            start <= i <= n,
            texts(pieces@).push(s@.subrange(start as int, i as int)) == split_commas(s@.subrange(0, i as int)),
        decreases n - i,
    {
        let ghost before = s@.subrange(0, i as int);
        proof {
            lemma_split_commas_nonempty(before);
            assert(s@.subrange(0, i + 1).drop_last() =~= before);
        }
        if s.get_char(i) == ',' {
            let ghost old_texts = texts(pieces@);
            let piece = s.substring_char(start, i).to_owned();
            pieces.push(piece);
            assert(texts(pieces@) =~= old_texts.push(s@.subrange(start as int, i as int)));
            start = i + 1;
            assert(texts(pieces@).push(s@.subrange(start as int, i + 1)) =~~= split_commas(s@.subrange(0, i + 1)));
        } else {
            assert(s@.subrange(start as int, i + 1) =~= s@.subrange(start as int, i as int).push(s@[i as int]));
            assert(texts(pieces@).push(s@.subrange(start as int, i + 1)) =~= split_commas(s@.subrange(0, i + 1)));
        }
        i = i + 1;
    }
    assert(s@.subrange(0, n as int) =~= s@);
    let last = s.substring_char(start, n).to_owned();
    let ghost old_texts = texts(pieces@);
    pieces.push(last);
    assert(texts(pieces@) =~= old_texts.push(s@.subrange(start as int, n as int)));
    pieces
}

} // verus!
