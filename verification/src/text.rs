//! Small operations on text that the rest of the library shares.

use vstd::prelude::*;

verus! {

/// `i` is the position of the first `c` in `s`.
pub open spec fn is_first<A>(s: Seq<A>, c: A, i: int) -> bool {
    &&& 0 <= i < s.len()
    &&& s[i] == c
    &&& forall|j: int| 0 <= j < i ==> s[j] != c
}

/// The position of the first `c` in `s`; meaningful only where `s` holds `c`.
pub open spec fn first_index_of<A>(s: Seq<A>, c: A) -> int {
    choose|i: int| is_first(s, c, i)
}

/// A sequence that holds `c` has exactly one first position of it.
pub proof fn lemma_first_index<A>(s: Seq<A>, c: A)
    requires
        s.contains(c),
    ensures
        is_first(s, c, first_index_of(s, c)),
        forall|i: int| is_first(s, c, i) ==> i == first_index_of(s, c),
{
    let w = choose|i: int| 0 <= i < s.len() && s[i] == c;
    lemma_first_below(s, c, w);
}

proof fn lemma_first_below<A>(s: Seq<A>, c: A, w: int)
    requires
        0 <= w < s.len(),
        s[w] == c,
    ensures
        exists|i: int| is_first(s, c, i),
    decreases w,
{
    if exists|j: int| 0 <= j < w && s[j] == c {
        let j = choose|j: int| 0 <= j < w && s[j] == c;
        lemma_first_below(s, c, j);
    } else {
        assert(is_first(s, c, w));
    }
}

/// Finds the first `c` in `s`, in one pass over `s`.
pub fn find_char(s: &str, c: char) -> (r: Option<usize>)
    ensures
        match r {
            Some(i) => is_first(s@, c, i as int),
            None => !s@.contains(c),
        },
{
    let n = s.unicode_len();
    let mut i: usize = 0;
    for x in it: s.chars()
        invariant
            i == it.index(),
            it.seq() == s@,
            n == s@.len(),
            forall|j: int| 0 <= j < i ==> s@[j] != c,
    {
        if x == c {
            return Some(i);
        }
        i += 1;
    }
    None
}

} // verus!
