//! Sets of texts kept as strictly increasing lists.
//!
//! A list in which each text is lexicographically below the next holds
//! every text once, and is the only such list for its set of texts.

use vstd::prelude::*;
use crate::text::{
    lemma_text_less_asymmetric, lemma_text_less_irreflexive, lemma_text_less_total,
    lemma_text_less_transitive, text_eq, text_less, text_lt, texts,
};

verus! {

/// Each text lexicographically below the next.
pub open spec fn strictly_sorted(s: Seq<Seq<char>>) -> bool {
    forall|i: int, j: int| 0 <= i < j < s.len() ==> text_less(#[trigger] s[i], #[trigger] s[j])
}

/// The strictly increasing list of the texts of a finite set.
pub open spec fn sorted_texts(s: Set<Seq<char>>) -> Seq<Seq<char>> {
    choose|l: Seq<Seq<char>>| strictly_sorted(l) && l.to_set() == s
}

pub proof fn lemma_sorted_no_duplicates(s: Seq<Seq<char>>)
    requires
        strictly_sorted(s),
    ensures
        s.no_duplicates(),
{
    assert forall|i: int, j: int| 0 <= i < s.len() && 0 <= j < s.len() && i != j implies s[i] != s[j] by {
        lemma_text_less_irreflexive(s[i]);
        if i < j {
            assert(text_less(s[i], s[j]));
        } else {
            assert(text_less(s[j], s[i]));
        }
    }
}

/// A strictly increasing list is determined by its set of texts.
pub proof fn lemma_sorted_unique(a: Seq<Seq<char>>, b: Seq<Seq<char>>)
    requires
        strictly_sorted(a),
        strictly_sorted(b),
        a.to_set() == b.to_set(),
    ensures
        a == b,
    decreases a.len(),
{
    if a.len() == 0 {
        if b.len() > 0 {
            assert(b.to_set().contains(b[0]));
        }
        assert(a =~= b);
    } else {
        assert(a.to_set().contains(a[0]));
        assert(b.len() > 0);
        assert(b.to_set().contains(b[0]));
        if a[0] != b[0] {
            let j = choose|j: int| 0 <= j < b.len() && b[j] == a[0];
            let i = choose|i: int| 0 <= i < a.len() && a[i] == b[0];
            assert(j > 0 && i > 0);
            assert(text_less(b[0], b[j]));
            assert(text_less(a[0], a[i]));
            lemma_text_less_asymmetric(a[0], b[0]);
        }
        let a1 = a.skip(1);
        let b1 = b.skip(1);
        lemma_sorted_no_duplicates(a);
        lemma_sorted_no_duplicates(b);
        assert forall|x: Seq<char>| a1.to_set().contains(x) <==> b1.to_set().contains(x) by {
            if a1.contains(x) {
                let i = choose|i: int| 0 <= i < a1.len() && a1[i] == x;
                assert(a[i + 1] == x);
                assert(a.to_set().contains(x));
                assert(b.contains(x));
                let j = choose|j: int| 0 <= j < b.len() && b[j] == x;
                assert(j != 0);
                assert(b1[j - 1] == x);
            }
            if b1.contains(x) {
                let j = choose|j: int| 0 <= j < b1.len() && b1[j] == x;
                assert(b[j + 1] == x);
                assert(b.to_set().contains(x));
                assert(a.contains(x));
                let i = choose|i: int| 0 <= i < a.len() && a[i] == x;
                assert(i != 0);
                assert(a1[i - 1] == x);
            }
        }
        assert(a1.to_set() =~= b1.to_set());
        assert(strictly_sorted(a1)) by {
            assert forall|i: int, j: int| 0 <= i < j < a1.len() implies text_less(#[trigger] a1[i], #[trigger] a1[j]) by {
                assert(a1[i] == a[i + 1] && a1[j] == a[j + 1]);
            }
        }
        assert(strictly_sorted(b1)) by {
            assert forall|i: int, j: int| 0 <= i < j < b1.len() implies text_less(#[trigger] b1[i], #[trigger] b1[j]) by {
                assert(b1[i] == b[i + 1] && b1[j] == b[j + 1]);
            }
        }
        lemma_sorted_unique(a1, b1);
        assert forall|i: int| 0 <= i < a.len() implies a[i] == b[i] by {
            if i > 0 {
                assert(a[i] == a1[i - 1] && b[i] == b1[i - 1]);
            }
        }
        assert(a =~= b);
    }
}

/// A strictly increasing list is the one `sorted_texts` names for its set.
pub proof fn lemma_sorted_texts_of(l: Seq<Seq<char>>)
    requires
        strictly_sorted(l),
    ensures
        sorted_texts(l.to_set()) == l,
{
    let c = sorted_texts(l.to_set());
    assert(strictly_sorted(c) && c.to_set() == l.to_set());
    lemma_sorted_unique(c, l);
}

/// The texts among the first `j + 1` of a list: those among the first `j`
/// and the `j`-th.
pub proof fn lemma_take_to_set_step(s: Seq<Seq<char>>, j: int)
    requires
        0 <= j < s.len(),
    ensures
        s.take(j + 1).to_set() == s.take(j).to_set().insert(s[j]),
{
    let a = s.take(j + 1);
    let b = s.take(j);
    assert forall|x: Seq<char>| a.to_set().contains(x) <==> b.to_set().insert(s[j]).contains(x) by {
        if a.contains(x) {
            let k = choose|k: int| 0 <= k < a.len() && a[k] == x;
            if k < j {
                assert(b[k] == x);
            }
        }
        if b.contains(x) {
            let k = choose|k: int| 0 <= k < b.len() && b[k] == x;
            assert(a[k] == x);
        }
        if x == s[j] {
            assert(a[j] == x);
        }
    }
    assert(a.to_set() =~= b.to_set().insert(s[j]));
}

/// Where `x` belongs in the strictly increasing list `v`: the number of
/// entries below it, and whether it is there.
pub fn find_slot(v: &Vec<String>, x: &str) -> (r: (usize, bool))
    requires
        strictly_sorted(texts(v@)),
    ensures
        r.0 <= v@.len(),
        forall|i: int| 0 <= i < r.0 ==> text_less(#[trigger] texts(v@)[i], x@),
        r.1 == texts(v@).contains(x@),
        r.1 ==> r.0 < v@.len() && texts(v@)[r.0 as int] == x@,
        !r.1 ==> forall|i: int| r.0 <= i < v@.len() ==> text_less(x@, #[trigger] texts(v@)[i]),
{
    let n = v.len();
    let mut i: usize = 0;
    while i < n && text_lt(v[i].as_str(), x)
        invariant
            n == v@.len(),
            0 <= i <= n,
            forall|k: int| 0 <= k < i ==> text_less(#[trigger] texts(v@)[k], x@),
        decreases n - i,
    {
        assert(texts(v@)[i as int] == v@[i as int]@);
        i = i + 1;
    }
    let ghost s = texts(v@);
    let found = i < n && text_eq(v[i].as_str(), x);
    proof {
        if i < n {
            assert(s[i as int] == v@[i as int]@);
            assert(!text_less(s[i as int], x@));
            if !found {
                lemma_text_less_total(s[i as int], x@);
                assert forall|k: int| i <= k < v@.len() implies text_less(x@, #[trigger] s[k]) by {
                    if k > i {
                        assert(text_less(s[i as int], s[k]));
                        lemma_text_less_transitive(x@, s[i as int], s[k]);
                    }
                }
            }
        }
        if s.contains(x@) {
            let k = choose|k: int| 0 <= k < s.len() && s[k] == x@;
            lemma_text_less_irreflexive(x@);
            if !found {
                assert(k >= i);
                assert(text_less(x@, s[k]));
            }
        }
    }
    (i, found)
}

/// Adds `x` to the strictly increasing list `v`, keeping it so; `false`,
/// changing nothing, when `x` is already there.
pub fn sorted_insert(v: &mut Vec<String>, x: String) -> (r: bool)
    requires
        strictly_sorted(texts(old(v)@)),
    ensures
        strictly_sorted(texts(final(v)@)),
        r == !texts(old(v)@).contains(x@),
        texts(final(v)@).to_set() == texts(old(v)@).to_set().insert(x@),
        r ==> final(v)@.len() == old(v)@.len() + 1,
        !r ==> final(v)@ == old(v)@,
{
    let (pos, found) = find_slot(v, x.as_str());
    if found {
        proof {
            assert(texts(v@).to_set() =~= texts(v@).to_set().insert(x@));
        }
        return false;
    }
    let ghost s = texts(v@);
    let ghost xv = x@;
    v.insert(pos, x);
    proof {
        let t = texts(v@);
        assert(t =~= s.insert(pos as int, xv));
        assert forall|i: int, j: int| 0 <= i < j < t.len() implies text_less(#[trigger] t[i], #[trigger] t[j]) by {
            if j < pos {
                assert(t[i] == s[i] && t[j] == s[j]);
            } else if j == pos {
                assert(t[i] == s[i]);
            } else if i < pos {
                assert(t[i] == s[i] && t[j] == s[j - 1]);
                lemma_text_less_transitive(s[i], xv, s[j - 1]);
            } else if i == pos {
                assert(t[j] == s[j - 1]);
            } else {
                assert(t[i] == s[i - 1] && t[j] == s[j - 1]);
            }
        }
        assert forall|y: Seq<char>| t.to_set().contains(y) <==> s.to_set().insert(xv).contains(y) by {
            if t.contains(y) {
                let k = choose|k: int| 0 <= k < t.len() && t[k] == y;
                if k < pos {
                    assert(s[k] == y);
                } else if k > pos {
                    assert(s[k - 1] == y);
                }
            }
            if s.contains(y) {
                let k = choose|k: int| 0 <= k < s.len() && s[k] == y;
                if k < pos {
                    assert(t[k] == y);
                } else {
                    assert(t[k + 1] == y);
                }
            }
            if y == xv {
                assert(t[pos as int] == y);
            }
        }
        assert(t.to_set() =~= s.to_set().insert(xv));
    }
    true
}

/// Removes `x` from the strictly increasing list `v`; `false`, changing
/// nothing, when `x` is not there.
pub fn sorted_remove(v: &mut Vec<String>, x: &str) -> (r: bool)
    requires
        strictly_sorted(texts(old(v)@)),
    ensures
        strictly_sorted(texts(final(v)@)),
        r == texts(old(v)@).contains(x@),
        texts(final(v)@).to_set() == texts(old(v)@).to_set().remove(x@),
        r ==> final(v)@.len() + 1 == old(v)@.len(),
        !r ==> final(v)@ == old(v)@,
{
    let (pos, found) = find_slot(v, x);
    if !found {
        proof {
            assert(texts(v@).to_set() =~= texts(v@).to_set().remove(x@));
        }
        return false;
    }
    let ghost s = texts(v@);
    proof {
        lemma_sorted_no_duplicates(s);
    }
    v.remove(pos);
    proof {
        let t = texts(v@);
        assert(t =~= s.remove(pos as int));
        assert forall|i: int, j: int| 0 <= i < j < t.len() implies text_less(#[trigger] t[i], #[trigger] t[j]) by {
            if j < pos {
                assert(t[i] == s[i] && t[j] == s[j]);
            } else if i < pos {
                assert(t[i] == s[i] && t[j] == s[j + 1]);
            } else {
                assert(t[i] == s[i + 1] && t[j] == s[j + 1]);
            }
        }
        assert forall|y: Seq<char>| t.to_set().contains(y) <==> s.to_set().remove(x@).contains(y) by {
            if t.contains(y) {
                let k = choose|k: int| 0 <= k < t.len() && t[k] == y;
                if k < pos {
                    assert(s[k] == y);
                } else {
                    assert(s[k + 1] == y);
                }
            }
            if s.contains(y) && y != x@ {
                let k = choose|k: int| 0 <= k < s.len() && s[k] == y;
                if k < pos {
                    assert(t[k] == y);
                } else {
                    assert(k != pos);
                    assert(t[k - 1] == y);
                }
            }
        }
        assert(t.to_set() =~= s.to_set().remove(x@));
    }
    true
}

} // verus!
