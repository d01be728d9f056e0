//! The order of strings (`Ord for String`: lexicographic by code point)
//! and sorted sets of texts.
use vstd::prelude::*;
use crate::text::cviews;

verus! {

/// `a` comes strictly before `b`: at the first difference `a` has the
/// smaller character, or `a` is a proper prefix of `b`.
pub open spec fn lex_lt(a: Seq<char>, b: Seq<char>) -> bool
    decreases a.len(),
{
    if a.len() == 0 {
        b.len() > 0
    } else if b.len() == 0 {
        false
    } else if a[0] != b[0] {
        a[0] < b[0]
    } else {
        lex_lt(a.skip(1), b.skip(1))
    }
}

/// Strictly increasing: sorted, and no text occurs twice.
pub open spec fn strictly_sorted(s: Seq<Seq<char>>) -> bool {
    forall|i: int, j: int| 0 <= i < j < s.len() ==> lex_lt(#[trigger] s[i], #[trigger] s[j])
}

/// No text comes strictly before itself.
pub proof fn lemma_lex_irreflexive(a: Seq<char>)
    ensures
        !lex_lt(a, a),
    decreases a.len(),
{
    if a.len() > 0 {
        lemma_lex_irreflexive(a.skip(1));
    }
}

/// The order is transitive.
pub proof fn lemma_lex_transitive(a: Seq<char>, b: Seq<char>, c: Seq<char>)
    requires
        lex_lt(a, b),
        lex_lt(b, c),
    ensures
        lex_lt(a, c),
    decreases a.len(),
{
    if a.len() > 0 && b.len() > 0 && c.len() > 0 && a[0] == b[0] && b[0] == c[0] {
        lemma_lex_transitive(a.skip(1), b.skip(1), c.skip(1));
    }
}

/// Any two different texts are ordered one way or the other.
pub proof fn lemma_lex_total(a: Seq<char>, b: Seq<char>)
    requires
        a != b,
    ensures
        lex_lt(a, b) || lex_lt(b, a),
    decreases a.len(),
{
    if a.len() > 0 && b.len() > 0 && a[0] == b[0] {
        if a.skip(1) == b.skip(1) {
            assert(a =~= seq![a[0]] + a.skip(1));
            assert(b =~= seq![b[0]] + b.skip(1));
        }
        lemma_lex_total(a.skip(1), b.skip(1));
    } else if a.len() == 0 && b.len() == 0 {
        assert(a =~= b);
    }
}

/// `a` comes strictly before `b` (`<` on `String`).
pub fn lex_less(a: &Vec<char>, b: &Vec<char>) -> (r: bool)
    ensures
        r == lex_lt(a@, b@),
{
    let mut i: usize = 0;
    assert(a@.skip(0) =~= a@ && b@.skip(0) =~= b@);
    while i < a.len() && i < b.len()
        invariant
            i <= a.len(),
            i <= b.len(),
            lex_lt(a@.skip(i as int), b@.skip(i as int)) == lex_lt(a@, b@),
        decreases a.len() - i,
    {
        assert(a@.skip(i as int)[0] == a@[i as int]);
        assert(b@.skip(i as int)[0] == b@[i as int]);
        if a[i] != b[i] {
            return a[i] < b[i];
        }
        assert(a@.skip(i as int).skip(1) =~= a@.skip(i + 1));
        assert(b@.skip(i as int).skip(1) =~= b@.skip(i + 1));
        i = i + 1;
    }
    i == a.len() && i < b.len()
}

/// Adds `x` to a strictly sorted list of texts, keeping it strictly sorted;
/// nothing changes when `x` is already there.
pub fn insert_sorted(out: &mut Vec<Vec<char>>, x: Vec<char>)
    requires
        strictly_sorted(cviews(old(out)@)),
    ensures
        strictly_sorted(cviews(final(out)@)),
        forall|y: Seq<char>|
            cviews(final(out)@).contains(y) <==> (cviews(old(out)@).contains(y) || y == x@),
{
    let ghost s = cviews(out@);
    let mut p: usize = 0;
    while p < out.len() && lex_less(&out[p], &x)
        invariant
            p <= out.len(),
            s == cviews(out@),
            s.len() == out.len(),
            forall|k: int| 0 <= k < p ==> lex_lt(#[trigger] s[k], x@),
        decreases out.len() - p,
    {
        assert(s[p as int] == out@[p as int]@);
        p = p + 1;
    }
    if p < out.len() {
        assert(s[p as int] == out@[p as int]@);
        if crate::text::text_eq(&out[p], &x) {
            assert forall|y: Seq<char>|
                cviews(out@).contains(y) <==> (s.contains(y) || y == x@) by {
                if y == x@ {
                    assert(s[p as int] == y);
                }
            }
            return;
        }
        proof {
            lemma_lex_total(s[p as int], x@);
        }
    }
    proof {
        assert forall|j: int| p <= j < s.len() implies lex_lt(x@, #[trigger] s[j]) by {
            if j > p {
                lemma_lex_transitive(x@, s[p as int], s[j]);
            }
        }
    }
    let ghost xv = x@;
    out.insert(p, x);
    let ghost t = cviews(out@);
    assert(t =~= s.insert(p as int, xv));
    assert forall|i: int, j: int| 0 <= i < j < t.len() implies lex_lt(#[trigger] t[i], #[trigger] t[j]) by {
        if j < p {
            assert(t[i] == s[i] && t[j] == s[j]);
        } else if j == p {
            assert(t[i] == s[i]);
        } else if i < p {
            assert(t[i] == s[i] && t[j] == s[j - 1]);
            lemma_lex_transitive(s[i], xv, s[j - 1]);
        } else if i == p {
            assert(t[j] == s[j - 1]);
        } else {
            assert(t[i] == s[i - 1] && t[j] == s[j - 1]);
        }
    }
    assert forall|y: Seq<char>| t.contains(y) <==> (s.contains(y) || y == xv) by {
        if t.contains(y) {
            let k = choose|k: int| 0 <= k < t.len() && t[k] == y;
            if k < p {
                assert(s[k] == y);
            } else if k > p {
                assert(s[k - 1] == y);
            }
        }
        if s.contains(y) {
            let k = choose|k: int| 0 <= k < s.len() && s[k] == y;
            if k < p {
                assert(t[k] == y);
            } else {
                assert(t[k + 1] == y);
            }
        }
        if y == xv {
            assert(t[p as int] == y);
        }
    }
}

/// A strictly sorted list of texts is determined by the texts it holds:
/// two such lists with the same elements are equal. So the plugin list is
/// the same whatever order the directories list their files in and however
/// often a plugin occurs on `PATH`.
pub proof fn law_sorted_set_unique(a: Seq<Seq<char>>, b: Seq<Seq<char>>)
    requires
        strictly_sorted(a),
        strictly_sorted(b),
        forall|x: Seq<char>| a.contains(x) <==> b.contains(x),
    ensures
        a == b,
    decreases a.len(),
{
    if a.len() == 0 {
        if b.len() > 0 {
            assert(b.contains(b[0]));
        }
        assert(a =~= b);
    } else {
        assert(a.contains(a[0]));
        let j = choose|j: int| 0 <= j < b.len() && b[j] == a[0];
        assert(b.contains(b[0]));
        let i = choose|i: int| 0 <= i < a.len() && a[i] == b[0];
        if j > 0 {
            if i > 0 {
                assert(lex_lt(a[0], a[i]));
                assert(lex_lt(b[0], b[j]));
                lemma_lex_transitive(a[0], b[0], a[0]);
                lemma_lex_irreflexive(a[0]);
            } else {
                assert(lex_lt(b[0], b[j]));
                lemma_lex_irreflexive(a[0]);
            }
        }
        assert(a[0] == b[0]);
        let a1 = a.skip(1);
        let b1 = b.skip(1);
        assert forall|x: Seq<char>| a1.contains(x) <==> b1.contains(x) by {
            if a1.contains(x) {
                let k = choose|k: int| 0 <= k < a1.len() && a1[k] == x;
                assert(a.contains(x) && a[k + 1] == x);
                let m = choose|m: int| 0 <= m < b.len() && b[m] == x;
                if m == 0 {
                    assert(lex_lt(a[0], a[k + 1]));
                    lemma_lex_irreflexive(a[0]);
                }
                assert(b1[m - 1] == x);
            }
            if b1.contains(x) {
                let k = choose|k: int| 0 <= k < b1.len() && b1[k] == x;
                assert(b.contains(x) && b[k + 1] == x);
                let m = choose|m: int| 0 <= m < a.len() && a[m] == x;
                if m == 0 {
                    assert(lex_lt(b[0], b[k + 1]));
                    lemma_lex_irreflexive(b[0]);
                }
                assert(a1[m - 1] == x);
            }
        }
        assert forall|p: int, q: int| 0 <= p < q < a1.len() implies lex_lt(#[trigger] a1[p], #[trigger] a1[q]) by {
            assert(a1[p] == a[p + 1] && a1[q] == a[q + 1]);
        }
        assert forall|p: int, q: int| 0 <= p < q < b1.len() implies lex_lt(#[trigger] b1[p], #[trigger] b1[q]) by {
            assert(b1[p] == b[p + 1] && b1[q] == b[q + 1]);
        }
        law_sorted_set_unique(a1, b1);
        assert(a =~= seq![a[0]] + a1);
        assert(b =~= seq![b[0]] + b1);
    }
}

} // verus!
