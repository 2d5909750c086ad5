use vstd::prelude::*;
use crate::text::char_vec;

verus! {

broadcast use vstd::seq_lib::group_seq_properties, vstd::multiset::group_multiset_axioms;

/// Lexicographic order on character sequences, comparing code points; this is the
/// order of `str`'s `Ord`, since UTF-8 keeps code point order byte by byte.
pub open spec fn lex_lt(a: Seq<char>, b: Seq<char>) -> bool
    decreases a.len(),
{
    if a.len() == 0 {
        b.len() > 0
    } else if b.len() == 0 {
        false
    } else if a[0] != b[0] {
        a[0] < b[0]
    } else {
        lex_lt(a.drop_first(), b.drop_first())
    }
}

pub open spec fn lex_le(a: Seq<char>, b: Seq<char>) -> bool {
    a == b || lex_lt(a, b)
}

pub proof fn lemma_lex_irreflexive(a: Seq<char>)
    ensures
        !lex_lt(a, a),
    decreases a.len(),
{
    if a.len() > 0 {
        lemma_lex_irreflexive(a.drop_first());
    }
}

pub proof fn lemma_lex_transitive(a: Seq<char>, b: Seq<char>, c: Seq<char>)
    requires
        lex_lt(a, b),
        lex_lt(b, c),
    ensures
        lex_lt(a, c),
    decreases a.len(),
{
    if a.len() > 0 && b.len() > 0 && c.len() > 0 {
        if a[0] == b[0] && b[0] == c[0] {
            lemma_lex_transitive(a.drop_first(), b.drop_first(), c.drop_first());
        }
    }
}

pub proof fn lemma_lex_total(a: Seq<char>, b: Seq<char>)
    ensures
        a == b || lex_lt(a, b) || lex_lt(b, a),
    decreases a.len(),
{
    if a.len() > 0 && b.len() > 0 && a[0] == b[0] {
        lemma_lex_total(a.drop_first(), b.drop_first());
        if a.drop_first() == b.drop_first() {
            assert(a =~= seq![a[0]] + a.drop_first());
            assert(b =~= seq![b[0]] + b.drop_first());
        }
    } else if a.len() == 0 && b.len() == 0 {
        assert(a =~= b);
    }
}

pub proof fn lemma_lex_asymmetric(a: Seq<char>, b: Seq<char>)
    requires
        lex_lt(a, b),
    ensures
        !lex_lt(b, a),
{
    if lex_lt(b, a) {
        lemma_lex_transitive(a, b, a);
        lemma_lex_irreflexive(a);
    }
}

/// `s` is ordered by `lex_le` on the views of its elements.
pub open spec fn sorted_views(s: Seq<String>) -> bool {
    forall|i: int, j: int| 0 <= i < j < s.len() ==> lex_le(#[trigger] s[i]@, #[trigger] s[j]@)
}

/// `s` is strictly increasing by `lex_lt` on the views of its elements.
pub open spec fn strictly_sorted_views(s: Seq<String>) -> bool {
    forall|i: int, j: int| 0 <= i < j < s.len() ==> lex_lt(#[trigger] s[i]@, #[trigger] s[j]@)
}

/// Whether `a` orders strictly before `b`.
pub fn str_lt(a: &str, b: &str) -> (r: bool)
    ensures
        r == lex_lt(a@, b@),
{
    let x = char_vec(a);
    let y = char_vec(b);
    let mut i: usize = 0;
    while i < x.len() && i < y.len()
        invariant
            x@ == a@,
            y@ == b@,
            i <= x.len(),
            i <= y.len(),
            lex_lt(a@, b@) == lex_lt(a@.skip(i as int), b@.skip(i as int)),
        decreases x.len() - i,
    {
        if x[i] != y[i] {
            assert(a@.skip(i as int)[0] == x@[i as int]);
            assert(b@.skip(i as int)[0] == y@[i as int]);
            return x[i] < y[i];
        }
        assert(a@.skip(i as int).drop_first() =~= a@.skip(i + 1));
        assert(b@.skip(i as int).drop_first() =~= b@.skip(i + 1));
        i += 1;
    }
    i == x.len() && i < y.len()
}

proof fn lemma_insert_multiset(s: Seq<String>, i: int, x: String)
    requires
        0 <= i <= s.len(),
    ensures
        s.insert(i, x).to_multiset() =~= s.to_multiset().insert(x),
{
    let l = s.subrange(0, i);
    let r = s.subrange(i, s.len() as int);
    assert(s =~= l + r);
    vstd::seq_lib::lemma_multiset_commutative(l, r);
    vstd::seq_lib::lemma_multiset_commutative(l.push(x), r);
}

proof fn lemma_insert_sorted(s: Seq<String>, p: int, x: String)
    requires
        0 <= p <= s.len(),
        sorted_views(s),
        forall|q: int| 0 <= q < p ==> lex_le(#[trigger] s[q]@, x@),
        p < s.len() ==> lex_lt(x@, s[p]@),
    ensures
        sorted_views(s.insert(p, x)),
{
    let t = s.insert(p, x);
    assert forall|i: int, j: int| 0 <= i < j < t.len() implies lex_le(
        #[trigger] t[i]@,
        #[trigger] t[j]@,
    ) by {
        if i < p && j == p {
        } else if i < p && j > p {
            assert(t[j] == s[j - 1]);
            assert(lex_le(s[i]@, s[j - 1]@));
        } else if i == p && j > p {
            assert(t[j] == s[j - 1]);
            if p != j - 1 {
                assert(lex_le(s[p]@, s[j - 1]@));
                if lex_lt(s[p]@, s[j - 1]@) {
                    lemma_lex_transitive(x@, s[p]@, s[j - 1]@);
                }
            }
        } else if i > p {
            assert(t[i] == s[i - 1]);
            assert(t[j] == s[j - 1]);
        }
    }
}

/// Sorts the strings by code point order.
pub fn sort_strings(v: Vec<String>) -> (out: Vec<String>)
    ensures
        out@.to_multiset() == v@.to_multiset(),
        sorted_views(out@),
{
    let mut out: Vec<String> = Vec::new();
    let mut k: usize = 0;
    while k < v.len()
        invariant
            k <= v.len(),
            out@.to_multiset() == v@.take(k as int).to_multiset(),
            sorted_views(out@),
        decreases v.len() - k,
    {
        let x = v[k].clone();
        let mut p: usize = 0;
        while p < out.len() && !str_lt(x.as_str(), out[p].as_str())
            invariant
                p <= out.len(),
                forall|q: int| 0 <= q < p ==> lex_le(#[trigger] out@[q]@, x@),
            decreases out.len() - p,
        {
            proof {
                lemma_lex_total(x@, out@[p as int]@);
            }
            p += 1;
        }
        proof {
            if p < out.len() {
                lemma_lex_total(x@, out@[p as int]@);
            }
            lemma_insert_sorted(out@, p as int, x);
            lemma_insert_multiset(out@, p as int, x);
            assert(v@.take(k + 1) =~= v@.take(k as int).push(v@[k as int]));
        }
        out.insert(p, x);
        k += 1;
    }
    assert(v@.take(v.len() as int) =~= v@);
    out
}

} // verus!

verus! {

use crate::text::{has_view, str_eq};

/// The strings of `v` in increasing order, each once.
pub fn sort_dedup(v: Vec<String>) -> (out: Vec<String>)
    ensures
        strictly_sorted_views(out@),
        forall|x: Seq<char>| has_view(out@, x) <==> has_view(v@, x),
{
    let ghost orig = v@;
    let sorted = sort_strings(v);
    proof {
        assert forall|x: Seq<char>| has_view(sorted@, x) <==> has_view(orig, x) by {
            if has_view(sorted@, x) {
                let i = choose|i: int| 0 <= i < sorted@.len() && (#[trigger] sorted@[i])@ == x;
                assert(sorted@.contains(sorted@[i]));
                assert(sorted@.to_multiset().count(sorted@[i]) > 0);
                assert(orig.contains(sorted@[i]));
                let j = choose|j: int| 0 <= j < orig.len() && orig[j] == sorted@[i];
                assert(orig[j]@ == x);
            }
            if has_view(orig, x) {
                let i = choose|i: int| 0 <= i < orig.len() && (#[trigger] orig[i])@ == x;
                assert(orig.contains(orig[i]));
                assert(orig.to_multiset().count(orig[i]) > 0);
                assert(sorted@.contains(orig[i]));
                let j = choose|j: int| 0 <= j < sorted@.len() && sorted@[j] == orig[i];
                assert(sorted@[j]@ == x);
            }
        }
    }
    let mut out: Vec<String> = Vec::new();
    let mut i: usize = 0;
    while i < sorted.len()
        invariant
            i <= sorted.len(),
            sorted_views(sorted@),
            strictly_sorted_views(out@),
            i > 0 ==> out@.len() > 0 && out@.last()@ == sorted@[i - 1]@,
            i == 0 ==> out@.len() == 0,
            forall|k: int| 0 <= k < out@.len() ==> exists|m: int| 0 <= m < i && (#[trigger] out@[k])@ == sorted@[m]@,
            forall|m: int| 0 <= m < i ==> has_view(out@, (#[trigger] sorted@[m])@),
        decreases sorted.len() - i,
    {
        let fresh = out.len() == 0 || !str_eq(out[out.len() - 1].as_str(), sorted[i].as_str());
        if fresh {
            let ghost prev = out@;
            proof {
                if i > 0 {
                    assert(lex_le(sorted@[i - 1]@, sorted@[i as int]@));
                    assert(lex_lt(prev.last()@, sorted@[i as int]@));
                    assert forall|k: int| 0 <= k < prev.len() implies lex_lt((#[trigger] prev[k])@, sorted@[i as int]@) by {
                        if k < prev.len() - 1 {
                            assert(lex_lt(prev[k]@, prev[prev.len() - 1]@));
                            lemma_lex_transitive(prev[k]@, prev.last()@, sorted@[i as int]@);
                        }
                    }
                }
            }
            out.push(sorted[i].clone());
            proof {
                assert forall|a: int, b: int| 0 <= a < b < out@.len() implies lex_lt(#[trigger] out@[a]@, #[trigger] out@[b]@) by {
                    if b < prev.len() {
                        assert(out@[a] == prev[a] && out@[b] == prev[b]);
                    } else {
                        assert(out@[a] == prev[a]);
                    }
                }
                assert forall|k: int| 0 <= k < out@.len() implies exists|m: int| 0 <= m < i + 1 && (#[trigger] out@[k])@ == sorted@[m]@ by {
                    if k < prev.len() {
                        assert(out@[k] == prev[k]);
                    } else {
                        assert(out@[k]@ == sorted@[i as int]@);
                    }
                }
                assert forall|m: int| 0 <= m < i + 1 implies has_view(out@, (#[trigger] sorted@[m])@) by {
                    if m < i {
                        let k = choose|k: int| 0 <= k < prev.len() && (#[trigger] prev[k])@ == sorted@[m]@;
                        assert(out@[k] == prev[k]);
                    } else {
                        assert(out@[prev.len() as int]@ == sorted@[m]@);
                    }
                }
            }
        } else {
            proof {
                assert(has_view(out@, sorted@[i as int]@)) by {
                    assert(out@[out@.len() - 1]@ == sorted@[i as int]@);
                }
            }
        }
        i += 1;
    }
    proof {
        assert forall|x: Seq<char>| has_view(out@, x) <==> has_view(sorted@, x) by {
            if has_view(out@, x) {
                let k = choose|k: int| 0 <= k < out@.len() && (#[trigger] out@[k])@ == x;
                let m = choose|m: int| 0 <= m < sorted@.len() && (#[trigger] out@[k])@ == sorted@[m]@;
                assert(sorted@[m]@ == x);
            }
            if has_view(sorted@, x) {
                let m = choose|m: int| 0 <= m < sorted@.len() && (#[trigger] sorted@[m])@ == x;
                assert(has_view(out@, sorted@[m]@));
            }
        }
    }
    out
}

} // verus!
