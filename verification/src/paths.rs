use vstd::prelude::*;
use crate::error::{invalid, McpError};
use crate::text::{char_vec, string_from_chars, str_eq, byte_len, has_control, validate_text};
use crate::text::has_view;

verus! {

broadcast use vstd::string::group_string_axioms, vstd::seq_lib::group_seq_properties;

/// The pieces of `s` between `/` separators, empty pieces included.
pub open spec fn split_slash(s: Seq<char>) -> Seq<Seq<char>>
    decreases s.len(),
{
    if s.len() == 0 {
        seq![seq![]]
    } else {
        let rest = split_slash(s.drop_last());
        if s.last() == '/' {
            rest.push(seq![])
        } else {
            rest.update(rest.len() - 1, rest.last().push(s.last()))
        }
    }
}

proof fn lemma_split_nonempty(s: Seq<char>)
    ensures
        split_slash(s).len() >= 1,
    decreases s.len(),
{
    if s.len() > 0 {
        lemma_split_nonempty(s.drop_last());
    }
}

/// A path made only of normal components, as `std::path` reads a Unix path: not
/// absolute, not starting with a `.` component, and with no `..` component.
pub open spec fn only_normal_components(s: Seq<char>) -> bool {
    let parts = split_slash(s);
    &&& !(s.len() > 0 && s[0] == '/')
    &&& parts[0] != "."@
    &&& forall|i: int| 0 <= i < parts.len() ==> (#[trigger] parts[i]) != ".."@
}

/// The normal components of a path: its pieces without empty and `.` pieces.
pub open spec fn normal_components(parts: Seq<Seq<char>>) -> Seq<Seq<char>>
    decreases parts.len(),
{
    if parts.len() == 0 {
        seq![]
    } else {
        normal_components(parts.drop_last()) + if parts.last().len() == 0 || parts.last() == "."@ { seq![] } else { seq![parts.last()] }
    }
}

/// The components of `path` begin with those of `base`.
pub open spec fn component_prefix(path: Seq<char>, base: Seq<Seq<char>>) -> bool {
    let c = normal_components(split_slash(path));
    c.len() >= base.len() && c.subrange(0, base.len() as int) == base
}

/// The pieces of `s` between `/` separators.
pub fn split_pieces(s: &str) -> (parts: Vec<String>)
    ensures
        parts@.len() == split_slash(s@).len(),
        forall|i: int| 0 <= i < parts@.len() ==> (#[trigger] parts@[i])@ == split_slash(s@)[i],
{
    let v = char_vec(s);
    let mut parts: Vec<String> = Vec::new();
    let mut cur: Vec<char> = Vec::new();
    let mut i: usize = 0;
    while i < v.len()
        invariant
            v@ == s@,
            i <= v.len(),
            parts@.len() + 1 == split_slash(s@.take(i as int)).len(),
            forall|k: int| 0 <= k < parts@.len() ==> (#[trigger] parts@[k])@ == split_slash(s@.take(i as int))[k],
            cur@ == split_slash(s@.take(i as int)).last(),
        decreases v.len() - i,
    {
        proof {
            let t = s@.take(i + 1);
            assert(t.drop_last() =~= s@.take(i as int));
            assert(t.last() == v@[i as int]);
            lemma_split_nonempty(s@.take(i as int));
        }
        if v[i] == '/' {
            parts.push(string_from_chars(&cur));
            cur = Vec::new();
            proof {
                let prev = split_slash(s@.take(i as int));
                assert forall|k: int| 0 <= k < parts@.len() implies (#[trigger] parts@[k])@ == split_slash(s@.take(i + 1))[k] by {
                    if k < parts@.len() - 1 {
                    } else {
                        assert(prev[prev.len() - 1] == prev.last());
                    }
                }
            }
        } else {
            cur.push(v[i]);
        }
        i += 1;
    }
    proof {
        assert(s@.take(v.len() as int) =~= s@);
        lemma_split_nonempty(s@);
    }
    let ghost before = parts@;
    parts.push(string_from_chars(&cur));
    proof {
        let sp = split_slash(s@);
        assert forall|k: int| 0 <= k < parts@.len() implies (#[trigger] parts@[k])@ == sp[k] by {
            if k == parts@.len() - 1 {
                assert(sp[sp.len() - 1] == sp.last());
            } else {
                assert(parts@[k] == before[k]);
            }
        }
    }
    parts
}

/// Whether a path is made only of normal components.
pub fn has_only_normal_components(s: &str) -> (r: bool)
    ensures
        r == only_normal_components(s@),
{
    let v = char_vec(s);
    if v.len() > 0 && v[0] == '/' {
        return false;
    }
    let parts = split_pieces(s);
    proof {
        lemma_split_nonempty(s@);
    }
    if str_eq(parts[0].as_str(), ".") {
        return false;
    }
    let mut i: usize = 0;
    while i < parts.len()
        invariant
            i <= parts.len(),
            parts@.len() == split_slash(s@).len(),
            forall|k: int| 0 <= k < parts@.len() ==> (#[trigger] parts@[k])@ == split_slash(s@)[k],
            forall|k: int| 0 <= k < i ==> (#[trigger] split_slash(s@)[k]) != ".."@,
        decreases parts.len() - i,
    {
        if str_eq(parts[i].as_str(), "..") {
            return false;
        }
        i += 1;
    }
    true
}

/// The normal components of a path, in order.
pub fn normal_component_list(s: &str) -> (c: Vec<String>)
    ensures
        c@.len() == normal_components(split_slash(s@)).len(),
        forall|i: int| 0 <= i < c@.len() ==> (#[trigger] c@[i])@ == normal_components(split_slash(s@))[i],
{
    let parts = split_pieces(s);
    let ghost sp = split_slash(s@);
    let mut out: Vec<String> = Vec::new();
    let mut i: usize = 0;
    while i < parts.len()
        invariant
            i <= parts.len(),
            parts@.len() == sp.len(),
            forall|k: int| 0 <= k < parts@.len() ==> (#[trigger] parts@[k])@ == sp[k],
            out@.len() == normal_components(sp.take(i as int)).len(),
            forall|k: int| 0 <= k < out@.len() ==> (#[trigger] out@[k])@ == normal_components(sp.take(i as int))[k],
        decreases parts.len() - i,
    {
        proof {
            let t = sp.take(i + 1);
            assert(t.drop_last() =~= sp.take(i as int));
            assert(t.last() == sp[i as int]);
        }
        let piece = &parts[i];
        if !(piece.as_str().is_empty() || str_eq(piece.as_str(), ".")) {
            let ghost before = out@;
            out.push(piece.clone());
            proof {
                assert forall|k: int| 0 <= k < out@.len() implies (#[trigger] out@[k])@ == normal_components(sp.take(i + 1))[k] by {
                    if k < before.len() {
                        assert(out@[k] == before[k]);
                    }
                }
            }
        }
        i += 1;
    }
    proof {
        assert(sp.take(parts.len() as int) =~= sp);
    }
    out
}

/// The views of a sequence of string slices.
pub open spec fn str_views(v: Seq<&str>) -> Seq<Seq<char>> {
    v.map_values(|b: &str| b@)
}

/// Whether the components of `path` begin with the components in `base`.
pub fn starts_with_components(path: &str, base: &Vec<&str>) -> (r: bool)
    ensures
        r == component_prefix(path@, str_views(base@)),
{
    let c = normal_component_list(path);
    let ghost bv = str_views(base@);
    let ghost nc = normal_components(split_slash(path@));
    assert(bv.len() == base@.len());
    if c.len() < base.len() {
        return false;
    }
    let mut i: usize = 0;
    while i < base.len()
        invariant
            i <= base.len(),
            base.len() <= c.len(),
            c@.len() == nc.len(),
            forall|k: int| 0 <= k < c@.len() ==> (#[trigger] c@[k])@ == nc[k],
            bv == str_views(base@),
            nc == normal_components(split_slash(path@)),
            forall|k: int| 0 <= k < i ==> nc[k] == bv[k],
        decreases base.len() - i,
    {
        if !str_eq(c[i].as_str(), base[i]) {
            proof {
                assert(c@[i as int]@ != base@[i as int]@);
                assert(bv[i as int] == base@[i as int]@);
                assert(nc.subrange(0, bv.len() as int)[i as int] != bv[i as int]);
                assert(nc.subrange(0, bv.len() as int) != bv);
            }
            return false;
        }
        i += 1;
    }
    proof {
        assert(nc.subrange(0, bv.len() as int) =~= bv);
    }
    true
}

} // verus!

verus! {

/// Splitting at a `/` between two texts splits each of them.
pub proof fn lemma_split_concat(a: Seq<char>, b: Seq<char>)
    ensures
        split_slash(a + seq!['/'] + b) == split_slash(a) + split_slash(b),
    decreases b.len(),
{
    let s = a + seq!['/'] + b;
    if b.len() == 0 {
        assert(s.drop_last() =~= a);
        assert(split_slash(b) =~= seq![seq![]]);
        assert(split_slash(s) =~= split_slash(a) + split_slash(b));
    } else {
        assert(s.drop_last() =~= a + seq!['/'] + b.drop_last());
        lemma_split_concat(a, b.drop_last());
        lemma_split_nonempty(b.drop_last());
        lemma_split_nonempty(a);
        let ra = split_slash(a);
        let rb = split_slash(b.drop_last());
        assert(s.last() == b.last());
        if b.last() == '/' {
            assert(split_slash(s) =~= split_slash(a) + split_slash(b));
        } else {
            assert((ra + rb).update((ra + rb).len() - 1, (ra + rb).last().push(b.last()))
                =~= ra + rb.update(rb.len() - 1, rb.last().push(b.last())));
            assert(split_slash(s) =~= split_slash(a) + split_slash(b));
        }
    }
}

/// A text without `/` is a single piece.
pub proof fn lemma_split_single(b: Seq<char>)
    requires
        !b.contains('/'),
    ensures
        split_slash(b) == seq![b],
    decreases b.len(),
{
    if b.len() > 0 {
        assert(!b.drop_last().contains('/')) by {
            if b.drop_last().contains('/') {
                let i = choose|i: int| 0 <= i < b.drop_last().len() && b.drop_last()[i] == '/';
                assert(b[i] == '/');
            }
        }
        lemma_split_single(b.drop_last());
        assert(b.last() != '/') by {
            assert(b[b.len() - 1] == b.last());
        }
        assert(b.drop_last().push(b.last()) =~= b);
        assert(seq![b.drop_last()].update(0, b.drop_last().push(b.last())) =~= seq![b]);
    } else {
        assert(b =~= Seq::<char>::empty());
    }
}

/// The normal components of joined piece lists are those of each list.
pub proof fn lemma_normal_concat(x: Seq<Seq<char>>, y: Seq<Seq<char>>)
    ensures
        normal_components(x + y) == normal_components(x) + normal_components(y),
    decreases y.len(),
{
    if y.len() == 0 {
        assert(x + y =~= x);
        assert(normal_components(x) + normal_components(y) =~= normal_components(x));
    } else {
        assert((x + y).drop_last() =~= x + y.drop_last());
        lemma_normal_concat(x, y.drop_last());
        assert(normal_components(x + y) =~= normal_components(x) + normal_components(y));
    }
}

} // verus!
