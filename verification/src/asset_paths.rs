use vstd::prelude::*;
use crate::error::{invalid, invalid_with, McpError};
use crate::paths::{normal_component_list, normal_components, split_slash};
use crate::text::str_eq;

verus! {

/// The normal components of a path.
pub open spec fn components(p: Seq<char>) -> Seq<Seq<char>> {
    normal_components(split_slash(p))
}

/// The components of `p` begin with all the components of `base`.
pub open spec fn path_under(p: Seq<char>, base: Seq<char>) -> bool {
    &&& components(base).len() <= components(p).len()
    &&& components(p).take(components(base).len() as int) == components(base)
}

/// Components joined by `/`.
pub open spec fn slash_joined(cs: Seq<Seq<char>>) -> Seq<char>
    decreases cs.len(),
{
    if cs.len() == 0 {
        seq![]
    } else if cs.len() == 1 {
        cs[0]
    } else {
        slash_joined(cs.drop_last()) + "/"@ + cs.last()
    }
}

/// Some authorized root holds `p`.
pub open spec fn in_some_root(p: Seq<char>, roots: Seq<String>) -> bool {
    exists|i: int| 0 <= i < roots.len() && path_under(p, (#[trigger] roots[i])@)
}

/// Why a resolved asset path is refused, in the order the checks run: outside the
/// project's directory, outside every authorized root, or naming the directory itself.
pub open spec fn resolved_refusal(cwd: Seq<char>, target: Seq<char>, roots: Seq<String>) -> Option<Seq<char>> {
    if !path_under(target, cwd) {
        Some("creative asset must remain beneath the selected project cwd"@)
    } else if !in_some_root(target, roots) {
        Some("creative asset is outside authorized workspace roots"@)
    } else if components(target).len() == components(cwd).len() {
        Some("creative asset path is invalid"@)
    } else {
        None
    }
}

fn starts_with_list(c: &Vec<String>, base: &Vec<String>) -> (r: bool)
    ensures
        r == (base@.len() <= c@.len() && forall|i: int| 0 <= i < base@.len() ==> (#[trigger] c@[i])@ == base@[i]@),
{
    if base.len() > c.len() {
        return false;
    }
    let mut i: usize = 0;
    while i < base.len()
        invariant
            i <= base.len() <= c.len(),
            forall|k: int| 0 <= k < i ==> (#[trigger] c@[k])@ == base@[k]@,
        decreases base.len() - i,
    {
        if !str_eq(c[i].as_str(), base[i].as_str()) {
            return false;
        }
        i += 1;
    }
    true
}

proof fn lemma_under(c: Seq<String>, b: Seq<String>, p: Seq<char>, base: Seq<char>)
    requires
        c.len() == components(p).len(),
        forall|i: int| 0 <= i < c.len() ==> (#[trigger] c[i])@ == components(p)[i],
        b.len() == components(base).len(),
        forall|i: int| 0 <= i < b.len() ==> (#[trigger] b[i])@ == components(base)[i],
    ensures
        path_under(p, base) == (b.len() <= c.len() && forall|i: int| 0 <= i < b.len() ==> (#[trigger] c[i])@ == b[i]@),
{
    if b.len() <= c.len() && forall|i: int| 0 <= i < b.len() ==> (#[trigger] c[i])@ == b[i]@ {
        assert forall|i: int| 0 <= i < components(base).len() implies
            components(p).take(components(base).len() as int)[i] == components(base)[i] by {
            assert(c[i]@ == b[i]@);
        }
        assert(components(p).take(components(base).len() as int) =~= components(base));
    }
    if path_under(p, base) {
        assert forall|i: int| 0 <= i < b.len() implies (#[trigger] c[i])@ == b[i]@ by {
            assert(components(p).take(components(base).len() as int)[i] == components(base)[i]);
        }
    }
}

/// Checks where a registered asset's file resolved, given the canonical paths of the
/// project's directory, of the file and of the authorized roots: the file must lie
/// beneath the directory and inside a root, and be more than the directory itself.
/// Returns the file's path relative to the directory.
pub fn check_resolved_asset_path(cwd: &str, target: &str, roots: &Vec<String>) -> (r: Result<String, McpError>)
    ensures
        match r {
            Ok(rel) => resolved_refusal(cwd@, target@, roots@) is None
                && rel@ == slash_joined(components(target@).skip(components(cwd@).len() as int)),
            Err(e) => resolved_refusal(cwd@, target@, roots@) matches Some(m) && invalid_with(e, m),
        },
{
    let t = normal_component_list(target);
    let c = normal_component_list(cwd);
    proof {
        lemma_under(t@, c@, target@, cwd@);
    }
    if !starts_with_list(&t, &c) {
        return Err(invalid("creative asset must remain beneath the selected project cwd"));
    }
    let mut found = false;
    let mut i: usize = 0;
    while i < roots.len()
        invariant
            i <= roots.len(),
            t@.len() == components(target@).len(),
            forall|k: int| 0 <= k < t@.len() ==> (#[trigger] t@[k])@ == components(target@)[k],
            found <==> exists|k: int| 0 <= k < i && path_under(target@, (#[trigger] roots@[k])@),
        decreases roots.len() - i,
    {
        let b = normal_component_list(roots[i].as_str());
        proof {
            lemma_under(t@, b@, target@, roots@[i as int]@);
        }
        if starts_with_list(&t, &b) {
            found = true;
        }
        i += 1;
    }
    if !found {
        return Err(invalid("creative asset is outside authorized workspace roots"));
    }
    if t.len() == c.len() {
        return Err(invalid("creative asset path is invalid"));
    }
    let ghost rest = components(target@).skip(components(cwd@).len() as int);
    let mut rel = String::new();
    let mut k: usize = c.len();
    while k < t.len()
        invariant
            c.len() <= k <= t.len(),
            c@.len() == components(cwd@).len(),
            t@.len() == components(target@).len(),
            forall|q: int| 0 <= q < t@.len() ==> (#[trigger] t@[q])@ == components(target@)[q],
            rest == components(target@).skip(components(cwd@).len() as int),
            rel@ == slash_joined(rest.take(k - c.len())),
        decreases t.len() - k,
    {
        let ghost j: int = k - c.len();
        proof {
            assert(rest.take(j + 1).drop_last() =~= rest.take(j));
            assert(rest.take(j + 1).last() == t@[k as int]@);
        }
        if k > c.len() {
            rel.append("/");
        }
        rel.append(t[k].as_str());
        proof {
            if j == 0 {
                assert(rel@ =~= rest.take(1)[0]);
            }
        }
        k += 1;
    }
    proof {
        assert(rest.take(t.len() - c.len()) =~= rest);
    }
    Ok(rel)
}

} // verus!
