use vstd::prelude::*;
use vstd::string::StringExecFns;
use crate::error::{invalid, invalid_with, McpError};
use crate::text::{char_vec, contains_char, contains_control, has_control, byte_len, string_from_chars};

verus! {

broadcast use vstd::string::group_string_axioms;

/// Who started the Blender session that the bridge talks to.
#[derive(Clone, Copy, Debug, PartialEq, Eq, Structural)]
pub enum BlenderSessionOwnership {
    External,
    RelayOwned,
}

/// The state of the Blender session.
#[derive(Clone, Copy, Debug, PartialEq, Eq, Structural)]
pub enum BlenderSessionState {
    Closed,
    Starting,
    Ready,
    Incompatible,
}

/// What `status` reports of the Blender session.
#[derive(Clone, Debug)]
pub struct BlenderSessionStatus {
    pub state: BlenderSessionState,
    pub ownership: Option<BlenderSessionOwnership>,
    pub protocol: String,
    pub loopback_port: u16,
    pub project_root: Option<String>,
}

/// The canonical directories of a project's Blender tree, relative to the project.
#[derive(Clone, Debug)]
pub struct BlenderProjectLayout {
    pub root: String,
    pub scenes: String,
    pub assets: String,
    pub references: String,
    pub renders_preview: String,
    pub renders_final: String,
    pub animations: String,
    pub exports: String,
    pub checkpoints: String,
    pub tmp: String,
}

/// The kinds of artifact a Blender project keeps, one directory each.
#[derive(Clone, Copy, Debug, PartialEq, Eq, Structural)]
pub enum BlenderArtifactScope {
    Scene,
    Asset,
    Reference,
    RenderPreview,
    RenderFinal,
    Animation,
    Export,
    Checkpoint,
    Temp,
}

/// The directory of each artifact scope.
pub open spec fn scope_dir(scope: BlenderArtifactScope) -> Seq<char> {
    match scope {
        BlenderArtifactScope::Scene => "blender/scenes"@,
        BlenderArtifactScope::Asset => "blender/assets"@,
        BlenderArtifactScope::Reference => "blender/references"@,
        BlenderArtifactScope::RenderPreview => "blender/renders/preview"@,
        BlenderArtifactScope::RenderFinal => "blender/renders/final"@,
        BlenderArtifactScope::Animation => "blender/animations"@,
        BlenderArtifactScope::Export => "blender/exports"@,
        BlenderArtifactScope::Checkpoint => "blender/checkpoints"@,
        BlenderArtifactScope::Temp => "blender/tmp"@,
    }
}

/// The canonical layout of a project's Blender tree.
pub fn project_layout() -> (l: BlenderProjectLayout)
    ensures
        l.root@ == "blender"@,
        l.scenes@ == scope_dir(BlenderArtifactScope::Scene),
        l.assets@ == scope_dir(BlenderArtifactScope::Asset),
        l.references@ == scope_dir(BlenderArtifactScope::Reference),
        l.renders_preview@ == scope_dir(BlenderArtifactScope::RenderPreview),
        l.renders_final@ == scope_dir(BlenderArtifactScope::RenderFinal),
        l.animations@ == scope_dir(BlenderArtifactScope::Animation),
        l.exports@ == scope_dir(BlenderArtifactScope::Export),
        l.checkpoints@ == scope_dir(BlenderArtifactScope::Checkpoint),
        l.tmp@ == scope_dir(BlenderArtifactScope::Temp),
{
    BlenderProjectLayout {
        root: String::from_str("blender"),
        scenes: String::from_str("blender/scenes"),
        assets: String::from_str("blender/assets"),
        references: String::from_str("blender/references"),
        renders_preview: String::from_str("blender/renders/preview"),
        renders_final: String::from_str("blender/renders/final"),
        animations: String::from_str("blender/animations"),
        exports: String::from_str("blender/exports"),
        checkpoints: String::from_str("blender/checkpoints"),
        tmp: String::from_str("blender/tmp"),
    }
}

/// One bounded project-local file name: 1 to 180 bytes, no control codes, no leading
/// `.`, no `/` or `\`.
pub open spec fn is_leaf_name(s: Seq<char>) -> bool {
    &&& s.len() > 0
    &&& byte_len(s) <= 180
    &&& !has_control(s)
    &&& s[0] != '.'
    &&& !s.contains('/')
    &&& !s.contains('\\')
}

/// Checks that an artifact name is one bounded project-local file name.
pub fn validate_leaf_name(file_name: &str) -> (r: Result<(), McpError>)
    ensures
        r is Ok <==> is_leaf_name(file_name@),
        r matches Err(e) ==> invalid_with(e, "Blender artifact name must be one bounded project-local file name"@),
{
    let v = char_vec(file_name);
    if v.len() == 0 || file_name.len() > 180 || contains_control(file_name) || v[0] == '.'
        || contains_char(file_name, '/') || contains_char(file_name, '\\') {
        proof {
            if file_name@.contains('/') {
                let i = choose|i: int| 0 <= i < file_name@.len() && file_name@[i] == '/';
                assert(crate::text::seq_contains_char(file_name@, '/'));
            }
            if file_name@.contains('\\') {
                let i = choose|i: int| 0 <= i < file_name@.len() && file_name@[i] == '\\';
                assert(crate::text::seq_contains_char(file_name@, '\\'));
            }
        }
        return Err(invalid("Blender artifact name must be one bounded project-local file name"));
    }
    proof {
        if file_name@.contains('/') {
            let i = choose|i: int| 0 <= i < file_name@.len() && file_name@[i] == '/';
            assert(crate::text::seq_contains_char(file_name@, '/'));
        }
        if file_name@.contains('\\') {
            let i = choose|i: int| 0 <= i < file_name@.len() && file_name@[i] == '\\';
            assert(crate::text::seq_contains_char(file_name@, '\\'));
        }
    }
    Ok(())
}

/// The project-relative path of an artifact of the given scope.
pub fn artifact_relative_path(scope: BlenderArtifactScope, file_name: &str) -> (r: Result<String, McpError>)
    ensures
        r is Ok <==> is_leaf_name(file_name@),
        r matches Ok(p) ==> p@ == scope_dir(scope) + "/"@ + file_name@,
        r matches Err(e) ==> invalid_with(e, "Blender artifact name must be one bounded project-local file name"@),
{
    match validate_leaf_name(file_name) {
        Ok(()) => {},
        Err(e) => { return Err(e); },
    }
    let layout = project_layout();
    let mut base = match scope {
        BlenderArtifactScope::Scene => layout.scenes,
        BlenderArtifactScope::Asset => layout.assets,
        BlenderArtifactScope::Reference => layout.references,
        BlenderArtifactScope::RenderPreview => layout.renders_preview,
        BlenderArtifactScope::RenderFinal => layout.renders_final,
        BlenderArtifactScope::Animation => layout.animations,
        BlenderArtifactScope::Export => layout.exports,
        BlenderArtifactScope::Checkpoint => layout.checkpoints,
        BlenderArtifactScope::Temp => layout.tmp,
    };
    base.append("/");
    base.append(file_name);
    Ok(base)
}

} // verus!

verus! {

use crate::paths::{only_normal_components, component_prefix, has_only_normal_components, starts_with_components, str_views};

/// The component lists of the canonical Blender directories.
pub open spec fn blender_roots() -> Seq<Seq<Seq<char>>> {
    seq![
        seq!["blender"@, "scenes"@],
        seq!["blender"@, "assets"@],
        seq!["blender"@, "references"@],
        seq!["blender"@, "renders"@, "preview"@],
        seq!["blender"@, "renders"@, "final"@],
        seq!["blender"@, "animations"@],
        seq!["blender"@, "exports"@],
        seq!["blender"@, "checkpoints"@],
        seq!["blender"@, "tmp"@],
    ]
}

/// A production path of a project's Blender tree: 1 to 4096 bytes, relative, of normal
/// components only, beneath `blender` and inside one of the canonical directories.
pub open spec fn is_blender_project_path(p: Seq<char>) -> bool {
    &&& p.len() > 0
    &&& byte_len(p) <= 4096
    &&& only_normal_components(p)
    &&& component_prefix(p, seq!["blender"@])
    &&& exists|r: int| 0 <= r < blender_roots().len() && component_prefix(p, #[trigger] blender_roots()[r])
}

/// Why `validate_blender_relative_path` refuses `p`, in the order it checks.
pub open spec fn blender_path_refusal(p: Seq<char>) -> Seq<char> {
    if p.len() == 0 || byte_len(p) > 4096 {
        "Blender project path exceeds allowed bounds"@
    } else if !only_normal_components(p) || !component_prefix(p, seq!["blender"@]) {
        "Blender production path must remain beneath the project blender subtree"@
    } else {
        "Blender production path is outside the canonical project layout"@
    }
}

fn under(path: &str, parts: Vec<&str>, Ghost(expect): Ghost<Seq<Seq<char>>>) -> (r: bool)
    requires
        str_views(parts@) == expect,
    ensures
        r == component_prefix(path@, expect),
{
    starts_with_components(path, &parts)
}

/// Checks that a path stays inside the canonical directories of the Blender tree.
pub fn validate_blender_relative_path(path: &str) -> (r: Result<(), McpError>)
    ensures
        r is Ok <==> is_blender_project_path(path@),
        r matches Err(e) ==> invalid_with(e, blender_path_refusal(path@)),
{
    if path.is_empty() || path.len() > 4096 {
        return Err(invalid("Blender project path exceeds allowed bounds"));
    }
    proof {
        reveal_strlit("blender");
    }
    let top = vec!["blender"];
    assert(str_views(top@) =~= seq!["blender"@]);
    if !has_only_normal_components(path) || !starts_with_components(path, &top) {
        return Err(invalid("Blender production path must remain beneath the project blender subtree"));
    }
    let ghost roots = blender_roots();
    let mut inside = false;
    let a = vec!["blender", "scenes"];
    assert(str_views(a@) =~= roots[0]);
    if under(path, a, Ghost(roots[0])) { inside = true; }
    let b = vec!["blender", "assets"];
    assert(str_views(b@) =~= roots[1]);
    if under(path, b, Ghost(roots[1])) { inside = true; }
    let c = vec!["blender", "references"];
    assert(str_views(c@) =~= roots[2]);
    if under(path, c, Ghost(roots[2])) { inside = true; }
    let d = vec!["blender", "renders", "preview"];
    assert(str_views(d@) =~= roots[3]);
    if under(path, d, Ghost(roots[3])) { inside = true; }
    let e = vec!["blender", "renders", "final"];
    assert(str_views(e@) =~= roots[4]);
    if under(path, e, Ghost(roots[4])) { inside = true; }
    let f = vec!["blender", "animations"];
    assert(str_views(f@) =~= roots[5]);
    if under(path, f, Ghost(roots[5])) { inside = true; }
    let g = vec!["blender", "exports"];
    assert(str_views(g@) =~= roots[6]);
    if under(path, g, Ghost(roots[6])) { inside = true; }
    let h = vec!["blender", "checkpoints"];
    assert(str_views(h@) =~= roots[7]);
    if under(path, h, Ghost(roots[7])) { inside = true; }
    let k = vec!["blender", "tmp"];
    assert(str_views(k@) =~= roots[8]);
    if under(path, k, Ghost(roots[8])) { inside = true; }
    proof {
        if inside {
        } else {
            assert forall|r: int| 0 <= r < roots.len() implies !component_prefix(path@, #[trigger] roots[r]) by {}
        }
    }
    if !inside {
        return Err(invalid("Blender production path is outside the canonical project layout"));
    }
    Ok(())
}

} // verus!

verus! {

use crate::paths::{split_slash, normal_components, lemma_split_concat, lemma_split_single, lemma_normal_concat};

/// The pieces of a scope's directory.
pub open spec fn scope_parts(scope: BlenderArtifactScope) -> Seq<Seq<char>> {
    match scope {
        BlenderArtifactScope::Scene => seq!["blender"@, "scenes"@],
        BlenderArtifactScope::Asset => seq!["blender"@, "assets"@],
        BlenderArtifactScope::Reference => seq!["blender"@, "references"@],
        BlenderArtifactScope::RenderPreview => seq!["blender"@, "renders"@, "preview"@],
        BlenderArtifactScope::RenderFinal => seq!["blender"@, "renders"@, "final"@],
        BlenderArtifactScope::Animation => seq!["blender"@, "animations"@],
        BlenderArtifactScope::Export => seq!["blender"@, "exports"@],
        BlenderArtifactScope::Checkpoint => seq!["blender"@, "checkpoints"@],
        BlenderArtifactScope::Temp => seq!["blender"@, "tmp"@],
    }
}

/// The words of the Blender layout hold no `/`, and each has more than two characters.
proof fn lemma_layout_words()
    ensures
        !"blender"@.contains('/') && "blender"@.len() > 2,
        !"scenes"@.contains('/') && "scenes"@.len() > 2,
        !"assets"@.contains('/') && "assets"@.len() > 2,
        !"references"@.contains('/') && "references"@.len() > 2,
        !"renders"@.contains('/') && "renders"@.len() > 2,
        !"preview"@.contains('/') && "preview"@.len() > 2,
        !"final"@.contains('/') && "final"@.len() > 2,
        !"animations"@.contains('/') && "animations"@.len() > 2,
        !"exports"@.contains('/') && "exports"@.len() > 2,
        !"checkpoints"@.contains('/') && "checkpoints"@.len() > 2,
        !"tmp"@.contains('/') && "tmp"@.len() > 2,
{
    reveal_strlit("blender");
    assert(!"blender"@.contains('/')) by {
        if "blender"@.contains('/') {
            let i = choose|i: int| 0 <= i < "blender"@.len() && "blender"@[i] == '/';
            assert(i == 0 || i == 1 || i == 2 || i == 3 || i == 4 || i == 5 || i == 6);
        }
    }
    reveal_strlit("scenes");
    assert(!"scenes"@.contains('/')) by {
        if "scenes"@.contains('/') {
            let i = choose|i: int| 0 <= i < "scenes"@.len() && "scenes"@[i] == '/';
            assert(i == 0 || i == 1 || i == 2 || i == 3 || i == 4 || i == 5);
        }
    }
    reveal_strlit("assets");
    assert(!"assets"@.contains('/')) by {
        if "assets"@.contains('/') {
            let i = choose|i: int| 0 <= i < "assets"@.len() && "assets"@[i] == '/';
            assert(i == 0 || i == 1 || i == 2 || i == 3 || i == 4 || i == 5);
        }
    }
    reveal_strlit("references");
    assert(!"references"@.contains('/')) by {
        if "references"@.contains('/') {
            let i = choose|i: int| 0 <= i < "references"@.len() && "references"@[i] == '/';
            assert(i == 0 || i == 1 || i == 2 || i == 3 || i == 4 || i == 5 || i == 6 || i == 7 || i == 8 || i == 9);
        }
    }
    reveal_strlit("renders");
    assert(!"renders"@.contains('/')) by {
        if "renders"@.contains('/') {
            let i = choose|i: int| 0 <= i < "renders"@.len() && "renders"@[i] == '/';
            assert(i == 0 || i == 1 || i == 2 || i == 3 || i == 4 || i == 5 || i == 6);
        }
    }
    reveal_strlit("preview");
    assert(!"preview"@.contains('/')) by {
        if "preview"@.contains('/') {
            let i = choose|i: int| 0 <= i < "preview"@.len() && "preview"@[i] == '/';
            assert(i == 0 || i == 1 || i == 2 || i == 3 || i == 4 || i == 5 || i == 6);
        }
    }
    reveal_strlit("final");
    assert(!"final"@.contains('/')) by {
        if "final"@.contains('/') {
            let i = choose|i: int| 0 <= i < "final"@.len() && "final"@[i] == '/';
            assert(i == 0 || i == 1 || i == 2 || i == 3 || i == 4);
        }
    }
    reveal_strlit("animations");
    assert(!"animations"@.contains('/')) by {
        if "animations"@.contains('/') {
            let i = choose|i: int| 0 <= i < "animations"@.len() && "animations"@[i] == '/';
            assert(i == 0 || i == 1 || i == 2 || i == 3 || i == 4 || i == 5 || i == 6 || i == 7 || i == 8 || i == 9);
        }
    }
    reveal_strlit("exports");
    assert(!"exports"@.contains('/')) by {
        if "exports"@.contains('/') {
            let i = choose|i: int| 0 <= i < "exports"@.len() && "exports"@[i] == '/';
            assert(i == 0 || i == 1 || i == 2 || i == 3 || i == 4 || i == 5 || i == 6);
        }
    }
    reveal_strlit("checkpoints");
    assert(!"checkpoints"@.contains('/')) by {
        if "checkpoints"@.contains('/') {
            let i = choose|i: int| 0 <= i < "checkpoints"@.len() && "checkpoints"@[i] == '/';
            assert(i == 0 || i == 1 || i == 2 || i == 3 || i == 4 || i == 5 || i == 6 || i == 7 || i == 8 || i == 9 || i == 10);
        }
    }
    reveal_strlit("tmp");
    assert(!"tmp"@.contains('/')) by {
        if "tmp"@.contains('/') {
            let i = choose|i: int| 0 <= i < "tmp"@.len() && "tmp"@[i] == '/';
            assert(i == 0 || i == 1 || i == 2);
        }
    }
}

/// A scope's directory splits into its pieces.
proof fn lemma_scope_split(scope: BlenderArtifactScope)
    ensures
        split_slash(scope_dir(scope)) == scope_parts(scope),
        scope_dir(scope).len() > 0 && scope_dir(scope)[0] == 'b',
        scope_dir(scope).len() <= 23,
{
    lemma_layout_words();
    reveal_strlit("blender");
    reveal_strlit("scenes");
    reveal_strlit("assets");
    reveal_strlit("references");
    reveal_strlit("renders");
    reveal_strlit("preview");
    reveal_strlit("final");
    reveal_strlit("animations");
    reveal_strlit("exports");
    reveal_strlit("checkpoints");
    reveal_strlit("tmp");
    lemma_split_single("blender"@);
    match scope {
        BlenderArtifactScope::Scene => {
            reveal_strlit("blender/scenes");
            lemma_split_single("scenes"@);
            assert("blender/scenes"@ =~= "blender"@ + seq!['/'] + "scenes"@);
            lemma_split_concat("blender"@, "scenes"@);
            assert(split_slash("blender/scenes"@) =~= seq!["blender"@, "scenes"@]);
        },
        BlenderArtifactScope::Asset => {
            reveal_strlit("blender/assets");
            lemma_split_single("assets"@);
            assert("blender/assets"@ =~= "blender"@ + seq!['/'] + "assets"@);
            lemma_split_concat("blender"@, "assets"@);
            assert(split_slash("blender/assets"@) =~= seq!["blender"@, "assets"@]);
        },
        BlenderArtifactScope::Reference => {
            reveal_strlit("blender/references");
            lemma_split_single("references"@);
            assert("blender/references"@ =~= "blender"@ + seq!['/'] + "references"@);
            lemma_split_concat("blender"@, "references"@);
            assert(split_slash("blender/references"@) =~= seq!["blender"@, "references"@]);
        },
        BlenderArtifactScope::RenderPreview => {
            reveal_strlit("blender/renders/preview");
            lemma_split_single("renders"@);
            lemma_split_single("preview"@);
            let mid = "blender"@ + seq!['/'] + "renders"@;
            lemma_split_concat("blender"@, "renders"@);
            assert(split_slash(mid) =~= seq!["blender"@, "renders"@]);
            assert("blender/renders/preview"@ =~= mid + seq!['/'] + "preview"@);
            lemma_split_concat(mid, "preview"@);
            assert(split_slash("blender/renders/preview"@) =~= seq!["blender"@, "renders"@, "preview"@]);
        },
        BlenderArtifactScope::RenderFinal => {
            reveal_strlit("blender/renders/final");
            lemma_split_single("renders"@);
            lemma_split_single("final"@);
            let mid = "blender"@ + seq!['/'] + "renders"@;
            lemma_split_concat("blender"@, "renders"@);
            assert(split_slash(mid) =~= seq!["blender"@, "renders"@]);
            assert("blender/renders/final"@ =~= mid + seq!['/'] + "final"@);
            lemma_split_concat(mid, "final"@);
            assert(split_slash("blender/renders/final"@) =~= seq!["blender"@, "renders"@, "final"@]);
        },
        BlenderArtifactScope::Animation => {
            reveal_strlit("blender/animations");
            lemma_split_single("animations"@);
            assert("blender/animations"@ =~= "blender"@ + seq!['/'] + "animations"@);
            lemma_split_concat("blender"@, "animations"@);
            assert(split_slash("blender/animations"@) =~= seq!["blender"@, "animations"@]);
        },
        BlenderArtifactScope::Export => {
            reveal_strlit("blender/exports");
            lemma_split_single("exports"@);
            assert("blender/exports"@ =~= "blender"@ + seq!['/'] + "exports"@);
            lemma_split_concat("blender"@, "exports"@);
            assert(split_slash("blender/exports"@) =~= seq!["blender"@, "exports"@]);
        },
        BlenderArtifactScope::Checkpoint => {
            reveal_strlit("blender/checkpoints");
            lemma_split_single("checkpoints"@);
            assert("blender/checkpoints"@ =~= "blender"@ + seq!['/'] + "checkpoints"@);
            lemma_split_concat("blender"@, "checkpoints"@);
            assert(split_slash("blender/checkpoints"@) =~= seq!["blender"@, "checkpoints"@]);
        },
        BlenderArtifactScope::Temp => {
            reveal_strlit("blender/tmp");
            lemma_split_single("tmp"@);
            assert("blender/tmp"@ =~= "blender"@ + seq!['/'] + "tmp"@);
            lemma_split_concat("blender"@, "tmp"@);
            assert(split_slash("blender/tmp"@) =~= seq!["blender"@, "tmp"@]);
        },
    }
}

proof fn lemma_encode_concat_len(a: Seq<char>, b: Seq<char>)
    ensures
        vstd::utf8::encode_utf8(a + b).len() == vstd::utf8::encode_utf8(a).len() + vstd::utf8::encode_utf8(b).len(),
    decreases a.len(),
{
    if a.len() > 0 {
        assert((a + b).drop_first() =~= a.drop_first() + b);
        assert((a + b)[0] == a[0]);
        lemma_encode_concat_len(a.drop_first(), b);
    } else {
        assert(a + b =~= b);
    }
}

proof fn lemma_encode_len_bound(a: Seq<char>)
    ensures
        vstd::utf8::encode_utf8(a).len() <= 4 * a.len(),
    decreases a.len(),
{
    if a.len() > 0 {
        lemma_encode_len_bound(a.drop_first());
    }
}

/// Every path that `artifact_relative_path` builds from a valid artifact name passes
/// `validate_blender_relative_path`: it lies inside a canonical directory of the
/// project's Blender tree. (The name's byte length is that of a text in memory.)
pub proof fn law_artifact_paths_stay_in_layout(scope: BlenderArtifactScope, file_name: Seq<char>)
    requires
        is_leaf_name(file_name),
        vstd::utf8::encode_utf8(file_name).len() <= usize::MAX,
    ensures
        is_blender_project_path(scope_dir(scope) + "/"@ + file_name),
{
    lemma_layout_words();
    lemma_scope_split(scope);
    reveal_strlit("/");
    reveal_strlit("blender");
    reveal_strlit(".");
    reveal_strlit("..");
    let dir = scope_dir(scope);
    let p = dir + "/"@ + file_name;
    assert(p =~= dir + seq!['/'] + file_name);
    lemma_split_concat(dir, file_name);
    lemma_split_single(file_name);
    let parts = scope_parts(scope);
    assert(split_slash(p) == parts + seq![file_name]);
    lemma_normal_concat(parts, seq![file_name]);
    assert(normal_components(parts) == parts) by {
        assert forall|k: int| 0 <= k <= parts.len() implies normal_components(parts.take(k)) == parts.take(k) by {
            lemma_normal_prefix(parts, k);
        }
        assert(parts.take(parts.len() as int) =~= parts);
    }
    assert(file_name != "."@) by {
        if file_name == "."@ {
            assert(file_name[0] == '.');
        }
    }
    assert(file_name != ".."@) by {
        if file_name == ".."@ {
            assert(file_name[0] == '.');
        }
    }
    assert(normal_components(seq![file_name]) =~= seq![file_name]) by {
        assert(seq![file_name].drop_last() =~= Seq::<Seq<char>>::empty());
        assert(normal_components(Seq::<Seq<char>>::empty()) =~= Seq::<Seq<char>>::empty());
    }
    let c = normal_components(split_slash(p));
    assert(c == parts + seq![file_name]);
    assert(c.subrange(0, 1) =~= seq!["blender"@]);
    assert(p[0] == 'b');
    let r: int = match scope {
        BlenderArtifactScope::Scene => 0,
        BlenderArtifactScope::Asset => 1,
        BlenderArtifactScope::Reference => 2,
        BlenderArtifactScope::RenderPreview => 3,
        BlenderArtifactScope::RenderFinal => 4,
        BlenderArtifactScope::Animation => 5,
        BlenderArtifactScope::Export => 6,
        BlenderArtifactScope::Checkpoint => 7,
        BlenderArtifactScope::Temp => 8,
    };
    assert(blender_roots()[r] == parts);
    assert(c.subrange(0, parts.len() as int) =~= parts);
    assert(component_prefix(p, blender_roots()[r]));
    assert forall|i: int| 0 <= i < split_slash(p).len() implies (#[trigger] split_slash(p)[i]) != ".."@ by {
        if i < parts.len() {
            assert(split_slash(p)[i] == parts[i]);
            assert(parts[i].len() > 2);
        } else {
            assert(split_slash(p)[i] == file_name);
        }
    }
    lemma_encode_concat_len(dir + "/"@, file_name);
    lemma_encode_concat_len(dir, "/"@);
    lemma_encode_len_bound(dir);
    lemma_encode_len_bound("/"@);
    assert(p.len() > 0);
    assert(byte_len(p) <= 4096);
    assert(split_slash(p)[0] == "blender"@);
    assert(only_normal_components(p));
    assert(component_prefix(p, seq!["blender"@]));
    assert(0 <= r < blender_roots().len() && component_prefix(p, blender_roots()[r]));
}

/// A list of pieces that are neither empty nor `.` is its own list of normal components.
proof fn lemma_normal_prefix(parts: Seq<Seq<char>>, k: int)
    requires
        0 <= k <= parts.len(),
        forall|i: int| 0 <= i < parts.len() ==> (#[trigger] parts[i]).len() > 2,
    ensures
        normal_components(parts.take(k)) == parts.take(k),
    decreases k,
{
    reveal_strlit(".");
    if k > 0 {
        lemma_normal_prefix(parts, k - 1);
        assert(parts.take(k).drop_last() =~= parts.take(k - 1));
        assert(parts.take(k).last().len() > 2);
        assert(parts.take(k - 1) + seq![parts.take(k).last()] =~= parts.take(k));
    } else {
        assert(parts.take(0) =~= Seq::<Seq<char>>::empty());
    }
}

} // verus!
