use vstd::prelude::*;
use crate::error::{invalid, McpError, invalid_with};
use crate::outside::push_char;
use crate::text::{
    char_vec, string_from_chars, str_eq, ends_with, seq_ends_with, byte_len, has_control,
    contains_control, ascii_lower, ascii_lower_seq, is_ascii_alnum, is_ascii_alnum_char,
    is_ascii_digit_char,
};

verus! {

broadcast use vstd::seq_lib::group_seq_properties;

// ---------------------------------------------------------------------------
// Decimal text

/// The character of the decimal digit `d`.
pub open spec fn digit_char(d: nat) -> char {
    ((d % 10 + 48) as u8) as char
}

/// The decimal digits of `n`, without leading zeros.
pub open spec fn decimal(n: nat) -> Seq<char>
    decreases n,
{
    if n < 10 { seq![digit_char(n)] } else { decimal(n / 10).push(digit_char(n % 10)) }
}

pub open spec fn abs_int(n: int) -> nat {
    if n < 0 { (-n) as nat } else { n as nat }
}

/// An integer as `{}` formats it.
pub open spec fn int_text(n: int) -> Seq<char> {
    if n < 0 { seq!['-'] + decimal(abs_int(n)) } else { decimal(abs_int(n)) }
}

/// `k` zeros.
pub open spec fn zeros(k: int) -> Seq<char>
    decreases k,
{
    if k <= 0 { seq![] } else { zeros(k - 1).push('0') }
}

/// An integer as `{:06}` formats it: sign first, then zeros up to six characters.
pub open spec fn padded6(n: int) -> Seq<char> {
    let sign: Seq<char> = if n < 0 { seq!['-'] } else { seq![] };
    let d = decimal(abs_int(n));
    sign + zeros(6 - sign.len() - d.len()) + d
}

fn push_decimal(out: &mut String, n: u64)
    ensures
        final(out)@ == old(out)@ + decimal(n as nat),
    decreases n,
{
    if n >= 10 {
        push_decimal(out, n / 10);
    }
    let d: u8 = (n % 10) as u8;
    let c: char = (d + 48u8) as char;
    proof {
        assert(digit_char(n as nat) == c);
        assert(digit_char((n % 10) as nat) == c);
    }
    push_char(out, c);
    proof {
        if n >= 10 {
            assert(decimal(n as nat) == decimal((n / 10) as nat).push(digit_char((n % 10) as nat)));
        }
    }
}

fn magnitude(n: i64) -> (m: u64)
    ensures
        m as int == abs_int(n as int),
{
    if n < 0 {
        (0i128 - (n as i128)) as u64
    } else {
        n as u64
    }
}

/// An unsigned integer as decimal text.
pub fn uint_to_text(n: u64) -> (s: String)
    ensures
        s@ == decimal(n as nat),
{
    let mut s = String::new();
    push_decimal(&mut s, n);
    s
}

/// An integer as decimal text.
pub fn int_to_text(n: i64) -> (s: String)
    ensures
        s@ == int_text(n as int),
{
    let mut s = String::new();
    if n < 0 {
        push_char(&mut s, '-');
    }
    push_decimal(&mut s, magnitude(n));
    s
}

/// `zeros(k)` has `k` characters (none where `k <= 0`), each of them `0`.
pub proof fn lemma_zeros_len(k: int)
    ensures
        zeros(k).len() == if k <= 0 { 0 } else { k },
        forall|i: int| 0 <= i < zeros(k).len() ==> #[trigger] zeros(k)[i] == '0',
    decreases k,
{
    if k > 0 {
        lemma_zeros_len(k - 1);
    }
}

/// An integer as `{:06}` formats it.
pub fn int_to_padded6(n: i64) -> (s: String)
    ensures
        s@ == padded6(n as int),
{
    let mut digits = String::new();
    push_decimal(&mut digits, magnitude(n));
    let mut s = String::new();
    let sign_len: usize = if n < 0 { 1 } else { 0 };
    if n < 0 {
        push_char(&mut s, '-');
    }
    let dlen = char_vec(digits.as_str()).len();
    let ghost sign: Seq<char> = if n < 0 { seq!['-'] } else { seq![] };
    let mut k: usize = 0;
    let target: usize = if dlen >= 6 || sign_len + dlen >= 6 { 0 } else { 6 - sign_len - dlen };
    while k < target
        invariant
            k <= target,
            target as int == (if 6 - sign.len() - decimal(abs_int(n as int)).len() <= 0 { 0 } else { 6 - sign.len() - decimal(abs_int(n as int)).len() }),
            s@ == sign + zeros(k as int),
        decreases target - k,
    {
        push_char(&mut s, '0');
        k += 1;
    }
    proof {
        lemma_zeros_len(6 - sign.len() - decimal(abs_int(n as int)).len());
        lemma_zeros_len(target as int);
        assert(zeros(target as int) =~= zeros(6 - sign.len() - decimal(abs_int(n as int)).len()));
    }
    s.append(digits.as_str());
    s
}

// ---------------------------------------------------------------------------
// Frames

/// The frames from `f` on, `step` apart, up to `end`, at most `n` of them.
pub open spec fn frames_from(f: int, end: int, step: int, n: nat) -> Seq<int>
    decreases n,
{
    if n == 0 || f > end { seq![] } else { seq![f] + frames_from(f + step, end, step, (n - 1) as nat) }
}

pub open spec fn frame_values(v: Seq<i32>) -> Seq<int> {
    v.map_values(|f: i32| f as int)
}

/// The frames an animation preview samples: from `start` on, `step` apart, up to `end`,
/// at most `max_frames` of them.
pub fn sampled_frames(start: i32, end: i32, step: u32, max_frames: usize) -> (frames: Vec<i32>)
    ensures
        frame_values(frames@) == frames_from(start as int, end as int, step as int, max_frames as nat),
{
    let mut frames: Vec<i32> = Vec::new();
    let mut frame: i64 = start as i64;
    let end_wide: i64 = end as i64;
    let step_wide: i64 = step as i64;
    while frame <= end_wide && frames.len() < max_frames
        invariant
            frames@.len() <= max_frames,
            end_wide == end as int,
            step_wide == step as int,
            start <= frame,
            frame <= end as int + step as int || frame == start,
            frame_values(frames@) + frames_from(frame as int, end as int, step as int, (max_frames - frames@.len()) as nat)
                == frames_from(start as int, end as int, step as int, max_frames as nat),
        decreases max_frames - frames@.len(),
    {
        let ghost before = frame_values(frames@);
        let ghost rest = (max_frames - frames@.len()) as nat;
        frames.push(frame as i32);
        proof {
            assert(frame_values(frames@) =~= before.push(frame as int));
            assert(frames_from(frame as int, end as int, step as int, rest)
                == seq![frame as int] + frames_from(frame + step, end as int, step as int, (rest - 1) as nat));
            assert(before.push(frame as int) + frames_from(frame + step, end as int, step as int, (rest - 1) as nat)
                =~= before + (seq![frame as int] + frames_from(frame + step, end as int, step as int, (rest - 1) as nat)));
        }
        frame = frame + step_wide;
    }
    proof {
        let rest = (max_frames - frames@.len()) as nat;
        assert(frames_from(frame as int, end as int, step as int, rest) =~= seq![]);
        assert(frame_values(frames@) + seq![] =~= frame_values(frames@));
    }
    frames
}

/// The last frame a preview of these settings would sample, if any.
pub fn last_requested_frame(start: i32, end: i32, step: u32, max_frames: usize) -> (r: Option<i32>)
    ensures
        match r {
            Some(f) => frames_from(start as int, end as int, step as int, max_frames as nat).len() > 0
                && f as int == frames_from(start as int, end as int, step as int, max_frames as nat).last(),
            None => frames_from(start as int, end as int, step as int, max_frames as nat).len() == 0,
        },
{
    let frames = sampled_frames(start, end, step, max_frames);
    if frames.len() == 0 {
        None
    } else {
        let f = frames[frames.len() - 1];
        proof {
            assert(frame_values(frames@)[frames@.len() - 1] == f as int);
        }
        Some(f)
    }
}

/// Checks that preview dimensions are each 64 to 4096 pixels.
pub fn validate_dimensions(width: u32, height: u32) -> (r: Result<(), McpError>)
    ensures
        r is Ok <==> (64 <= width <= 4096 && 64 <= height <= 4096),
        r matches Err(e) ==> invalid_with(e, "Blender preview dimensions are outside allowed bounds"@),
{
    if !(64 <= width && width <= 4096) || !(64 <= height && height <= 4096) {
        return Err(invalid("Blender preview dimensions are outside allowed bounds"));
    }
    Ok(())
}

} // verus!

verus! {

use crate::paths::{normal_components, split_slash, normal_component_list};

// ---------------------------------------------------------------------------
// File names

/// `s` with ASCII letters lowered.
pub fn to_ascii_lower(s: &str) -> (r: String)
    ensures
        r@ == ascii_lower_seq(s@),
{
    let v = char_vec(s);
    let mut out: Vec<char> = Vec::new();
    let mut i: usize = 0;
    while i < v.len()
        invariant
            i <= v.len(),
            v@ == s@,
            out@ == ascii_lower_seq(v@.take(i as int)),
        decreases v.len() - i,
    {
        out.push(ascii_lower(v[i]));
        proof {
            assert(ascii_lower_seq(v@.take(i + 1)) =~= ascii_lower_seq(v@.take(i as int)).push(crate::text::ascii_lower_char(v@[i as int])));
        }
        i += 1;
    }
    proof {
        assert(v@.take(v.len() as int) =~= v@);
    }
    string_from_chars(&out)
}

/// A file name whose extension, in any letter case, is `.png`.
pub open spec fn is_png_name(name: Seq<char>) -> bool {
    seq_ends_with(ascii_lower_seq(name), ".png"@)
}

/// Checks that a render file name ends in `.png`, in any letter case.
pub fn require_png_name(file_name: &str) -> (r: Result<(), McpError>)
    ensures
        r is Ok <==> is_png_name(file_name@),
        r matches Err(e) ==> invalid_with(e, "Blender render file_name must use a .png extension"@),
{
    let lower = to_ascii_lower(file_name);
    if !ends_with(lower.as_str(), ".png") {
        return Err(invalid("Blender render file_name must use a .png extension"));
    }
    Ok(())
}

/// The stem of an animation preview name: the name without a `.png` ending.
pub open spec fn preview_stem(name: Seq<char>) -> Seq<char> {
    if seq_ends_with(name, ".png"@) { name.take(name.len() - 4) } else { name }
}

/// A stem that frame files can be named after.
pub open spec fn stem_ok(stem: Seq<char>) -> bool {
    &&& stem.len() > 0
    &&& byte_len(stem) <= 140
    &&& stem[0] != '.'
    &&& !stem.contains('/')
    &&& !stem.contains('\\')
}

fn has_char(v: &Vec<char>, c: char) -> (r: bool)
    ensures
        r == v@.contains(c),
{
    let mut i: usize = 0;
    while i < v.len()
        invariant
            i <= v.len(),
            forall|k: int| 0 <= k < i ==> v@[k] != c,
        decreases v.len() - i,
    {
        if v[i] == c {
            return true;
        }
        i += 1;
    }
    false
}

/// The stem of a chosen animation preview name, checked.
pub fn animation_stem_of(name: &str) -> (r: Result<String, McpError>)
    ensures
        match r {
            Ok(s) => stem_ok(preview_stem(name@)) && s@ == preview_stem(name@),
            Err(e) => e is InvalidRequest && !stem_ok(preview_stem(name@)),
        },
{
    proof {
        reveal_strlit(".png");
    }
    let v = char_vec(name);
    let mut stem_chars: Vec<char> = Vec::new();
    let keep: usize = if ends_with(name, ".png") { v.len() - 4 } else { v.len() };
    let mut i: usize = 0;
    while i < keep
        invariant
            i <= keep <= v.len(),
            v@ == name@,
            stem_chars@ == v@.take(i as int),
        decreases keep - i,
    {
        stem_chars.push(v[i]);
        i += 1;
    }
    proof {
        assert(stem_chars@ =~= preview_stem(name@));
    }
    let stem = string_from_chars(&stem_chars);
    if stem_chars.len() == 0 || stem.as_str().len() > 140 || stem_chars[0] == '.'
        || has_char(&stem_chars, '/') || has_char(&stem_chars, '\\')
    {
        return Err(invalid("Blender animation preview save_name is invalid"));
    }
    Ok(stem)
}

/// The stem of an animation preview: the chosen name's, or a fresh
/// `animation-preview-` name.
pub fn animation_stem(value: Option<&str>) -> (r: Result<String, McpError>)
    ensures
        value matches Some(v) ==> match r {
            Ok(s) => stem_ok(preview_stem(v@)) && s@ == preview_stem(v@),
            Err(e) => e is InvalidRequest && !stem_ok(preview_stem(v@)),
        },
        value is None ==> (r matches Ok(s) && crate::text::seq_starts_with(s@, "animation-preview-"@) && s@.len() == 50),
{
    match value {
        Some(v) => animation_stem_of(v),
        None => {
            let mut name = String::from_str("animation-preview-");
            let suffix = crate::outside::random_simple_uuid();
            name.append(suffix.as_str());
            proof {
                reveal_strlit("animation-preview-");
                assert(name@.subrange(0, 18) =~= "animation-preview-"@);
            }
            Ok(name)
        },
    }
}

/// Checks a chosen screenshot name.
pub fn screenshot_name_of(name: &str) -> (r: Result<String, McpError>)
    ensures
        match r {
            Ok(s) => is_png_name(name@) && s@ == name@,
            Err(e) => e is InvalidRequest && !is_png_name(name@),
        },
{
    require_png_name(name)?;
    Ok(name.to_owned())
}

/// The name of a screenshot: the chosen one, or a fresh `screenshot-<id>.png` name.
pub fn screenshot_name(value: Option<&str>) -> (r: Result<String, McpError>)
    ensures
        value matches Some(v) ==> match r {
            Ok(s) => is_png_name(v@) && s@ == v@,
            Err(e) => e is InvalidRequest && !is_png_name(v@),
        },
        value is None ==> (r matches Ok(s) && crate::text::seq_starts_with(s@, "screenshot-"@)
            && seq_ends_with(s@, ".png"@) && s@.len() == 47),
{
    match value {
        Some(v) => screenshot_name_of(v),
        None => {
            let mut name = String::from_str("screenshot-");
            let suffix = crate::outside::random_simple_uuid();
            name.append(suffix.as_str());
            name.append(".png");
            proof {
                reveal_strlit("screenshot-");
                reveal_strlit(".png");
                assert(name@.subrange(0, 11) =~= "screenshot-"@);
                assert(name@.subrange(43, 47) =~= ".png"@);
            }
            Ok(name)
        },
    }
}

/// The file name of a path, as `std::path::Path::file_name` reads it: its last
/// component, unless there is none or it is `..`.
pub open spec fn file_name_of(path: Seq<char>) -> Option<Seq<char>> {
    let c = normal_components(split_slash(path));
    if c.len() == 0 || c.last() == ".."@ { None } else { Some(c.last()) }
}

/// The position of the last `.` in `s`.
pub open spec fn last_dot(s: Seq<char>) -> Option<int>
    decreases s.len(),
{
    if s.len() == 0 { None } else if s.last() == '.' { Some(s.len() - 1) } else { last_dot(s.drop_last()) }
}

/// A file name's extension, as `Path::extension` reads it: what follows the last `.`,
/// where that `.` is not the name's first character.
pub open spec fn extension_of(name: Seq<char>) -> Option<Seq<char>> {
    match last_dot(name) {
        Some(i) => if i > 0 { Some(name.skip(i + 1)) } else { None },
        None => None,
    }
}

/// A file name's stem, as `Path::file_stem` reads it: what precedes the last `.`, where
/// that `.` is not the name's first character, or else the whole name.
pub open spec fn stem_of(name: Seq<char>) -> Seq<char> {
    match last_dot(name) {
        Some(i) => if i > 0 { name.take(i) } else { name },
        None => name,
    }
}

proof fn lemma_last_dot(s: Seq<char>, k: int)
    requires
        -1 <= k < s.len(),
        k >= 0 ==> s[k] == '.',
        forall|j: int| k < j < s.len() ==> s[j] != '.',
    ensures
        last_dot(s) == (if k >= 0 { Some(k) } else { None::<int> }),
    decreases s.len(),
{
    if s.len() > 0 && k < s.len() - 1 {
        assert forall|j: int| k < j < s.len() - 1 implies s.drop_last()[j] != '.' by {
            assert(s.drop_last()[j] == s[j]);
        }
        if k >= 0 {
            assert(s.drop_last()[k] == s[k]);
        }
        lemma_last_dot(s.drop_last(), k);
    }
}

fn find_last_dot(v: &Vec<char>) -> (r: Option<usize>)
    ensures
        match r {
            Some(i) => last_dot(v@) == Some(i as int) && i < v.len(),
            None => last_dot(v@) is None,
        },
{
    let mut i: usize = v.len();
    while i > 0
        invariant
            i <= v.len(),
            forall|j: int| i <= j < v.len() ==> v@[j] != '.',
        decreases i,
    {
        if v[i - 1] == '.' {
            proof {
                lemma_last_dot(v@, i - 1);
            }
            return Some(i - 1);
        }
        i -= 1;
    }
    proof {
        lemma_last_dot(v@, -1);
    }
    None
}

/// The file name of a path, if it has one.
pub fn file_name(path: &str) -> (r: Option<String>)
    ensures
        match r {
            Some(n) => file_name_of(path@) == Some(n@),
            None => file_name_of(path@) is None,
        },
{
    let c = normal_component_list(path);
    if c.len() == 0 {
        return None;
    }
    let last = c[c.len() - 1].clone();
    if str_eq(last.as_str(), "..") {
        return None;
    }
    Some(last)
}

/// A file name's extension, if it has one.
pub fn extension(name: &str) -> (r: Option<String>)
    ensures
        match r {
            Some(e) => extension_of(name@) == Some(e@),
            None => extension_of(name@) is None,
        },
{
    let v = char_vec(name);
    match find_last_dot(&v) {
        Some(i) => {
            if i > 0 {
                let mut out: Vec<char> = Vec::new();
                let mut k: usize = i + 1;
                while k < v.len()
                    invariant
                        i + 1 <= k <= v.len(),
                        v@ == name@,
                        out@ == v@.subrange(i + 1, k as int),
                    decreases v.len() - k,
                {
                    out.push(v[k]);
                    k += 1;
                }
                proof {
                    assert(out@ =~= name@.skip(i + 1));
                }
                Some(string_from_chars(&out))
            } else {
                None
            }
        },
        None => None,
    }
}

/// A file name's stem.
pub fn file_stem(name: &str) -> (r: String)
    ensures
        r@ == stem_of(name@),
{
    let v = char_vec(name);
    match find_last_dot(&v) {
        Some(i) => {
            if i > 0 {
                let mut out: Vec<char> = Vec::new();
                let mut k: usize = 0;
                while k < i
                    invariant
                        k <= i < v.len(),
                        v@ == name@,
                        out@ == v@.take(k as int),
                    decreases i - k,
                {
                    out.push(v[k]);
                    k += 1;
                }
                string_from_chars(&out)
            } else {
                name.to_owned()
            }
        },
        None => name.to_owned(),
    }
}

} // verus!

verus! {

use crate::blender_paths::{BlenderArtifactScope, artifact_relative_path, is_leaf_name, scope_dir};

pub const MAX_ANIMATION_PREVIEW_PIXELS: u64 = 134217728;
pub const MAX_RENDER_FRAMES: i64 = 120;

// ---------------------------------------------------------------------------
// Animation previews

/// What an animation preview asks for.
pub struct AnimationPreviewRequest<'a> {
    pub start_frame: i32,
    pub end_frame: i32,
    pub step: u32,
    pub max_frames: usize,
    pub width: u32,
    pub height: u32,
    pub save_name: Option<&'a str>,
}

pub open spec fn preview_request_frames(r: AnimationPreviewRequest) -> Seq<int> {
    frames_from(r.start_frame as int, r.end_frame as int, r.step as int, r.max_frames as nat)
}

/// A preview request that can be rendered: bounded dimensions, a forward range, a
/// positive step and count, and a total pixel count within budget.
pub open spec fn preview_request_ok(r: AnimationPreviewRequest) -> bool {
    &&& 64 <= r.width <= 4096
    &&& 64 <= r.height <= 4096
    &&& r.start_frame <= r.end_frame
    &&& r.step > 0
    &&& r.max_frames > 0
    &&& r.width * r.height * preview_request_frames(r).len() <= MAX_ANIMATION_PREVIEW_PIXELS
}

/// Checks a preview request and returns the frames it samples.
pub fn preview_frames(request: &AnimationPreviewRequest) -> (r: Result<Vec<i32>, McpError>)
    ensures
        match r {
            Ok(f) => preview_request_ok(*request) && frame_values(f@) == preview_request_frames(*request),
            Err(e) => e is InvalidRequest && !preview_request_ok(*request),
        },
{
    validate_dimensions(request.width, request.height)?;
    if request.start_frame > request.end_frame || request.step == 0 || request.max_frames == 0 {
        return Err(invalid("Blender animation preview frame range is invalid"));
    }
    let frames = sampled_frames(request.start_frame, request.end_frame, request.step, request.max_frames);
    assert((request.width as int) * (request.height as int) <= 4096 * 4096) by (nonlinear_arith)
        requires
            request.width <= 4096,
            request.height <= 4096,
    ;
    let wh: u64 = (request.width as u64) * (request.height as u64);
    proof {
        assert(frames@.len() == frame_values(frames@).len());
    }
    match wh.checked_mul(frames.len() as u64) {
        Some(total) => {
            if total > MAX_ANIMATION_PREVIEW_PIXELS {
                return Err(invalid("Blender animation preview exceeds the total pixel budget"));
            }
        },
        None => {
            return Err(invalid("Blender animation preview exceeds the total pixel budget"));
        },
    }
    Ok(frames)
}

/// The file name of one preview frame.
pub open spec fn preview_frame_name(stem: Seq<char>, frame: int) -> Seq<char> {
    stem + "-"@ + int_text(frame) + ".png"@
}

/// `p` is the project-relative path of the preview frame `frame`, whose name is one
/// bounded file name.
pub open spec fn preview_path_ok(stem: Seq<char>, frame: int, p: Seq<char>) -> bool {
    is_leaf_name(preview_frame_name(stem, frame))
    && p == scope_dir(BlenderArtifactScope::RenderPreview) + "/"@ + preview_frame_name(stem, frame)
}

/// The project-relative paths of the preview frames; fails where a frame name is not
/// one bounded file name.
pub fn preview_frame_paths(stem: &str, frames: &Vec<i32>) -> (r: Result<Vec<String>, McpError>)
    ensures
        match r {
            Ok(p) => p@.len() == frames@.len() && forall|k: int| 0 <= k < frames@.len() ==>
                preview_path_ok(stem@, frames@[k] as int, (#[trigger] p@[k])@),
            Err(e) => e is InvalidRequest && exists|k: int| 0 <= k < frames@.len()
                && !is_leaf_name(#[trigger] preview_frame_name(stem@, frames@[k] as int)),
        },
{
    let mut paths: Vec<String> = Vec::new();
    let mut i: usize = 0;
    while i < frames.len()
        invariant
            i <= frames.len(),
            paths@.len() == i,
            forall|k: int| 0 <= k < i ==> preview_path_ok(stem@, frames@[k] as int, (#[trigger] paths@[k])@),
        decreases frames.len() - i,
    {
        let mut name = String::from_str(stem);
        name.append("-");
        let number = int_to_text(frames[i] as i64);
        name.append(number.as_str());
        name.append(".png");
        assert(name@ == preview_frame_name(stem@, frames@[i as int] as int));
        let path = match artifact_relative_path(BlenderArtifactScope::RenderPreview, name.as_str()) {
            Ok(p) => p,
            Err(e) => { return Err(e); },
        };
        let ghost prev = paths@;
        paths.push(path);
        proof {
            assert forall|k: int| 0 <= k < i + 1 implies preview_path_ok(stem@, frames@[k] as int, (#[trigger] paths@[k])@) by {
                if k < i {
                    assert(paths@[k] == prev[k]);
                }
            }
        }
        i += 1;
    }
    Ok(paths)
}

// ---------------------------------------------------------------------------
// Renders

/// What a render asks for.
pub struct RenderRequest<'a> {
    pub mode: &'a str,
    pub output_scope: &'a str,
    pub file_name: &'a str,
    pub start_frame: Option<i32>,
    pub end_frame: Option<i32>,
}

/// Where a render writes.
pub enum RenderPlan {
    Still { relative_path: String },
    Animation { start_frame: i32, end_frame: i32, relative_paths: Vec<String> },
}

pub open spec fn render_scope(output_scope: Seq<char>) -> Option<BlenderArtifactScope> {
    if output_scope == "preview"@ {
        Some(BlenderArtifactScope::RenderPreview)
    } else if output_scope == "final"@ {
        Some(BlenderArtifactScope::RenderFinal)
    } else {
        None
    }
}

/// The file name of one rendered animation frame.
pub open spec fn render_frame_name(stem: Seq<char>, frame: int) -> Seq<char> {
    stem + "-"@ + padded6(frame) + ".png"@
}

/// The frame stem of a render file name, where it has one.
pub open spec fn render_stem(file_name: Seq<char>) -> Option<Seq<char>> {
    match file_name_of(file_name) {
        Some(n) => Some(stem_of(n)),
        None => None,
    }
}

/// Whether the render plan for an animation from `start` to `end` is refused.
pub open spec fn animation_render_refused(file_name: Seq<char>, start: int, end: int) -> bool {
    ||| start > end
    ||| end - start + 1 > MAX_RENDER_FRAMES
    ||| !is_png_name(file_name)
    ||| render_stem(file_name) is None
    ||| byte_len(render_stem(file_name)->0) > 140
    ||| exists|f: int| start <= f <= end && !is_leaf_name(#[trigger] render_frame_name(render_stem(file_name)->0, f))
}

/// `p` is the project-relative path of the rendered frame `frame`, whose name is one
/// bounded file name.
pub open spec fn render_path_ok(scope: BlenderArtifactScope, stem: Seq<char>, frame: int, p: Seq<char>) -> bool {
    is_leaf_name(render_frame_name(stem, frame)) && p == scope_dir(scope) + "/"@ + render_frame_name(stem, frame)
}

fn frame_paths(scope: BlenderArtifactScope, stem: &str, start: i32, end: i32) -> (r: Result<Vec<String>, McpError>)
    requires
        start <= end,
    ensures
        match r {
            Ok(p) => p@.len() == end - start + 1 && forall|k: int| 0 <= k < p@.len() ==>
                render_path_ok(scope, stem@, start + k, (#[trigger] p@[k])@),
            Err(e) => e is InvalidRequest && exists|f: int| start <= f <= end && !is_leaf_name(#[trigger] render_frame_name(stem@, f)),
        },
{
    let mut paths: Vec<String> = Vec::new();
    let mut frame: i64 = start as i64;
    while frame <= end as i64
        invariant
            start <= frame <= end as int + 1,
            paths@.len() == frame - start,
            forall|k: int| 0 <= k < paths@.len() ==> render_path_ok(scope, stem@, start + k, (#[trigger] paths@[k])@),
        decreases end as int + 1 - frame,
    {
        let mut name = String::from_str(stem);
        name.append("-");
        let number = int_to_padded6(frame);
        name.append(number.as_str());
        name.append(".png");
        assert(name@ == render_frame_name(stem@, frame as int));
        let path = match artifact_relative_path(scope, name.as_str()) {
            Ok(p) => p,
            Err(e) => { return Err(e); },
        };
        let ghost prev = paths@;
        paths.push(path);
        proof {
            assert forall|k: int| 0 <= k < paths@.len() implies render_path_ok(scope, stem@, start + k, (#[trigger] paths@[k])@) by {
                if k < prev.len() {
                    assert(paths@[k] == prev[k]);
                }
            }
        }
        frame += 1;
    }
    Ok(paths)
}

/// Plans a render: a still goes to one `.png` file; an animation of at most 120 frames
/// goes to one `.png` file per frame, named after the file name's stem and the frame
/// number in six digits.
pub fn plan_render(request: &RenderRequest) -> (r: Result<RenderPlan, McpError>)
    ensures
        r matches Err(e) ==> e is InvalidRequest,
        render_scope(request.output_scope@) is None ==> r is Err,
        render_scope(request.output_scope@) matches Some(scope) ==> {
            if request.mode@ == "still"@ {
                match r {
                    Ok(RenderPlan::Still { relative_path }) => is_png_name(request.file_name@)
                        && is_leaf_name(request.file_name@)
                        && relative_path@ == scope_dir(scope) + "/"@ + request.file_name@,
                    Ok(_) => false,
                    Err(_) => !is_png_name(request.file_name@) || !is_leaf_name(request.file_name@),
                }
            } else if request.mode@ == "animation"@ {
                match (request.start_frame, request.end_frame) {
                    (Some(start), Some(end)) => match r {
                        Ok(RenderPlan::Animation { start_frame, end_frame, relative_paths }) =>
                            !animation_render_refused(request.file_name@, start as int, end as int)
                            && start_frame == start && end_frame == end
                            && relative_paths@.len() == end - start + 1
                            && forall|k: int| 0 <= k < relative_paths@.len() ==>
                                render_path_ok(scope, render_stem(request.file_name@)->0, start + k, (#[trigger] relative_paths@[k])@),
                        Ok(_) => false,
                        Err(_) => animation_render_refused(request.file_name@, start as int, end as int),
                    },
                    _ => r is Err,
                }
            } else {
                r is Err
            }
        },
{
    let scope = if str_eq(request.output_scope, "preview") {
        BlenderArtifactScope::RenderPreview
    } else if str_eq(request.output_scope, "final") {
        BlenderArtifactScope::RenderFinal
    } else {
        return Err(invalid("Blender render output_scope must be preview or final"));
    };
    if str_eq(request.mode, "still") {
        require_png_name(request.file_name)?;
        let relative_path = artifact_relative_path(scope, request.file_name)?;
        Ok(RenderPlan::Still { relative_path })
    } else if str_eq(request.mode, "animation") {
        let start = match request.start_frame {
            Some(s) => s,
            None => { return Err(invalid("animation render requires start_frame")); },
        };
        let end = match request.end_frame {
            Some(e) => e,
            None => { return Err(invalid("animation render requires end_frame")); },
        };
        if start > end {
            return Err(invalid("Blender render frame range is invalid"));
        }
        let count: i64 = (end as i64) - (start as i64) + 1;
        if count > MAX_RENDER_FRAMES {
            return Err(invalid("Blender animation render exceeds the frame bound"));
        }
        require_png_name(request.file_name)?;
        let name = match file_name(request.file_name) {
            Some(n) => n,
            None => { return Err(invalid("Blender render file name is invalid")); },
        };
        let stem = file_stem(name.as_str());
        if stem.as_str().len() > 140 {
            return Err(invalid("Blender render file name is too long for frame suffixes"));
        }
        let relative_paths = match frame_paths(scope, stem.as_str(), start, end) {
            Ok(p) => p,
            Err(e) => { return Err(e); },
        };
        proof {
            assert(render_stem(request.file_name@) == Some(stem@));
            assert forall|f: int| start <= f <= end implies is_leaf_name(#[trigger] render_frame_name(stem@, f)) by {
                assert(render_path_ok(scope, stem@, start + (f - start), relative_paths@[f - start]@));
            }
        }
        Ok(RenderPlan::Animation { start_frame: start, end_frame: end, relative_paths })
    } else {
        Err(invalid("Blender render mode must be still or animation"))
    }
}

// ---------------------------------------------------------------------------
// Documentation lookups

/// A documentation query: 1 to 512 bytes without control characters.
pub open spec fn docs_query_ok(q: Seq<char>) -> bool {
    q.len() > 0 && byte_len(q) <= 512 && !has_control(q)
}

/// Checks a documentation query.
pub fn validate_query(query: &str) -> (r: Result<(), McpError>)
    ensures
        r is Ok <==> docs_query_ok(query@),
        r matches Err(e) ==> invalid_with(e, "Blender docs query exceeds allowed bounds"@),
{
    if query.is_empty() || query.len() > 512 || contains_control(query) {
        return Err(invalid("Blender docs query exceeds allowed bounds"));
    }
    Ok(())
}

/// The pieces of `s` between `.` separators, empty pieces included.
pub open spec fn split_dots(s: Seq<char>) -> Seq<Seq<char>>
    decreases s.len(),
{
    if s.len() == 0 {
        seq![seq![]]
    } else {
        let rest = split_dots(s.drop_last());
        if s.last() == '.' {
            rest.push(seq![])
        } else {
            rest.update(rest.len() - 1, rest.last().push(s.last()))
        }
    }
}

/// One name below `bpy`: letters, digits and `_`, not starting with a digit.
pub open spec fn module_part_ok(p: Seq<char>) -> bool {
    &&& p.len() > 0
    &&& forall|i: int| 0 <= i < p.len() ==> (#[trigger] p[i] == '_' || is_ascii_alnum_char(p[i]))
    &&& !is_ascii_digit_char(p[0])
}

/// A bounded `bpy` namespace: `bpy` and at most four names below it.
pub open spec fn docs_module_ok(m: Seq<char>) -> bool {
    let parts = split_dots(m);
    &&& m.len() > 0
    &&& byte_len(m) <= 128
    &&& !has_control(m)
    &&& parts[0] == "bpy"@
    &&& parts.len() - 1 <= 4
    &&& forall|i: int| 1 <= i < parts.len() ==> module_part_ok(#[trigger] parts[i])
}

proof fn lemma_split_dots_nonempty(s: Seq<char>)
    ensures
        split_dots(s).len() >= 1,
    decreases s.len(),
{
    if s.len() > 0 {
        lemma_split_dots_nonempty(s.drop_last());
    }
}

fn split_at_dots(v: &Vec<char>) -> (parts: Vec<Vec<char>>)
    ensures
        parts@.len() == split_dots(v@).len(),
        forall|k: int| 0 <= k < parts@.len() ==> (#[trigger] parts@[k])@ == split_dots(v@)[k],
{
    let mut parts: Vec<Vec<char>> = Vec::new();
    let mut cur: Vec<char> = Vec::new();
    let mut i: usize = 0;
    while i < v.len()
        invariant
            i <= v.len(),
            parts@.len() + 1 == split_dots(v@.take(i as int)).len(),
            forall|k: int| 0 <= k < parts@.len() ==> (#[trigger] parts@[k])@ == split_dots(v@.take(i as int))[k],
            cur@ == split_dots(v@.take(i as int)).last(),
        decreases v.len() - i,
    {
        proof {
            lemma_split_dots_nonempty(v@.take(i as int));
            assert(v@.take(i + 1).drop_last() =~= v@.take(i as int));
        }
        if v[i] == '.' {
            let ghost prev = parts@;
            let done = cur;
            parts.push(done);
            cur = Vec::new();
            proof {
                assert forall|k: int| 0 <= k < parts@.len() implies (#[trigger] parts@[k])@ == split_dots(v@.take(i + 1))[k] by {
                    if k < parts@.len() - 1 {
                        assert(parts@[k] == prev[k]);
                    }
                }
            }
        } else {
            cur.push(v[i]);
        }
        i += 1;
    }
    proof {
        assert(v@.take(v.len() as int) =~= v@);
        lemma_split_dots_nonempty(v@);
    }
    parts.push(cur);
    parts
}

} // verus!

verus! {

fn module_part_valid(p: &Vec<char>) -> (r: bool)
    ensures
        r == module_part_ok(p@),
{
    if p.len() == 0 {
        return false;
    }
    let mut i: usize = 0;
    while i < p.len()
        invariant
            i <= p.len(),
            forall|k: int| 0 <= k < i ==> (#[trigger] p@[k] == '_' || is_ascii_alnum_char(p@[k])),
        decreases p.len() - i,
    {
        if !(p[i] == '_' || is_ascii_alnum(p[i])) {
            return false;
        }
        i += 1;
    }
    !('0' <= p[0] && p[0] <= '9')
}

/// Checks a documentation module: a bounded `bpy` namespace.
pub fn validate_module(module: &str) -> (r: Result<(), McpError>)
    ensures
        r is Ok <==> docs_module_ok(module@),
        r matches Err(e) ==> invalid_with(e, if module@.len() == 0 || byte_len(module@) > 128 || has_control(module@) {
            "Blender docs module exceeds allowed bounds"@
        } else {
            "Blender docs module must be a bounded bpy namespace"@
        }),
{
    proof {
        reveal_strlit("bpy");
        lemma_split_dots_nonempty(module@);
    }
    if module.is_empty() || module.len() > 128 || contains_control(module) {
        return Err(invalid("Blender docs module exceeds allowed bounds"));
    }
    let v = char_vec(module);
    let parts = split_at_dots(&v);
    let first = &parts[0];
    let is_bpy = first.len() == 3 && first[0] == 'b' && first[1] == 'p' && first[2] == 'y';
    proof {
        if is_bpy {
            assert(first@ =~= "bpy"@);
        }
    }
    if !is_bpy || parts.len() - 1 > 4 {
        return Err(invalid("Blender docs module must be a bounded bpy namespace"));
    }
    let mut i: usize = 1;
    while i < parts.len()
        invariant
            1 <= i <= parts.len(),
            parts@.len() == split_dots(v@).len(),
            v@ == module@,
            forall|k: int| 0 <= k < parts@.len() ==> (#[trigger] parts@[k])@ == split_dots(v@)[k],
            forall|k: int| 1 <= k < i ==> module_part_ok(#[trigger] split_dots(module@)[k]),
            !(module@.len() == 0 || byte_len(module@) > 128 || has_control(module@)),
        decreases parts.len() - i,
    {
        if !module_part_valid(&parts[i]) {
            return Err(invalid("Blender docs module must be a bounded bpy namespace"));
        }
        i += 1;
    }
    Ok(())
}

} // verus!
