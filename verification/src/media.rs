use vstd::prelude::*;
use crate::error::{invalid, internal, invalid_with, McpError};
use crate::elements::{element_index, find_element, ElementRecord};
use crate::contracts::ElementKind;
use crate::outside::{sha256_digest, sha256_of};

verus! {

broadcast use vstd::seq_lib::group_seq_properties;

pub const MAX_RASTER_DIMENSION: u32 = 4096;
pub const MAX_RASTER_PIXELS: u64 = 16777216;
pub const DEFAULT_GENERATED_DIMENSION: u32 = 512;

/// An 8-bit RGBA image: four bytes per pixel, row by row.
#[derive(Debug)]
pub struct RgbaImage {
    pub width: u32,
    pub height: u32,
    pub pixels: Vec<u8>,
}

/// The image holds exactly four bytes per pixel.
pub open spec fn image_wf(img: RgbaImage) -> bool {
    img.pixels@.len() == 4 * (img.width as int) * (img.height as int)
}

/// A raster size the local backend accepts: each side 1 to 4096, at most 16 Mi pixels.
pub open spec fn raster_size_ok(width: u32, height: u32) -> bool {
    0 < width && 0 < height && width <= MAX_RASTER_DIMENSION && height <= MAX_RASTER_DIMENSION
        && (width as int) * (height as int) <= MAX_RASTER_PIXELS
}

/// Checks a raster size.
pub fn enforce_dimensions(width: u32, height: u32) -> (r: Result<(), McpError>)
    ensures
        r is Ok <==> raster_size_ok(width, height),
        r matches Err(e) ==> invalid_with(e, "creative raster dimensions exceed allowed bounds"@),
{
    if width == 0 || height == 0 || width > MAX_RASTER_DIMENSION || height > MAX_RASTER_DIMENSION {
        return Err(invalid("creative raster dimensions exceed allowed bounds"));
    }
    assert((width as int) * (height as int) <= 4096 * 4096) by (nonlinear_arith)
        requires
            width <= 4096,
            height <= 4096,
    ;
    let pixels: u64 = (width as u64) * (height as u64);
    if pixels > MAX_RASTER_PIXELS {
        return Err(invalid("creative raster dimensions exceed allowed bounds"));
    }
    Ok(())
}

/// A size parameter as the request gives it.
#[derive(Clone, Copy, Debug)]
pub enum DimensionParam {
    Absent,
    Integer(u64),
    NotInteger,
}

pub open spec fn param_dimension(p: DimensionParam, default: u32) -> Option<u32> {
    match p {
        DimensionParam::Absent => Some(default),
        DimensionParam::Integer(v) => if v <= u32::MAX { Some(v as u32) } else { None },
        DimensionParam::NotInteger => None,
    }
}

/// The size a request asks for, each side defaulting to the given one; the size must be
/// one the backend accepts.
pub fn requested_dimensions(width: DimensionParam, height: DimensionParam, default_width: u32, default_height: u32) -> (r: Result<(u32, u32), McpError>)
    ensures
        match r {
            Ok((w, h)) => param_dimension(width, default_width) == Some(w) && param_dimension(height, default_height) == Some(h)
                && raster_size_ok(w, h),
            Err(e) => e is InvalidRequest && !(param_dimension(width, default_width) matches Some(w)
                && param_dimension(height, default_height) matches Some(h) && raster_size_ok(w, h)),
        },
{
    let w = match width {
        DimensionParam::Absent => default_width,
        DimensionParam::Integer(v) => {
            if v > u32::MAX as u64 {
                return Err(invalid("creative width exceeds maximum"));
            }
            v as u32
        },
        DimensionParam::NotInteger => { return Err(invalid("creative width must be an integer")); },
    };
    let h = match height {
        DimensionParam::Absent => default_height,
        DimensionParam::Integer(v) => {
            if v > u32::MAX as u64 {
                return Err(invalid("creative height exceeds maximum"));
            }
            v as u32
        },
        DimensionParam::NotInteger => { return Err(invalid("creative height must be an integer")); },
    };
    enforce_dimensions(w, h)?;
    Ok((w, h))
}

// ---------------------------------------------------------------------------
// Seeds

/// The seed of a request: the SHA-256 digest of its prompt, or of nothing.
pub open spec fn prompt_seed_of(prompt: Option<Seq<char>>) -> Seq<u8> {
    match prompt {
        Some(p) => sha256_of(vstd::utf8::encode_utf8(p)),
        None => sha256_of(seq![]),
    }
}

/// The seed of a request.
pub fn prompt_seed(prompt: Option<&str>) -> (seed: Vec<u8>)
    ensures
        seed@ == prompt_seed_of(match prompt { Some(p) => Some(p@), None => None }),
        seed@.len() == 32,
{
    match prompt {
        Some(p) => sha256_digest(p.as_bytes()),
        None => {
            let empty: Vec<u8> = Vec::new();
            let d = sha256_digest(empty.as_slice());
            proof {
                assert(empty@ =~= seq![]);
            }
            d
        },
    }
}

/// The decimal digits of `n`, as bytes.
pub open spec fn decimal_bytes(n: nat) -> Seq<u8>
    decreases n,
{
    if n < 10 { seq![(n + 48) as u8] } else { decimal_bytes(n / 10).push((n % 10 + 48) as u8) }
}

fn push_decimal_bytes(out: &mut Vec<u8>, n: usize)
    ensures
        final(out)@ == old(out)@ + decimal_bytes(n as nat),
    decreases n,
{
    if n >= 10 {
        push_decimal_bytes(out, n / 10);
    }
    let d: u8 = (n % 10) as u8;
    out.push(d + 48);
    proof {
        if n >= 10 {
            assert(decimal_bytes(n as nat) == decimal_bytes((n / 10) as nat).push(((n % 10) as nat + 48) as u8));
        }
    }
}

fn push_bytes(out: &mut Vec<u8>, s: &str)
    ensures
        final(out)@ == old(out)@ + vstd::utf8::encode_utf8(s@),
{
    let b = s.as_bytes();
    let mut i: usize = 0;
    let ghost start = out@;
    while i < b.len()
        invariant
            i <= b@.len(),
            b@ == vstd::utf8::encode_utf8(s@),
            out@ == start + b@.take(i as int),
        decreases b.len() - i,
    {
        out.push(b[i]);
        proof {
            assert(start + b@.take(i + 1) =~= (start + b@.take(i as int)).push(b@[i as int]));
        }
        i += 1;
    }
    proof {
        assert(b@.take(b@.len() as int) =~= b@);
    }
}

/// What a variant's seed digests: the prompt, if any, the workflow, the label and the
/// variant's index in decimal, each followed by a zero byte but the last.
pub open spec fn variant_seed_input(prompt: Option<Seq<char>>, workflow_id: Seq<char>, label: Seq<char>, index: nat) -> Seq<u8> {
    let p: Seq<u8> = match prompt { Some(x) => vstd::utf8::encode_utf8(x), None => seq![] };
    p + seq![0u8] + vstd::utf8::encode_utf8(workflow_id) + seq![0u8] + vstd::utf8::encode_utf8(label) + seq![0u8]
        + decimal_bytes(index)
}

/// The seed of one variant of a reference workflow.
pub fn variant_seed(prompt: Option<&str>, workflow_id: &str, label: &str, index: usize) -> (seed: Vec<u8>)
    ensures
        seed@ == sha256_of(variant_seed_input(match prompt { Some(p) => Some(p@), None => None }, workflow_id@, label@, index as nat)),
        seed@.len() == 32,
{
    let mut input: Vec<u8> = Vec::new();
    if let Some(p) = prompt {
        push_bytes(&mut input, p);
    }
    input.push(0);
    push_bytes(&mut input, workflow_id);
    input.push(0);
    push_bytes(&mut input, label);
    input.push(0);
    push_decimal_bytes(&mut input, index);
    proof {
        let p: Seq<u8> = match prompt { Some(x) => vstd::utf8::encode_utf8(x@), None => seq![] };
        assert(input@ =~= variant_seed_input(match prompt { Some(x) => Some(x@), None => None }, workflow_id@, label@, index as nat));
    }
    sha256_digest(input.as_slice())
}

// ---------------------------------------------------------------------------
// Procedural pixels

/// Channel `c` of the procedural pixel at `(x, y)`.
pub open spec fn procedural_channel(x: int, y: int, seed: Seq<u8>, c: int) -> u8 {
    if c == 0 {
        seed[(x + y) % 32]
    } else if c == 1 {
        seed[(3 * x + 5 * y) % 32]
    } else if c == 2 {
        seed[(7 * x + 11 * y) % 32]
    } else {
        255
    }
}

/// The first `x` procedural pixels of row `y`.
pub open spec fn procedural_row(y: int, seed: Seq<u8>, x: int) -> Seq<u8>
    decreases x,
{
    if x <= 0 {
        seq![]
    } else {
        procedural_row(y, seed, x - 1) + seq![
            procedural_channel(x - 1, y, seed, 0),
            procedural_channel(x - 1, y, seed, 1),
            procedural_channel(x - 1, y, seed, 2),
            procedural_channel(x - 1, y, seed, 3),
        ]
    }
}

/// The first `y` rows of a procedural image `width` pixels wide.
pub open spec fn procedural_rows(width: int, seed: Seq<u8>, y: int) -> Seq<u8>
    decreases y,
{
    if y <= 0 { seq![] } else { procedural_rows(width, seed, y - 1) + procedural_row(y - 1, seed, width) }
}

proof fn lemma_procedural_lens(width: int, seed: Seq<u8>, y: int)
    requires
        width >= 0,
        y >= 0,
    ensures
        procedural_rows(width, seed, y).len() == 4 * width * y,
    decreases y,
{
    if y > 0 {
        lemma_row_len(y - 1, seed, width);
        lemma_procedural_lens(width, seed, y - 1);
        assert(4 * width * (y - 1) + 4 * width == 4 * width * y) by (nonlinear_arith);
    } else {
        assert(4 * width * y == 0) by (nonlinear_arith)
            requires
                y == 0,
        ;
    }
}

proof fn lemma_row_len(y: int, seed: Seq<u8>, x: int)
    requires
        x >= 0,
    ensures
        procedural_row(y, seed, x).len() == 4 * x,
    decreases x,
{
    if x > 0 {
        lemma_row_len(y, seed, x - 1);
    }
}

/// The procedural image of a seed: each pixel's color channels are seed bytes picked by
/// its coordinates, and it is opaque.
pub fn procedural_image(width: u32, height: u32, seed: &Vec<u8>) -> (img: RgbaImage)
    requires
        seed@.len() == 32,
        raster_size_ok(width, height),
    ensures
        img.width == width,
        img.height == height,
        img.pixels@ == procedural_rows(width as int, seed@, height as int),
        image_wf(img),
{
    let mut pixels: Vec<u8> = Vec::new();
    let mut y: u32 = 0;
    while y < height
        invariant
            y <= height,
            seed@.len() == 32,
            raster_size_ok(width, height),
            pixels@ == procedural_rows(width as int, seed@, y as int),
        decreases height - y,
    {
        let mut x: u32 = 0;
        let ghost base = pixels@;
        while x < width
            invariant
                x <= width,
                y < height,
                seed@.len() == 32,
                raster_size_ok(width, height),
                base == procedural_rows(width as int, seed@, y as int),
                pixels@ == base + procedural_row(y as int, seed@, x as int),
            decreases width - x,
        {
            let xs = x as u64;
            let ys = y as u64;
            let a = seed[((xs + ys) % 32) as usize];
            let b = seed[((3 * xs + 5 * ys) % 32) as usize];
            let c = seed[((7 * xs + 11 * ys) % 32) as usize];
            pixels.push(a);
            pixels.push(b);
            pixels.push(c);
            pixels.push(255);
            proof {
                assert(pixels@ =~= base + procedural_row(y as int, seed@, x + 1));
            }
            x += 1;
        }
        y += 1;
    }
    proof {
        lemma_procedural_lens(width as int, seed@, height as int);
    }
    RgbaImage { width, height, pixels }
}

// ---------------------------------------------------------------------------
// Pixel operations

/// `v` toward the seed byte: a quarter of the way.
pub open spec fn tinted(v: u8, s: u8) -> u8 {
    ((3 * v + s) / 4) as u8
}

/// The tinted image: each color channel a quarter of the way toward the seed's first
/// three bytes; alpha is kept.
pub open spec fn tint_of(pixels: Seq<u8>, seed: Seq<u8>) -> Seq<u8> {
    Seq::new(pixels.len(), |i: int| if i % 4 == 3 { pixels[i] } else { tinted(pixels[i], seed[i % 4]) })
}

/// Tints an image toward a seed.
pub fn apply_reference_tint(img: &mut RgbaImage, seed: &Vec<u8>)
    requires
        seed@.len() == 32,
    ensures
        final(img).width == old(img).width,
        final(img).height == old(img).height,
        final(img).pixels@ == tint_of(old(img).pixels@, seed@),
{
    let ghost before = img.pixels@;
    let mut i: usize = 0;
    while i < img.pixels.len()
        invariant
            i <= img.pixels@.len(),
            img.width == old(img).width,
            img.height == old(img).height,
            img.pixels@.len() == before.len(),
            seed@.len() == 32,
            forall|k: int| 0 <= k < i ==> img.pixels@[k] == tint_of(before, seed@)[k],
            forall|k: int| i <= k < before.len() ==> img.pixels@[k] == before[k],
        decreases before.len() - i,
    {
        if i % 4 != 3 {
            let v = img.pixels[i];
            let s = seed[i % 4];
            let t: u8 = ((3 * (v as u16) + (s as u16)) / 4) as u8;
            img.pixels.set(i, t);
        }
        i += 1;
    }
    proof {
        assert(img.pixels@ =~= tint_of(before, seed@));
    }
}

/// The inverted image: each color channel turned to its complement; alpha is kept.
pub open spec fn inverted(pixels: Seq<u8>) -> Seq<u8> {
    Seq::new(pixels.len(), |i: int| if i % 4 == 3 { pixels[i] } else { (255 - pixels[i]) as u8 })
}

/// Inverts the colors of an image, as `image::imageops::colorops::invert` does for RGBA.
pub fn invert(img: &mut RgbaImage)
    ensures
        final(img).width == old(img).width,
        final(img).height == old(img).height,
        final(img).pixels@ == inverted(old(img).pixels@),
{
    let ghost before = img.pixels@;
    let mut i: usize = 0;
    while i < img.pixels.len()
        invariant
            i <= img.pixels@.len(),
            img.width == old(img).width,
            img.height == old(img).height,
            img.pixels@.len() == before.len(),
            forall|k: int| 0 <= k < i ==> img.pixels@[k] == inverted(before)[k],
            forall|k: int| i <= k < before.len() ==> img.pixels@[k] == before[k],
        decreases before.len() - i,
    {
        if i % 4 != 3 {
            let v = img.pixels[i];
            img.pixels.set(i, 255 - v);
        }
        i += 1;
    }
    proof {
        assert(img.pixels@ =~= inverted(before));
    }
}

/// The pixel at byte `i` is near white: its red, green and blue are each at least 240.
pub open spec fn near_white(pixels: Seq<u8>, i: int) -> bool {
    let b = i - i % 4;
    pixels[b] >= 240 && pixels[b + 1] >= 240 && pixels[b + 2] >= 240
}

/// The image with near-white pixels made transparent.
pub open spec fn background_removed(pixels: Seq<u8>) -> Seq<u8> {
    Seq::new(pixels.len(), |i: int| if i % 4 == 3 && near_white(pixels, i) { 0u8 } else { pixels[i] })
}

/// Makes the near-white pixels of an image transparent.
pub fn remove_background(img: &mut RgbaImage)
    requires
        image_wf(*old(img)),
    ensures
        final(img).width == old(img).width,
        final(img).height == old(img).height,
        final(img).pixels@ == background_removed(old(img).pixels@),
{
    let ghost before = img.pixels@;
    proof {
        let w = img.width as int;
        let h = img.height as int;
        assert(4 * w * h == (w * h) * 4) by (nonlinear_arith);
        vstd::arithmetic::div_mod::lemma_mod_multiples_basic(w * h, 4);
    }
    let mut i: usize = 0;
    while i < img.pixels.len()
        invariant
            i <= img.pixels@.len(),
            img.width == old(img).width,
            img.height == old(img).height,
            i % 4 == 0,
            before.len() % 4 == 0,
            img.pixels@.len() == before.len(),
            forall|k: int| 0 <= k < i ==> img.pixels@[k] == background_removed(before)[k],
            forall|k: int| i <= k < before.len() ==> img.pixels@[k] == before[k],
        decreases before.len() - i,
    {
        let r = img.pixels[i];
        let g = img.pixels[i + 1];
        let b = img.pixels[i + 2];
        if r >= 240 && g >= 240 && b >= 240 {
            img.pixels.set(i + 3, 0);
        }
        proof {
            assert(near_white(before, i + 3) == (r >= 240 && g >= 240 && b >= 240));
        }
        i += 4;
    }
    proof {
        assert(img.pixels@ =~= background_removed(before));
    }
}

/// Pixels of `source`, except where the mask is at least 128: there those of `fill`.
pub open spec fn masked(source: Seq<u8>, fill: Seq<u8>, mask: Seq<u8>) -> Seq<u8> {
    Seq::new(source.len(), |i: int| if mask[i / 4] >= 128 { fill[i] } else { source[i] })
}

/// Repaints the masked part of an image with the procedural pixels of a seed.
pub fn inpaint(img: &mut RgbaImage, mask: &Vec<u8>, seed: &Vec<u8>)
    requires
        image_wf(*old(img)),
        raster_size_ok(old(img).width, old(img).height),
        mask@.len() == (old(img).width as int) * (old(img).height as int),
        seed@.len() == 32,
    ensures
        final(img).width == old(img).width,
        final(img).height == old(img).height,
        final(img).pixels@ == masked(old(img).pixels@, procedural_rows(old(img).width as int, seed@, old(img).height as int), mask@),
{
    let fill = procedural_image(img.width, img.height, seed);
    let ghost before = img.pixels@;
    proof {
        let w = img.width as int;
        let h = img.height as int;
        assert(4 * w * h == (w * h) * 4) by (nonlinear_arith);
    }
    let mut i: usize = 0;
    while i < img.pixels.len()
        invariant
            i <= img.pixels@.len(),
            img.width == old(img).width,
            img.height == old(img).height,
            img.pixels@.len() == before.len(),
            fill.pixels@.len() == before.len(),
            fill.pixels@ == procedural_rows(old(img).width as int, seed@, old(img).height as int),
            mask@.len() * 4 == before.len(),
            forall|k: int| 0 <= k < i ==> img.pixels@[k] == masked(before, fill.pixels@, mask@)[k],
            forall|k: int| i <= k < before.len() ==> img.pixels@[k] == before[k],
        decreases before.len() - i,
    {
        if mask[i / 4] >= 128 {
            let v = fill.pixels[i];
            img.pixels.set(i, v);
        }
        i += 1;
    }
    proof {
        assert(img.pixels@ =~= masked(before, fill.pixels@, mask@));
    }
}

proof fn lemma_row_channel(y: int, seed: Seq<u8>, x: int, j: int, c: int)
    requires
        0 <= j < x,
        0 <= c < 4,
    ensures
        procedural_row(y, seed, x).len() == 4 * x,
        procedural_row(y, seed, x)[4 * j + c] == procedural_channel(j, y, seed, c),
    decreases x,
{
    lemma_row_len(y, seed, x);
    lemma_row_len(y, seed, x - 1);
    if j < x - 1 {
        lemma_row_channel(y, seed, x - 1, j, c);
    }
}

proof fn lemma_rows_channel(width: int, seed: Seq<u8>, h: int, x: int, y: int, c: int)
    requires
        0 <= x < width,
        0 <= y < h,
        0 <= c < 4,
    ensures
        procedural_rows(width, seed, h)[4 * (y * width + x) + c] == procedural_channel(x, y, seed, c),
    decreases h,
{
    lemma_procedural_lens(width, seed, h - 1);
    assert(4 * (y * width + x) + c == 4 * width * y + 4 * x + c) by (nonlinear_arith);
    if y < h - 1 {
        assert(4 * width * y + 4 * x + c < 4 * width * (h - 1)) by (nonlinear_arith)
            requires
                0 <= x < width,
                0 <= y < h - 1,
                0 <= c < 4,
        ;
        lemma_rows_channel(width, seed, h - 1, x, y, c);
    } else {
        lemma_row_channel(h - 1, seed, width, x, c);
        assert(4 * width * y == 4 * width * (h - 1));
    }
}

/// After an inpaint, the pixel at column `x` and row `y` of a `width` by `height`
/// image is the procedural pixel of the seed at that place where the mask value there
/// is at least 128, and keeps its color where the mask value is below 128.
pub proof fn law_inpaint_repaints_only_masked_pixels(source: Seq<u8>, mask: Seq<u8>, seed: Seq<u8>, width: int, height: int, x: int, y: int, c: int)
    requires
        source.len() == 4 * width * height,
        mask.len() == width * height,
        0 <= x < width,
        0 <= y < height,
        0 <= c < 4,
    ensures
        ({
            let out = masked(source, procedural_rows(width, seed, height), mask);
            let i = 4 * (y * width + x) + c;
            &&& 0 <= i < out.len()
            &&& mask[y * width + x] >= 128 ==> out[i] == procedural_channel(x, y, seed, c)
            &&& mask[y * width + x] < 128 ==> out[i] == source[i]
        }),
{
    let i = 4 * (y * width + x) + c;
    assert(0 <= i < 4 * width * height) by (nonlinear_arith)
        requires
            i == 4 * (y * width + x) + c,
            0 <= x < width,
            0 <= y < height,
            0 <= c < 4,
    ;
    assert(i / 4 == y * width + x);
    lemma_rows_channel(width, seed, height, x, y, c);
}

} // verus!

verus! {

use crate::text::{is_valid_id, validate_id, str_eq, char_vec, string_from_chars};
use crate::outside::{
    image_size, encoded_size, decode_rgba, decoded_rgba, decode_resampled_rgba, resampled_rgba,
    decode_resample_png, resampled_png, decode_mask, resampled_mask, encode_png, rgba_png,
};

// ---------------------------------------------------------------------------
// Outpainting

/// Channel `c` at `(x, y)` of a canvas with a source laid over it at `(ox, oy)`.
pub open spec fn overlay_channel(canvas: Seq<u8>, cw: int, src: Seq<u8>, sw: int, sh: int, ox: int, oy: int, x: int, y: int, c: int) -> u8 {
    if ox <= x < ox + sw && oy <= y < oy + sh {
        src[4 * ((y - oy) * sw + (x - ox)) + c]
    } else {
        canvas[4 * (y * cw + x) + c]
    }
}

pub open spec fn overlay_row(canvas: Seq<u8>, cw: int, src: Seq<u8>, sw: int, sh: int, ox: int, oy: int, y: int, x: int) -> Seq<u8>
    decreases x,
{
    if x <= 0 {
        seq![]
    } else {
        overlay_row(canvas, cw, src, sw, sh, ox, oy, y, x - 1) + seq![
            overlay_channel(canvas, cw, src, sw, sh, ox, oy, x - 1, y, 0),
            overlay_channel(canvas, cw, src, sw, sh, ox, oy, x - 1, y, 1),
            overlay_channel(canvas, cw, src, sw, sh, ox, oy, x - 1, y, 2),
            overlay_channel(canvas, cw, src, sw, sh, ox, oy, x - 1, y, 3),
        ]
    }
}

/// The first `y` rows of a canvas `cw` pixels wide with a `sw` by `sh` source laid over
/// it at `(ox, oy)`.
pub open spec fn overlay_rows(canvas: Seq<u8>, cw: int, src: Seq<u8>, sw: int, sh: int, ox: int, oy: int, y: int) -> Seq<u8>
    decreases y,
{
    if y <= 0 {
        seq![]
    } else {
        overlay_rows(canvas, cw, src, sw, sh, ox, oy, y - 1) + overlay_row(canvas, cw, src, sw, sh, ox, oy, y - 1, cw)
    }
}

proof fn lemma_cell_bound(a: int, n: int, b: int, m: int)
    requires
        0 <= a < n,
        0 <= b < m,
    ensures
        a * m + b < n * m,
        0 <= a * m + b,
{
    assert(a * m + b < n * m) by (nonlinear_arith)
        requires 0 <= a < n, 0 <= b < m;
    assert(0 <= a * m) by (nonlinear_arith)
        requires 0 <= a, 0 <= m;
}

proof fn lemma_overlay_lens(canvas: Seq<u8>, cw: int, src: Seq<u8>, sw: int, sh: int, ox: int, oy: int, y: int)
    requires
        cw >= 0,
        y >= 0,
    ensures
        overlay_rows(canvas, cw, src, sw, sh, ox, oy, y).len() == 4 * cw * y,
    decreases y,
{
    if y > 0 {
        lemma_overlay_row_len(canvas, cw, src, sw, sh, ox, oy, y - 1, cw);
        lemma_overlay_lens(canvas, cw, src, sw, sh, ox, oy, y - 1);
        assert(4 * cw * (y - 1) + 4 * cw == 4 * cw * y) by (nonlinear_arith);
    } else {
        assert(4 * cw * y == 0) by (nonlinear_arith)
            requires
                y == 0,
        ;
    }
}

proof fn lemma_overlay_row_len(canvas: Seq<u8>, cw: int, src: Seq<u8>, sw: int, sh: int, ox: int, oy: int, y: int, x: int)
    requires
        x >= 0,
    ensures
        overlay_row(canvas, cw, src, sw, sh, ox, oy, y, x).len() == 4 * x,
    decreases x,
{
    if x > 0 {
        lemma_overlay_row_len(canvas, cw, src, sw, sh, ox, oy, y, x - 1);
    }
}

/// The position of channel `c` of pixel `(col, row)` in an image `width` pixels wide.
fn cell_index(row: u32, col: u32, width: u32, height: u32, c: usize) -> (i: usize)
    requires
        row < height,
        col < width,
        c < 4,
        width <= MAX_RASTER_DIMENSION,
        height <= MAX_RASTER_DIMENSION,
    ensures
        i as int == 4 * ((row as int) * (width as int) + (col as int)) + c,
        (i as int) < 4 * (width as int) * (height as int),
{
    proof {
        lemma_cell_bound(row as int, height as int, col as int, width as int);
        assert((row as int) * (width as int) <= 4096 * 4096) by (nonlinear_arith)
            requires row < height, height <= 4096, width <= 4096;
        assert(4 * ((row as int) * (width as int) + (col as int)) + c < 4 * (width as int) * (height as int)) by (nonlinear_arith)
            requires (row as int) * (width as int) + (col as int) < (height as int) * (width as int), c < 4;
    }
    let cell: u64 = (row as u64) * (width as u64) + (col as u64);
    (4 * cell + (c as u64)) as usize
}

/// Lays `source` over the middle of `canvas`, pixel for pixel, alpha included.
pub fn overlay_centered(canvas: &RgbaImage, source: &RgbaImage) -> (out: RgbaImage)
    requires
        image_wf(*canvas),
        image_wf(*source),
        source.width <= canvas.width,
        source.height <= canvas.height,
        raster_size_ok(canvas.width, canvas.height),
    ensures
        out.width == canvas.width,
        out.height == canvas.height,
        image_wf(out),
        out.pixels@ == overlay_rows(canvas.pixels@, canvas.width as int, source.pixels@, source.width as int,
            source.height as int, ((canvas.width - source.width) / 2) as int, ((canvas.height - source.height) / 2) as int,
            canvas.height as int),
{
    let cw = canvas.width;
    let ch = canvas.height;
    let sw = source.width;
    let sh = source.height;
    let ox = (cw - sw) / 2;
    let oy = (ch - sh) / 2;
    let mut pixels: Vec<u8> = Vec::new();
    let mut y: u32 = 0;
    while y < ch
        invariant
            y <= ch,
            image_wf(*canvas),
            image_wf(*source),
            cw == canvas.width && ch == canvas.height && sw == source.width && sh == source.height,
            sw <= cw && sh <= ch,
            ox == (cw - sw) / 2 && oy == (ch - sh) / 2,
            raster_size_ok(cw, ch),
            pixels@ == overlay_rows(canvas.pixels@, cw as int, source.pixels@, sw as int, sh as int, ox as int, oy as int, y as int),
        decreases ch - y,
    {
        let ghost base = pixels@;
        let mut x: u32 = 0;
        while x < cw
            invariant
                x <= cw,
                y < ch,
                image_wf(*canvas),
                image_wf(*source),
                cw == canvas.width && ch == canvas.height && sw == source.width && sh == source.height,
                sw <= cw && sh <= ch,
                ox == (cw - sw) / 2 && oy == (ch - sh) / 2,
                raster_size_ok(cw, ch),
                base == overlay_rows(canvas.pixels@, cw as int, source.pixels@, sw as int, sh as int, ox as int, oy as int, y as int),
                pixels@ == base + overlay_row(canvas.pixels@, cw as int, source.pixels@, sw as int, sh as int, ox as int, oy as int, y as int, x as int),
            decreases cw - x,
        {
            let inside = ox <= x && x < ox + sw && oy <= y && y < oy + sh;
            let mut c: usize = 0;
            let ghost row_start = pixels@;
            while c < 4
                invariant
                    c <= 4,
                    x < cw && y < ch,
                    image_wf(*canvas),
                    image_wf(*source),
                    cw == canvas.width && ch == canvas.height && sw == source.width && sh == source.height,
                    sw <= cw && sh <= ch,
                    ox == (cw - sw) / 2 && oy == (ch - sh) / 2,
                    raster_size_ok(cw, ch),
                    inside == (ox <= x < ox + sw && oy <= y < oy + sh),
                    pixels@.len() == row_start.len() + c,
                    forall|k: int| 0 <= k < row_start.len() ==> pixels@[k] == row_start[k],
                    forall|k: int| 0 <= k < c ==> pixels@[row_start.len() + k] == overlay_channel(canvas.pixels@, cw as int,
                        source.pixels@, sw as int, sh as int, ox as int, oy as int, x as int, y as int, k),
                decreases 4 - c,
            {
                let v = if inside {
                    let idx = cell_index(y - oy, x - ox, sw, sh, c);
                    source.pixels[idx]
                } else {
                    let idx = cell_index(y, x, cw, ch, c);
                    canvas.pixels[idx]
                };
                pixels.push(v);
                c += 1;
            }
            proof {
                let extra = seq![
                    overlay_channel(canvas.pixels@, cw as int, source.pixels@, sw as int, sh as int, ox as int, oy as int, x as int, y as int, 0),
                    overlay_channel(canvas.pixels@, cw as int, source.pixels@, sw as int, sh as int, ox as int, oy as int, x as int, y as int, 1),
                    overlay_channel(canvas.pixels@, cw as int, source.pixels@, sw as int, sh as int, ox as int, oy as int, x as int, y as int, 2),
                    overlay_channel(canvas.pixels@, cw as int, source.pixels@, sw as int, sh as int, ox as int, oy as int, x as int, y as int, 3),
                ];
                assert(pixels@ =~= row_start + extra);
                assert(pixels@ =~= base + overlay_row(canvas.pixels@, cw as int, source.pixels@, sw as int, sh as int, ox as int, oy as int, y as int, x + 1));
            }
            x += 1;
        }
        y += 1;
    }
    proof {
        lemma_overlay_lens(canvas.pixels@, cw as int, source.pixels@, sw as int, sh as int, ox as int, oy as int, ch as int);
    }
    RgbaImage { width: cw, height: ch, pixels }
}

} // verus!

verus! {

// ---------------------------------------------------------------------------
// Rendering on the local raster backend

/// What the local raster backend can do.
#[derive(Clone, Copy, Debug, PartialEq, Eq, Structural)]
pub enum RasterCapability {
    Generate,
    ReferenceGenerate,
    Edit,
    Inpaint,
    Upscale,
    RemoveBackground,
    Outpaint,
}

pub open spec fn raster_capability_of(id: Seq<char>) -> Option<RasterCapability> {
    if id == "image.generate"@ {
        Some(RasterCapability::Generate)
    } else if id == "image.reference_generate"@ {
        Some(RasterCapability::ReferenceGenerate)
    } else if id == "image.edit"@ {
        Some(RasterCapability::Edit)
    } else if id == "image.inpaint"@ {
        Some(RasterCapability::Inpaint)
    } else if id == "image.upscale"@ {
        Some(RasterCapability::Upscale)
    } else if id == "image.remove_background"@ {
        Some(RasterCapability::RemoveBackground)
    } else if id == "image.outpaint"@ {
        Some(RasterCapability::Outpaint)
    } else {
        None
    }
}

/// The raster capability a capability identity names, if the backend has it.
pub fn raster_capability(id: &str) -> (r: Option<RasterCapability>)
    ensures
        r == raster_capability_of(id@),
{
    if str_eq(id, "image.generate") {
        Some(RasterCapability::Generate)
    } else if str_eq(id, "image.reference_generate") {
        Some(RasterCapability::ReferenceGenerate)
    } else if str_eq(id, "image.edit") {
        Some(RasterCapability::Edit)
    } else if str_eq(id, "image.inpaint") {
        Some(RasterCapability::Inpaint)
    } else if str_eq(id, "image.upscale") {
        Some(RasterCapability::Upscale)
    } else if str_eq(id, "image.remove_background") {
        Some(RasterCapability::RemoveBackground)
    } else if str_eq(id, "image.outpaint") {
        Some(RasterCapability::Outpaint)
    } else {
        None
    }
}

/// The role of a generated asset: the capability identity with `.` turned into `_`.
pub open spec fn raster_role_of(id: Seq<char>) -> Seq<char> {
    id.map_values(|c: char| if c == '.' { '_' } else { c })
}

/// The role of a generated asset.
pub fn raster_role(capability_id: &str) -> (r: String)
    ensures
        r@ == raster_role_of(capability_id@),
{
    let v = char_vec(capability_id);
    let mut out: Vec<char> = Vec::new();
    let mut i: usize = 0;
    while i < v.len()
        invariant
            i <= v.len(),
            v@ == capability_id@,
            out@ == raster_role_of(v@.take(i as int)),
        decreases v.len() - i,
    {
        out.push(if v[i] == '.' { '_' } else { v[i] });
        proof {
            assert(raster_role_of(v@.take(i + 1)) =~= raster_role_of(v@.take(i as int)).push(if v@[i as int] == '.' { '_' } else { v@[i as int] }));
        }
        i += 1;
    }
    proof {
        assert(v@.take(v.len() as int) =~= v@);
    }
    string_from_chars(&out)
}

/// The parameters a raster job gives, as read from its request: identities given as
/// text, the reference list if it is a list (each entry's text, if it is text), the
/// requested size and the prompt.
pub struct RasterParams {
    pub element_id: Option<String>,
    pub asset_id: Option<String>,
    pub mask_asset_id: Option<String>,
    pub reference_asset_ids: Option<Vec<Option<String>>>,
    pub width: DimensionParam,
    pub height: DimensionParam,
    pub prompt: Option<String>,
}

/// The project assets a render reads.
pub struct RasterSources {
    pub parent: Option<String>,
    pub mask: Option<String>,
}

pub open spec fn opt_valid(v: Option<String>) -> bool {
    v matches Some(s) ==> is_valid_id(s@)
}

/// A list of 1 to 16 references, each an identity.
pub open spec fn references_ok(refs: Option<Vec<Option<String>>>) -> bool {
    refs matches Some(v) && 1 <= v@.len() <= 16
        && forall|i: int| 0 <= i < v@.len() ==> (#[trigger] v@[i] matches Some(s) && is_valid_id(s@))
}

/// The assets a render reads, or `None` where the parameters do not name them.
pub open spec fn sources_of(cap: RasterCapability, p: RasterParams) -> Option<(Option<Seq<char>>, Option<Seq<char>>)> {
    if !opt_valid(p.element_id) {
        None
    } else {
        match cap {
            RasterCapability::Generate => Some((None, None)),
            RasterCapability::ReferenceGenerate =>
                if references_ok(p.reference_asset_ids) { Some((Some(p.reference_asset_ids->0@[0]->0@), None)) } else { None },
            RasterCapability::Inpaint => match (p.asset_id, p.mask_asset_id) {
                (Some(a), Some(m)) => if is_valid_id(a@) && is_valid_id(m@) { Some((Some(a@), Some(m@))) } else { None },
                _ => None,
            },
            _ => match p.asset_id {
                Some(a) => if is_valid_id(a@) { Some((Some(a@), None)) } else { None },
                None => None,
            },
        }
    }
}

fn opt_string(v: &Option<String>) -> (c: Option<String>)
    ensures
        c == *v,
{
    match v {
        Some(s) => Some(s.clone()),
        None => None,
    }
}

/// Which assets a render reads.
#[verifier::loop_isolation(false)]
pub fn raster_sources(cap: RasterCapability, params: &RasterParams) -> (r: Result<RasterSources, McpError>)
    ensures
        match r {
            Ok(s) => sources_of(cap, *params) == Some((
                match s.parent { Some(x) => Some(x@), None => None::<Seq<char>> },
                match s.mask { Some(x) => Some(x@), None => None::<Seq<char>> })),
            Err(e) => e is InvalidRequest && sources_of(cap, *params) is None,
        },
{
    if let Some(e) = &params.element_id {
        validate_id(e.as_str(), "element_id")?;
    }
    match cap {
        RasterCapability::Generate => Ok(RasterSources { parent: None, mask: None }),
        RasterCapability::ReferenceGenerate => {
            let refs = match &params.reference_asset_ids {
                Some(v) => v,
                None => { return Err(invalid("creative reference_asset_ids is required")); },
            };
            if refs.len() < 1 || refs.len() > 16 {
                return Err(invalid("creative reference_asset_ids count exceeds allowed bounds"));
            }
            let mut i: usize = 0;
            while i < refs.len()
                invariant
                    i <= refs.len(),
                    forall|k: int| 0 <= k < i ==> (#[trigger] refs@[k] matches Some(s) && is_valid_id(s@)),
                decreases refs.len() - i,
            {
                match &refs[i] {
                    Some(s) => { validate_id(s.as_str(), "reference_asset_ids")?; },
                    None => { return Err(invalid("creative reference_asset_ids is invalid")); },
                }
                i += 1;
            }
            let first = opt_string(&refs[0]);
            Ok(RasterSources { parent: first, mask: None })
        },
        RasterCapability::Inpaint => {
            let a = match &params.asset_id {
                Some(a) => a,
                None => { return Err(invalid("creative asset_id is required")); },
            };
            validate_id(a.as_str(), "asset_id")?;
            let m = match &params.mask_asset_id {
                Some(m) => m,
                None => { return Err(invalid("creative mask_asset_id is required")); },
            };
            validate_id(m.as_str(), "mask_asset_id")?;
            Ok(RasterSources { parent: Some(a.clone()), mask: Some(m.clone()) })
        },
        _ => {
            let a = match &params.asset_id {
                Some(a) => a,
                None => { return Err(invalid("creative asset_id is required")); },
            };
            validate_id(a.as_str(), "asset_id")?;
            Ok(RasterSources { parent: Some(a.clone()), mask: None })
        },
    }
}

/// The image an asset holds, checked by its declared size before it is decoded.
pub open spec fn loaded(bytes: Seq<u8>) -> Option<(u32, u32, Seq<u8>)> {
    match encoded_size(bytes) {
        Some((w, h)) => if raster_size_ok(w, h) { decoded_rgba(bytes) } else { None },
        None => None,
    }
}

/// Loads the image of an asset from its file's bytes.
pub fn load_asset_image(bytes: &[u8]) -> (r: Result<RgbaImage, McpError>)
    ensures
        match r {
            Ok(img) => loaded(bytes@) == Some((img.width, img.height, img.pixels@)) && image_wf(img),
            Err(e) => e is InvalidRequest && loaded(bytes@) is None,
        },
{
    let (w, h) = match image_size(bytes) {
        Some(d) => d,
        None => { return Err(invalid("image dimensions are invalid")); },
    };
    enforce_dimensions(w, h)?;
    match decode_rgba(bytes) {
        Some(img) => Ok(img),
        None => Err(invalid("image asset could not be decoded")),
    }
}

pub open spec fn opt_text(v: Option<String>) -> Option<Seq<char>> {
    match v { Some(s) => Some(s@), None => None }
}

/// The size a request asks for, if the backend accepts it.
pub open spec fn size_asked(p: RasterParams, dw: u32, dh: u32) -> Option<(u32, u32)> {
    match (param_dimension(p.width, dw), param_dimension(p.height, dh)) {
        (Some(w), Some(h)) => if raster_size_ok(w, h) { Some((w, h)) } else { None },
        _ => None,
    }
}

/// A render's outcome, kept only where its size is one the backend accepts.
pub open spec fn sized(o: Option<(u32, u32, Seq<u8>)>) -> Option<(u32, u32, Seq<u8>)> {
    match o {
        Some((w, h, png)) => if raster_size_ok(w, h) { Some((w, h, png)) } else { None },
        None => None,
    }
}

pub open spec fn encoded(w: u32, h: u32, px: Seq<u8>) -> Option<(u32, u32, Seq<u8>)> {
    match rgba_png(w, h, px) {
        Some(png) => Some((w, h, png)),
        None => None,
    }
}

pub open spec fn generate_output(p: RasterParams, seed: Seq<u8>) -> Option<(u32, u32, Seq<u8>)> {
    match size_asked(p, DEFAULT_GENERATED_DIMENSION, DEFAULT_GENERATED_DIMENSION) {
        Some((w, h)) => encoded(w, h, procedural_rows(w as int, seed, h as int)),
        None => None,
    }
}

pub open spec fn reference_output(p: RasterParams, seed: Seq<u8>, source: Seq<u8>) -> Option<(u32, u32, Seq<u8>)> {
    match loaded(source) {
        Some((sw, sh, _)) => match size_asked(p, sw, sh) {
            Some((w, h)) => match resampled_rgba(source, w, h) {
                Some(px) => encoded(w, h, tint_of(px, seed)),
                None => None,
            },
            None => None,
        },
        None => None,
    }
}

pub open spec fn edit_output(source: Seq<u8>) -> Option<(u32, u32, Seq<u8>)> {
    match loaded(source) {
        Some((w, h, px)) => encoded(w, h, inverted(px)),
        None => None,
    }
}

pub open spec fn remove_background_output(source: Seq<u8>) -> Option<(u32, u32, Seq<u8>)> {
    match loaded(source) {
        Some((w, h, px)) => encoded(w, h, background_removed(px)),
        None => None,
    }
}

pub open spec fn inpaint_output(seed: Seq<u8>, source: Seq<u8>, mask: Seq<u8>) -> Option<(u32, u32, Seq<u8>)> {
    match loaded(source) {
        Some((w, h, px)) => if !raster_size_ok(w, h) { None } else {
            match loaded(mask) {
                Some(_) => match resampled_mask(mask, w, h) {
                    Some(m) => encoded(w, h, masked(px, procedural_rows(w as int, seed, h as int), m)),
                    None => None,
                },
                None => None,
            }
        },
        None => None,
    }
}

pub open spec fn upscale_output(p: RasterParams, source: Seq<u8>) -> Option<(u32, u32, Seq<u8>)> {
    match loaded(source) {
        Some((sw, sh, _)) => match size_asked(p, sw, sh) {
            Some((w, h)) => if w < sw || h < sh { None } else {
                match resampled_png(source, w, h) {
                    Some(png) => Some((w, h, png)),
                    None => None,
                }
            },
            None => None,
        },
        None => None,
    }
}

pub open spec fn outpaint_output(p: RasterParams, seed: Seq<u8>, source: Seq<u8>) -> Option<(u32, u32, Seq<u8>)> {
    match loaded(source) {
        Some((sw, sh, px)) => match size_asked(p, sw, sh) {
            Some((w, h)) => if w < sw || h < sh { None } else {
                encoded(w, h, overlay_rows(procedural_rows(w as int, seed, h as int), w as int, px, sw as int, sh as int,
                    ((w - sw) / 2) as int, ((h - sh) / 2) as int, h as int))
            },
            None => None,
        },
        None => None,
    }
}

/// What a render yields, as width, height and PNG bytes, or `None` where it fails.
/// `source` and `mask` are the bytes of the assets the render reads.
pub open spec fn raster_output(cap: RasterCapability, p: RasterParams, source: Seq<u8>, mask: Seq<u8>) -> Option<(u32, u32, Seq<u8>)> {
    let seed = prompt_seed_of(opt_text(p.prompt));
    sized(match cap {
        RasterCapability::Generate => generate_output(p, seed),
        RasterCapability::ReferenceGenerate => reference_output(p, seed, source),
        RasterCapability::Edit => edit_output(source),
        RasterCapability::RemoveBackground => remove_background_output(source),
        RasterCapability::Inpaint => inpaint_output(seed, source, mask),
        RasterCapability::Upscale => upscale_output(p, source),
        RasterCapability::Outpaint => outpaint_output(p, seed, source),
    })
}


pub open spec fn rendered_is(r: Result<(u32, u32, Vec<u8>), McpError>, o: Option<(u32, u32, Seq<u8>)>) -> bool {
    match r {
        Ok((w, h, png)) => o == Some((w, h, png@)),
        Err(e) => o is None && e is InvalidRequest,
    }
}

fn render_generate(params: &RasterParams, seed: &Vec<u8>) -> (r: Result<(u32, u32, Vec<u8>), McpError>)
    requires
        seed@.len() == 32,
    ensures
        rendered_is(r, generate_output(*params, seed@)),
{
    let (w, h) = requested_dimensions(params.width, params.height, DEFAULT_GENERATED_DIMENSION, DEFAULT_GENERATED_DIMENSION)?;
    let img = procedural_image(w, h, seed);
    let png = png_or_error(&img)?;
    Ok((w, h, png))
}

fn render_reference(params: &RasterParams, seed: &Vec<u8>, source: &[u8]) -> (r: Result<(u32, u32, Vec<u8>), McpError>)
    requires
        seed@.len() == 32,
    ensures
        rendered_is(r, reference_output(*params, seed@, source@)),
{
    let src = load_asset_image(source)?;
    let (w, h) = requested_dimensions(params.width, params.height, src.width, src.height)?;
    let mut img = match decode_resampled_rgba(source, w, h) {
        Some(i) => i,
        None => { return Err(invalid("image asset could not be decoded")); },
    };
    apply_reference_tint(&mut img, seed);
    let png = png_or_error(&img)?;
    Ok((w, h, png))
}

fn render_edit(source: &[u8]) -> (r: Result<(u32, u32, Vec<u8>), McpError>)
    ensures
        rendered_is(r, edit_output(source@)),
{
    let mut img = load_asset_image(source)?;
    invert(&mut img);
    let png = png_or_error(&img)?;
    Ok((img.width, img.height, png))
}

fn render_remove_background(source: &[u8]) -> (r: Result<(u32, u32, Vec<u8>), McpError>)
    ensures
        rendered_is(r, remove_background_output(source@)),
{
    let mut img = load_asset_image(source)?;
    remove_background(&mut img);
    let png = png_or_error(&img)?;
    Ok((img.width, img.height, png))
}

fn render_inpaint(seed: &Vec<u8>, source: &[u8], mask: &[u8]) -> (r: Result<(u32, u32, Vec<u8>), McpError>)
    requires
        seed@.len() == 32,
    ensures
        rendered_is(r, inpaint_output(seed@, source@, mask@)),
{
    let mut img = load_asset_image(source)?;
    enforce_dimensions(img.width, img.height)?;
    let _checked = load_asset_image(mask)?;
    let m = match decode_mask(mask, img.width, img.height) {
        Some(m) => m,
        None => { return Err(invalid("image asset could not be decoded")); },
    };
    inpaint(&mut img, &m, seed);
    let png = png_or_error(&img)?;
    Ok((img.width, img.height, png))
}

fn render_upscale(params: &RasterParams, source: &[u8]) -> (r: Result<(u32, u32, Vec<u8>), McpError>)
    ensures
        rendered_is(r, upscale_output(*params, source@)),
{
    let src = load_asset_image(source)?;
    let (w, h) = requested_dimensions(params.width, params.height, src.width, src.height)?;
    if w < src.width || h < src.height {
        return Err(invalid("image upscale dimensions cannot shrink the source"));
    }
    match decode_resample_png(source, w, h) {
        Some(p) => Ok((w, h, p)),
        None => Err(invalid("image encoding failed")),
    }
}

fn render_outpaint(params: &RasterParams, seed: &Vec<u8>, source: &[u8]) -> (r: Result<(u32, u32, Vec<u8>), McpError>)
    requires
        seed@.len() == 32,
    ensures
        rendered_is(r, outpaint_output(*params, seed@, source@)),
{
    let src = load_asset_image(source)?;
    let (w, h) = requested_dimensions(params.width, params.height, src.width, src.height)?;
    if w < src.width || h < src.height {
        return Err(invalid("image outpaint dimensions cannot shrink the source"));
    }
    let canvas = procedural_image(w, h, seed);
    let out = overlay_centered(&canvas, &src);
    let png = png_or_error(&out)?;
    Ok((w, h, png))
}

/// A rendered image and how it is registered.
pub struct RenderedRaster {
    pub bytes: Vec<u8>,
    pub width: u32,
    pub height: u32,
    pub role: String,
    pub parent_asset_id: Option<String>,
    pub element_id: Option<String>,
}

fn png_or_error(img: &RgbaImage) -> (r: Result<Vec<u8>, McpError>)
    ensures
        match r {
            Ok(png) => rgba_png(img.width, img.height, img.pixels@) == Some(png@),
            Err(e) => e is InvalidRequest && rgba_png(img.width, img.height, img.pixels@) is None,
        },
{
    match encode_png(img) {
        Some(png) => Ok(png),
        None => Err(invalid("image encoding failed")),
    }
}

/// Renders on the local raster backend from the bytes of the assets it reads.
pub fn render_raster(
    cap: RasterCapability,
    capability_id: &str,
    params: &RasterParams,
    sources: &RasterSources,
    source: &[u8],
    mask: &[u8],
) -> (r: Result<RenderedRaster, McpError>)
    ensures
        match r {
            Ok(out) => raster_output(cap, *params, source@, mask@) == Some((out.width, out.height, out.bytes@))
                && raster_size_ok(out.width, out.height)
                && out.role@ == raster_role_of(capability_id@)
                && out.parent_asset_id == sources.parent
                && out.element_id == params.element_id,
            Err(e) => raster_output(cap, *params, source@, mask@) is None && e is InvalidRequest,
        },
{
    let seed = match &params.prompt {
        Some(p) => prompt_seed(Some(p.as_str())),
        None => prompt_seed(None),
    };
    let rendered = match cap {
        RasterCapability::Generate => render_generate(params, &seed),
        RasterCapability::ReferenceGenerate => render_reference(params, &seed, source),
        RasterCapability::Edit => render_edit(source),
        RasterCapability::RemoveBackground => render_remove_background(source),
        RasterCapability::Inpaint => render_inpaint(&seed, source, mask),
        RasterCapability::Upscale => render_upscale(params, source),
        RasterCapability::Outpaint => render_outpaint(params, &seed, source),
    };
    let (width, height, bytes) = match rendered {
        Ok(x) => x,
        Err(e) => { return Err(e); },
    };
    enforce_dimensions(width, height)?;
    Ok(RenderedRaster {
        bytes,
        width,
        height,
        role: raster_role(capability_id),
        parent_asset_id: opt_string(&sources.parent),
        element_id: opt_string(&params.element_id),
    })
}

} // verus!

verus! {

use crate::jobs::{first_refusal, lemma_first_refusal_prefix, lemma_first_refusal_step, CreativeJobKind, CreativeJobRecord, CreativeJobStatus, NodeRunRecord};
use crate::text::{byte_len, has_control, contains_control, distinct_views, distinct_strings, id_rule};
use crate::blender_ops::{decimal, int_text};

pub const MAX_VARIANTS: usize = 32;
pub const MAX_VARIANT_LABEL_BYTES: usize = 96;

/// The capability a raster job runs: a capability job's own, a workflow job's single
/// required capability, and none for a graph job.
pub open spec fn raster_job_capability_of(job: CreativeJobRecord, workflow_capabilities: Option<Seq<String>>) -> Option<Seq<char>> {
    match job.kind {
        CreativeJobKind::Capability => match job.capability_id { Some(c) => Some(c@), None => None },
        CreativeJobKind::Workflow => match workflow_capabilities {
            Some(caps) => if caps.len() == 1 { Some(caps[0]@) } else { None },
            None => None,
        },
        CreativeJobKind::Graph => None,
    }
}

/// The capability a raster job runs; `workflow_capabilities` are those its workflow
/// requires, where the registry knows the workflow.
pub fn raster_job_capability(job: &CreativeJobRecord, workflow_capabilities: Option<&Vec<String>>) -> (r: Option<String>)
    ensures
        match r {
            Some(c) => raster_job_capability_of(*job, match workflow_capabilities { Some(v) => Some(v@), None => None }) == Some(c@),
            None => raster_job_capability_of(*job, match workflow_capabilities { Some(v) => Some(v@), None => None }) is None,
        },
{
    match job.kind {
        CreativeJobKind::Capability => match &job.capability_id {
            Some(c) => Some(c.clone()),
            None => None,
        },
        CreativeJobKind::Workflow => match workflow_capabilities {
            Some(caps) => if caps.len() == 1 { Some(caps[0].clone()) } else { None },
            None => None,
        },
        CreativeJobKind::Graph => None,
    }
}

/// Where a raster job's output goes in the workspace.
pub fn generated_asset_path(project_id: &str, job_id: &str) -> (p: String)
    ensures
        p@ == "creative/"@ + project_id@ + "/assets/generated/"@ + job_id@ + ".png"@,
{
    let mut p = String::from_str("creative/");
    p.append(project_id);
    p.append("/assets/generated/");
    p.append(job_id);
    p.append(".png");
    p
}

/// A job that produced more than the output budget fails without output.
pub fn fail_oversized_output(job: &mut CreativeJobRecord, output_bytes: u64, now: u128)
    ensures
        final(job).status == CreativeJobStatus::Failed,
        final(job).failure_code matches Some(c) && c@ == "output_too_large"@,
        final(job).actual_output_bytes == Some(output_bytes),
        final(job).updated_at_ms == now,
        final(job).output_asset_ids == old(job).output_asset_ids,
        final(job).node_runs == old(job).node_runs,
        final(job).job_id == old(job).job_id,
        final(job).owner == old(job).owner,
        *final(job) == (CreativeJobRecord {
            status: CreativeJobStatus::Failed,
            failure_code: final(job).failure_code,
            actual_output_bytes: Some(output_bytes),
            updated_at_ms: now,
            ..*old(job)
        }),
{
    job.status = CreativeJobStatus::Failed;
    job.failure_code = Some(String::from_str("output_too_large"));
    job.actual_output_bytes = Some(output_bytes);
    job.updated_at_ms = now;
}

/// A raster job that registered its output completes with that one asset.
pub fn complete_with_asset(job: &mut CreativeJobRecord, asset_id: String, output_bytes: u64, now: u128)
    ensures
        final(job).status == CreativeJobStatus::Completed,
        final(job).failure_code is None,
        final(job).output_asset_ids@.len() == 1,
        final(job).output_asset_ids@[0] == asset_id,
        final(job).actual_output_bytes == Some(output_bytes),
        final(job).updated_at_ms == now,
        final(job).node_runs == old(job).node_runs,
        final(job).job_id == old(job).job_id,
        final(job).owner == old(job).owner,
        *final(job) == (CreativeJobRecord {
            status: CreativeJobStatus::Completed,
            failure_code: None,
            output_asset_ids: final(job).output_asset_ids,
            actual_output_bytes: Some(output_bytes),
            updated_at_ms: now,
            ..*old(job)
        }),
{
    let mut outputs: Vec<String> = Vec::new();
    outputs.push(asset_id);
    job.status = CreativeJobStatus::Completed;
    job.output_asset_ids = outputs;
    job.failure_code = None;
    job.actual_output_bytes = Some(output_bytes);
    job.updated_at_ms = now;
}

/// Why a reference workflow refuses its style element, if it does: the identity must
/// be valid and name a Style Element of the project.
pub open spec fn style_reference_refusal(es: Seq<ElementRecord>, style: Seq<char>) -> Option<Seq<char>> {
    if !is_valid_id(style) {
        Some("style_element_id"@ + id_rule())
    } else {
        match element_index(es, style) {
            None => Some("unknown style element"@),
            Some(i) => if es[i].kind == ElementKind::Style { None } else {
                Some("style_element_id must reference a Style Element"@)
            },
        }
    }
}

/// Checks the optional style element of a reference workflow against the project.
pub fn check_style_reference(es: &Vec<ElementRecord>, style_element_id: Option<&str>) -> (r: Result<(), McpError>)
    ensures
        match style_element_id {
            None => r is Ok,
            Some(s) => match style_reference_refusal(es@, s@) {
                None => r is Ok,
                Some(m) => r matches Err(e) && invalid_with(e, m),
            },
        },
{
    match style_element_id {
        None => Ok(()),
        Some(s) => {
            validate_id(s, "style_element_id")?;
            match find_element(es, s) {
                None => Err(invalid("unknown style element")),
                Some(i) => {
                    if es[i].kind == ElementKind::Style {
                        Ok(())
                    } else {
                        Err(invalid("style_element_id must reference a Style Element"))
                    }
                },
            }
        },
    }
}

/// A reference workflow that registered every variant completes with those assets, in
/// order, and one completed node run per variant.
pub fn complete_with_variants(
    job: &mut CreativeJobRecord,
    asset_ids: Vec<String>,
    node_runs: Vec<NodeRunRecord>,
    output_bytes: u64,
    now: u128,
)
    ensures
        *final(job) == (CreativeJobRecord {
            status: CreativeJobStatus::Completed,
            failure_code: None,
            output_asset_ids: asset_ids,
            node_runs: node_runs,
            actual_output_bytes: Some(output_bytes),
            updated_at_ms: now,
            ..*old(job)
        }),
{
    job.status = CreativeJobStatus::Completed;
    job.failure_code = None;
    job.output_asset_ids = asset_ids;
    job.node_runs = node_runs;
    job.actual_output_bytes = Some(output_bytes);
    job.updated_at_ms = now;
}

/// The reference workflows the raster backend runs: the request field holding the
/// variant labels, the role of the outputs and the kind of variant.
pub open spec fn reference_workflow_of(workflow_id: Seq<char>) -> Option<(Seq<char>, Seq<char>, Seq<char>)> {
    if workflow_id == "character_turnaround"@ {
        Some(("views"@, "character_reference_interpreted"@, "view"@))
    } else if workflow_id == "expression_sheet"@ {
        Some(("expressions"@, "character_expression_interpreted"@, "expression"@))
    } else {
        None
    }
}

/// How a reference workflow's outputs are labelled and registered.
pub struct ReferenceWorkflow {
    pub label_field: String,
    pub role: String,
    pub variant_kind: String,
}

/// The reference workflow a workflow identity names, if the raster backend runs it.
pub fn reference_workflow(workflow_id: &str) -> (r: Option<ReferenceWorkflow>)
    ensures
        match r {
            Some(w) => reference_workflow_of(workflow_id@) == Some((w.label_field@, w.role@, w.variant_kind@)),
            None => reference_workflow_of(workflow_id@) is None,
        },
{
    if str_eq(workflow_id, "character_turnaround") {
        Some(ReferenceWorkflow {
            label_field: String::from_str("views"),
            role: String::from_str("character_reference_interpreted"),
            variant_kind: String::from_str("view"),
        })
    } else if str_eq(workflow_id, "expression_sheet") {
        Some(ReferenceWorkflow {
            label_field: String::from_str("expressions"),
            role: String::from_str("character_expression_interpreted"),
            variant_kind: String::from_str("expression"),
        })
    } else {
        None
    }
}

/// `"creative " + field + tail`, as the refusals about a request field read.
pub open spec fn field_message(field: Seq<char>, tail: Seq<char>) -> Seq<char> {
    "creative "@ + field + tail
}

fn field_message_text(field: &str, tail: &str) -> (m: String)
    ensures
        m@ == field_message(field@, tail@),
{
    let mut m = String::from_str("creative ");
    m.append(field);
    m.append(tail);
    m
}

/// A variant label, given the labels before it: text of 1 to 96 bytes without control
/// characters that no earlier label repeats.
pub open spec fn label_check(field: Seq<char>) -> spec_fn(Seq<Option<String>>, Option<String>) -> Option<Seq<char>> {
    |before: Seq<Option<String>>, label: Option<String>| match label {
        None => Some(field_message(field, " is invalid"@)),
        Some(s) => if s@.len() == 0 || byte_len(s@) > MAX_VARIANT_LABEL_BYTES || has_control(s@)
            || exists|j: int| 0 <= j < before.len() && ((#[trigger] before[j]) matches Some(t) && t@ == s@) {
            Some(field_message(field, " label is invalid or duplicated"@))
        } else {
            None
        },
    }
}

/// Why the variant labels in request field `field` are refused, if they are: missing,
/// not 1 to 32 of them, or the first label that is not text or is not a valid new label.
pub open spec fn labels_refusal(labels: Option<Seq<Option<String>>>, field: Seq<char>) -> Option<Seq<char>> {
    match labels {
        None => Some(field_message(field, " is required"@)),
        Some(v) => if v.len() == 0 || v.len() > MAX_VARIANTS {
            Some(field_message(field, " count exceeds allowed bounds"@))
        } else {
            first_refusal(v, label_check(field))
        },
    }
}

/// Checks the variant labels of request field `field`, given as a list if it is one,
/// each entry's text if it is text; gives back the labels.
#[verifier::loop_isolation(false)]
pub fn variant_labels(labels: Option<&Vec<Option<String>>>, field: &str) -> (r: Result<Vec<String>, McpError>)
    ensures
        r is Ok <==> labels_refusal(match labels { Some(l) => Some(l@), None => None }, field@) is None,
        r matches Ok(v) ==> v@.len() == labels->0@.len()
            && forall|i: int| 0 <= i < v@.len() ==> Some(#[trigger] v@[i]) == labels->0@[i],
        r matches Err(e) ==> (labels_refusal(match labels { Some(l) => Some(l@), None => None }, field@) matches Some(m)
            && invalid_with(e, m)),
{
    let list = match labels {
        Some(l) => l,
        None => { return Err(invalid(field_message_text(field, " is required").as_str())); },
    };
    if list.len() == 0 || list.len() > MAX_VARIANTS {
        return Err(invalid(field_message_text(field, " count exceeds allowed bounds").as_str()));
    }
    let mut out: Vec<String> = Vec::new();
    let mut i: usize = 0;
    while i < list.len()
        invariant
            i <= list.len(),
            1 <= list.len() <= MAX_VARIANTS,
            out@.len() == i,
            forall|k: int| 0 <= k < i ==> Some(#[trigger] out@[k]) == list@[k],
            first_refusal(list@.take(i as int), label_check(field@)) is None,
        decreases list.len() - i,
    {
        proof {
            lemma_first_refusal_step(list@, i as int, label_check(field@));
        }
        let ghost before = list@.take(i as int);
        let label = match &list[i] {
            Some(s) => s,
            None => {
                proof {
                    lemma_first_refusal_prefix(list@, i + 1, label_check(field@));
                }
                return Err(invalid(field_message_text(field, " is invalid").as_str()));
            },
        };
        let bad = label.as_str().is_empty() || label.as_str().len() > MAX_VARIANT_LABEL_BYTES || contains_control(label.as_str());
        let repeated = crate::text::contains_str(&out, label.as_str());
        proof {
            if repeated {
                let k = choose|k: int| 0 <= k < out@.len() && (#[trigger] out@[k])@ == label@;
                assert(before[k] == list@[k]);
                assert(before[k] matches Some(t) && t@ == label@);
            } else {
                assert forall|j: int| 0 <= j < before.len() implies !((#[trigger] before[j]) matches Some(t) && t@ == label@) by {
                    assert(before[j] == list@[j]);
                    assert(Some(out@[j]) == list@[j]);
                }
            }
        }
        if bad || repeated {
            proof {
                lemma_first_refusal_prefix(list@, i + 1, label_check(field@));
            }
            return Err(invalid(field_message_text(field, " label is invalid or duplicated").as_str()));
        }
        out.push(label.clone());
        i += 1;
    }
    proof {
        assert(list@.take(i as int) =~= list@);
    }
    Ok(out)
}

/// `n` with at least three digits, zero-padded.
pub open spec fn padded3(n: nat) -> Seq<char> {
    let d = decimal(n);
    if d.len() >= 3 { d } else if d.len() == 2 { seq!['0'] + d } else { seq!['0', '0'] + d }
}

/// The node of a workflow's `index`th variant, as `variant_{index:03}`.
pub fn variant_node_id(index: usize) -> (r: String)
    ensures
        r@ == "variant_"@ + padded3(index as nat),
{
    let digits = crate::blender_ops::uint_to_text(index as u64);
    let mut r = String::from_str("variant_");
    let n = char_vec(digits.as_str()).len();
    if n == 1 {
        r.append("00");
    } else if n == 2 {
        r.append("0");
    }
    r.append(digits.as_str());
    proof {
        reveal_strlit("00");
        reveal_strlit("0");
        let d = decimal(index as nat);
        assert(digits@ == d);
        if n == 1 {
            assert("00"@ =~= seq!['0', '0']);
        } else if n == 2 {
            assert("0"@ =~= seq!['0']);
        }
    }
    r
}

/// Where a reference workflow's variant goes in the workspace.
pub fn variant_asset_path(project_id: &str, job_id: &str, node_id: &str) -> (p: String)
    ensures
        p@ == "creative/"@ + project_id@ + "/assets/generated/"@ + job_id@ + "/"@ + node_id@ + ".png"@,
{
    let mut p = String::from_str("creative/");
    p.append(project_id);
    p.append("/assets/generated/");
    p.append(job_id);
    p.append("/");
    p.append(node_id);
    p.append(".png");
    p
}

/// A variant of a reference: the source at its own size, tinted toward the variant's
/// seed, as PNG.
pub open spec fn variant_output(source: Seq<u8>, seed: Seq<u8>) -> Option<(u32, u32, Seq<u8>)> {
    match loaded(source) {
        Some((w, h, px)) => if raster_size_ok(w, h) { encoded(w, h, tint_of(px, seed)) } else { None },
        None => None,
    }
}

/// Renders one variant of a reference workflow.
pub fn render_variant(source: &[u8], prompt: Option<&str>, workflow_id: &str, label: &str, index: usize) -> (r: Result<(u32, u32, Vec<u8>), McpError>)
    ensures
        rendered_is(r, variant_output(source@, sha256_of(variant_seed_input(
            match prompt { Some(p) => Some(p@), None => None }, workflow_id@, label@, index as nat)))),
{
    let mut img = load_asset_image(source)?;
    enforce_dimensions(img.width, img.height)?;
    let seed = variant_seed(prompt, workflow_id, label, index);
    apply_reference_tint(&mut img, &seed);
    let png = png_or_error(&img)?;
    Ok((img.width, img.height, png))
}

/// Adds a variant's bytes to a workflow's output total; `false` where the total passes
/// the job's output budget.
pub fn within_output_budget(total: &mut u64, variant_bytes: u64, max: u64) -> (ok: bool)
    ensures
        *final(total) == (if *old(total) + variant_bytes > u64::MAX { u64::MAX } else { (*old(total) + variant_bytes) as u64 }),
        ok == (*final(total) <= max),
{
    *total = total.saturating_add(variant_bytes);
    *total <= max
}

} // verus!
