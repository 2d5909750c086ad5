use vstd::prelude::*;
use base64::Engine;
use crate::text::hex_digit;

verus! {

/// `c` is a lowercase hexadecimal digit.
pub open spec fn is_lower_hex_char(c: char) -> bool {
    ('0' <= c && c <= '9') || ('a' <= c && c <= 'f')
}

pub open spec fn is_lower_hex(s: Seq<char>) -> bool {
    forall|i: int| 0 <= i < s.len() ==> is_lower_hex_char(#[trigger] s[i])
}

/// The SHA-256 digest of `data`, as `ring` computes it.
pub uninterp spec fn sha256_of(data: Seq<u8>) -> Seq<u8>;

/// The character of the 6-bit value `n` in the URL-safe base64 alphabet.
pub open spec fn base64_url_char(n: int) -> char {
    if n < 26 {
        ('A' as int + n) as char
    } else if n < 52 {
        ('a' as int + n - 26) as char
    } else if n < 62 {
        ('0' as int + n - 52) as char
    } else if n == 62 {
        '-'
    } else {
        '_'
    }
}

/// The URL-safe base64 text of `data` without padding: each group of three bytes gives
/// four characters, a final pair three and a final byte two.
pub open spec fn base64_url_no_pad(data: Seq<u8>) -> Seq<char>
    decreases data.len(),
{
    if data.len() == 0 {
        seq![]
    } else if data.len() == 1 {
        let b0 = data[0] as int;
        seq![base64_url_char(b0 / 4), base64_url_char((b0 % 4) * 16)]
    } else if data.len() == 2 {
        let b0 = data[0] as int;
        let b1 = data[1] as int;
        seq![base64_url_char(b0 / 4), base64_url_char((b0 % 4) * 16 + b1 / 16), base64_url_char((b1 % 16) * 4)]
    } else {
        let b0 = data[0] as int;
        let b1 = data[1] as int;
        let b2 = data[2] as int;
        seq![
            base64_url_char(b0 / 4),
            base64_url_char((b0 % 4) * 16 + b1 / 16),
            base64_url_char((b1 % 16) * 4 + b2 / 64),
            base64_url_char(b2 % 64),
        ] + base64_url_no_pad(data.skip(3))
    }
}

/// The last path segment of `url`, as `url` parses it: `None` where the text is not a
/// URL or the URL cannot be a base.
pub uninterp spec fn url_last_segment(url: Seq<char>) -> Option<Seq<char>>;

/// `std::time::SystemTime`, carried through opaque.
#[verifier::external_type_specification]
#[verifier::external_body]
pub struct ExSystemTime(std::time::SystemTime);

/// `SystemTime::now()`: the wall clock. Nothing is promised of the value.
#[verifier::external_body]
fn system_now() -> (t: std::time::SystemTime) {
    std::time::SystemTime::now()
}

/// `t.duration_since(UNIX_EPOCH)`: the time since the Unix epoch, or `None` for a time
/// before it. Which it is depends on the clock's value and is left open.
#[verifier::external_body]
fn since_unix_epoch(t: &std::time::SystemTime) -> (d: Option<core::time::Duration>) {
    t.duration_since(std::time::UNIX_EPOCH).ok()
}

/// `Duration::as_millis`: the whole milliseconds of a duration. The duration is opaque
/// here, so nothing is stated of the number.
#[verifier::external_body]
fn whole_millis(d: &core::time::Duration) -> (ms: u128) {
    d.as_millis()
}

/// The wall clock: milliseconds since the Unix epoch, or 0 for a clock set before it.
/// Nothing is promised of the value; it depends on the time.
pub fn now_ms() -> (ms: u128) {
    let t = system_now();
    match since_unix_epoch(&t) {
        Some(d) => whole_millis(&d),
        None => 0,
    }
}

/// `uuid::Uuid::new_v4().simple()` as text: a fresh random identifier, rendered by the
/// crate as exactly 32 lowercase hexadecimal digits. Which digits is left open.
#[verifier::external_body]
pub(crate) fn random_simple_uuid() -> (s: String)
    ensures
        s@.len() == 32,
        is_lower_hex(s@),
{
    uuid::Uuid::new_v4().simple().to_string()
}

/// `ring::digest::digest(&SHA256, data)`: the 32 bytes of the SHA-256 digest of `data`.
#[verifier::external_body]
pub(crate) fn sha256_digest(data: &[u8]) -> (d: Vec<u8>)
    ensures
        d@ == sha256_of(data@),
        d@.len() == 32,
{
    ring::digest::digest(&ring::digest::SHA256, data).as_ref().to_vec()
}

/// `base64::engine::general_purpose::URL_SAFE_NO_PAD.encode(data)`.
#[verifier::external_body]
pub(crate) fn encode_base64_url(data: &[u8]) -> (s: String)
    ensures
        s@ == base64_url_no_pad(data@),
{
    base64::engine::general_purpose::URL_SAFE_NO_PAD.encode(data)
}

/// `reqwest::Url::parse(url)` and then the last of its `path_segments()`, if any.
#[verifier::external_body]
pub(crate) fn last_path_segment(url: &str) -> (r: Option<String>)
    ensures
        match r {
            Some(s) => url_last_segment(url@) == Some(s@),
            None => url_last_segment(url@) is None,
        },
{
    reqwest::Url::parse(url).ok().and_then(|parsed| parsed.path_segments().and_then(|mut s| s.next_back()).map(str::to_owned))
}

/// How `serde_json` writes one character inside a JSON string: `"` and `\` behind a
/// backslash; backspace, tab, line feed, form feed and carriage return as `\b`, `\t`,
/// `\n`, `\f`, `\r`; other control codes below 0x20 as `\u00` and two lowercase hex
/// digits; every other character as it is.
pub open spec fn json_escape(c: char) -> Seq<char> {
    let u = c as u32;
    if c == '"' {
        seq!['\\', '"']
    } else if c == '\\' {
        seq!['\\', '\\']
    } else if u == 8 {
        seq!['\\', 'b']
    } else if u == 9 {
        seq!['\\', 't']
    } else if u == 10 {
        seq!['\\', 'n']
    } else if u == 12 {
        seq!['\\', 'f']
    } else if u == 13 {
        seq!['\\', 'r']
    } else if u < 32 {
        seq!['\\', 'u', '0', '0', hex_digit(u as int / 16), hex_digit(u as int % 16)]
    } else {
        seq![c]
    }
}

/// The escaped characters of a string.
pub open spec fn json_escaped(s: Seq<char>) -> Seq<char>
    decreases s.len(),
{
    if s.len() == 0 { seq![] } else { json_escaped(s.drop_last()) + json_escape(s.last()) }
}

/// The JSON text of a string, as `serde_json` writes it: its escaped characters between
/// double quotes.
pub open spec fn json_string_text(value: Seq<char>) -> Seq<char> {
    seq!['"'] + json_escaped(value) + seq!['"']
}

/// `serde_json::to_string(value)` for a string slice: its JSON text. The crate serialises
/// a string into a `Vec<u8>`, whose writes do not fail, so no error comes back for it.
#[verifier::external_body]
pub(crate) fn json_string(value: &str) -> (r: Option<String>)
    ensures
        r is Some,
        r matches Some(s) ==> s@ == json_string_text(value@),
{
    serde_json::to_string(value).ok()
}

/// How `jsonschema` judges the JSON text `instance` against the JSON text `schema`:
/// `Some(true)` where the instance is valid, `Some(false)` where it is not, `None`
/// where either text is not JSON or the crate cannot build a validator from the schema.
pub uninterp spec fn schema_verdict(schema: Seq<char>, instance: Seq<char>) -> Option<bool>;

/// Parses both texts with `serde_json::from_str`, builds a validator with
/// `jsonschema::validator_for` and asks `iter_errors` whether any error comes out. The
/// crate is built without remote reference retrieval, so the verdict depends on the two
/// texts alone. The contract names the verdict of a call that returns; that the crate
/// returns without panicking on every schema (a deeply nested or self-referential one)
/// is not claimed.
#[verifier::external_body]
pub(crate) fn check_against_schema(schema: &str, instance: &str) -> (r: Option<bool>)
    ensures
        r == schema_verdict(schema@, instance@),
{
    let schema: serde_json::Value = serde_json::from_str(schema).ok()?;
    let instance: serde_json::Value = serde_json::from_str(instance).ok()?;
    let validator = jsonschema::validator_for(&schema).ok()?;
    let valid = validator.iter_errors(&instance).next().is_none();
    Some(valid)
}

/// The width and height an encoded image declares, as `image` reads them: `None` where
/// the format is not recognised or the header cannot be read.
pub uninterp spec fn encoded_size(bytes: Seq<u8>) -> Option<(u32, u32)>;

/// `image::ImageReader` over the bytes, `with_guessed_format` and `into_dimensions`.
#[verifier::external_body]
pub(crate) fn image_size(bytes: &[u8]) -> (r: Option<(u32, u32)>)
    ensures
        r == encoded_size(bytes@),
{
    let reader = image::ImageReader::new(std::io::Cursor::new(bytes)).with_guessed_format().ok()?;
    reader.into_dimensions().ok()
}

/// The 8-bit RGBA pixels, row by row, of an encoded image as `image` decodes it, with
/// its width and height.
pub uninterp spec fn decoded_rgba(bytes: Seq<u8>) -> Option<(u32, u32, Seq<u8>)>;

/// `image::load_from_memory` and then `to_rgba8`. The crate's buffer holds four bytes
/// for each pixel.
#[verifier::external_body]
pub(crate) fn decode_rgba(bytes: &[u8]) -> (r: Option<crate::media::RgbaImage>)
    ensures
        match r {
            Some(img) => decoded_rgba(bytes@) == Some((img.width, img.height, img.pixels@))
                && img.pixels@.len() == 4 * (img.width as int) * (img.height as int),
            None => decoded_rgba(bytes@) is None,
        },
{
    let rgba = image::load_from_memory(bytes).ok()?.to_rgba8();
    let (width, height) = rgba.dimensions();
    Some(crate::media::RgbaImage { width, height, pixels: rgba.into_raw() })
}

/// The 8-bit RGBA pixels of an encoded image resampled to `width` by `height` with the
/// Lanczos filter, as `image` computes them.
pub uninterp spec fn resampled_rgba(bytes: Seq<u8>, width: u32, height: u32) -> Option<Seq<u8>>;

/// `image::load_from_memory`, `resize_exact(width, height, Lanczos3)` and `to_rgba8`.
#[verifier::external_body]
pub(crate) fn decode_resampled_rgba(bytes: &[u8], width: u32, height: u32) -> (r: Option<crate::media::RgbaImage>)
    ensures
        match r {
            Some(img) => resampled_rgba(bytes@, width, height) == Some(img.pixels@) && img.width == width
                && img.height == height && img.pixels@.len() == 4 * (width as int) * (height as int),
            None => resampled_rgba(bytes@, width, height) is None,
        },
{
    let image = image::load_from_memory(bytes).ok()?;
    let rgba = image.resize_exact(width, height, image::imageops::FilterType::Lanczos3).to_rgba8();
    Some(crate::media::RgbaImage { width, height, pixels: rgba.into_raw() })
}

/// The PNG bytes of an encoded image resampled to `width` by `height` with the Lanczos
/// filter, kept in its own color type, as `image` writes them.
pub uninterp spec fn resampled_png(bytes: Seq<u8>, width: u32, height: u32) -> Option<Seq<u8>>;

/// `image::load_from_memory`, `resize_exact(width, height, Lanczos3)` and `write_to` as PNG.
#[verifier::external_body]
pub(crate) fn decode_resample_png(bytes: &[u8], width: u32, height: u32) -> (r: Option<Vec<u8>>)
    ensures
        match r {
            Some(png) => resampled_png(bytes@, width, height) == Some(png@),
            None => resampled_png(bytes@, width, height) is None,
        },
{
    let image = image::load_from_memory(bytes).ok()?;
    let resized = image.resize_exact(width, height, image::imageops::FilterType::Lanczos3);
    let mut cursor = std::io::Cursor::new(Vec::new());
    resized.write_to(&mut cursor, image::ImageFormat::Png).ok()?;
    Some(cursor.into_inner())
}

/// The 8-bit luma of an encoded mask resampled to `width` by `height` with the nearest
/// filter, one byte per pixel row by row, as `image` computes it.
pub uninterp spec fn resampled_mask(bytes: Seq<u8>, width: u32, height: u32) -> Option<Seq<u8>>;

/// `image::load_from_memory`, `resize_exact(width, height, Nearest)` and `to_luma8`. The
/// crate's buffer holds one byte for each pixel.
#[verifier::external_body]
pub(crate) fn decode_mask(bytes: &[u8], width: u32, height: u32) -> (r: Option<Vec<u8>>)
    ensures
        match r {
            Some(mask) => resampled_mask(bytes@, width, height) == Some(mask@)
                && mask@.len() == (width as int) * (height as int),
            None => resampled_mask(bytes@, width, height) is None,
        },
{
    let image = image::load_from_memory(bytes).ok()?;
    let luma = image.resize_exact(width, height, image::imageops::FilterType::Nearest).to_luma8();
    Some(luma.into_raw())
}

/// The PNG bytes `image` writes for 8-bit RGBA pixels of the given size.
pub uninterp spec fn rgba_png(width: u32, height: u32, pixels: Seq<u8>) -> Option<Seq<u8>>;

/// `image::RgbaImage::from_raw` and `write_to` as PNG; `None` where the crate refuses.
#[verifier::external_body]
pub(crate) fn encode_png(img: &crate::media::RgbaImage) -> (r: Option<Vec<u8>>)
    ensures
        match r {
            Some(png) => rgba_png(img.width, img.height, img.pixels@) == Some(png@),
            None => rgba_png(img.width, img.height, img.pixels@) is None,
        },
{
    let buffer = image::RgbaImage::from_raw(img.width, img.height, img.pixels.clone())?;
    let mut cursor = std::io::Cursor::new(Vec::new());
    buffer.write_to(&mut cursor, image::ImageFormat::Png).ok()?;
    Some(cursor.into_inner())
}

/// `String::push`: appends one character.
#[verifier::external_body]
pub(crate) fn push_char(s: &mut String, c: char)
    ensures
        final(s)@ == old(s)@.push(c),
{
    s.push(c);
}

} // verus!
