use vstd::prelude::*;
use vstd::string::StringExecFns;
use crate::contracts::{AssetSource, CREATIVE_SCHEMA_VERSION};
use crate::error::{invalid, invalid_with, McpError};
use crate::outside::{last_path_segment, sha256_digest, sha256_of, url_last_segment};
use crate::text::{
    ascii_lower_seq, before_first, char_vec, contains_control, has_control, hex_encode, hex_lower,
    is_ascii_alnum, is_ascii_alnum_char, normalize_content_type, seq_starts_with, starts_with, str_eq,
    string_from_chars, trim_seq, byte_len, is_valid_id, validate_id, id_rule,
};

verus! {

broadcast use vstd::string::group_string_axioms;

/// A one-time permission to upload bytes into a project.
#[derive(Clone, Debug)]
pub struct UploadTicket {
    pub schema_version: u32,
    pub source: AssetSource,
    pub ticket_id: String,
    pub project_id: String,
    pub owner: String,
    pub media_type: String,
    pub role: String,
    pub filename: String,
    pub max_bytes: u64,
    pub expires_at_ms: u128,
    pub used_at_ms: Option<u128>,
    pub token_sha256: String,
    pub created_at_ms: u128,
}

/// What the caller of `request_upload` receives: where and how to send the bytes.
#[derive(Clone, Debug)]
pub struct UploadRequestResult {
    pub ticket_id: String,
    pub upload_path: String,
    pub upload_token: String,
    pub expires_at_ms: u128,
    pub max_bytes: u64,
    pub method: String,
    pub content_type: String,
}

/// The record of bytes received under a ticket.
#[derive(Clone, Debug)]
pub struct UploadReceipt {
    pub ticket_id: String,
    pub project_id: String,
    pub relative_path: String,
    pub bytes: u64,
    pub media_type: String,
    pub completed_at_ms: u128,
    pub asset_id: Option<String>,
}

/// A request for an upload ticket.
#[derive(Clone, Debug)]
pub struct UploadRequest {
    pub source: AssetSource,
    pub media_type: String,
    pub role: String,
    pub filename: String,
    pub max_bytes: Option<u64>,
    pub ttl_ms: Option<u64>,
}

/// A request to import an asset from a public URL.
#[derive(Clone, Debug)]
pub struct UrlImportRequest {
    pub url: String,
    pub media_type: Option<String>,
    pub role: String,
    pub filename: Option<String>,
    pub max_bytes: Option<u64>,
    pub parent_asset_id: Option<String>,
    pub element_id: Option<String>,
}

pub const DEFAULT_UPLOAD_MAX_BYTES: u64 = 33554432;
pub const MAX_UPLOAD_MAX_BYTES: u64 = 67108864;
pub const DEFAULT_UPLOAD_TTL_MS: u64 = 600000;
pub const MAX_UPLOAD_TTL_MS: u64 = 1800000;
pub const MAX_FILENAME_BYTES: usize = 180;

/// Uploads come from the MCP surface or from a conversation.
pub open spec fn is_upload_source(source: AssetSource) -> bool {
    source == AssetSource::McpUpload || source == AssetSource::ConversationUpload
}

pub fn validate_upload_source(source: &AssetSource) -> (r: Result<(), McpError>)
    ensures
        r is Ok <==> is_upload_source(*source),
        r matches Err(e) ==> invalid_with(e, "creative upload source must be mcp_upload or conversation_upload"@),
{
    match source {
        AssetSource::McpUpload | AssetSource::ConversationUpload => Ok(()),
        _ => Err(invalid("creative upload source must be mcp_upload or conversation_upload")),
    }
}

/// An owner identity: 1 to 512 bytes without control codes.
pub open spec fn is_valid_owner(owner: Seq<char>) -> bool {
    owner.len() > 0 && byte_len(owner) <= 512 && !has_control(owner)
}

pub fn validate_owner(owner: &str) -> (r: Result<(), McpError>)
    ensures
        r is Ok <==> is_valid_owner(owner@),
        r matches Err(e) ==> invalid_with(e, "creative owner identity exceeds allowed bounds"@),
{
    if owner.is_empty() || owner.len() > 512 || contains_control(owner) {
        return Err(invalid("creative owner identity exceeds allowed bounds"));
    }
    Ok(())
}

/// A media role: 1 to 128 bytes without control codes.
pub open spec fn is_valid_role(role: Seq<char>) -> bool {
    role.len() > 0 && byte_len(role) <= 128 && !has_control(role)
}

pub fn validate_role(value: &str) -> (r: Result<(), McpError>)
    ensures
        r is Ok <==> is_valid_role(value@),
        r matches Err(e) ==> invalid_with(e, "creative media role exceeds allowed bounds"@),
{
    if value.is_empty() || value.len() > 128 || contains_control(value) {
        return Err(invalid("creative media role exceeds allowed bounds"));
    }
    Ok(())
}

/// The normalized form of a content type.
pub open spec fn normalized_type(value: Seq<char>) -> Seq<char> {
    ascii_lower_seq(trim_seq(before_first(value, ';')))
}

/// An uploadable media type once normalized: image, video, audio or model types, or
/// `application/octet-stream`, of 1 to 128 bytes without control codes.
pub open spec fn is_upload_media_type(value: Seq<char>) -> bool {
    let v = normalized_type(value);
    &&& v.len() > 0
    &&& byte_len(v) <= 128
    &&& !has_control(v)
    &&& (seq_starts_with(v, "image/"@) || seq_starts_with(v, "video/"@) || seq_starts_with(v, "audio/"@)
        || seq_starts_with(v, "model/"@) || v == "application/octet-stream"@)
}

pub fn validate_media_type(value: &str) -> (r: Result<(), McpError>)
    ensures
        r is Ok <==> is_upload_media_type(value@),
        r matches Err(e) ==> invalid_with(e, "creative media type is unsupported"@),
{
    let v = normalize_content_type(value);
    let s = v.as_str();
    if s.is_empty() || s.len() > 128 || contains_control(s)
        || !(starts_with(s, "image/") || starts_with(s, "video/") || starts_with(s, "audio/")
            || starts_with(s, "model/") || str_eq(s, "application/octet-stream")) {
        return Err(invalid("creative media type is unsupported"));
    }
    Ok(())
}

/// The character a filename keeps, or `_` in its place.
pub open spec fn filename_char(c: char) -> char {
    if is_ascii_alnum_char(c) || c == '.' || c == '-' || c == '_' { c } else { '_' }
}

pub open spec fn sanitized(s: Seq<char>) -> Seq<char> {
    s.map_values(|c: char| filename_char(c))
}

/// A filename that `sanitize_filename` accepts.
pub open spec fn is_acceptable_filename(s: Seq<char>) -> bool {
    &&& s.len() > 0
    &&& byte_len(s) <= 180
    &&& !has_control(s)
    &&& !s.contains('/')
    &&& !s.contains('\\')
    &&& s != "."@
    &&& s != ".."@
    &&& s[0] != '.'
}

/// Replaces each character other than ASCII letters, digits, `.`, `-`, `_` by `_`,
/// after checking that the name is a bounded plain filename not starting with `.`.
pub fn sanitize_filename(value: &str) -> (r: Result<String, McpError>)
    ensures
        r is Ok <==> is_acceptable_filename(value@),
        r matches Ok(s) ==> s@ == sanitized(value@),
        r matches Err(e) ==> invalid_with(e, if value@.len() == 0 || byte_len(value@) > 180 || has_control(value@) {
            "creative media filename exceeds allowed bounds"@
        } else if value@.contains('/') || value@.contains('\\') || value@ == "."@ || value@ == ".."@ {
            "creative media filename must be a plain filename"@
        } else {
            "creative media filename is not allowed"@
        }),
{
    if value.is_empty() || value.len() > MAX_FILENAME_BYTES || contains_control(value) {
        return Err(invalid("creative media filename exceeds allowed bounds"));
    }
    if crate::text::contains_char(value, '/') || crate::text::contains_char(value, '\\') || str_eq(value, ".") || str_eq(value, "..") {
        proof {
            if value@.contains('/') {
                let i = choose|i: int| 0 <= i < value@.len() && value@[i] == '/';
            }
            if value@.contains('\\') {
                let i = choose|i: int| 0 <= i < value@.len() && value@[i] == '\\';
            }
        }
        return Err(invalid("creative media filename must be a plain filename"));
    }
    let v = char_vec(value);
    let mut out: Vec<char> = Vec::new();
    let mut i: usize = 0;
    while i < v.len()
        invariant
            v@ == value@,
            i <= v.len(),
            out@ == sanitized(v@.take(i as int)),
        decreases v.len() - i,
    {
        let c = v[i];
        let k = if is_ascii_alnum(c) || c == '.' || c == '-' || c == '_' { c } else { '_' };
        out.push(k);
        assert(sanitized(v@.take(i + 1)) =~= sanitized(v@.take(i as int)).push(k));
        i += 1;
    }
    assert(v@.take(v.len() as int) =~= v@);
    proof {
        assert(!value@.contains('/')) by {
            if value@.contains('/') {
                let i = choose|i: int| 0 <= i < value@.len() && value@[i] == '/';
                assert(crate::text::seq_contains_char(value@, '/'));
            }
        }
        assert(!value@.contains('\\')) by {
            if value@.contains('\\') {
                let i = choose|i: int| 0 <= i < value@.len() && value@[i] == '\\';
                assert(crate::text::seq_contains_char(value@, '\\'));
            }
        }
    }
    assert(out@[0] == filename_char(value@[0]));
    if out[0] == '.' {
        return Err(invalid("creative media filename is not allowed"));
    }
    Ok(string_from_chars(&out))
}

/// The file extension used for an imported media type.
pub open spec fn import_extension(media_type: Seq<char>) -> Seq<char> {
    if media_type == "image/png"@ { "png"@ }
    else if media_type == "image/jpeg"@ { "jpg"@ }
    else if media_type == "image/webp"@ { "webp"@ }
    else if media_type == "video/mp4"@ { "mp4"@ }
    else if media_type == "audio/mpeg"@ { "mp3"@ }
    else if media_type == "audio/wav"@ { "wav"@ }
    else if media_type == "model/gltf+json"@ { "gltf"@ }
    else if media_type == "model/gltf-binary"@ { "glb"@ }
    else { "bin"@ }
}

fn import_extension_of(media_type: &str) -> (r: &'static str)
    ensures
        r@ == import_extension(media_type@),
{
    if str_eq(media_type, "image/png") { "png" }
    else if str_eq(media_type, "image/jpeg") { "jpg" }
    else if str_eq(media_type, "image/webp") { "webp" }
    else if str_eq(media_type, "video/mp4") { "mp4" }
    else if str_eq(media_type, "audio/mpeg") { "mp3" }
    else if str_eq(media_type, "audio/wav") { "wav" }
    else if str_eq(media_type, "model/gltf+json") { "gltf" }
    else if str_eq(media_type, "model/gltf-binary") { "glb" }
    else { "bin" }
}

/// The filename for a URL import: the URL's last path segment where it is an acceptable
/// filename (sanitized), else `import.` and the extension of the media type.
pub open spec fn url_filename(url: Seq<char>, media_type: Seq<char>) -> Seq<char> {
    match url_last_segment(url) {
        Some(seg) => if is_acceptable_filename(seg) { sanitized(seg) } else { "import."@ + import_extension(media_type) },
        None => "import."@ + import_extension(media_type),
    }
}

pub fn filename_from_url(url: &str, media_type: &str) -> (r: String)
    ensures
        r@ == url_filename(url@, media_type@),
{
    match last_path_segment(url) {
        Some(segment) => {
            match sanitize_filename(segment.as_str()) {
                Ok(name) => {
                    return name;
                },
                Err(_) => {},
            }
        },
        None => {},
    }
    let mut name = String::from_str("import.");
    name.append(import_extension_of(media_type));
    name
}

/// The SHA-256 digest of the text's UTF-8 bytes, as 64 lowercase hexadecimal digits.
pub fn sha256_text(value: &str) -> (r: String)
    ensures
        r@ == hex_lower(sha256_of(vstd::utf8::encode_utf8(value@))),
        r@.len() == 64,
{
    let digest = sha256_digest(value.as_bytes());
    hex_encode(&digest)
}

/// The SHA-256 digest of bytes, as 64 lowercase hexadecimal digits.
pub fn sha256_hex(bytes: &[u8]) -> (r: String)
    ensures
        r@ == hex_lower(sha256_of(bytes@)),
        r@.len() == 64,
{
    let digest = sha256_digest(bytes);
    hex_encode(&digest)
}

/// A stored ticket that the store accepts at time `now`.
pub open spec fn is_valid_ticket(t: UploadTicket, now: u128) -> bool {
    &&& t.schema_version == CREATIVE_SCHEMA_VERSION
    &&& is_valid_id(t.ticket_id@)
    &&& is_valid_id(t.project_id@)
    &&& is_upload_source(t.source)
    &&& t.owner@.len() > 0
    &&& byte_len(t.owner@) <= 512
    &&& t.media_type@.len() > 0
    &&& t.role@.len() > 0
    &&& t.filename@.len() > 0
    &&& t.max_bytes > 0
    &&& t.expires_at_ms >= t.created_at_ms
    &&& byte_len(t.token_sha256@) == 64
    &&& t.created_at_ms <= if now + 60000 > u128::MAX { u128::MAX as int } else { now + 60000 }
}

/// Why `validate_ticket` refuses a ticket, in the order it checks.
pub open spec fn ticket_refusal(t: UploadTicket) -> Seq<char> {
    if t.schema_version != CREATIVE_SCHEMA_VERSION {
        "creative upload ticket schema version is unsupported"@
    } else if !is_valid_id(t.ticket_id@) {
        "upload ticket id"@ + id_rule()
    } else if !is_valid_id(t.project_id@) {
        "project_id"@ + id_rule()
    } else {
        "creative upload ticket is invalid"@
    }
}

/// Checks a stored ticket against the schema and the clock `now`.
pub fn validate_ticket(ticket: &UploadTicket, now: u128) -> (r: Result<(), McpError>)
    ensures
        r is Ok <==> is_valid_ticket(*ticket, now),
        r matches Err(e) ==> invalid_with(e, ticket_refusal(*ticket)),
{
    if ticket.schema_version != CREATIVE_SCHEMA_VERSION {
        return Err(invalid("creative upload ticket schema version is unsupported"));
    }
    match validate_id(ticket.ticket_id.as_str(), "upload ticket id") {
        Ok(()) => {},
        Err(e) => { return Err(e); },
    }
    match validate_id(ticket.project_id.as_str(), "project_id") {
        Ok(()) => {},
        Err(e) => { return Err(e); },
    }
    if validate_upload_source(&ticket.source).is_err() || ticket.owner.as_str().is_empty()
        || ticket.owner.as_str().len() > 512 || ticket.media_type.as_str().is_empty()
        || ticket.role.as_str().is_empty() || ticket.filename.as_str().is_empty()
        || ticket.max_bytes == 0 || ticket.expires_at_ms < ticket.created_at_ms
        || ticket.token_sha256.as_str().len() != 64
        || ticket.created_at_ms > now.saturating_add(60000) {
        return Err(invalid("creative upload ticket is invalid"));
    }
    Ok(())
}

} // verus!

verus! {

/// The byte limit of a URL import: the requested one, or the default; from 1 to the
/// maximum.
pub open spec fn import_max_bytes(requested: Option<u64>) -> u64 {
    match requested { Some(m) => m, None => DEFAULT_UPLOAD_MAX_BYTES }
}

/// The byte limit of a URL import, or an error where it is out of bounds.
pub fn url_import_max_bytes(request: &UrlImportRequest) -> (r: Result<u64, McpError>)
    ensures
        match r {
            Ok(m) => m == import_max_bytes(request.max_bytes) && 0 < m <= MAX_UPLOAD_MAX_BYTES,
            Err(e) => e is InvalidRequest && !(0 < import_max_bytes(request.max_bytes) <= MAX_UPLOAD_MAX_BYTES),
        },
{
    let max_bytes = match request.max_bytes { Some(m) => m, None => DEFAULT_UPLOAD_MAX_BYTES };
    if max_bytes == 0 || max_bytes > MAX_UPLOAD_MAX_BYTES {
        return Err(invalid("creative URL import max_bytes exceeds allowed bounds"));
    }
    Ok(max_bytes)
}

/// What a URL import accepts of the response headers: a declared length, if any, from 1
/// to the limit, and a content type that is an upload media type and, where the request
/// names one, the same once normalized.
pub open spec fn import_response_ok(content_length: Option<u64>, content_type: Option<Seq<char>>, expected: Option<Seq<char>>, max_bytes: u64) -> bool {
    &&& (content_length matches Some(n) ==> 0 < n <= max_bytes)
    &&& content_type matches Some(c) && is_upload_media_type(normalized_type(c))
    &&& (expected matches Some(x) ==> normalized_type(x) == normalized_type(content_type->0))
}

/// Checks the headers of a URL import's response and gives the normalized media type.
pub fn check_import_response(content_length: Option<u64>, content_type: Option<&str>, expected: Option<&str>, max_bytes: u64)
    -> (r: Result<String, McpError>)
    ensures
        match r {
            Ok(t) => import_response_ok(content_length, opt_text_view(content_type), opt_text_view(expected), max_bytes)
                && t@ == normalized_type(content_type->0@),
            Err(e) => e is InvalidRequest
                && !import_response_ok(content_length, opt_text_view(content_type), opt_text_view(expected), max_bytes),
        },
{
    if let Some(n) = content_length {
        if n == 0 || n > max_bytes {
            return Err(invalid("creative URL import content length exceeds allowed bounds"));
        }
    }
    let media_type = match content_type {
        Some(c) => normalize_content_type(c),
        None => { return Err(invalid("creative URL import content type is missing")); },
    };
    validate_media_type(media_type.as_str())?;
    if let Some(x) = expected {
        let wanted = normalize_content_type(x);
        if !str_eq(wanted.as_str(), media_type.as_str()) {
            return Err(invalid("creative URL import content type does not match request"));
        }
    }
    Ok(media_type)
}

pub open spec fn opt_text_view(s: Option<&str>) -> Option<Seq<char>> {
    match s { Some(v) => Some(v@), None => None }
}

/// Whether `received` more bytes may join a URL import's body of `so_far` bytes.
pub fn import_chunk_fits(so_far: usize, received: usize, max_bytes: u64) -> (r: bool)
    ensures
        r == (so_far + received <= max_bytes),
{
    so_far as u128 + received as u128 <= max_bytes as u128
}

/// The file name of a URL import: the requested one sanitized, or one read from the URL.
pub fn import_file_name(requested: Option<&str>, url: &str, media_type: &str) -> (r: Result<String, McpError>)
    ensures
        match requested {
            Some(f) => match r {
                Ok(n) => is_acceptable_filename(f@) && n@ == sanitized(f@),
                Err(e) => e is InvalidRequest && !is_acceptable_filename(f@),
            },
            None => r matches Ok(n) && n@ == url_filename(url@, media_type@),
        },
{
    match requested {
        Some(f) => sanitize_filename(f),
        None => Ok(filename_from_url(url, media_type)),
    }
}

/// Where a URL import's bytes are written.
pub fn import_relative_path(project_id: &str, import_id: &str, filename: &str) -> (p: String)
    ensures
        p@ == "creative/"@ + project_id@ + "/assets/imports/"@ + import_id@ + "-"@ + filename@,
{
    let mut p = String::from_str("creative/");
    p.append(project_id);
    p.append("/assets/imports/");
    p.append(import_id);
    p.append("-");
    p.append(filename);
    p
}

} // verus!
