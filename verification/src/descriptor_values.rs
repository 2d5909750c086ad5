use vstd::prelude::*;
use crate::blender_ops::to_ascii_lower;
use crate::text::{
    ascii_lower_seq, byte_len, char_vec, contains_control, ends_with, has_control, seq_ends_with, seq_starts_with,
    starts_with, str_eq, string_from_chars,
};

verus! {

/// The shape of a JSON value as a binding descriptor's public check reads it: objects
/// with their keys, arrays, strings, and any other scalar.
#[derive(Debug)]
pub enum JsonShape {
    Object(Vec<(String, JsonShape)>),
    Array(Vec<JsonShape>),
    Text(String),
    Scalar,
}

pub const MAX_DESCRIPTOR_DEPTH: usize = 8;
pub const MAX_DESCRIPTOR_ENTRIES: usize = 128;
pub const MAX_DESCRIPTOR_TEXT_BYTES: usize = 4096;

/// The words that a public descriptor's keys may not carry.
pub open spec fn forbidden_words() -> Seq<Seq<char>> {
    seq![
        "endpoint"@, "url"@, "api_key"@, "apikey"@, "token"@, "secret"@, "password"@, "authorization"@,
        "credential"@, "credentials"@, "headers"@, "command"@, "code"@, "script"@, "executable"@,
        "environment"@, "env"@, "socket"@,
    ]
}

/// A key lowered, with `-` and `.` written as `_`.
pub open spec fn normalized_key(key: Seq<char>) -> Seq<char> {
    ascii_lower_seq(key).map_values(|c: char| if c == '-' || c == '.' { '_' } else { c })
}

/// The normalized key is a forbidden word, or starts or ends with one as a part.
pub open spec fn names_forbidden(n: Seq<char>, w: Seq<char>) -> bool {
    n == w || seq_starts_with(n, w + "_"@) || seq_ends_with(n, "_"@ + w)
}

pub open spec fn key_forbidden(key: Seq<char>) -> bool {
    exists|i: int| 0 <= i < forbidden_words().len() && names_forbidden(normalized_key(key), #[trigger] forbidden_words()[i])
}

/// A descriptor value that exposes nothing private, `depth` levels down: nested at most
/// eight deep, objects and arrays of at most 128 entries, no key that names an endpoint,
/// a credential or an executable payload, and strings of at most 4096 bytes without
/// control characters.
pub open spec fn public_value_ok(v: JsonShape, depth: nat) -> bool
    decreases v,
{
    depth <= MAX_DESCRIPTOR_DEPTH && match v {
        JsonShape::Object(entries) => entries@.len() <= MAX_DESCRIPTOR_ENTRIES && forall|i: int|
            0 <= i < entries@.len() ==> !key_forbidden((#[trigger] entries@[i]).0@)
                && public_value_ok(entries@[i].1, depth + 1),
        JsonShape::Array(items) => items@.len() <= MAX_DESCRIPTOR_ENTRIES && forall|i: int|
            0 <= i < items@.len() ==> public_value_ok(#[trigger] items@[i], depth + 1),
        JsonShape::Text(s) => byte_len(s@) <= MAX_DESCRIPTOR_TEXT_BYTES && !has_control(s@),
        JsonShape::Scalar => true,
    }
}

fn forbidden_word_list() -> (v: Vec<&'static str>)
    ensures
        v@.len() == forbidden_words().len(),
        forall|i: int| 0 <= i < v@.len() ==> (#[trigger] v@[i])@ == forbidden_words()[i],
{
    let v = vec![
        "endpoint", "url", "api_key", "apikey", "token", "secret", "password", "authorization", "credential",
        "credentials", "headers", "command", "code", "script", "executable", "environment", "env", "socket",
    ];
    assert(v@.len() == 18);
    v
}

/// A key with ASCII letters lowered and `-` and `.` written as `_`.
pub fn normalize_key(key: &str) -> (r: String)
    ensures
        r@ == normalized_key(key@),
{
    let lower = to_ascii_lower(key);
    let v = char_vec(lower.as_str());
    let mut out: Vec<char> = Vec::new();
    let mut i: usize = 0;
    while i < v.len()
        invariant
            i <= v.len(),
            v@ == ascii_lower_seq(key@),
            out@ == v@.take(i as int).map_values(|c: char| if c == '-' || c == '.' { '_' } else { c }),
        decreases v.len() - i,
    {
        let c = v[i];
        out.push(if c == '-' || c == '.' { '_' } else { c });
        proof {
            assert(v@.take(i + 1) =~= v@.take(i as int).push(c));
            assert(v@.take(i + 1).map_values(|c: char| if c == '-' || c == '.' { '_' } else { c })
                =~= v@.take(i as int).map_values(|c: char| if c == '-' || c == '.' { '_' } else { c }).push(
                if c == '-' || c == '.' { '_' } else { c }));
        }
        i += 1;
    }
    proof {
        assert(v@.take(v.len() as int) =~= v@);
    }
    string_from_chars(&out)
}

/// Whether a key names an endpoint, a credential or an executable payload.
pub fn is_forbidden_key(key: &str) -> (r: bool)
    ensures
        r == key_forbidden(key@),
{
    let n = normalize_key(key);
    let words = forbidden_word_list();
    let mut i: usize = 0;
    while i < words.len()
        invariant
            i <= words@.len(),
            words@.len() == forbidden_words().len(),
            forall|k: int| 0 <= k < words@.len() ==> (#[trigger] words@[k])@ == forbidden_words()[k],
            n@ == normalized_key(key@),
            forall|k: int| 0 <= k < i ==> !names_forbidden(n@, #[trigger] forbidden_words()[k]),
        decreases words.len() - i,
    {
        let w = words[i];
        let mut prefix = String::from_str(w);
        prefix.append("_");
        let mut suffix = String::from_str("_");
        suffix.append(w);
        if str_eq(n.as_str(), w) || starts_with(n.as_str(), prefix.as_str()) || ends_with(n.as_str(), suffix.as_str()) {
            assert(names_forbidden(n@, forbidden_words()[i as int]));
            return true;
        }
        i += 1;
    }
    false
}

/// Whether a descriptor value, `depth` levels down, exposes nothing private.
pub fn public_value(v: &JsonShape, depth: usize) -> (r: bool)
    ensures
        r == public_value_ok(*v, depth as nat),
    decreases v,
{
    if depth > MAX_DESCRIPTOR_DEPTH {
        return false;
    }
    match v {
        JsonShape::Object(entries) => {
            if entries.len() > MAX_DESCRIPTOR_ENTRIES {
                return false;
            }
            let mut i: usize = 0;
            while i < entries.len()
                invariant
                    i <= entries@.len(),
                    depth <= MAX_DESCRIPTOR_DEPTH,
                    *v == JsonShape::Object(*entries),
                    forall|k: int| 0 <= k < i ==> !key_forbidden((#[trigger] entries@[k]).0@)
                        && public_value_ok(entries@[k].1, depth as nat + 1),
                decreases entries@.len() - i,
            {
                if is_forbidden_key(entries[i].0.as_str()) {
                    return false;
                }
                proof {
                    assert(decreases_to!(*v => (*v)->Object_0));
                    assert(decreases_to!(*entries => entries@));
                    assert(decreases_to!(entries@ => entries@[i as int]));
                    assert(decreases_to!(entries@[i as int] => entries@[i as int].1));
                }
                if !public_value(&entries[i].1, depth + 1) {
                    return false;
                }
                i += 1;
            }
            true
        },
        JsonShape::Array(items) => {
            if items.len() > MAX_DESCRIPTOR_ENTRIES {
                return false;
            }
            let mut i: usize = 0;
            while i < items.len()
                invariant
                    i <= items@.len(),
                    depth <= MAX_DESCRIPTOR_DEPTH,
                    *v == JsonShape::Array(*items),
                    forall|k: int| 0 <= k < i ==> public_value_ok(#[trigger] items@[k], depth as nat + 1),
                decreases items@.len() - i,
            {
                proof {
                    assert(decreases_to!(*v => (*v)->Array_0));
                    assert(decreases_to!(*items => items@));
                    assert(decreases_to!(items@ => items@[i as int]));
                }
                if !public_value(&items[i], depth + 1) {
                    return false;
                }
                i += 1;
            }
            true
        },
        JsonShape::Text(s) => s.as_str().len() <= MAX_DESCRIPTOR_TEXT_BYTES && !contains_control(s.as_str()),
        JsonShape::Scalar => true,
    }
}

/// Whether a binding's extension schema and constraints expose nothing private.
pub fn descriptor_values_public(extension_schema: &JsonShape, constraints: &JsonShape) -> (r: bool)
    ensures
        r == (public_value_ok(*extension_schema, 0) && public_value_ok(*constraints, 0)),
{
    public_value(extension_schema, 0) && public_value(constraints, 0)
}

} // verus!
