use vstd::prelude::*;
use crate::error::{invalid, invalid_with, McpError};

verus! {

broadcast use vstd::string::group_string_axioms;

/// `c` is in the Unicode general category Cc (control codes).
pub open spec fn is_control_char(c: char) -> bool {
    (c as u32) <= 0x1f || (0x7f <= (c as u32) && (c as u32) <= 0x9f)
}

/// A control code other than line feed, carriage return and tab.
pub open spec fn is_disallowed_control_char(c: char) -> bool {
    is_control_char(c) && c != '\n' && c != '\r' && c != '\t'
}

pub open spec fn is_ascii_digit_char(c: char) -> bool {
    '0' <= c && c <= '9'
}

pub open spec fn is_ascii_alpha_char(c: char) -> bool {
    ('a' <= c && c <= 'z') || ('A' <= c && c <= 'Z')
}

pub open spec fn is_ascii_alnum_char(c: char) -> bool {
    is_ascii_digit_char(c) || is_ascii_alpha_char(c)
}

/// A character allowed in an identifier: an ASCII letter or digit, `-` or `_`.
pub open spec fn is_id_char(c: char) -> bool {
    is_ascii_alnum_char(c) || c == '-' || c == '_'
}

pub open spec fn has_control(s: Seq<char>) -> bool {
    exists|i: int| 0 <= i < s.len() && is_control_char(#[trigger] s[i])
}

pub open spec fn has_disallowed_control(s: Seq<char>) -> bool {
    exists|i: int| 0 <= i < s.len() && is_disallowed_control_char(#[trigger] s[i])
}

/// An identifier: one to `max` characters, each an ASCII letter, digit, `-` or `_`.
pub open spec fn is_bounded_id(s: Seq<char>, max: int) -> bool {
    &&& 0 < s.len() <= max
    &&& forall|i: int| 0 <= i < s.len() ==> is_id_char(#[trigger] s[i])
}

/// The identifiers accepted by `validate_id`.
pub open spec fn is_valid_id(s: Seq<char>) -> bool {
    is_bounded_id(s, 64)
}

pub fn is_control(c: char) -> (r: bool)
    ensures
        r == is_control_char(c),
{
    let u = c as u32;
    u <= 0x1f || (0x7f <= u && u <= 0x9f)
}

pub fn is_disallowed_control(c: char) -> (r: bool)
    ensures
        r == is_disallowed_control_char(c),
{
    is_control(c) && c != '\n' && c != '\r' && c != '\t'
}

pub fn is_ascii_alnum(c: char) -> (r: bool)
    ensures
        r == is_ascii_alnum_char(c),
{
    ('0' <= c && c <= '9') || ('a' <= c && c <= 'z') || ('A' <= c && c <= 'Z')
}

/// The characters of `s`, in order.
pub fn char_vec(s: &str) -> (v: Vec<char>)
    ensures
        v@ == s@,
{
    let mut v: Vec<char> = Vec::new();
    for c in it: s.chars()
        invariant
            v@ == it.seq().take(it.index() as int),
            it.seq() == s@,
    {
        v.push(c);
    }
    v
}

/// Whether any character of `s` is a control code.
pub fn contains_control(s: &str) -> (r: bool)
    ensures
        r == has_control(s@),
{
    let v = char_vec(s);
    let mut i: usize = 0;
    while i < v.len()
        invariant
            v@ == s@,
            i <= v.len(),
            forall|k: int| 0 <= k < i ==> !is_control_char(#[trigger] v@[k]),
        decreases v.len() - i,
    {
        if is_control(v[i]) {
            return true;
        }
        i += 1;
    }
    false
}

/// Whether any character of `s` is a control code other than `\n`, `\r`, `\t`.
pub fn contains_disallowed_control(s: &str) -> (r: bool)
    ensures
        r == has_disallowed_control(s@),
{
    let v = char_vec(s);
    let mut i: usize = 0;
    while i < v.len()
        invariant
            v@ == s@,
            i <= v.len(),
            forall|k: int| 0 <= k < i ==> !is_disallowed_control_char(#[trigger] v@[k]),
        decreases v.len() - i,
    {
        if is_disallowed_control(v[i]) {
            return true;
        }
        i += 1;
    }
    false
}

/// Whether `s` is one to `max` characters drawn from ASCII letters, digits, `-`, `_`.
pub fn is_bounded_identifier(s: &str, max: usize) -> (r: bool)
    ensures
        r == is_bounded_id(s@, max as int),
{
    let v = char_vec(s);
    if v.len() == 0 || v.len() > max {
        return false;
    }
    let mut i: usize = 0;
    while i < v.len()
        invariant
            v@ == s@,
            i <= v.len(),
            forall|k: int| 0 <= k < i ==> is_id_char(#[trigger] v@[k]),
        decreases v.len() - i,
    {
        let c = v[i];
        if !(is_ascii_alnum(c) || c == '-' || c == '_') {
            return false;
        }
        i += 1;
    }
    true
}

/// What follows the field's name in the refusal of an identifier.
pub open spec fn id_rule() -> Seq<char> {
    " must be 1-64 ASCII letters, digits, '-' or '_'"@
}

/// Checks that `value` is an identifier of 1 to 64 ASCII letters, digits, `-` or `_`.
pub fn validate_id(value: &str, field: &str) -> (r: Result<(), McpError>)
    ensures
        r is Ok <==> is_valid_id(value@),
        r matches Err(e) ==> invalid_with(e, field@ + id_rule()),
{
    if is_bounded_identifier(value, 64) {
        Ok(())
    } else {
        Err(invalid_for(field, " must be 1-64 ASCII letters, digits, '-' or '_'"))
    }
}

/// The refusal whose message is the field's name followed by `rest`.
fn invalid_for(field: &str, rest: &str) -> (e: McpError)
    ensures
        invalid_with(e, field@ + rest@),
{
    let mut m = field.to_owned();
    m.append(rest);
    McpError::InvalidRequest(m)
}

/// Checks the byte length of `value` against `min..=max` and rejects control codes.
pub fn validate_text(value: &str, min: usize, max: usize, field: &str) -> (r: Result<(), McpError>)
    ensures
        r is Ok <==> (min <= value.len() && value.len() <= max && !has_control(value@)),
        r matches Err(e) ==> invalid_with(e, field@ + " exceeds allowed bounds"@),
{
    if value.len() < min || value.len() > max || contains_control(value) {
        return Err(invalid_for(field, " exceeds allowed bounds"));
    }
    Ok(())
}

/// Like `validate_text`, but line feed, carriage return and tab are allowed.
pub fn validate_freeform_text(value: &str, min: usize, max: usize, field: &str) -> (r: Result<(), McpError>)
    ensures
        r is Ok <==> (min <= value.len() && value.len() <= max && !has_disallowed_control(value@)),
        r matches Err(e) ==> invalid_with(e, field@ + " exceeds allowed bounds"@),
{
    if value.len() < min || value.len() > max || contains_disallowed_control(value) {
        return Err(invalid_for(field, " exceeds allowed bounds"));
    }
    Ok(())
}

/// Character-wise equality of two string slices.
pub fn str_eq(a: &str, b: &str) -> (r: bool)
    ensures
        r == (a@ == b@),
{
    let x = a.to_owned();
    let y = b.to_owned();
    x == y
}

} // verus!

verus! {

/// The views of a sequence of strings.
pub open spec fn views(v: Seq<String>) -> Seq<Seq<char>> {
    v.map_values(|s: String| s@)
}

/// Some element of `v` has view `x`.
pub open spec fn has_view(v: Seq<String>, x: Seq<char>) -> bool {
    exists|i: int| 0 <= i < v.len() && (#[trigger] v[i])@ == x
}

/// No two elements of `v` have the same view.
pub open spec fn distinct_views(v: Seq<String>) -> bool {
    forall|i: int, j: int| 0 <= i < v.len() && 0 <= j < v.len() && i != j ==> (#[trigger] v[i])@ != (#[trigger] v[j])@
}

/// The position of the first element of `v` whose view is that of `s`.
pub fn position_of(v: &Vec<String>, s: &str) -> (r: Option<usize>)
    ensures
        r matches Some(i) ==> i < v.len() && v@[i as int]@ == s@ && forall|k: int| 0 <= k < i ==> (#[trigger] v@[k])@ != s@,
        r is None <==> !has_view(v@, s@),
{
    let target = s.to_owned();
    let mut i: usize = 0;
    while i < v.len()
        invariant
            i <= v.len(),
            target@ == s@,
            forall|k: int| 0 <= k < i ==> (#[trigger] v@[k])@ != s@,
        decreases v.len() - i,
    {
        if v[i] == target {
            return Some(i);
        }
        i += 1;
    }
    None
}

/// Whether some element of `v` equals `s`.
pub fn contains_str(v: &Vec<String>, s: &str) -> (r: bool)
    ensures
        r == has_view(v@, s@),
{
    position_of(v, s).is_some()
}

} // verus!

verus! {

/// `c` has the Unicode White_Space property, as `char::is_whitespace` decides.
pub open spec fn is_whitespace_char(c: char) -> bool {
    let u = c as u32;
    (0x09 <= u && u <= 0x0d) || u == 0x20 || u == 0x85 || u == 0xa0 || u == 0x1680
        || (0x2000 <= u && u <= 0x200a) || u == 0x2028 || u == 0x2029 || u == 0x202f
        || u == 0x205f || u == 0x3000
}

pub fn is_whitespace(c: char) -> (r: bool)
    ensures
        r == is_whitespace_char(c),
{
    let u = c as u32;
    (0x09 <= u && u <= 0x0d) || u == 0x20 || u == 0x85 || u == 0xa0 || u == 0x1680
        || (0x2000 <= u && u <= 0x200a) || u == 0x2028 || u == 0x2029 || u == 0x202f
        || u == 0x205f || u == 0x3000
}

pub open spec fn trim_start_seq(s: Seq<char>) -> Seq<char>
    decreases s.len(),
{
    if s.len() > 0 && is_whitespace_char(s[0]) { trim_start_seq(s.drop_first()) } else { s }
}

pub open spec fn trim_end_seq(s: Seq<char>) -> Seq<char>
    decreases s.len(),
{
    if s.len() > 0 && is_whitespace_char(s.last()) { trim_end_seq(s.drop_last()) } else { s }
}

/// `s` without leading and trailing white space, as `str::trim` gives it.
pub open spec fn trim_seq(s: Seq<char>) -> Seq<char> {
    trim_end_seq(trim_start_seq(s))
}

/// The ASCII lowercase of `c`; other characters are unchanged.
pub open spec fn ascii_lower_char(c: char) -> char {
    if 'A' <= c && c <= 'Z' { ((c as u32) + 32) as char } else { c }
}

pub open spec fn ascii_lower_seq(s: Seq<char>) -> Seq<char> {
    s.map_values(|c: char| ascii_lower_char(c))
}

/// The part of `s` before its first `sep`, or all of `s`.
pub open spec fn before_first(s: Seq<char>, sep: char) -> Seq<char>
    decreases s.len(),
{
    if s.len() == 0 {
        s
    } else if s[0] == sep {
        seq![]
    } else {
        seq![s[0]] + before_first(s.drop_first(), sep)
    }
}

pub open spec fn seq_starts_with(s: Seq<char>, prefix: Seq<char>) -> bool {
    s.len() >= prefix.len() && s.subrange(0, prefix.len() as int) == prefix
}

pub open spec fn seq_ends_with(s: Seq<char>, suffix: Seq<char>) -> bool {
    s.len() >= suffix.len() && s.subrange(s.len() - suffix.len(), s.len() as int) == suffix
}

pub open spec fn seq_contains_char(s: Seq<char>, c: char) -> bool {
    exists|i: int| 0 <= i < s.len() && s[i] == c
}

pub fn ascii_lower(c: char) -> (r: char)
    ensures
        r == ascii_lower_char(c),
{
    if 'A' <= c && c <= 'Z' {
        let b = (c as u8) + 32;
        b as char
    } else {
        c
    }
}

/// A string holding the characters of `v`.
pub fn string_from_chars(v: &Vec<char>) -> (s: String)
    ensures
        s@ == v@,
{
    let mut s = String::new();
    let mut i: usize = 0;
    while i < v.len()
        invariant
            i <= v.len(),
            s@ == v@.take(i as int),
        decreases v.len() - i,
    {
        crate::outside::push_char(&mut s, v[i]);
        assert(v@.take(i + 1) =~= v@.take(i as int).push(v@[i as int]));
        i += 1;
    }
    assert(v@.take(v.len() as int) =~= v@);
    s
}

/// Whether `s` begins with `prefix`.
pub fn starts_with(s: &str, prefix: &str) -> (r: bool)
    ensures
        r == seq_starts_with(s@, prefix@),
{
    let a = char_vec(s);
    let b = char_vec(prefix);
    if b.len() > a.len() {
        return false;
    }
    let mut i: usize = 0;
    while i < b.len()
        invariant
            a@ == s@,
            b@ == prefix@,
            b.len() <= a.len(),
            i <= b.len(),
            forall|k: int| 0 <= k < i ==> a@[k] == b@[k],
        decreases b.len() - i,
    {
        if a[i] != b[i] {
            assert(s@.subrange(0, prefix@.len() as int)[i as int] != prefix@[i as int]);
            return false;
        }
        i += 1;
    }
    assert(s@.subrange(0, prefix@.len() as int) =~= prefix@);
    true
}

/// Whether `s` ends with `suffix`.
pub fn ends_with(s: &str, suffix: &str) -> (r: bool)
    ensures
        r == seq_ends_with(s@, suffix@),
{
    let a = char_vec(s);
    let b = char_vec(suffix);
    if b.len() > a.len() {
        return false;
    }
    let off = a.len() - b.len();
    let mut i: usize = 0;
    while i < b.len()
        invariant
            a@ == s@,
            b@ == suffix@,
            off == a.len() - b.len(),
            i <= b.len(),
            forall|k: int| 0 <= k < i ==> a@[off + k] == b@[k],
        decreases b.len() - i,
    {
        if a[off + i] != b[i] {
            assert(s@.subrange(s@.len() - suffix@.len(), s@.len() as int)[i as int] != suffix@[i as int]);
            return false;
        }
        i += 1;
    }
    assert(s@.subrange(s@.len() - suffix@.len(), s@.len() as int) =~= suffix@);
    true
}

/// Whether `c` occurs in `s`.
pub fn contains_char(s: &str, c: char) -> (r: bool)
    ensures
        r == seq_contains_char(s@, c),
{
    let a = char_vec(s);
    let mut i: usize = 0;
    while i < a.len()
        invariant
            a@ == s@,
            i <= a.len(),
            forall|k: int| 0 <= k < i ==> a@[k] != c,
        decreases a.len() - i,
    {
        if a[i] == c {
            return true;
        }
        i += 1;
    }
    false
}

proof fn lemma_trim_start_skip(s: Seq<char>, i: int)
    requires
        0 <= i <= s.len(),
        forall|k: int| 0 <= k < i ==> is_whitespace_char(#[trigger] s[k]),
    ensures
        trim_start_seq(s) == trim_start_seq(s.skip(i)),
    decreases i,
{
    if i > 0 {
        assert(is_whitespace_char(s[0]));
        assert forall|k: int| 0 <= k < i - 1 implies is_whitespace_char(#[trigger] s.drop_first()[k]) by {
            assert(s.drop_first()[k] == s[k + 1]);
        }
        lemma_trim_start_skip(s.drop_first(), i - 1);
        assert(s.drop_first().skip(i - 1) =~= s.skip(i));
    } else {
        assert(s.skip(0) =~= s);
    }
}

proof fn lemma_trim_end_take(s: Seq<char>, j: int)
    requires
        0 <= j <= s.len(),
        forall|k: int| j <= k < s.len() ==> is_whitespace_char(#[trigger] s[k]),
    ensures
        trim_end_seq(s) == trim_end_seq(s.take(j)),
    decreases s.len() - j,
{
    if j < s.len() {
        assert(s.drop_last().take(j) =~= s.take(j));
        lemma_trim_end_take(s.drop_last(), j);
    } else {
        assert(s.take(j) =~= s);
    }
}

proof fn lemma_before_first(s: Seq<char>, sep: char, i: int)
    requires
        0 <= i <= s.len(),
        forall|k: int| 0 <= k < i ==> s[k] != sep,
        i == s.len() || s[i] == sep,
    ensures
        before_first(s, sep) == s.take(i),
    decreases i,
{
    if i > 0 {
        lemma_before_first(s.drop_first(), sep, i - 1);
        assert(s.take(i) =~= seq![s[0]] + s.drop_first().take(i - 1));
    } else if s.len() > 0 {
        assert(s.take(0) =~= Seq::<char>::empty());
    } else {
        assert(s.take(0) =~= s);
    }
}

/// The media type of a content type: the part before `;`, trimmed and in ASCII lowercase.
pub fn normalize_content_type(value: &str) -> (r: String)
    ensures
        r@ == ascii_lower_seq(trim_seq(before_first(value@, ';'))),
{
    let v = char_vec(value);
    let mut end: usize = 0;
    while end < v.len() && v[end] != ';'
        invariant
            v@ == value@,
            end <= v.len(),
            forall|k: int| 0 <= k < end ==> v@[k] != ';',
        decreases v.len() - end,
    {
        end += 1;
    }
    proof {
        lemma_before_first(value@, ';', end as int);
    }
    let ghost head = value@.take(end as int);
    let mut start: usize = 0;
    while start < end && is_whitespace(v[start])
        invariant
            v@ == value@,
            end <= v.len(),
            start <= end,
            head == value@.take(end as int),
            forall|k: int| 0 <= k < start ==> is_whitespace_char(#[trigger] head[k]),
        decreases end - start,
    {
        assert(head[start as int] == v@[start as int]);
        start += 1;
    }
    proof {
        lemma_trim_start_skip(head, start as int);
        if start < end {
            assert(head.skip(start as int)[0] == head[start as int]);
        }
        assert(trim_start_seq(head.skip(start as int)) == head.skip(start as int));
    }
    let ghost mid = head.skip(start as int);
    let mut stop: usize = end;
    while stop > start && is_whitespace(v[stop - 1])
        invariant
            v@ == value@,
            start <= stop <= end,
            end <= v.len(),
            mid == value@.subrange(start as int, end as int),
            forall|k: int| stop - start <= k < mid.len() ==> is_whitespace_char(#[trigger] mid[k]),
        decreases stop - start,
    {
        stop -= 1;
    }
    proof {
        lemma_trim_end_take(mid, stop - start);
        let t = mid.take(stop - start);
        if t.len() > 0 {
            assert(t.last() == v@[stop - 1]);
        }
        assert(trim_end_seq(t) == t);
    }
    let mut out: Vec<char> = Vec::new();
    let mut i: usize = start;
    while i < stop
        invariant
            v@ == value@,
            start <= i <= stop,
            stop <= v.len(),
            out@ == ascii_lower_seq(v@.subrange(start as int, i as int)),
        decreases stop - i,
    {
        let c = ascii_lower(v[i]);
        out.push(c);
        assert(ascii_lower_seq(v@.subrange(start as int, i + 1)) =~= ascii_lower_seq(v@.subrange(start as int, i as int)).push(c));
        i += 1;
    }
    assert(mid.take(stop - start) =~= v@.subrange(start as int, stop as int));
    string_from_chars(&out)
}

} // verus!

verus! {

/// The number of bytes of the UTF-8 encoding of `s`, as `str::len` reports it.
pub open spec fn byte_len(s: Seq<char>) -> usize {
    vstd::utf8::encode_utf8(s).len() as usize
}

/// The lowercase hexadecimal digit of `n`, for `n < 16`.
pub open spec fn hex_digit(n: int) -> char {
    if n < 10 { ('0' as int + n) as char } else { ('a' as int + n - 10) as char }
}

/// Two lowercase hexadecimal digits per byte, high digit first.
pub open spec fn hex_lower(bytes: Seq<u8>) -> Seq<char>
    decreases bytes.len(),
{
    if bytes.len() == 0 {
        seq![]
    } else {
        hex_lower(bytes.drop_last()) + seq![hex_digit(bytes.last() as int / 16), hex_digit(bytes.last() as int % 16)]
    }
}

fn hex_char(n: u8) -> (c: char)
    requires
        n < 16,
    ensures
        c == hex_digit(n as int),
{
    if n < 10 {
        (48u8 + n) as char
    } else {
        (87u8 + n) as char
    }
}

/// The bytes as lowercase hexadecimal text, two digits per byte.
pub fn hex_encode(bytes: &Vec<u8>) -> (s: String)
    ensures
        s@ == hex_lower(bytes@),
        s@.len() == 2 * bytes@.len(),
{
    let mut s = String::new();
    let mut i: usize = 0;
    while i < bytes.len()
        invariant
            i <= bytes.len(),
            s@ == hex_lower(bytes@.take(i as int)),
            s@.len() == 2 * i,
        decreases bytes.len() - i,
    {
        let b = bytes[i];
        crate::outside::push_char(&mut s, hex_char(b / 16));
        crate::outside::push_char(&mut s, hex_char(b % 16));
        proof {
            let t = bytes@.take(i + 1);
            assert(t.drop_last() =~= bytes@.take(i as int));
            assert(t.last() == b);
        }
        i += 1;
    }
    assert(bytes@.take(bytes.len() as int) =~= bytes@);
    s
}

} // verus!

verus! {

/// Whether no two elements of `v` are equal.
pub fn distinct_strings(v: &Vec<String>) -> (r: bool)
    ensures
        r == distinct_views(v@),
{
    let mut i: usize = 0;
    while i < v.len()
        invariant
            i <= v.len(),
            distinct_views(v@.take(i as int)),
        decreases v.len() - i,
    {
        let mut j: usize = 0;
        while j < i
            invariant
                i < v.len(),
                j <= i,
                forall|k: int| 0 <= k < j ==> (#[trigger] v@[k])@ != v@[i as int]@,
            decreases i - j,
        {
            if str_eq(v[j].as_str(), v[i].as_str()) {
                return false;
            }
            j += 1;
        }
        proof {
            let t = v@.take(i + 1);
            let p = v@.take(i as int);
            assert forall|a: int, b: int| 0 <= a < t.len() && 0 <= b < t.len() && a != b implies (#[trigger] t[a])@ != (#[trigger] t[b])@ by {
                if a < i && b < i {
                    assert(t[a] == p[a] && t[b] == p[b]);
                }
            }
        }
        i += 1;
    }
    assert(v@.take(v.len() as int) =~= v@);
    true
}

} // verus!
