//! The web server's logic: multipart upload parsing, the render form, URL
//! and query decoding, JSON string encoding, safe upload paths, job ids and
//! the upload page.
//!
//! The HTTP plumbing, the file system and the background render threads live
//! in the application; everything that decides or parses is here.

use vstd::prelude::*;

use crate::pipeline::{config_problem, validate_config, RenderConfig};
use crate::text::{
    parse_u32_chars, parse_u32_spec, push_decimal,
    str_eq,
    chars_eq, chars_of, find_char, index_of_char, push_chars, push_str, split_bytes, split_chars,
    split_seq, string_from_chars, sub_chars, trim_chars, trimmed,
};
use vstd::utf8::{decode_utf8, valid_utf8};

verus! {

/// `needle` occurs in `h` at index `i`.
pub open spec fn occurs_at(h: Seq<u8>, needle: Seq<u8>, i: int) -> bool {
    0 <= i && i + needle.len() <= h.len() && h.subrange(i, i + needle.len() as int) == needle
}

/// The first index `i` in `from ..= last` at which `needle` occurs in `h`.
pub open spec fn first_occurrence_in(h: Seq<u8>, needle: Seq<u8>, from: int, last: int) -> Option<int>
    decreases last + 1 - from,
{
    if from > last {
        None
    } else if occurs_at(h, needle, from) {
        Some(from)
    } else {
        first_occurrence_in(h, needle, from + 1, last)
    }
}

/// Where `find_bytes_from` finds `needle` in `h` from `start` on: the first
/// occurrence at or after `start`; never for an empty needle or one longer
/// than the haystack.
pub open spec fn find_from(h: Seq<u8>, needle: Seq<u8>, start: int) -> Option<int> {
    if needle.len() == 0 || h.len() < needle.len() {
        None
    } else {
        first_occurrence_in(h, needle, start, h.len() - needle.len())
    }
}

/// The first occurrence found in a window lies in it, matches, and nothing
/// before it in the window matches; when none is found nothing matches.
pub proof fn lemma_first_occurrence_range(h: Seq<u8>, needle: Seq<u8>, from: int, last: int)
    ensures
        match first_occurrence_in(h, needle, from, last) {
            Some(i) => from <= i <= last && occurs_at(h, needle, i) && forall|j: int|
                from <= j < i ==> !occurs_at(h, needle, j),
            None => forall|j: int| from <= j <= last ==> !occurs_at(h, needle, j),
        },
    decreases last + 1 - from,
{
    if from <= last {
        lemma_first_occurrence_range(h, needle, from + 1, last);
    }
}

/// Whether `needle` occurs in `h` at `i`.
fn bytes_at(h: &[u8], needle: &[u8], i: usize) -> (r: bool)
    requires
        i + needle@.len() <= h@.len(),
    ensures
        r == occurs_at(h@, needle@, i as int),
{
    let n = needle.len();
    let hl = h.len();
    let mut k: usize = 0;
    while k < n
        invariant
            k <= n == needle@.len(),
            hl == h@.len(),
            i + n <= h@.len(),
            h@.subrange(i as int, i + k) == needle@.take(k as int),
        decreases n - k,
    {
        if h[i + k] != needle[k] {
            assert(h@.subrange(i as int, i + n)[k as int] != needle@[k as int]);
            return false;
        }
        assert(h@.subrange(i as int, i + k + 1) =~= needle@.take(k + 1));
        k = k + 1;
    }
    assert(needle@.take(n as int) =~= needle@);
    true
}

/// The first occurrence of `needle` in `haystack` at or after `start`;
/// `None` for an empty needle or one longer than the haystack.
pub fn find_bytes_from(haystack: &[u8], needle: &[u8], start: usize) -> (r: Option<usize>)
    ensures
        r.is_some() == find_from(haystack@, needle@, start as int).is_some(),
        r matches Some(i) ==> find_from(haystack@, needle@, start as int) == Some(i as int),
{
    if needle.len() == 0 || haystack.len() < needle.len() {
        return None;
    }
    let hl = haystack.len();
    let last = hl - needle.len();
    let mut i = start;
    while i <= last
        invariant
            start <= i,
            last < hl,
            last == haystack@.len() - needle@.len(),
            needle@.len() > 0,
            first_occurrence_in(haystack@, needle@, start as int, last as int) == first_occurrence_in(
                haystack@,
                needle@,
                i as int,
                last as int,
            ),
        decreases last + 1 - i,
    {
        if bytes_at(haystack, needle, i) {
            return Some(i);
        }
        i = i + 1;
    }
    None
}

/// The first occurrence of `needle` in `haystack`.
pub fn find_bytes(haystack: &[u8], needle: &[u8]) -> (r: Option<usize>)
    ensures
        r.is_some() == find_from(haystack@, needle@, 0).is_some(),
        r matches Some(i) ==> find_from(haystack@, needle@, 0) == Some(i as int),
{
    find_bytes_from(haystack, needle, 0)
}

/// A zip archive starts with the bytes `PK`.
pub fn looks_like_zip(data: &[u8]) -> (r: bool)
    ensures
        r == (data@.len() >= 2 && data@[0] == 0x50u8 && data@[1] == 0x4bu8),
{
    data.len() >= 2 && data[0] == 0x50u8 && data[1] == 0x4bu8
}

/// The value of a hexadecimal digit.
pub open spec fn hex_value(b: u8) -> Option<u8> {
    if 0x30 <= b <= 0x39 {
        Some((b - 0x30) as u8)
    } else if 0x61 <= b <= 0x66 {
        Some((b - 0x61 + 10) as u8)
    } else if 0x41 <= b <= 0x46 {
        Some((b - 0x41 + 10) as u8)
    } else {
        None
    }
}

/// The value of an ASCII hexadecimal digit (either case).
pub fn hex_val(b: u8) -> (r: Option<u8>)
    ensures
        r == hex_value(b),
{
    if 0x30 <= b && b <= 0x39 {
        Some(b - 0x30)
    } else if 0x61 <= b && b <= 0x66 {
        Some(b - 0x61 + 10)
    } else if 0x41 <= b && b <= 0x46 {
        Some(b - 0x41 + 10)
    } else {
        None
    }
}

/// The header block and the content of a multipart part: split at the first
/// blank line (`CRLF CRLF`, or else `LF LF`); a part without one is all
/// header.
pub open spec fn headers_content(part: Seq<u8>) -> (Seq<u8>, Seq<u8>) {
    match find_from(part, seq![13u8, 10u8, 13u8, 10u8], 0) {
        Some(p) => (part.take(p), part.skip(p + 4)),
        None => match find_from(part, seq![10u8, 10u8], 0) {
            Some(p) => (part.take(p), part.skip(p + 2)),
            None => (part, Seq::empty()),
        },
    }
}

/// Split a part into its header block and its content (on the first blank
/// line).
pub fn split_headers_content(part: &[u8]) -> (r: (&[u8], &[u8]))
    ensures
        (r.0@, r.1@) == headers_content(part@),
{
    let crlfcrlf: Vec<u8> = vec![13u8, 10u8, 13u8, 10u8];
    let lflf: Vec<u8> = vec![10u8, 10u8];
    assert(crlfcrlf@ =~= seq![13u8, 10u8, 13u8, 10u8]);
    assert(lflf@ =~= seq![10u8, 10u8]);
    proof {
        lemma_first_occurrence_range(part@, crlfcrlf@, 0, part@.len() - 4);
        lemma_first_occurrence_range(part@, lflf@, 0, part@.len() - 2);
    }
    let n = part.len();
    match find_bytes(part, crlfcrlf.as_slice()) {
        Some(pos) => {
            assert(part@.take(pos as int) =~= part@.subrange(0, pos as int));
            assert(part@.skip(pos + 4) =~= part@.subrange(pos + 4, n as int));
            (&part[0..pos], &part[pos + 4..n])
        },
        None => match find_bytes(part, lflf.as_slice()) {
            Some(pos) => {
                assert(part@.take(pos as int) =~= part@.subrange(0, pos as int));
                assert(part@.skip(pos + 2) =~= part@.subrange(pos + 2, n as int));
                (&part[0..pos], &part[pos + 2..n])
            },
            None => {
                assert(part@ =~= part@.subrange(0, n as int));
                assert(Seq::<u8>::empty() =~= part@.subrange(n as int, n as int));
                (&part[0..n], &part[n..n])
            },
        },
    }
}

/// `String::from_utf8(bytes).ok()`: the string the bytes encode when they are
/// valid UTF-8, `None` otherwise (validity and decoding as vstd's UTF-8
/// model states them).
#[verifier::external_body]
pub(crate) fn utf8_string(bytes: Vec<u8>) -> (r: Option<String>)
    ensures
        match r {
            Some(s) => valid_utf8(bytes@) && s@ == decode_utf8(bytes@),
            None => !valid_utf8(bytes@),
        },
{
    String::from_utf8(bytes).ok()
}

/// What `String::from_utf8_lossy` gives for `bytes`.
pub uninterp spec fn utf8_lossy(bytes: Seq<u8>) -> Seq<char>;

/// The text of `bytes` read leniently: their decoding when they are valid
/// UTF-8; otherwise what `String::from_utf8_lossy` gives ([`utf8_lossy`]).
pub open spec fn lossy_text(bytes: Seq<u8>) -> Seq<char> {
    if valid_utf8(bytes) {
        decode_utf8(bytes)
    } else {
        utf8_lossy(bytes)
    }
}

/// `String::from_utf8_lossy(bytes)`, as an owned string: valid UTF-8 decodes
/// exactly; invalid sequences become U+FFFD replacement characters, which
/// the contract leaves to the name [`utf8_lossy`].
#[verifier::external_body]
pub(crate) fn utf8_lossy_string(bytes: &[u8]) -> (r: String)
    ensures
        r@ == utf8_lossy(bytes@),
        valid_utf8(bytes@) ==> r@ == decode_utf8(bytes@),
{
    String::from_utf8_lossy(bytes).to_string()
}

/// The bytes a URL-encoded string decodes to from index `i` on: `+` is a
/// space, `%` followed by two more bytes (when two more follow) is the byte
/// with those hex digits, anything else stands for itself. `None` when a `%`
/// escape has a non-hex digit.
pub open spec fn url_bytes(b: Seq<u8>, i: int) -> Option<Seq<u8>>
    decreases b.len() - i,
{
    if i < 0 || i >= b.len() {
        Some(Seq::empty())
    } else if b[i] == 0x2bu8 {
        match url_bytes(b, i + 1) {
            Some(rest) => Some(seq![0x20u8] + rest),
            None => None,
        }
    } else if b[i] == 0x25u8 && i + 2 < b.len() {
        match (hex_value(b[i + 1]), hex_value(b[i + 2])) {
            (Some(hi), Some(lo)) => match url_bytes(b, i + 3) {
                Some(rest) => Some(seq![(hi * 16 + lo) as u8] + rest),
                None => None,
            },
            _ => None,
        }
    } else {
        match url_bytes(b, i + 1) {
            Some(rest) => Some(seq![b[i]] + rest),
            None => None,
        }
    }
}

/// The text a URL-encoded string decodes to: `None` for a bad `%` escape or
/// bytes that are not UTF-8.
pub open spec fn url_decoded(input: Seq<char>) -> Option<Seq<char>> {
    match url_bytes(vstd::utf8::encode_utf8(input), 0) {
        Some(v) => if valid_utf8(v) {
            Some(decode_utf8(v))
        } else {
            None
        },
        None => None,
    }
}

/// Decode a URL-encoded string (`+` and `%XX` escapes).
pub fn url_decode(input: &str) -> (r: Option<String>)
    ensures
        match r {
            Some(s) => url_decoded(input@) == Some(s@),
            None => url_decoded(input@) is None,
        },
{
    let bytes = input.as_bytes();
    let ghost b = bytes@;
    assert(b == vstd::utf8::encode_utf8(input@));
    let n = bytes.len();
    let mut out: Vec<u8> = Vec::new();
    let mut i: usize = 0;
    while i < n
        invariant
            b == bytes@,
            b == vstd::utf8::encode_utf8(input@),
            n == b.len(),
            i <= n,
            url_bytes(b, 0) == match url_bytes(b, i as int) {
                Some(rest) => Some(out@ + rest),
                None => None,
            },
        decreases n - i,
    {
        let c = bytes[i];
        if c == 0x2bu8 {
            out.push(0x20u8);
            i = i + 1;
        } else if c == 0x25u8 && n - i > 2 {
            let hi = match hex_val(bytes[i + 1]) {
                Some(h) => h,
                None => {
                    assert(url_bytes(b, i as int) is None);
                    return None;
                },
            };
            let lo = match hex_val(bytes[i + 2]) {
                Some(l) => l,
                None => {
                    assert(url_bytes(b, i as int) is None);
                    return None;
                },
            };
            assert(hi < 16 && lo < 16);
            out.push(hi * 16 + lo);
            i = i + 3;
        } else {
            out.push(c);
            i = i + 1;
        }
    }
    utf8_string(out)
}

/// A header parameter value without its surrounding white space and, when
/// it has them, its surrounding double quotes.
pub open spec fn unquoted(value: Seq<char>) -> Seq<char> {
    let t = trimmed(value);
    if t.len() >= 2 && t[0] == '"' && t.last() == '"' {
        t.subrange(1, t.len() - 1)
    } else {
        t
    }
}

fn unquote_chars(value: &Vec<char>) -> (r: Vec<char>)
    ensures
        r@ == unquoted(value@),
{
    let t = trim_chars(value);
    if t.len() >= 2 && t[0] == '"' && t[t.len() - 1] == '"' {
        sub_chars(&t, 1, t.len() - 1)
    } else {
        t
    }
}

/// A header parameter value without surrounding white space and quotes.
/// Always `Some`.
pub fn unquote(value: &str) -> (r: Option<String>)
    ensures
        r matches Some(s) && s@ == unquoted(value@),
{
    let u = unquote_chars(&chars_of(value));
    Some(string_from_chars(u.as_slice()))
}

/// The lowercase hexadecimal digit for `d < 16`.
pub open spec fn hex_digit(d: int) -> char {
    if d < 10 {
        (d + '0' as int) as char
    } else {
        (d - 10 + 'a' as int) as char
    }
}

/// How a JSON string writes the character `c`: quotes, backslashes and the
/// common control characters are backslash-escaped, other control
/// characters become `\u00XX`, everything else stands for itself.
pub open spec fn json_char(c: char) -> Seq<char> {
    if c == '"' {
        seq!['\\', '"']
    } else if c == '\\' {
        seq!['\\', '\\']
    } else if c == '\n' {
        seq!['\\', 'n']
    } else if c == '\r' {
        seq!['\\', 'r']
    } else if c == '\t' {
        seq!['\\', 't']
    } else if (c as u32) < 0x20 {
        seq!['\\', 'u', '0', '0', hex_digit(((c as u32) / 16) as int), hex_digit(((c as u32) % 16) as int)]
    } else {
        seq![c]
    }
}

/// The escaped characters of `s`.
pub open spec fn json_escaped(s: Seq<char>) -> Seq<char>
    decreases s.len(),
{
    if s.len() == 0 {
        Seq::empty()
    } else {
        json_escaped(s.drop_last()) + json_char(s.last())
    }
}

fn hex_char(d: u32) -> (c: char)
    requires
        d < 16,
    ensures
        c == hex_digit(d as int),
{
    if d < 10 {
        crate::text::char_from_digit(d)
    } else if d == 10 { 'a' } else if d == 11 { 'b' } else if d == 12 { 'c' } else if d == 13 { 'd' } else if d == 14 { 'e' }
    else { 'f' }
}

/// A minimal JSON string encoder: the value between double quotes, with
/// [`json_char`]'s escapes.
pub fn json_string(value: &str) -> (r: String)
    ensures
        r@ == seq!['"'] + json_escaped(value@) + seq!['"'],
{
    let cs = chars_of(value);
    let mut out: Vec<char> = Vec::new();
    out.push('"');
    let mut i: usize = 0;
    while i < cs.len()
        invariant
            i <= cs@.len(),
            cs@ == value@,
            out@ == seq!['"'] + json_escaped(cs@.take(i as int)),
        decreases cs@.len() - i,
    {
        let c = cs[i];
        let ghost before = out@;
        if c == '"' {
            out.push('\\');
            out.push('"');
            assert(out@ =~= before + json_char(c));
        } else if c == '\\' {
            out.push('\\');
            out.push('\\');
            assert(out@ =~= before + json_char(c));
        } else if c == '\n' {
            out.push('\\');
            out.push('n');
            assert(out@ =~= before + json_char(c));
        } else if c == '\r' {
            out.push('\\');
            out.push('r');
            assert(out@ =~= before + json_char(c));
        } else if c == '\t' {
            out.push('\\');
            out.push('t');
            assert(out@ =~= before + json_char(c));
        } else if (c as u32) < 0x20 {
            let hi = hex_char((c as u32) / 16);
            let lo = hex_char((c as u32) % 16);
            out.push('\\');
            out.push('u');
            out.push('0');
            out.push('0');
            out.push(hi);
            out.push(lo);
            assert(json_char(c) == seq!['\\', 'u', '0', '0', hi, lo]);
            assert(out@ =~= before + json_char(c));
        } else {
            out.push(c);
            assert(out@ =~= before + json_char(c));
        }
        assert(cs@.take(i + 1).drop_last() =~= cs@.take(i as int));
        i = i + 1;
    }
    assert(cs@.take(i as int) =~= cs@);
    out.push('"');
    string_from_chars(out.as_slice())
}

/// The key and value of a `key=value` query pair, split at its first `=`.
pub open spec fn pair_split(pair: Seq<char>) -> Option<(Seq<char>, Seq<char>)> {
    match index_of_char(pair, '=', 0) {
        Some(i) => Some((pair.take(i), pair.skip(i + 1))),
        None => None,
    }
}

/// The value of the first `key=value` pair among the `&`-separated pairs
/// `pairs[j ..]` whose key is `key`, URL-decoded when it decodes.
pub open spec fn query_lookup(pairs: Seq<Seq<char>>, key: Seq<char>, j: int) -> Option<Seq<char>>
    decreases pairs.len() - j,
{
    if j < 0 || j >= pairs.len() {
        None
    } else {
        match pair_split(pairs[j]) {
            Some((k, v)) => if k == key {
                Some(
                    match url_decoded(v) {
                        Some(d) => d,
                        None => v,
                    },
                )
            } else {
                query_lookup(pairs, key, j + 1)
            },
            None => query_lookup(pairs, key, j + 1),
        }
    }
}

/// Extract `key=value` from a query string (the first match), URL-decoded.
pub fn query_value(query: &str, key: &str) -> (r: Option<String>)
    ensures
        match r {
            Some(s) => query_lookup(split_seq(query@, '&'), key@, 0) == Some(s@),
            None => query_lookup(split_seq(query@, '&'), key@, 0) is None,
        },
{
    let pairs = split_chars(&chars_of(query), '&');
    let ghost ps = split_seq(query@, '&');
    let kc = chars_of(key);
    let mut j: usize = 0;
    while j < pairs.len()
        invariant
            j <= pairs@.len() == ps.len(),
            ps == split_seq(query@, '&'),
            kc@ == key@,
            forall|t: int| 0 <= t < pairs@.len() ==> #[trigger] pairs@[t]@ == ps[t],
            query_lookup(ps, key@, 0) == query_lookup(ps, key@, j as int),
        decreases pairs@.len() - j,
    {
        let pair = &pairs[j];
        assert(pair@ == ps[j as int]);
        match find_char(pair, '=') {
            Some(i) => {
                let k = sub_chars(pair, 0, i);
                assert(k@ =~= pair@.take(i as int));
                if chars_eq(&k, &kc) {
                    let v = sub_chars(pair, i + 1, pair.len());
                    assert(v@ =~= pair@.skip(i + 1));
                    let vs = string_from_chars(v.as_slice());
                    return match url_decode(vs.as_str()) {
                        Some(d) => Some(d),
                        None => Some(vs),
                    };
                }
            },
            None => {},
        }
        j = j + 1;
    }
    None
}

/// `c` with ASCII uppercase letters lowered, as `to_ascii_lowercase` does.
pub open spec fn ascii_lower(c: char) -> char {
    if 'A' <= c <= 'Z' {
        ((c as int) + 32) as char
    } else {
        c
    }
}

/// Whether `needle` occurs in the lowercased `h` at `i`.
pub open spec fn lower_occurs_at(h: Seq<char>, needle: Seq<char>, i: int) -> bool {
    0 <= i && i + needle.len() <= h.len() && forall|k: int| 0 <= k < needle.len() ==> ascii_lower(#[trigger] h[i + k]) == needle[k]
}

/// The first `i >= from` at which `needle` occurs in the lowercased `h`.
pub open spec fn first_lower_occurrence(h: Seq<char>, needle: Seq<char>, from: int) -> Option<int>
    decreases h.len() - from,
{
    if from < 0 || from + needle.len() > h.len() {
        None
    } else if lower_occurs_at(h, needle, from) {
        Some(from)
    } else {
        first_lower_occurrence(h, needle, from + 1)
    }
}

/// Index of the first `"`, `;` or space in `s[i ..]`, or `s.len()`.
pub open spec fn value_end(s: Seq<char>, i: int) -> int
    decreases s.len() - i,
{
    if i < 0 || i >= s.len() {
        s.len() as int
    } else if s[i] == '"' || s[i] == ';' || s[i] == ' ' {
        i
    } else {
        value_end(s, i + 1)
    }
}

/// The `boundary=` parameter of a `Content-Type` header value: the key is
/// found case-insensitively, the value is taken verbatim up to the first
/// `"`, `;` or space, and trimmed.
pub open spec fn boundary_of(content_type: Seq<char>) -> Option<Seq<char>> {
    match first_lower_occurrence(content_type, "boundary="@, 0) {
        Some(p) => {
            let rest = content_type.skip(p + "boundary="@.len());
            Some(trimmed(rest.take(value_end(rest, 0))))
        },
        None => None,
    }
}

/// Find the `boundary=` parameter of a `Content-Type` header value, minus
/// any surrounding quotes.
pub fn extract_boundary(content_type: &str) -> (r: Option<String>)
    ensures
        match r {
            Some(s) => boundary_of(content_type@) == Some(s@),
            None => boundary_of(content_type@) is None,
        },
{
    let cs = chars_of(content_type);
    let key = chars_of("boundary=");
    let n = cs.len();
    let kl = key.len();
    let mut p: usize = 0;
    let mut found: bool = false;
    while p <= n && kl <= n - p && !found
        invariant
            kl == key@.len(),
            key@ == "boundary="@,
            n == cs@.len(),
            cs@ == content_type@,
            p <= n + 1,
            found ==> p + kl <= n && lower_occurs_at(cs@, key@, p as int),
            found ==> first_lower_occurrence(cs@, key@, 0) == Some(p as int),
            !found ==> first_lower_occurrence(cs@, key@, 0) == first_lower_occurrence(cs@, key@, p as int),
        decreases n + 1 - p - (if found { 1int } else { 0int }),
    {
        let mut k: usize = 0;
        let mut ok = true;
        while k < kl && ok
            invariant
                k <= kl,
                kl == key@.len(),
                p + kl <= n == cs@.len(),
                ok == forall|t: int| 0 <= t < k ==> ascii_lower(#[trigger] cs@[p + t]) == key@[t],
            decreases kl - k,
        {
            let c = cs[p + k];
            let lc = if 'A' <= c && c <= 'Z' { ((c as u32) + 32) as u8 as char } else { c };
            assert(lc == ascii_lower(c));
            if lc != key[k] {
                ok = false;
            }
            k = k + 1;
        }
        if ok && k == kl {
            found = true;
        } else {
            assert(!lower_occurs_at(cs@, key@, p as int));
            p = p + 1;
        }
    }
    if !found {
        return None;
    }
    let at = p + kl;
    let rest = sub_chars(&cs, at, n);
    assert(rest@ =~= cs@.skip(at as int));
    let mut e: usize = 0;
    while e < rest.len() && !(rest[e] == '"' || rest[e] == ';' || rest[e] == ' ')
        invariant
            e <= rest@.len(),
            value_end(rest@, 0) == value_end(rest@, e as int),
        decreases rest@.len() - e,
    {
        e = e + 1;
    }
    let v = sub_chars(&rest, 0, e);
    assert(v@ =~= rest@.take(e as int));
    let t = trim_chars(&v);
    Some(string_from_chars(t.as_slice()))
}

/// `line` without its trailing carriage returns (looking at `line[.. j]`).
pub open spec fn cr_end(line: Seq<u8>, j: int) -> int
    decreases j,
{
    if j > 0 && line[j - 1] == 13u8 {
        cr_end(line, j - 1)
    } else {
        j
    }
}

/// The bytes `key=` a header parameter starts with.
pub open spec fn param_needle(key: Seq<char>) -> Seq<u8> {
    vstd::utf8::encode_utf8(key).push(0x3du8)
}

/// A byte with ASCII `A`..`Z` lowered.
pub open spec fn lower_byte(b: u8) -> u8 {
    if 0x41u8 <= b <= 0x5au8 {
        (b + 32) as u8
    } else {
        b
    }
}

/// The bytes with ASCII `A`..`Z` lowered.
pub open spec fn lower_bytes(s: Seq<u8>) -> Seq<u8> {
    Seq::new(s.len(), |i: int| lower_byte(s[i]))
}

/// The value of the first header line (among `lines[j ..]`, trailing
/// carriage returns removed) that holds `needle` when ASCII case is ignored
/// (`needle` is given lowered): the rest of that line after the needle, as
/// text, trimmed.
pub open spec fn header_lookup(lines: Seq<Seq<u8>>, needle: Seq<u8>, j: int) -> Option<Seq<char>>
    decreases lines.len() - j,
{
    if j < 0 || j >= lines.len() {
        None
    } else {
        let line = lines[j].take(cr_end(lines[j], lines[j].len() as int));
        match find_from(lower_bytes(line), needle, 0) {
            Some(pos) => Some(trimmed(lossy_text(line.skip(pos + needle.len())))),
            None => header_lookup(lines, needle, j + 1),
        }
    }
}

/// The value of header parameter `key` in a header block, the key matched
/// ignoring ASCII case (see [`header_lookup`]).
pub open spec fn header_value(headers: Seq<u8>, key: Seq<char>) -> Option<Seq<char>> {
    header_lookup(split_seq(headers, 10u8), lower_bytes(param_needle(key)), 0)
}

/// The bytes of `s` with ASCII `A`..`Z` lowered.
fn lower_ascii_bytes(s: &[u8]) -> (r: Vec<u8>)
    ensures
        r@ == lower_bytes(s@),
{
    let mut out: Vec<u8> = Vec::new();
    let mut i: usize = 0;
    while i < s.len()
        invariant
            i <= s@.len(),
            out@ == lower_bytes(s@).take(i as int),
        decreases s@.len() - i,
    {
        let b = s[i];
        out.push(if 0x41u8 <= b && b <= 0x5au8 { b + 32 } else { b });
        assert(out@ =~= lower_bytes(s@).take(i + 1));
        i = i + 1;
    }
    assert(out@ =~= lower_bytes(s@));
    out
}

/// Read a header parameter value (case-insensitive) from a header block: the
/// text after the first `key=` on the first line that has one, the key
/// matched ignoring ASCII case and the value taken as written.
pub fn extract_header(headers: &[u8], key: &str) -> (r: Option<String>)
    ensures
        match r {
            Some(s) => header_value(headers@, key@) == Some(s@),
            None => header_value(headers@, key@) is None,
        },
{
    let kb = key.as_bytes();
    let mut needle: Vec<u8> = Vec::new();
    let mut t: usize = 0;
    while t < kb.len()
        invariant
            t <= kb@.len(),
            needle@ == kb@.take(t as int),
        decreases kb@.len() - t,
    {
        needle.push(kb[t]);
        assert(needle@ =~= kb@.take(t + 1));
        t = t + 1;
    }
    needle.push(0x3du8);
    assert(needle@ =~= param_needle(key@));
    let needle = lower_ascii_bytes(needle.as_slice());
    let lines = split_bytes(headers, 10u8);
    let ghost ls = split_seq(headers@, 10u8);
    let mut j: usize = 0;
    while j < lines.len()
        invariant
            j <= lines@.len() == ls.len(),
            ls == split_seq(headers@, 10u8),
            needle@ == lower_bytes(param_needle(key@)),
            forall|q: int| 0 <= q < lines@.len() ==> #[trigger] lines@[q]@ == ls[q],
            header_lookup(ls, needle@, 0) == header_lookup(ls, needle@, j as int),
        decreases lines@.len() - j,
    {
        let line = &lines[j];
        assert(line@ == ls[j as int]);
        let mut end = line.len();
        while end > 0 && line[end - 1] == 13u8
            invariant
                end <= line@.len(),
                cr_end(line@, line@.len() as int) == cr_end(line@, end as int),
            decreases end,
        {
            end = end - 1;
        }
        let stripped = &line.as_slice()[0..end];
        assert(stripped@ =~= line@.take(cr_end(line@, line@.len() as int)));
        let lowered = lower_ascii_bytes(stripped);
        proof {
            lemma_first_occurrence_range(lowered@, needle@, 0, lowered@.len() - needle@.len());
        }
        match find_bytes(lowered.as_slice(), needle.as_slice()) {
            Some(pos) => {
                let value = &stripped[pos + needle.len()..end];
                assert(value@ =~= stripped@.skip(pos + needle@.len()));
                let text = utf8_lossy_string(value);
                let tc = trim_chars(&chars_of(text.as_str()));
                return Some(string_from_chars(tc.as_slice()));
            },
            None => {},
        }
        j = j + 1;
    }
    None
}

/// The separator line of a multipart body: `--` then the boundary.
pub open spec fn delimiter(boundary: Seq<char>) -> Seq<u8> {
    seq![0x2du8, 0x2du8] + vstd::utf8::encode_utf8(boundary)
}

/// Where the part that ends at the next delimiter `next` really ends: the
/// framing line break (`CRLF` or `LF`) before the delimiter is not part of
/// it.
pub open spec fn part_end(body: Seq<u8>, next: int) -> int {
    if next >= 2 && body[next - 2] == 13u8 && body[next - 1] == 10u8 {
        next - 2
    } else if next >= 1 && body[next - 1] == 10u8 {
        next - 1
    } else {
        next
    }
}

/// The byte ranges of the parts of a multipart body from `from` on: the
/// preamble before the first delimiter is skipped, each part runs from just
/// after a delimiter to the framing line break before the next one (empty
/// parts are dropped), and the terminating `--` after a delimiter ends the
/// body.
pub open spec fn multipart_ranges(body: Seq<u8>, delim: Seq<u8>, from: int) -> Seq<(int, int)>
    decreases body.len() - from,
{
    if from < 0 || from > body.len() {
        Seq::empty()
    } else {
        match find_from(body, delim, from) {
            None => Seq::empty(),
            Some(pos) => {
                let after = pos + delim.len();
                if after + 2 <= body.len() && body[after] == 0x2du8 && body[after + 1] == 0x2du8 {
                    Seq::empty()
                } else {
                    match find_from(body, delim, after) {
                        None => Seq::empty(),
                        Some(next) => {
                            proof {
                                lemma_first_occurrence_range(body, delim, from, body.len() - delim.len());
                                lemma_first_occurrence_range(body, delim, after, body.len() - delim.len());
                            }
                            let end = part_end(body, next);
                            (if after < end {
                                seq![(after, end)]
                            } else {
                                Seq::empty()
                            }) + multipart_ranges(body, delim, next)
                        },
                    }
                }
            },
        }
    }
}

/// Split a multipart body on `--boundary`, skipping the preamble and the
/// terminating `--` (see [`multipart_ranges`]).
pub fn split_multipart<'a>(body: &'a [u8], boundary: &str) -> (out: Vec<&'a [u8]>)
    ensures
        ({
            let rs = multipart_ranges(body@, delimiter(boundary@), 0);
            &&& out@.len() == rs.len()
            &&& forall|k: int| 0 <= k < out@.len() ==> #[trigger] out@[k]@ == body@.subrange(rs[k].0, rs[k].1)
        }),
{
    let bb = boundary.as_bytes();
    let mut delim: Vec<u8> = vec![0x2du8, 0x2du8];
    let mut t: usize = 0;
    while t < bb.len()
        invariant
            t <= bb@.len(),
            delim@ == seq![0x2du8, 0x2du8] + bb@.take(t as int),
        decreases bb@.len() - t,
    {
        delim.push(bb[t]);
        assert(delim@ =~= seq![0x2du8, 0x2du8] + bb@.take(t + 1));
        t = t + 1;
    }
    assert(bb@.take(t as int) =~= bb@);
    let ghost d = delim@;
    assert(d == delimiter(boundary@));
    let n = body.len();
    let dl = delim.len();
    let mut parts: Vec<&'a [u8]> = Vec::new();
    let ghost mut done_ranges: Seq<(int, int)> = Seq::empty();
    let mut from: usize = 0;
    let mut going = true;
    while going
        invariant
            d == delim@,
            dl == d.len(),
            dl >= 2,
            n == body@.len(),
            from <= n,
            parts@.len() == done_ranges.len(),
            forall|k: int| 0 <= k < parts@.len() ==> #[trigger] parts@[k]@ == body@.subrange(done_ranges[k].0, done_ranges[k].1),
            going ==> multipart_ranges(body@, d, 0) == done_ranges + multipart_ranges(body@, d, from as int),
            !going ==> multipart_ranges(body@, d, 0) == done_ranges,
        decreases n - from + (if going { 1int } else { 0int }),
    {
        proof {
            lemma_first_occurrence_range(body@, d, from as int, n - dl);
        }
        match find_bytes_from(body, delim.as_slice(), from) {
            None => {
                assert(done_ranges =~= done_ranges + Seq::<(int, int)>::empty());
                going = false;
            },
            Some(pos) => {
                let after = pos + dl;
                if n - after >= 2 && body[after] == 0x2du8 && body[after + 1] == 0x2du8 {
                    assert(done_ranges =~= done_ranges + Seq::<(int, int)>::empty());
                    going = false;
                } else {
                    proof {
                        lemma_first_occurrence_range(body@, d, after as int, n - dl);
                    }
                    match find_bytes_from(body, delim.as_slice(), after) {
                        None => {
                            assert(done_ranges =~= done_ranges + Seq::<(int, int)>::empty());
                            going = false;
                        },
                        Some(next) => {
                            let end = if next >= 2 && body[next - 2] == 13u8 && body[next - 1] == 10u8 {
                                next - 2
                            } else if next >= 1 && body[next - 1] == 10u8 {
                                next - 1
                            } else {
                                next
                            };
                            assert(end == part_end(body@, next as int));
                            let ghost old_ranges = done_ranges;
                            if after < end {
                                parts.push(&body[after..end]);
                                proof {
                                    done_ranges = done_ranges.push((after as int, end as int));
                                }
                                assert(multipart_ranges(body@, d, 0) == done_ranges + multipart_ranges(body@, d, next as int)) by {
                                    assert(old_ranges + (seq![(after as int, end as int)] + multipart_ranges(body@, d, next as int))
                                        =~= done_ranges + multipart_ranges(body@, d, next as int));
                                }
                            } else {
                                assert(old_ranges + (Seq::<(int, int)>::empty() + multipart_ranges(body@, d, next as int))
                                    =~= done_ranges + multipart_ranges(body@, d, next as int));
                            }
                            from = next;
                        },
                    }
                }
            },
        }
    }
    parts
}

/// The text fields of a multipart form, in the order they arrived. A field
/// sent twice keeps its last value.
pub struct FormFields {
    pub entries: Vec<(String, String)>,
}

/// The field map after the first `n` entries: each entry sets its key.
pub open spec fn fields_upto(entries: Seq<(String, String)>, n: int) -> Map<Seq<char>, Seq<char>>
    decreases n,
{
    if n <= 0 {
        Map::empty()
    } else {
        fields_upto(entries, n - 1).insert(entries[n - 1].0@, entries[n - 1].1@)
    }
}

proof fn lemma_fields_prefix(a: Seq<(String, String)>, b: Seq<(String, String)>, n: int)
    requires
        0 <= n <= a.len(),
        n <= b.len(),
        forall|i: int| 0 <= i < n ==> a[i] == b[i],
    ensures
        fields_upto(a, n) == fields_upto(b, n),
    decreases n,
{
    if n > 0 {
        lemma_fields_prefix(a, b, n - 1);
    }
}

impl View for FormFields {
    type V = Map<Seq<char>, Seq<char>>;

    open spec fn view(&self) -> Map<Seq<char>, Seq<char>> {
        fields_upto(self.entries@, self.entries@.len() as int)
    }
}

impl FormFields {
    /// No fields.
    pub fn new() -> (f: Self)
        ensures
            f@ == Map::<Seq<char>, Seq<char>>::empty(),
    {
        FormFields { entries: Vec::new() }
    }

    /// Set field `key` to `value`, replacing any earlier value.
    pub fn insert(&mut self, key: String, value: String)
        ensures
            final(self)@ == old(self)@.insert(key@, value@),
    {
        self.entries.push((key, value));
        proof {
            lemma_fields_prefix(old(self).entries@, self.entries@, old(self).entries@.len() as int);
        }
    }

    /// The value of field `key`, if it was sent.
    pub fn get(&self, key: &str) -> (r: Option<&String>)
        ensures
            match r {
                Some(v) => self@.contains_key(key@) && self@[key@] == v@,
                None => !self@.contains_key(key@),
            },
    {
        let mut k = self.entries.len();
        while k > 0
            invariant
                k <= self.entries@.len(),
                self@.contains_key(key@) == fields_upto(self.entries@, k as int).contains_key(key@),
                self@.contains_key(key@) ==> self@[key@] == fields_upto(self.entries@, k as int)[key@],
            decreases k,
        {
            let e = &self.entries[k - 1];
            if str_eq(e.0.as_str(), key) {
                return Some(&e.1);
            }
            k = k - 1;
        }
        None
    }

    /// Whether field `key` was sent.
    pub fn contains_key(&self, key: &str) -> (r: bool)
        ensures
            r == self@.contains_key(key@),
    {
        self.get(key).is_some()
    }
}

/// A file part of a multipart form.
pub struct FilePart {
    pub file_name: Option<String>,
    pub data: Vec<u8>,
}

/// A parsed multipart form body: its text fields and its file parts.
pub struct Multipart {
    pub fields: FormFields,
    pub parts: Vec<FilePart>,
}

/// A multipart part, by value: its file name (if any) and its content.
pub open spec fn file_part_view(p: FilePart) -> (Option<Seq<char>>, Seq<u8>) {
    (
        match p.file_name {
            Some(n) => Some(n@),
            None => None,
        },
        p.data@,
    )
}

/// Read the first `k` parts of a multipart body: a part whose headers name a
/// `filename` is a file part (with that name, unquoted); any other part is a
/// text field named by its unquoted `name` (empty when there is none), whose
/// content is taken as text.
pub open spec fn form_upto(body: Seq<u8>, ranges: Seq<(int, int)>, k: int) -> (
    Map<Seq<char>, Seq<char>>,
    Seq<(Option<Seq<char>>, Seq<u8>)>,
)
    decreases k,
{
    if k <= 0 {
        (Map::empty(), Seq::empty())
    } else {
        let (fields, files) = form_upto(body, ranges, k - 1);
        let raw = body.subrange(ranges[k - 1].0, ranges[k - 1].1);
        let (headers, content) = headers_content(raw);
        let name = match header_value(headers, "name"@) {
            Some(n) => unquoted(n),
            None => Seq::empty(),
        };
        match header_value(headers, "filename"@) {
            Some(f) => (fields, files.push((Some(unquoted(f)), content))),
            None => (fields.insert(name, lossy_text(content)), files),
        }
    }
}

/// The parsed form of a multipart body with the given `Content-Type`, or the
/// message when the content type names no boundary.
pub open spec fn multipart_of(body: Seq<u8>, content_type: Option<Seq<char>>) -> Result<
    (Map<Seq<char>, Seq<char>>, Seq<(Option<Seq<char>>, Seq<u8>)>),
    Seq<char>,
> {
    let ct = match content_type {
        Some(c) => c,
        None => Seq::empty(),
    };
    match boundary_of(ct) {
        None => Err("not a multipart/form-data body (missing boundary)"@),
        Some(b) => {
            let ranges = multipart_ranges(body, delimiter(b), 0);
            Ok(form_upto(body, ranges, ranges.len() as int))
        },
    }
}

/// The content type's characters, if any.
pub open spec fn opt_str_view(o: Option<&str>) -> Option<Seq<char>> {
    match o {
        Some(s) => Some(s@),
        None => None,
    }
}

/// Split a raw multipart body into its text fields and file parts.
pub fn parse_multipart(body: &[u8], content_type: Option<&str>) -> (r: Result<Multipart, String>)
    ensures
        match r {
            Ok(m) => multipart_of(body@, opt_str_view(content_type)) == Ok::<
                (Map<Seq<char>, Seq<char>>, Seq<(Option<Seq<char>>, Seq<u8>)>),
                Seq<char>,
            >((m.fields@, m.parts@.map_values(|p: FilePart| file_part_view(p)))),
            Err(e) => multipart_of(body@, opt_str_view(content_type)) == Err::<
                (Map<Seq<char>, Seq<char>>, Seq<(Option<Seq<char>>, Seq<u8>)>),
                Seq<char>,
            >(e@),
        },
{
    let ct: &str = match content_type {
        Some(c) => c,
        None => "",
    };
    proof {
        reveal_strlit("");
    }
    assert(ct@ == match opt_str_view(content_type) {
        Some(c) => c,
        None => Seq::<char>::empty(),
    });
    let boundary = match extract_boundary(ct) {
        Some(b) => b,
        None => {
            return Err(string_from_chars(chars_of("not a multipart/form-data body (missing boundary)").as_slice()));
        },
    };
    let raws = split_multipart(body, boundary.as_str());
    let ghost ranges = multipart_ranges(body@, delimiter(boundary@), 0);
    let mut fields = FormFields::new();
    let mut parts: Vec<FilePart> = Vec::new();
    let mut k: usize = 0;
    while k < raws.len()
        invariant
            k <= raws@.len() == ranges.len(),
            ranges == multipart_ranges(body@, delimiter(boundary@), 0),
            forall|q: int| 0 <= q < raws@.len() ==> #[trigger] raws@[q]@ == body@.subrange(ranges[q].0, ranges[q].1),
            (fields@, parts@.map_values(|p: FilePart| file_part_view(p))) == form_upto(body@, ranges, k as int),
        decreases raws@.len() - k,
    {
        let raw = raws[k];
        assert(raw@ == body@.subrange(ranges[k as int].0, ranges[k as int].1));
        let (headers, content) = split_headers_content(raw);
        let name: String = match extract_header(headers, "name") {
            Some(n) => {
                let u = unquote_chars(&chars_of(n.as_str()));
                string_from_chars(u.as_slice())
            },
            None => string_from_chars(Vec::<char>::new().as_slice()),
        };
        let file_name: Option<String> = match extract_header(headers, "filename") {
            Some(f) => {
                let u = unquote_chars(&chars_of(f.as_str()));
                Some(string_from_chars(u.as_slice()))
            },
            None => None,
        };
        let ghost old_parts = parts@;
        match file_name {
            Some(f) => {
                let mut data: Vec<u8> = Vec::new();
                let mut t: usize = 0;
                while t < content.len()
                    invariant
                        t <= content@.len(),
                        data@ == content@.take(t as int),
                    decreases content@.len() - t,
                {
                    data.push(content[t]);
                    assert(data@ =~= content@.take(t + 1));
                    t = t + 1;
                }
                assert(data@ =~= content@);
                parts.push(FilePart { file_name: Some(f), data });
                assert(parts@.map_values(|p: FilePart| file_part_view(p)) =~= old_parts.map_values(
                    |p: FilePart| file_part_view(p),
                ).push(file_part_view(parts@.last())));
            },
            None => {
                let text = utf8_lossy_string(content);
                fields.insert(name, text);
            },
        }
        k = k + 1;
    }
    Ok(Multipart { fields, parts })
}

/// A form field's value, trimmed; absent when the field was not sent or is
/// blank.
pub open spec fn form_value(m: Map<Seq<char>, Seq<char>>, key: Seq<char>) -> Option<Seq<char>> {
    if m.contains_key(key) {
        let t = trimmed(m[key]);
        if t.len() > 0 {
            Some(t)
        } else {
            None
        }
    } else {
        None
    }
}

/// A checkbox field is on when its value is `on`, `true` or `1`.
pub open spec fn form_flag(m: Map<Seq<char>, Seq<char>>, key: Seq<char>) -> bool {
    match form_value(m, key) {
        Some(v) => v == "on"@ || v == "true"@ || v == "1"@,
        None => false,
    }
}

/// The dimension a form names (`overworld` when none is sent).
pub open spec fn form_dimension(m: Map<Seq<char>, Seq<char>>) -> Result<i32, Seq<char>> {
    let dv = match form_value(m, "dimension"@) {
        Some(v) => v,
        None => "overworld"@,
    };
    if dv == "0"@ || dv == "overworld"@ {
        Ok(0i32)
    } else if dv == "1"@ || dv == "nether"@ || dv == "the_nether"@ {
        Ok(1i32)
    } else if dv == "-1"@ || dv == "end"@ || dv == "the_end"@ {
        Ok(-1i32)
    } else {
        Err("unknown dimension '"@ + dv + "' (use overworld, nether, or the_end)"@)
    }
}

/// Whether a form asks for one single image (the default) or per-chunk
/// images.
pub open spec fn form_single(m: Map<Seq<char>, Seq<char>>) -> Result<bool, Seq<char>> {
    match form_value(m, "mode"@) {
        None => Ok(true),
        Some(v) => if v == "single"@ {
            Ok(true)
        } else if v == "chunks"@ || v == "chunk"@ {
            Ok(false)
        } else {
            Err("unknown mode '"@ + v + "' (use single or chunks)"@)
        },
    }
}

/// The scale a form asks for: 1 when none is sent, else a positive `u32`.
pub open spec fn form_scale(m: Map<Seq<char>, Seq<char>>) -> Result<u32, Seq<char>> {
    match form_value(m, "scale"@) {
        None => Ok(1u32),
        Some(v) => match parse_u32_spec(v) {
            Some(n) => if n >= 1 {
                Ok(n)
            } else {
                Err("scale must be a positive integer"@)
            },
            None => Err("scale must be a positive integer"@),
        },
    }
}

/// The sampling modes a form asks for, as `(supersample, hypersample)`: the
/// `sampling` radio decides (`supersample` / `ss`, `hypersample` / `hs`, any
/// other value for none); without it the legacy `supersample` /
/// `hypersample` checkboxes do.
pub open spec fn form_sampling(m: Map<Seq<char>, Seq<char>>) -> (bool, bool) {
    match form_value(m, "sampling"@) {
        Some(v) => if v == "supersample"@ || v == "ss"@ {
            (true, false)
        } else if v == "hypersample"@ || v == "hs"@ {
            (false, true)
        } else {
            (false, false)
        },
        None => (form_flag(m, "supersample"@), form_flag(m, "hypersample"@)),
    }
}

/// The message for a sampling mode sent together with a scale.
pub open spec fn sampling_scale_message(hypersample: bool) -> Seq<char> {
    if hypersample {
        "hypersampling cannot be combined with a scale other than 1"@
    } else {
        "supersampling cannot be combined with a scale other than 1"@
    }
}

/// The first rule a form's configuration breaks, in the command line's
/// order: the two sampling modes exclude each other, a sampling mode
/// excludes a scale (a scale of 1, which the page always sends, is no
/// scale), and then the remaining rules of [`config_problem`].
pub open spec fn form_problem(
    scale: u32,
    supersample: bool,
    hypersample: bool,
    ambient_occlusion: bool,
    bloom: bool,
) -> Option<Seq<char>> {
    if !(supersample && hypersample) && (supersample || hypersample) && scale != 1 {
        Some(sampling_scale_message(hypersample))
    } else {
        config_problem(scale, supersample, hypersample, ambient_occlusion, bloom)
    }
}

/// The render configuration a form describes, with the command line's
/// validation rules, or the first problem's message.
pub open spec fn config_from_form(
    m: Map<Seq<char>, Seq<char>>,
    world_path: String,
    output_dir: String,
) -> Result<RenderConfig, Seq<char>> {
    match form_dimension(m) {
        Err(e) => Err(e),
        Ok(dim) => match form_single(m) {
            Err(e) => Err(e),
            Ok(single) => match form_scale(m) {
                Err(e) => Err(e),
                Ok(scale) => {
                    let (ss, hs) = form_sampling(m);
                    let c = RenderConfig {
                        world_path,
                        dim,
                        single,
                        scale,
                        shadows: form_flag(m, "shadows"@),
                        supersample: ss,
                        hypersample: hs,
                        ambient_occlusion: form_flag(m, "ao"@),
                        bloom: form_flag(m, "bloom"@),
                        transparency: form_flag(m, "transparency"@),
                        night: form_flag(m, "night"@),
                        output_dir,
                    };
                    match form_problem(c.scale, c.supersample, c.hypersample, c.ambient_occlusion, c.bloom) {
                        Some(e) => Err(e),
                        None => Ok(c),
                    }
                },
            },
        },
    }
}

/// The trimmed value of form field `key`, if it was sent and is not blank.
fn field_value(fields: &FormFields, key: &str) -> (r: Option<Vec<char>>)
    ensures
        match r {
            Some(v) => form_value(fields@, key@) == Some(v@),
            None => form_value(fields@, key@) is None,
        },
{
    match fields.get(key) {
        Some(v) => {
            let t = trim_chars(&chars_of(v.as_str()));
            if t.len() > 0 {
                Some(t)
            } else {
                None
            }
        },
        None => None,
    }
}

/// Whether `v` is the text `lit`.
fn is_text(v: &Vec<char>, lit: &str) -> (r: bool)
    ensures
        r == (v@ == lit@),
{
    chars_eq(v, &chars_of(lit))
}

/// Whether checkbox field `key` is on.
fn field_flag(fields: &FormFields, key: &str) -> (r: bool)
    ensures
        r == form_flag(fields@, key@),
{
    match field_value(fields, key) {
        Some(v) => is_text(&v, "on") || is_text(&v, "true") || is_text(&v, "1"),
        None => false,
    }
}

fn quoted_message(head: &str, v: &Vec<char>, tail: &str) -> (m: String)
    ensures
        m@ == head@ + v@ + tail@,
{
    let mut out: Vec<char> = Vec::new();
    push_str(&mut out, head);
    push_chars(&mut out, v);
    push_str(&mut out, tail);
    string_from_chars(out.as_slice())
}

/// Turn the multipart form fields into a [`RenderConfig`], mirroring the
/// command line's validation rules (see [`config_from_form`]).
pub fn build_config(fields: &FormFields, world_path: String, output_dir: String) -> (r: Result<RenderConfig, String>)
    ensures
        match r {
            Ok(c) => config_from_form(fields@, world_path, output_dir) == Ok::<RenderConfig, Seq<char>>(c),
            Err(e) => config_from_form(fields@, world_path, output_dir) == Err::<RenderConfig, Seq<char>>(e@),
        },
{
    let dv = match field_value(fields, "dimension") {
        Some(v) => v,
        None => chars_of("overworld"),
    };
    let dim: i32 = if is_text(&dv, "0") || is_text(&dv, "overworld") {
        0
    } else if is_text(&dv, "1") || is_text(&dv, "nether") || is_text(&dv, "the_nether") {
        1
    } else if is_text(&dv, "-1") || is_text(&dv, "end") || is_text(&dv, "the_end") {
        -1
    } else {
        return Err(quoted_message("unknown dimension '", &dv, "' (use overworld, nether, or the_end)"));
    };
    let single: bool = match field_value(fields, "mode") {
        None => true,
        Some(v) => {
            if is_text(&v, "single") {
                true
            } else if is_text(&v, "chunks") || is_text(&v, "chunk") {
                false
            } else {
                return Err(quoted_message("unknown mode '", &v, "' (use single or chunks)"));
            }
        },
    };
    let scale: u32 = match field_value(fields, "scale") {
        None => 1,
        Some(v) => match parse_u32_chars(&v) {
            Some(n) => {
                if n >= 1 {
                    n
                } else {
                    return Err(string_from_chars(chars_of("scale must be a positive integer").as_slice()));
                }
            },
            None => {
                return Err(string_from_chars(chars_of("scale must be a positive integer").as_slice()));
            },
        },
    };
    let (supersample, hypersample) = match field_value(fields, "sampling") {
        Some(v) => {
            if is_text(&v, "supersample") || is_text(&v, "ss") {
                (true, false)
            } else if is_text(&v, "hypersample") || is_text(&v, "hs") {
                (false, true)
            } else {
                (false, false)
            }
        },
        None => (field_flag(fields, "supersample"), field_flag(fields, "hypersample")),
    };
    let config = RenderConfig {
        world_path,
        dim,
        single,
        scale,
        shadows: field_flag(fields, "shadows"),
        supersample,
        hypersample,
        ambient_occlusion: field_flag(fields, "ao"),
        bloom: field_flag(fields, "bloom"),
        transparency: field_flag(fields, "transparency"),
        night: field_flag(fields, "night"),
        output_dir,
    };
    if !(supersample && hypersample) && (supersample || hypersample) && scale != 1 {
        let m = if hypersample {
            "hypersampling cannot be combined with a scale other than 1"
        } else {
            "supersampling cannot be combined with a scale other than 1"
        };
        return Err(string_from_chars(chars_of(m).as_slice()));
    }
    match validate_config(&config) {
        Ok(()) => Ok(config),
        Err(e) => Err(e),
    }
}

/// A path separator of an uploaded name: `/` or `\\`.
pub open spec fn is_separator(c: char) -> bool {
    c == '/' || c == '\\'
}

/// The segments of a name split on both separators, as `str::split` with
/// the pattern `['/', '\\']` yields them.
pub open spec fn name_segments(s: Seq<char>) -> Seq<Seq<char>>
    decreases s.len(),
{
    if s.len() == 0 {
        seq![Seq::empty()]
    } else {
        let prev = name_segments(s.drop_last());
        if is_separator(s.last()) {
            prev.push(Seq::empty())
        } else {
            prev.update(prev.len() - 1, prev.last().push(s.last()))
        }
    }
}

/// `base` joined with the relative `name`, as `Path::join` does: a separator
/// goes between them unless `base` is empty or already ends with one.
pub open spec fn joined(base: Seq<char>, name: Seq<char>) -> Seq<char> {
    if base.len() == 0 {
        name
    } else if base.last() == '/' {
        base + name
    } else {
        base + seq!['/'] + name
    }
}

/// Where an uploaded name may be written under `base`: the trimmed name
/// joined to `base`, refused (`None`) when it is empty, absolute (a leading
/// separator or a drive letter such as `C:`), or has a `..` segment.
pub open spec fn safe_path(base: Seq<char>, name: Seq<char>) -> Option<Seq<char>> {
    let n = trimmed(name);
    if n.len() == 0 {
        None
    } else if is_separator(n[0]) {
        None
    } else if n.len() >= 2 && (n[0] as u32) < 0x80 && n[1] == ':' {
        None
    } else if exists|k: int| 0 <= k < name_segments(n).len() && trimmed(#[trigger] name_segments(n)[k]) == seq!['.', '.'] {
        None
    } else {
        Some(joined(base, n))
    }
}

proof fn lemma_segments_nonempty(s: Seq<char>)
    ensures
        name_segments(s).len() >= 1,
    decreases s.len(),
{
    if s.len() > 0 {
        lemma_segments_nonempty(s.drop_last());
    }
}

/// Whether any `/`- or `\\`-separated segment of `n` is `..` once trimmed.
fn has_parent_segment(n: &Vec<char>) -> (r: bool)
    ensures
        r == exists|k: int| 0 <= k < name_segments(n@).len() && trimmed(#[trigger] name_segments(n@)[k]) == seq!['.', '.'],
{
    let dots = chars_of("..");
    proof {
        reveal_strlit("..");
    }
    assert(dots@ =~= seq!['.', '.']);
    let mut segs: Vec<Vec<char>> = Vec::new();
    let mut cur: Vec<char> = Vec::new();
    let mut i: usize = 0;
    while i < n.len()
        invariant
            i <= n@.len(),
            segs@.len() + 1 == name_segments(n@.take(i as int)).len(),
            forall|k: int| 0 <= k < segs@.len() ==> #[trigger] segs@[k]@ == name_segments(n@.take(i as int))[k],
            cur@ == name_segments(n@.take(i as int)).last(),
        decreases n@.len() - i,
    {
        let c = n[i];
        proof {
            lemma_segments_nonempty(n@.take(i as int));
            assert(n@.take(i + 1).drop_last() =~= n@.take(i as int));
        }
        if c == '/' || c == '\\' {
            let done = cur;
            segs.push(done);
            cur = Vec::new();
        } else {
            cur.push(c);
        }
        i = i + 1;
    }
    assert(n@.take(i as int) =~= n@);
    segs.push(cur);
    let ghost ss = name_segments(n@);
    let mut k: usize = 0;
    while k < segs.len()
        invariant
            k <= segs@.len() == ss.len(),
            ss == name_segments(n@),
            dots@ == seq!['.', '.'],
            forall|q: int| 0 <= q < segs@.len() ==> #[trigger] segs@[q]@ == ss[q],
            forall|q: int| 0 <= q < k ==> trimmed(#[trigger] ss[q]) != seq!['.', '.'],
        decreases segs@.len() - k,
    {
        let t = trim_chars(&segs[k]);
        if chars_eq(&t, &dots) {
            assert(trimmed(ss[k as int]) == seq!['.', '.']);
            return true;
        }
        k = k + 1;
    }
    false
}

/// Join `base` and a relative (possibly nested) name, refusing absolute
/// paths and `..` traversal so uploads cannot escape the workspace.
pub fn safe_join(base: &str, name: &str) -> (r: Option<String>)
    ensures
        match r {
            Some(p) => safe_path(base@, name@) == Some(p@),
            None => safe_path(base@, name@) is None,
        },
{
    let n = trim_chars(&chars_of(name));
    if n.len() == 0 {
        return None;
    }
    if n[0] == '/' || n[0] == '\\' {
        return None;
    }
    if n.len() >= 2 && (n[0] as u32) < 0x80 && n[1] == ':' {
        return None;
    }
    if has_parent_segment(&n) {
        return None;
    }
    let b = chars_of(base);
    let mut out: Vec<char> = Vec::new();
    push_chars(&mut out, &b);
    if b.len() > 0 && b[b.len() - 1] != '/' {
        out.push('/');
    }
    push_chars(&mut out, &n);
    assert(out@ =~= joined(base@, n@));
    Some(string_from_chars(out.as_slice()))
}

/// The lowercase hexadecimal digits of `v`, padded with zeros to `width`
/// digits (`{:0width$x}` for a value below `16^width`).
pub open spec fn hex_padded(v: int, width: int) -> Seq<char>
    decreases width,
{
    if width <= 0 {
        Seq::empty()
    } else {
        hex_padded(v / 16, width - 1).push(hex_digit(v % 16))
    }
}

fn push_hex(out: &mut Vec<char>, v: u64, width: usize)
    requires
        width <= 16,
    ensures
        final(out)@ == old(out)@ + hex_padded(v as int, width as int),
    decreases width,
{
    if width > 0 {
        push_hex(out, v / 16, width - 1);
        out.push(hex_char((v % 16) as u32));
    }
}

/// A job id: six hex digits of the counter mixed with the process id, then
/// four of the counter, as `format!("{:06x}{:04x}", (n ^ pid) & 0xffffff,
/// n & 0xffff)` writes them.
pub fn job_id(n: u64, pid: u64) -> (id: String)
    ensures
        id@ == hex_padded(((n ^ pid) & 0xffffff) as int, 6) + hex_padded((n & 0xffff) as int, 4),
{
    let mut out: Vec<char> = Vec::new();
    push_hex(&mut out, (n ^ pid) & 0xffffff, 6);
    push_hex(&mut out, n & 0xffff, 4);
    string_from_chars(out.as_slice())
}

/// `"{\"error\":" + json_string(message) + "}"`: the body of an error response.
pub fn error_json(message: &str) -> (body: String)
    ensures
        body@ == "{\"error\":"@ + (seq!['"'] + json_escaped(message@) + seq!['"']) + "}"@,
{
    let mut out: Vec<char> = Vec::new();
    push_str(&mut out, "{\"error\":");
    let j = json_string(message);
    push_chars(&mut out, &chars_of(j.as_str()));
    push_str(&mut out, "}");
    string_from_chars(out.as_slice())
}

/// The body of an accepted upload: the job id and the world folder, as JSON.
pub fn upload_json(job: &str, world: &str) -> (body: String)
    ensures
        body@ == "{\"job\": "@ + (seq!['"'] + json_escaped(job@) + seq!['"']) + ", \"world\": "@ + (seq!['"']
            + json_escaped(world@) + seq!['"']) + "}"@,
{
    let mut out: Vec<char> = Vec::new();
    push_str(&mut out, "{\"job\": ");
    push_chars(&mut out, &chars_of(json_string(job).as_str()));
    push_str(&mut out, ", \"world\": ");
    push_chars(&mut out, &chars_of(json_string(world).as_str()));
    push_str(&mut out, "}");
    string_from_chars(out.as_slice())
}

/// The body of a progress report, as JSON: status, message, position,
/// length, the percentage (already formatted by the caller), the error when
/// there is one, and whether a result can be downloaded.
pub fn progress_json(
    status: &str,
    message: &str,
    current: u64,
    total: u64,
    pct: &str,
    error: Option<&str>,
    has_result: bool,
) -> (body: String)
    ensures
        body@ == "{\"status\": "@ + (seq!['"'] + json_escaped(status@) + seq!['"']) + ", \"message\": "@ + (seq!['"']
            + json_escaped(message@) + seq!['"']) + ", \"current\": "@ + crate::text::decimal(current as int)
            + ", \"total\": "@ + crate::text::decimal(total as int) + ", \"pct\": "@ + pct@ + (match error {
            Some(e) => ", \"error\": "@ + (seq!['"'] + json_escaped(e@) + seq!['"']),
            None => Seq::empty(),
        }) + ", \"has_result\": "@ + (if has_result {
            "true"@
        } else {
            "false"@
        }) + "}"@,
{
    let mut out: Vec<char> = Vec::new();
    push_str(&mut out, "{\"status\": ");
    push_chars(&mut out, &chars_of(json_string(status).as_str()));
    push_str(&mut out, ", \"message\": ");
    push_chars(&mut out, &chars_of(json_string(message).as_str()));
    push_str(&mut out, ", \"current\": ");
    assert(current <= u64::MAX);
    push_decimal_u64(&mut out, current);
    push_str(&mut out, ", \"total\": ");
    push_decimal_u64(&mut out, total);
    push_str(&mut out, ", \"pct\": ");
    push_str(&mut out, pct);
    let ghost before_err = out@;
    match error {
        Some(e) => {
            push_str(&mut out, ", \"error\": ");
            push_chars(&mut out, &chars_of(json_string(e).as_str()));
        },
        None => {
            assert(out@ =~= before_err + Seq::<char>::empty());
        },
    }
    push_str(&mut out, ", \"has_result\": ");
    if has_result {
        push_str(&mut out, "true");
    } else {
        push_str(&mut out, "false");
    }
    push_str(&mut out, "}");
    string_from_chars(out.as_slice())
}

fn push_decimal_u64(out: &mut Vec<char>, v: u64)
    ensures
        final(out)@ == old(out)@ + crate::text::decimal(v as int),
{
    crate::text::push_digits(out, v);
}

/// Port the dedicated server listens on.
pub const PORT: u16 = 7878;

/// Maximum size of a whole multipart upload body, in bytes: 2 GiB.
pub const MAX_BODY_BYTES: u64 = 2147483648;

/// Maximum number of entries in an uploaded zip archive.
pub const MAX_ARCHIVE_ENTRIES: usize = 200000;

/// Hard ceiling on the total bytes extracted from an archive (zip-bomb
/// guard): 20 GiB.
pub const MAX_EXTRACTED_BYTES: u64 = 21474836480;

/// Seconds a finished job, and its temporary output, is kept for download.
pub const JOB_RETENTION_SECS: u64 = 1800;

/// A job can be removed once it has finished (`done` or `error`) and was
/// finished more than [`JOB_RETENTION_SECS`] ago; `finished_nanos_ago` is the
/// time since it finished, in nanoseconds, if it has.
pub fn job_is_stale(status: &str, finished_nanos_ago: Option<u128>) -> (r: bool)
    ensures
        r == ((status@ == "done"@ || status@ == "error"@) && match finished_nanos_ago {
            Some(t) => t > JOB_RETENTION_SECS * 1_000_000_000,
            None => false,
        }),
{
    let done = str_eq(status, "done") || str_eq(status, "error");
    match finished_nanos_ago {
        Some(t) => done && t > (JOB_RETENTION_SECS as u128) * 1_000_000_000,
        None => false,
    }
}

/// An upload body larger than the limit is refused.
pub fn upload_too_large(len: u64) -> (r: bool)
    ensures
        r == (len > MAX_BODY_BYTES),
{
    len > MAX_BODY_BYTES
}

/// An archive with more entries than the limit is refused.
pub fn too_many_entries(count: usize) -> (r: bool)
    ensures
        r == (count > MAX_ARCHIVE_ENTRIES),
{
    count > MAX_ARCHIVE_ENTRIES
}

/// Whether an archive entry announcing `size` bytes still fits the
/// extraction budget after `extracted` bytes (the sum saturating at the
/// largest `u64`).
pub fn entry_fits(extracted: u64, size: u64) -> (r: bool)
    ensures
        r == ((if extracted + size > u64::MAX { u64::MAX as int } else { extracted + size }) <= MAX_EXTRACTED_BYTES),
{
    let total = if size > u64::MAX - extracted { u64::MAX } else { extracted + size };
    total <= MAX_EXTRACTED_BYTES
}

/// Whether `read` bytes actually read from an entry still fit the budget
/// after `extracted` bytes (the room left saturating at zero).
pub fn read_fits(extracted: u64, read: u64) -> (r: bool)
    ensures
        r == (read <= (if extracted > MAX_EXTRACTED_BYTES { 0int } else { MAX_EXTRACTED_BYTES - extracted })),
{
    let room = if extracted > MAX_EXTRACTED_BYTES { 0 } else { MAX_EXTRACTED_BYTES - extracted };
    read <= room
}

/// `s` with every `\\` turned into `/`.
pub open spec fn forward_slashes(s: Seq<char>) -> Seq<char> {
    Seq::new(s.len(), |i: int| if s[i] == '\\' { '/' } else { s[i] })
}

/// `s` without any number of leading `./`.
pub open spec fn strip_dot_slash(s: Seq<char>) -> Seq<char>
    decreases s.len(),
{
    if s.len() >= 2 && s[0] == '.' && s[1] == '/' {
        strip_dot_slash(s.skip(2))
    } else {
        s
    }
}

/// The name an archive entry is extracted under: backslashes become `/`,
/// leading `./` are dropped, and the result is trimmed.
pub open spec fn entry_name(raw: Seq<char>) -> Seq<char> {
    trimmed(strip_dot_slash(forward_slashes(raw)))
}

/// Normalize an archive entry's name (see [`entry_name`]); an entry whose
/// name then ends with `/` is a directory.
pub fn zip_entry_name(raw: &str) -> (r: String)
    ensures
        r@ == entry_name(raw@),
{
    let cs = chars_of(raw);
    let mut fwd: Vec<char> = Vec::new();
    let mut i: usize = 0;
    while i < cs.len()
        invariant
            i <= cs@.len(),
            cs@ == raw@,
            fwd@ == forward_slashes(cs@).take(i as int),
        decreases cs@.len() - i,
    {
        let c = cs[i];
        fwd.push(if c == '\\' { '/' } else { c });
        assert(fwd@ =~= forward_slashes(cs@).take(i + 1));
        i = i + 1;
    }
    assert(fwd@ =~= forward_slashes(raw@));
    let mut start: usize = 0;
    while fwd.len() - start >= 2 && fwd[start] == '.' && fwd[start + 1] == '/'
        invariant
            start <= fwd@.len(),
            strip_dot_slash(fwd@) == strip_dot_slash(fwd@.skip(start as int)),
        decreases fwd@.len() - start,
    {
        assert(fwd@.skip(start as int).skip(2) =~= fwd@.skip(start + 2));
        start = start + 2;
    }
    let rest = sub_chars(&fwd, start, fwd.len());
    assert(rest@ =~= fwd@.skip(start as int));
    let t = trim_chars(&rest);
    string_from_chars(t.as_slice())
}

/// What `str::to_lowercase` gives for `s`.
pub uninterp spec fn lowercased(s: Seq<char>) -> Seq<char>;

/// `s.to_lowercase()`: Unicode lowercase mapping; for ASCII text this lowers
/// `A`..`Z` and keeps everything else, as std documents. Other characters'
/// mappings are left to the name [`lowercased`].
#[verifier::external_body]
pub(crate) fn lowercase(s: &str) -> (r: String)
    ensures
        r@ == lowercased(s@),
        (forall|i: int| 0 <= i < s@.len() ==> (#[trigger] s@[i] as u32) < 0x80) ==> r@ == Seq::new(
            s@.len(),
            |i: int| ascii_lower(s@[i]),
        ),
{
    s.to_lowercase()
}

/// How an upload is laid out on disk.
pub enum UploadKind {
    /// A single zip archive, to be extracted.
    Zip,
    /// The files of a world folder.
    Files,
}

/// `s` ends with `.zip`.
pub open spec fn ends_with_zip(s: Seq<char>) -> bool {
    s.len() >= 4 && s.subrange(s.len() - 4, s.len() as int) == seq!['.', 'z', 'i', 'p']
}

/// What an upload holds: nothing is refused, a single part is a zip archive
/// when its name ends in `.zip` (in any case) or its data starts with `PK`
/// (any other single file is refused), and several parts are a folder.
pub open spec fn upload_kind_of(parts: Seq<(Option<Seq<char>>, Seq<u8>)>) -> Result<UploadKind, Seq<char>> {
    if parts.len() == 0 {
        Err("no world files were uploaded (add a folder or a .zip)"@)
    } else if parts.len() == 1 {
        let named_zip = match parts[0].0 {
            Some(n) => ends_with_zip(lowercased(n)),
            None => false,
        };
        let data = parts[0].1;
        if named_zip || (data.len() >= 2 && data[0] == 0x50u8 && data[1] == 0x4bu8) {
            Ok(UploadKind::Zip)
        } else {
            Err("a single non-zip file is not a valid world (upload a folder or a .zip)"@)
        }
    } else {
        Ok(UploadKind::Files)
    }
}

/// Decide what an upload holds (see [`upload_kind_of`]).
pub fn upload_kind(parts: &Vec<FilePart>) -> (r: Result<UploadKind, String>)
    ensures
        match r {
            Ok(k) => upload_kind_of(parts@.map_values(|p: FilePart| file_part_view(p))) == Ok::<UploadKind, Seq<char>>(k),
            Err(e) => upload_kind_of(parts@.map_values(|p: FilePart| file_part_view(p))) == Err::<UploadKind, Seq<char>>(e@),
        },
{
    let ghost pv = parts@.map_values(|p: FilePart| file_part_view(p));
    if parts.len() == 0 {
        return Err(string_from_chars(chars_of("no world files were uploaded (add a folder or a .zip)").as_slice()));
    }
    if parts.len() == 1 {
        let part = &parts[0];
        assert(pv[0] == file_part_view(*part));
        let named_zip = match &part.file_name {
            Some(n) => {
                let l = chars_of(lowercase(n.as_str()).as_str());
                let k = l.len();
                if k >= 4 {
                    let tail = sub_chars(&l, k - 4, k);
                    chars_eq(&tail, &vec!['.', 'z', 'i', 'p'])
                } else {
                    false
                }
            },
            None => false,
        };
        if named_zip || looks_like_zip(part.data.as_slice()) {
            return Ok(UploadKind::Zip);
        }
        return Err(
            string_from_chars(
                chars_of("a single non-zip file is not a valid world (upload a folder or a .zip)").as_slice(),
            ),
        );
    }
    Ok(UploadKind::Files)
}

/// The request methods the server routes.
pub enum HttpMethod {
    Get,
    Post,
    Other,
}

/// The handler a request goes to.
#[derive(PartialEq, Eq, Structural)]
pub enum Route {
    /// `GET /`: the upload page.
    Index,
    /// `GET /health`.
    Health,
    /// `POST /upload`.
    Upload,
    /// `GET /progress`.
    Progress,
    /// `GET /result`.
    Result,
    /// Anything else.
    NotFound,
}

/// The path and the query of a request URL, split at the first `?`.
pub open spec fn url_parts(url: Seq<char>) -> (Seq<char>, Seq<char>) {
    match index_of_char(url, '?', 0) {
        Some(i) => (url.take(i), url.skip(i + 1)),
        None => (url, Seq::empty()),
    }
}

/// The handler for a request: its path (URL-decoded when it decodes) and
/// method pick it.
pub open spec fn route_of(method: HttpMethod, url: Seq<char>) -> Route {
    let (raw, _) = url_parts(url);
    let path = match url_decoded(raw) {
        Some(p) => p,
        None => raw,
    };
    match method {
        HttpMethod::Get => if path == "/"@ {
            Route::Index
        } else if path == "/health"@ {
            Route::Health
        } else if path == "/progress"@ {
            Route::Progress
        } else if path == "/result"@ {
            Route::Result
        } else {
            Route::NotFound
        },
        HttpMethod::Post => if path == "/upload"@ {
            Route::Upload
        } else {
            Route::NotFound
        },
        HttpMethod::Other => Route::NotFound,
    }
}

/// Searching from `i` past a stretch with no `c` finds what lies beyond it.
proof fn lemma_index_skips_to(s: Seq<char>, c: char, i: int, k: int)
    requires
        0 <= i <= k <= s.len(),
        forall|j: int| i <= j < k ==> s[j] != c,
    ensures
        index_of_char(s, c, i) == index_of_char(s, c, k),
    decreases k - i,
{
    if i < k {
        lemma_index_skips_to(s, c, i + 1, k);
    }
}

/// A URL splits at its first `?`: a path with no `?`, followed by `?` and
/// a query, gives that path and that query (the query may hold more `?`);
/// a URL with no `?` is all path, with an empty query.
pub proof fn lemma_url_splits_at_first_question_mark(path: Seq<char>, query: Seq<char>)
    requires
        forall|j: int| 0 <= j < path.len() ==> path[j] != '?',
    ensures
        url_parts(path + seq!['?'] + query) == (path, query),
        url_parts(path) == (path, Seq::<char>::empty()),
{
    let u = path + seq!['?'] + query;
    lemma_index_skips_to(u, '?', 0, path.len() as int);
    assert(u[path.len() as int] == '?');
    assert(u.take(path.len() as int) =~= path);
    assert(u.skip(path.len() as int + 1) =~= query);
    lemma_index_skips_to(path, '?', 0, path.len() as int);
}

/// Bytes with no `+` and no `%` decode to themselves.
proof fn lemma_url_bytes_plain(b: Seq<u8>, i: int)
    requires
        0 <= i <= b.len(),
        forall|j: int| i <= j < b.len() ==> b[j] != 0x2bu8 && b[j] != 0x25u8,
    ensures
        url_bytes(b, i) == Some(b.skip(i)),
    decreases b.len() - i,
{
    if i < b.len() {
        lemma_url_bytes_plain(b, i + 1);
        assert(seq![b[i]] + b.skip(i + 1) =~= b.skip(i));
    } else {
        assert(b.skip(i) =~= Seq::<u8>::empty());
    }
}

/// URL decoding leaves plain ASCII text, with no `+` and no `%`, as it is.
pub proof fn lemma_plain_ascii_decodes_to_itself(text: Seq<char>)
    requires
        vstd::utf8::is_ascii_chars(text),
        forall|j: int| 0 <= j < text.len() ==> text[j] != '+' && text[j] != '%',
    ensures
        url_decoded(text) == Some(text),
{
    let b = vstd::utf8::encode_utf8(text);
    vstd::utf8::is_ascii_chars_encode_utf8(text);
    vstd::utf8::is_ascii_chars_nat_bound(text);
    assert forall|j: int| 0 <= j < b.len() implies b[j] != 0x2bu8 && b[j] != 0x25u8 by {
        assert(text[j] as u8 == b[j]);
        assert('\0' <= text[j] <= '\u{7f}');
    }
    lemma_url_bytes_plain(b, 0);
    assert(b.skip(0) =~= b);
    vstd::utf8::encode_utf8_valid_utf8(text);
    vstd::utf8::encode_utf8_decode_utf8(text);
}

/// Each endpoint of the server is reached by its path and method, whatever
/// query follows the path: `GET /` is the upload page, `GET /health`,
/// `GET /progress` and `GET /result` their handlers, and `POST /upload` the
/// upload; a percent-encoded path that decodes to one of them routes the same
/// way. `/upload` is not served to `GET`, the pages are not served to
/// `POST`, and no other method is served at all.
pub proof fn lemma_route_table(url: Seq<char>)
    ensures
        ({
            let path = url_parts(url).0;
            let decoded = url_decoded(path);
            &&& (path == "/"@ || decoded == Some("/"@)) ==> route_of(HttpMethod::Get, url) == Route::Index
                && route_of(HttpMethod::Post, url) == Route::NotFound
            &&& (path == "/health"@ || decoded == Some("/health"@)) ==> route_of(HttpMethod::Get, url)
                == Route::Health && route_of(HttpMethod::Post, url) == Route::NotFound
            &&& (path == "/progress"@ || decoded == Some("/progress"@)) ==> route_of(HttpMethod::Get, url)
                == Route::Progress && route_of(HttpMethod::Post, url) == Route::NotFound
            &&& (path == "/result"@ || decoded == Some("/result"@)) ==> route_of(HttpMethod::Get, url)
                == Route::Result && route_of(HttpMethod::Post, url) == Route::NotFound
            &&& (path == "/upload"@ || decoded == Some("/upload"@)) ==> route_of(HttpMethod::Post, url)
                == Route::Upload && route_of(HttpMethod::Get, url) == Route::NotFound
            &&& route_of(HttpMethod::Other, url) == Route::NotFound
        }),
{
    reveal_strlit("/");
    reveal_strlit("/health");
    reveal_strlit("/progress");
    reveal_strlit("/result");
    reveal_strlit("/upload");
    let path = url_parts(url).0;
    if path == "/"@ || path == "/health"@ || path == "/progress"@ || path == "/result"@ || path == "/upload"@ {
        lemma_plain_ascii_decodes_to_itself(path);
    }
    assert("/health"@.len() != "/"@.len());
    assert("/progress"@.len() != "/"@.len());
    assert("/result"@.len() != "/"@.len());
    assert("/upload"@.len() != "/"@.len());
    assert("/progress"@.len() != "/health"@.len());
    assert("/result"@[1] != "/health"@[1]);
    assert("/upload"@[1] != "/health"@[1]);
    assert("/result"@.len() != "/progress"@.len());
    assert("/upload"@.len() != "/progress"@.len());
    assert("/upload"@[1] != "/result"@[1]);
}

/// Route a request: its handler and its query string.
pub fn route(method: HttpMethod, url: &str) -> (r: (Route, String))
    ensures
        r.0 == route_of(method, url@),
        r.1@ == url_parts(url@).1,
{
    let cs = chars_of(url);
    let n = cs.len();
    let (raw, query) = match find_char(&cs, '?') {
        Some(i) => (sub_chars(&cs, 0, i), sub_chars(&cs, i + 1, n)),
        None => (cs.clone(), Vec::new()),
    };
    assert(raw@ =~= url_parts(url@).0);
    assert(query@ =~= url_parts(url@).1);
    let raw_s = string_from_chars(raw.as_slice());
    let path = match url_decode(raw_s.as_str()) {
        Some(p) => chars_of(p.as_str()),
        None => raw.clone(),
    };
    let is = |lit: &str| -> (b: bool)
        ensures
            b == (path@ == lit@),
        { chars_eq(&path, &chars_of(lit)) };
    let r = match method {
        HttpMethod::Get => {
            if is("/") {
                Route::Index
            } else if is("/health") {
                Route::Health
            } else if is("/progress") {
                Route::Progress
            } else if is("/result") {
                Route::Result
            } else {
                Route::NotFound
            }
        },
        HttpMethod::Post => {
            if is("/upload") {
                Route::Upload
            } else {
                Route::NotFound
            }
        },
        HttpMethod::Other => Route::NotFound,
    };
    (r, string_from_chars(query.as_slice()))
}

/// The `Content-Disposition` value that names a downloaded file.
pub fn disposition_value(name: &str) -> (v: String)
    ensures
        v@ == "attachment; filename=\""@ + name@ + "\""@,
{
    let mut out: Vec<char> = Vec::new();
    push_str(&mut out, "attachment; filename=\"");
    push_str(&mut out, name);
    push_str(&mut out, "\"");
    string_from_chars(out.as_slice())
}

/// The download name of a per-chunk result: the image name with its
/// extension replaced by `.zip`, as `Path::with_extension` does for a plain
/// file name.
pub open spec fn zip_name_of(name: Seq<char>) -> Seq<char> {
    if name.len() == 0 {
        name
    } else {
        crate::region::file_stem(name) + seq!['.', 'z', 'i', 'p']
    }
}

/// The download name of a per-chunk result (see [`zip_name_of`]).
pub fn zip_file_name(name: &str) -> (r: String)
    ensures
        r@ == zip_name_of(name@),
{
    let cs = chars_of(name);
    if cs.len() == 0 {
        return string_from_chars(cs.as_slice());
    }
    let d = crate::region::find_last_dot(&cs);
    let end = if d == 0 { cs.len() } else { d };
    let mut out = sub_chars(&cs, 0, end);
    assert(out@ =~= crate::region::file_stem(name@));
    out.push('.');
    out.push('z');
    out.push('i');
    out.push('p');
    string_from_chars(out.as_slice())
}

/// Region folders that mark a directory as a world root (the candidates of
/// every supported dimension).
pub fn candidate_region_dirs() -> (r: Vec<&'static str>)
    ensures
        r@.map_values(|c: &'static str| c@) == seq![
            "region"@,
            "DIM1/region"@,
            "DIM-1/region"@,
            "dimensions/minecraft:the_nether/region"@,
            "dimensions/minecraft:the_end/region"@,
        ],
{
    let r: Vec<&'static str> = vec![
        "region",
        "DIM1/region",
        "DIM-1/region",
        "dimensions/minecraft:the_nether/region",
        "dimensions/minecraft:the_end/region",
    ];
    assert(r@.map_values(|c: &'static str| c@) =~= seq![
        "region"@,
        "DIM1/region"@,
        "DIM-1/region"@,
        "dimensions/minecraft:the_nether/region"@,
        "dimensions/minecraft:the_end/region"@,
    ]);
    r
}

/// The single-page upload form.
pub const INDEX_HTML: &'static str = r###"<!doctype html>
<html lang="en">
<head>
<meta charset="utf-8">
<meta name="viewport" content="width=device-width, initial-scale=1">
<title>worldraw — Minecraft world renderer</title>
<style>
  :root { color-scheme: dark; }
  * { box-sizing: border-box; }
  body { font-family: system-ui, -apple-system, "Segoe UI", Roboto, sans-serif; margin: 0; background: #1b1d24; color: #e6e8ee; }
  .wrap { max-width: 720px; margin: 0 auto; padding: 40px 20px 80px; }
  h1 { font-size: 26px; margin: 0 0 4px; }
  p.sub { color: #9aa0ad; margin: 0 0 28px; }
  .card { background: #242732; border: 1px solid #323645; border-radius: 12px; padding: 20px 22px; margin-bottom: 18px; }
  label { display: block; font-size: 13px; color: #aab0bd; margin: 14px 0 6px; }
  input[type="text"], input[type="number"], select { width: 100%; padding: 10px 12px; border-radius: 8px; border: 1px solid #3a3f4f; background: #1b1d24; color: #e6e8ee; font-size: 14px; }
  .row { display: flex; flex-wrap: wrap; gap: 14px 22px; }
  .row > div { flex: 1 1 180px; }
  .checks { display: grid; grid-template-columns: 1fr 1fr; gap: 8px 18px; margin-top: 8px; }
  .checks label { display: flex; align-items: center; gap: 8px; margin: 0; font-size: 14px; color: #d6dae3; }
  .checks input { width: auto; }
  button { margin-top: 22px; width: 100%; padding: 13px; border: 0; border-radius: 10px; background: #4f8cff; color: #fff; font-size: 16px; font-weight: 600; cursor: pointer; }
  button:disabled { background: #3a4152; color: #8b90a0; cursor: not-allowed; }
  input:disabled { opacity: .4; cursor: not-allowed; }
  label:has(input:disabled) { opacity: .5; }
  .files { display: flex; gap: 12px; }
  .files > div { flex: 1; }
  input[type="file"] { width: 100%; font-size: 13px; color: #cfd3dc; }
  .card.dropzone { transition: border-color .15s, background .15s; }
  .card.dropzone.dragover { border-color: #4f8cff; background: #262f45; }
  .dropzone-hint { color: #6f7686; font-size: 12px; margin: 0 0 10px; }
  #status { display: none; }
  .bar { height: 10px; background: #15171d; border-radius: 6px; overflow: hidden; margin: 4px 0 8px; }
  .bar > div { height: 100%; width: 0; background: linear-gradient(90deg, #4f8cff, #6ad4ff); transition: width .2s; }
  .msg { font-size: 13px; color: #9aa0ad; }
  .err { color: #ff7a7a; }
  .done { color: #6ad48a; }
  a.result { display: inline-block; margin-top: 12px; padding: 10px 16px; border-radius: 8px; background: #2f855a; color: #fff; text-decoration: none; }
  small.hint { color: #6f7686; font-size: 12px; margin-top: 6px; display: block; }
</style>
</head>
<body>
<div class="wrap">
  <h1>worldraw</h1>
  <p class="sub">Upload a Minecraft world (a folder or a .zip) and render a top-down map.</p>

  <form id="form">
    <div class="card dropzone" id="dropzone">
      <label>World to render</label>
      <p class="dropzone-hint" id="dropnote">Drag &amp; drop a world folder or a .zip archive here, or use the buttons below.</p>
      <div class="files">
        <div>
          <input type="file" id="folder" webkitdirectory directory multiple>
          <small class="hint">…or select the world folder</small>
        </div>
        <div>
          <input type="file" id="zip" accept=".zip">
          <small class="hint">…or a .zip archive</small>
        </div>
      </div>
    </div>

    <div class="card">
      <div class="row">
        <div>
          <label>Dimension</label>
          <select name="dimension">
            <option value="overworld" selected>Overworld</option>
            <option value="nether">The Nether</option>
            <option value="the_end">The End</option>
          </select>
        </div>
        <div>
          <label>Output</label>
          <select name="mode">
            <option value="single" selected>One big PNG</option>
            <option value="chunks">One PNG per chunk (zip)</option>
          </select>
        </div>
        <div>
          <label>Scale (blocks per pixel)</label>
          <input type="number" name="scale" min="1" value="1">
        </div>
      </div>

      <label>Sampling</label>
      <div class="checks">
        <label><input type="radio" name="sampling" value="normal" checked> Normal</label>
        <label><input type="radio" name="sampling" value="supersample"> Supersample (5&times;)</label>
        <label><input type="radio" name="sampling" value="hypersample"> Hypersample (15&times;)</label>
      </div>

      <label>Options</label>
      <div class="checks">
        <label><input type="checkbox" name="shadows" value="on"> Shadows</label>
        <label><input type="checkbox" name="ao" value="on"> Ambient occlusion</label>
        <label><input type="checkbox" name="bloom" value="on"> Bloom</label>
        <label><input type="checkbox" name="transparency" value="on"> Transparency</label>
        <label><input type="checkbox" name="night" value="on"> Night / moon</label>
      </div>
    </div>

    <button id="go" type="submit">Render world</button>
  </form>

  <div class="card" id="status">
    <div class="bar"><div id="fill"></div></div>
    <div class="msg" id="msg">Working…</div>
    <div id="result"></div>
  </div>
</div>
<script>
  const form = document.getElementById('form');
  const go = document.getElementById('go');
  const statusBox = document.getElementById('status');
  const fill = document.getElementById('fill');
  const msg = document.getElementById('msg');
  const resultBox = document.getElementById('result');
  const FLAGS = ['shadows', 'ao', 'bloom', 'transparency', 'night'];
  let timer = null;

  const samplingRadios = form.querySelectorAll('input[name="sampling"]');

  // Interlocking form constraints. A disabled control is kept in a forced
  // state (value/checked) so the request always matches what the UI shows.
  function currentSampling() {
    for (const r of samplingRadios) if (r.checked) return r.value;
    return 'normal';
  }
  function applyConstraints() {
    const isNormal = currentSampling() === 'normal';
    const isSingle = form.mode.value === 'single';

    // Scale only applies in Normal mode; force it back to 1 otherwise.
    form.scale.disabled = !isNormal;
    if (!isNormal) form.scale.value = '1';

    // Ambient occlusion and Bloom are only available with supersampling;
    // force them off in Normal mode.
    form.ao.disabled = isNormal;
    form.bloom.disabled = isNormal;
    if (isNormal) { form.ao.checked = false; form.bloom.checked = false; }

    // Shadows are only available for a single big PNG; force off per-chunk.
    form.shadows.disabled = !isSingle;
    if (!isSingle) form.shadows.checked = false;
  }
  samplingRadios.forEach(r => r.addEventListener('change', applyConstraints));
  form.mode.addEventListener('change', applyConstraints);
  applyConstraints();

  // --- Drag & drop onto the upload card: accepts a world folder or a .zip ---
  const dropZone = document.getElementById('dropzone');
  const folderInput = document.getElementById('folder');
  const zipInput = document.getElementById('zip');
  const dropNote = document.getElementById('dropnote');
  let dropped = null; // { files: File[] } loaded via drag & drop

  function readAllEntries(reader) {
    return new Promise((resolve) => {
      const acc = [];
      const read = () => reader.readEntries(
        (entries) => (entries.length === 0 ? resolve(acc) : (acc.push(...entries), read())),
        () => resolve(acc),
      );
      read();
    });
  }
  async function walkEntry(entry, prefix, out) {
    if (entry.isFile) {
      await new Promise((resolve, reject) =>
        entry.file((f) => { f.__relpath = prefix; out.push(f); resolve(); }, reject));
    } else if (entry.isDirectory) {
      for (const e of await readAllEntries(entry.createReader())) {
        await walkEntry(e, prefix + '/' + e.name, out);
      }
    }
  }
  function setInputFiles(input, files) {
    const dt = new DataTransfer();
    for (const f of files) dt.items.add(f);
    input.files = dt.files;
  }
  function setNote(text) { if (dropNote) dropNote.textContent = text; }

  // Picking via a button clears any drop, and vice-versa (handled in handleDrop).
  folderInput.addEventListener('change', () => { dropped = null; });
  zipInput.addEventListener('change', () => { dropped = null; });

  async function handleDrop(e) {
    let folderEntry = null, zipFile = null;
    for (const it of Array.from(e.dataTransfer.items)) {
      if (it.kind !== 'file') continue;
      const entry = it.webkitGetAsEntry ? it.webkitGetAsEntry() : null;
      if (entry && entry.isDirectory) {
        if (!folderEntry) folderEntry = entry;
      } else {
        const f = it.getAsFile();
        if (f && /\.zip$/i.test(f.name) && !zipFile) zipFile = f;
      }
    }
    if (folderEntry) {
      const files = [];
      await walkEntry(folderEntry, folderEntry.name, files);
      if (files.length === 0) { setNote('That folder is empty — nothing to upload.'); return; }
      dropped = { files };
      setInputFiles(folderInput, files);
      setInputFiles(zipInput, []);
      setNote('Folder loaded: ' + files.length + ' file(s). Ready to render.');
    } else if (zipFile) {
      dropped = { files: [zipFile] };
      setInputFiles(zipInput, [zipFile]);
      setInputFiles(folderInput, []);
      setNote('Archive loaded: ' + zipFile.name + '. Ready to render.');
    } else {
      setNote('Drop a world folder or a .zip archive.');
    }
  }
  ['dragenter', 'dragover'].forEach((ev) => dropZone.addEventListener(ev, (e) => {
    e.preventDefault(); e.stopPropagation();
    dropZone.classList.add('dragover');
  }));
  dropZone.addEventListener('dragleave', (e) => {
    e.preventDefault();
    if (!dropZone.contains(e.relatedTarget)) dropZone.classList.remove('dragover');
  });
  dropZone.addEventListener('drop', (e) => {
    e.preventDefault(); e.stopPropagation();
    dropZone.classList.remove('dragover');
    handleDrop(e);
  });

  form.addEventListener('submit', async (ev) => {
    ev.preventDefault();
    const folder = document.getElementById('folder');
    const zip = document.getElementById('zip');
    const files = dropped ? dropped.files : (folder.files.length ? folder.files : zip.files);
    if (!files || files.length === 0) {
      alert('Please choose a world folder or a .zip archive first.');
      return;
    }
    const fd = new FormData();
    for (const f of files) fd.append('world', f, f.__relpath || f.webkitRelativePath || f.name);
    fd.append('dimension', form.dimension.value);
    fd.append('mode', form.mode.value);
    fd.append('scale', form.scale.value);
    fd.append('sampling', form.sampling.value);
    for (const n of FLAGS) { const el = form[n]; if (el && el.checked) fd.append(n, 'on'); }

    go.disabled = true;
    msg.className = 'msg';
    msg.textContent = 'Uploading…';
    resultBox.innerHTML = '';
    fill.style.width = '0%';
    statusBox.style.display = 'block';

    try {
      const res = await fetch('/upload', { method: 'POST', body: fd });
      const json = await res.json();
      if (!res.ok) throw new Error(json.error || 'upload failed');
      msg.textContent = 'Job started — rendering…';
      poll(json.job);
    } catch (e) {
      showErr(e.message);
    }
  });

  function poll(job) {
    if (timer) clearInterval(timer);
    timer = setInterval(async () => {
      try {
        const res = await fetch('/progress?job=' + encodeURIComponent(job));
        const p = await res.json();
        if (p.error) { clearInterval(timer); showErr(p.error); return; }
        const pct = p.total > 0 ? Math.min(100, (p.current / p.total) * 100) : 0;
        if (p.status === 'done') {
          clearInterval(timer);
          fill.style.width = '100%';
          msg.className = 'msg done';
          msg.textContent = 'Done!' + (p.total ? ' ' + p.current + ' chunk(s) rendered.' : ' Complete.');
          resultBox.innerHTML = '<a class="result" href="/result?job=' + encodeURIComponent(job) + '">Download result</a>';
          go.disabled = false;
        } else if (p.status === 'error') {
          clearInterval(timer);
          showErr(p.error || p.message || 'render failed');
        } else {
          fill.style.width = pct.toFixed(1) + '%';
          msg.className = 'msg';
          msg.textContent = (p.message || 'Working…') + ' (' + pct.toFixed(0) + '%)';
        }
      } catch (e) {
        clearInterval(timer);
        showErr(e.message);
      }
    }, 1000);
  }

  function showErr(text) {
    msg.className = 'msg err';
    msg.textContent = text;
    resultBox.innerHTML = '';
    go.disabled = false;
  }
</script>
</body>
</html>"###;

/// The single-page upload UI.
pub fn index_html() -> (page: String)
    ensures
        page@ == INDEX_HTML@,
{
    string_from_chars(chars_of(INDEX_HTML).as_slice())
}

} // verus!
