//! The `<scheme>://localhost/<url-encoded-abs-path>` resource protocol: which local files a
//! sandboxed webview may load, how their paths are decoded, and what content type they get.

use vstd::prelude::*;
use vstd::utf8::{decode_utf8, encode_utf8, valid_utf8};

use crate::text::{chars_of, contains, contains_seq, ends_with, has_suffix};

verus! {

/// `\` turned into `/`, every other character kept (`s.replace('\\', "/")`).
pub open spec fn slashes_normalized(s: Seq<char>) -> Seq<char> {
    s.map_values(|c: char| if c == '\\' { '/' } else { c })
}

fn normalize_slashes(s: &Vec<char>) -> (r: Vec<char>)
    ensures
        r@ == slashes_normalized(s@),
{
    let mut out: Vec<char> = Vec::new();
    let mut i: usize = 0;
    while i < s.len()
        invariant
            i <= s@.len(),
            out@ == slashes_normalized(s@.subrange(0, i as int)),
        decreases s@.len() - i,
    {
        let c = if s[i] == '\\' { '/' } else { s[i] };
        out.push(c);
        i += 1;
        assert(out@ =~= slashes_normalized(s@.subrange(0, i as int)));
    }
    assert(s@.subrange(0, s@.len() as int) =~= s@);
    out
}

/// A path may be served iff, with backslashes read as slashes, it has no `..` and contains the
/// host-supplied trusted segment.
pub open spec fn resource_allowed_spec(path: Seq<char>, allowed_segment: Seq<char>) -> bool {
    !contains_seq(slashes_normalized(path), ".."@) && contains_seq(
        slashes_normalized(path),
        allowed_segment,
    )
}

pub fn resource_allowed(path: &str, allowed_segment: &str) -> (r: bool)
    ensures
        r == resource_allowed_spec(path@, allowed_segment@),
{
    let norm = normalize_slashes(&chars_of(path));
    if contains(&norm, &chars_of("..")) {
        return false;
    }
    contains(&norm, &chars_of(allowed_segment))
}

/// The value of a hexadecimal digit byte (`(b as char).to_digit(16)`).
pub open spec fn hex_value(b: u8) -> Option<u8> {
    if 0x30 <= b <= 0x39 {
        Some((b - 0x30) as u8)
    } else if 0x61 <= b <= 0x66 {
        Some((b - 0x61 + 10) as u8)
    } else if 0x41 <= b <= 0x46 {
        Some((b - 0x41 + 10) as u8)
    } else {
        None
    }
}

pub fn hex_digit(b: u8) -> (r: Option<u8>)
    ensures
        r == hex_value(b),
{
    if 0x30 <= b && b <= 0x39 {
        Some(b - 0x30)
    } else if 0x61 <= b && b <= 0x66 {
        Some(b - 0x61 + 10)
    } else if 0x41 <= b && b <= 0x46 {
        Some(b - 0x41 + 10)
    } else {
        None
    }
}

/// Percent-decoding of bytes: a `%` followed by two hex digits (either case) becomes the byte
/// those digits spell; every other byte, including a `%` that does not start such an escape,
/// is kept as it is.
pub open spec fn percent_decoded(b: Seq<u8>) -> Seq<u8>
    decreases b.len(),
{
    if b.len() == 0 {
        b
    } else if b[0] == 0x25 && 2 < b.len() && hex_value(b[1]) is Some && hex_value(b[2]) is Some {
        seq![(hex_value(b[1])->0 * 16 + hex_value(b[2])->0) as u8] + percent_decoded(
            b.subrange(3, b.len() as int),
        )
    } else {
        seq![b[0]] + percent_decoded(b.subrange(1, b.len() as int))
    }
}

/// The text that `String::from_utf8_lossy` makes of `b` (invalid sequences become U+FFFD).
pub uninterp spec fn utf8_lossy(b: Seq<u8>) -> Seq<char>;

/// Trusted: `String::from_utf8_lossy`. It names the result, and states what its documentation
/// gives: valid UTF-8 is decoded unchanged. How invalid sequences are replaced is left unsaid.
#[verifier::external_body]
fn from_utf8_lossy(b: &[u8]) -> (r: String)
    ensures
        r@ == utf8_lossy(b@),
        valid_utf8(b@) ==> r@ == decode_utf8(b@),
{
    String::from_utf8_lossy(b).into_owned()
}

/// Percent-decodes a URL path (`%20` becomes a space); malformed escapes are left as they are.
pub fn percent_decode(s: &str) -> (r: String)
    ensures
        r@ == utf8_lossy(percent_decoded(encode_utf8(s@))),
        valid_utf8(percent_decoded(encode_utf8(s@))) ==> r@ == decode_utf8(
            percent_decoded(encode_utf8(s@)),
        ),
        (forall|i: int| 0 <= i < encode_utf8(s@).len() ==> encode_utf8(s@)[i] != 0x25) ==> r@
            == s@,
{
    let bytes = s.as_bytes();
    let n = bytes.len();
    let mut out: Vec<u8> = Vec::new();
    let mut i: usize = 0;
    assert(bytes@.subrange(0, n as int) =~= bytes@);
    while i < n
        invariant
            n == bytes@.len(),
            i <= n,
            percent_decoded(bytes@) == out@ + percent_decoded(bytes@.subrange(i as int, n as int)),
        decreases n - i,
    {
        let ghost rest = bytes@.subrange(i as int, n as int);
        if bytes[i] == 0x25 && n - i > 2 {
            let hi = hex_digit(bytes[i + 1]);
            let lo = hex_digit(bytes[i + 2]);
            match (hi, lo) {
                (Some(h), Some(l)) => {
                    proof {
                        assert(rest[1] == bytes@[i + 1] && rest[2] == bytes@[i + 2]);
                        assert(rest.subrange(3, rest.len() as int) =~= bytes@.subrange(
                            i + 3,
                            n as int,
                        ));
                        assert(out@.push((h * 16 + l) as u8) + percent_decoded(
                            bytes@.subrange(i + 3, n as int),
                        ) =~= out@ + (seq![(h * 16 + l) as u8] + percent_decoded(
                            bytes@.subrange(i + 3, n as int),
                        )));
                    }
                    out.push(h * 16 + l);
                    i += 3;
                    continue;
                },
                _ => {},
            }
        }
        proof {
            assert(rest[0] == bytes@[i as int]);
            if rest.len() > 2 {
                assert(rest[1] == bytes@[i + 1] && rest[2] == bytes@[i + 2]);
            }
            assert(rest.subrange(1, rest.len() as int) =~= bytes@.subrange(i + 1, n as int));
            assert(out@.push(bytes@[i as int]) + percent_decoded(bytes@.subrange(i + 1, n as int))
                =~= out@ + (seq![bytes@[i as int]] + percent_decoded(
                bytes@.subrange(i + 1, n as int),
            )));
        }
        out.push(bytes[i]);
        i += 1;
    }
    proof {
        assert(out@ + percent_decoded(bytes@.subrange(n as int, n as int)) =~= out@);
        if forall|i: int| 0 <= i < encode_utf8(s@).len() ==> encode_utf8(s@)[i] != 0x25 {
            lemma_no_escape_unchanged(bytes@);
            vstd::utf8::encode_utf8_valid_utf8(s@);
            vstd::utf8::encode_utf8_decode_utf8(s@);
        }
    }
    from_utf8_lossy(out.as_slice())
}

/// Bytes without `%` decode to themselves.
pub proof fn lemma_no_escape_unchanged(b: Seq<u8>)
    requires
        forall|i: int| 0 <= i < b.len() ==> b[i] != 0x25,
    ensures
        percent_decoded(b) == b,
    decreases b.len(),
{
    if b.len() > 0 {
        let rest = b.subrange(1, b.len() as int);
        assert forall|i: int| 0 <= i < rest.len() implies rest[i] != 0x25 by {
            assert(rest[i] == b[i + 1]);
        }
        lemma_no_escape_unchanged(rest);
        assert(seq![b[0]] + rest =~= b);
    }
}

/// What `str::to_lowercase` makes of `s` (Unicode lower-casing).
pub uninterp spec fn unicode_lowercase(s: Seq<char>) -> Seq<char>;

/// Trusted: `str::to_lowercase`. Its result is named; Unicode case mapping is not restated.
#[verifier::external_body]
pub(crate) fn lowercase(s: &str) -> (r: String)
    ensures
        r@ == unicode_lowercase(s@),
{
    s.to_lowercase()
}

/// The content type served for an already lower-cased path, by its extension.
pub open spec fn content_type_spec(p: Seq<char>) -> Seq<char> {
    if has_suffix(p, ".css"@) {
        "text/css; charset=utf-8"@
    } else if has_suffix(p, ".js"@) || has_suffix(p, ".mjs"@) || has_suffix(p, ".cjs"@) {
        "text/javascript; charset=utf-8"@
    } else if has_suffix(p, ".html"@) || has_suffix(p, ".htm"@) {
        "text/html; charset=utf-8"@
    } else if has_suffix(p, ".json"@) || has_suffix(p, ".map"@) {
        "application/json; charset=utf-8"@
    } else if has_suffix(p, ".wasm"@) {
        "application/wasm"@
    } else if has_suffix(p, ".svg"@) {
        "image/svg+xml"@
    } else if has_suffix(p, ".png"@) {
        "image/png"@
    } else if has_suffix(p, ".jpg"@) || has_suffix(p, ".jpeg"@) {
        "image/jpeg"@
    } else if has_suffix(p, ".gif"@) {
        "image/gif"@
    } else if has_suffix(p, ".webp"@) {
        "image/webp"@
    } else if has_suffix(p, ".ico"@) {
        "image/x-icon"@
    } else if has_suffix(p, ".woff2"@) {
        "font/woff2"@
    } else if has_suffix(p, ".woff"@) {
        "font/woff"@
    } else if has_suffix(p, ".ttf"@) {
        "font/ttf"@
    } else if has_suffix(p, ".otf"@) {
        "font/otf"@
    } else {
        "application/octet-stream"@
    }
}

fn ends(p: &Vec<char>, suffix: &str) -> (r: bool)
    ensures
        r == has_suffix(p@, suffix@),
{
    ends_with(p, &chars_of(suffix))
}

/// The content type for a path that is already lower case.
pub fn content_type_of_lowercase(path: &str) -> (r: &'static str)
    ensures
        r@ == content_type_spec(path@),
{
    let p = chars_of(path);
    if ends(&p, ".css") {
        "text/css; charset=utf-8"
    } else if ends(&p, ".js") || ends(&p, ".mjs") || ends(&p, ".cjs") {
        "text/javascript; charset=utf-8"
    } else if ends(&p, ".html") || ends(&p, ".htm") {
        "text/html; charset=utf-8"
    } else if ends(&p, ".json") || ends(&p, ".map") {
        "application/json; charset=utf-8"
    } else if ends(&p, ".wasm") {
        "application/wasm"
    } else if ends(&p, ".svg") {
        "image/svg+xml"
    } else if ends(&p, ".png") {
        "image/png"
    } else if ends(&p, ".jpg") || ends(&p, ".jpeg") {
        "image/jpeg"
    } else if ends(&p, ".gif") {
        "image/gif"
    } else if ends(&p, ".webp") {
        "image/webp"
    } else if ends(&p, ".ico") {
        "image/x-icon"
    } else if ends(&p, ".woff2") {
        "font/woff2"
    } else if ends(&p, ".woff") {
        "font/woff"
    } else if ends(&p, ".ttf") {
        "font/ttf"
    } else if ends(&p, ".otf") {
        "font/otf"
    } else {
        "application/octet-stream"
    }
}

/// Content type for a file: the text and binary types a webview needs (with the charset the
/// text types require), else `application/octet-stream`; the extension is matched after
/// lower-casing the path.
pub fn content_type(path: &str) -> (r: &'static str)
    ensures
        r@ == content_type_spec(unicode_lowercase(path@)),
{
    let lower = lowercase(path);
    content_type_of_lowercase(lower.as_str())
}

/// What the resource protocol does with a request path: refuse it (naming the decoded path),
/// or read the decoded path and serve it with its content type.
pub fn resource_request(raw_path: &str, allowed_segment: &str) -> (r: Result<(String, &'static str), String>)
    ensures
        ({
            let decoded = utf8_lossy(percent_decoded(encode_utf8(raw_path@)));
            if resource_allowed_spec(decoded, allowed_segment@) {
                r matches Ok((p, ct)) && p@ == decoded && ct@ == content_type_spec(
                    unicode_lowercase(decoded),
                )
            } else {
                r matches Err(p) && p@ == decoded
            }
        }),
{
    let decoded = percent_decode(raw_path);
    if !resource_allowed(decoded.as_str(), allowed_segment) {
        return Err(decoded);
    }
    let ct = content_type(decoded.as_str());
    Ok((decoded, ct))
}

} // verus!
