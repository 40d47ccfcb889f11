//! Theme colours for the macOS window buttons: `#rgb`, `#rrggbb` or `#rrggbbaa` hex strings
//! read into RGBA bytes (the host scales them to the unit range).

use vstd::prelude::*;
use vstd::utf8::encode_utf8;

use crate::text::chars_of;

verus! {

/// `char::is_whitespace`: the Unicode `White_Space` characters.
pub open spec fn is_white_space(c: char) -> bool {
    c == '\t' || c == '\n' || c == '\u{0B}' || c == '\u{0C}' || c == '\r' || c == ' ' || c
        == '\u{85}' || c == '\u{A0}' || c == '\u{1680}' || ('\u{2000}' <= c && c <= '\u{200A}')
        || c == '\u{2028}' || c == '\u{2029}' || c == '\u{202F}' || c == '\u{205F}' || c
        == '\u{3000}'
}

/// `s` without leading white space.
pub open spec fn trim_start(s: Seq<char>) -> Seq<char>
    decreases s.len(),
{
    if s.len() > 0 && is_white_space(s[0]) {
        trim_start(s.drop_first())
    } else {
        s
    }
}

/// `s` without trailing white space.
pub open spec fn trim_end(s: Seq<char>) -> Seq<char>
    decreases s.len(),
{
    if s.len() > 0 && is_white_space(s.last()) {
        trim_end(s.drop_last())
    } else {
        s
    }
}

/// `s` without leading `#`s.
pub open spec fn strip_hashes(s: Seq<char>) -> Seq<char>
    decreases s.len(),
{
    if s.len() > 0 && s[0] == '#' {
        strip_hashes(s.drop_first())
    } else {
        s
    }
}

/// The hex digits of a colour string: trimmed, without its leading `#`s.
pub open spec fn hex_digits_of(s: Seq<char>) -> Seq<char> {
    strip_hashes(trim_end(trim_start(s)))
}

pub open spec fn hex_char(c: char) -> Option<u8> {
    if '0' <= c && c <= '9' {
        Some((c as u32 - '0' as u32) as u8)
    } else if 'a' <= c && c <= 'f' {
        Some((c as u32 - 'a' as u32 + 10) as u8)
    } else if 'A' <= c && c <= 'F' {
        Some((c as u32 - 'A' as u32 + 10) as u8)
    } else {
        None
    }
}

/// One hex digit, doubled (`f` is `ff`).
pub open spec fn dup_digit(c: char) -> Option<u8> {
    match hex_char(c) {
        Some(v) => Some((v * 16 + v) as u8),
        None => None,
    }
}

/// Two characters as `u8::from_str_radix(.., 16)` reads them (a leading `+` is allowed).
pub open spec fn hex_pair(a: char, b: char) -> Option<u8> {
    if a == '+' {
        hex_char(b)
    } else {
        match (hex_char(a), hex_char(b)) {
            (Some(x), Some(y)) => Some((x * 16 + y) as u8),
            _ => None,
        }
    }
}

pub open spec fn all_ascii(h: Seq<char>) -> bool {
    forall|i: int| 0 <= i < h.len() ==> (h[i] as u32) < 128
}

/// A byte that continues a UTF-8 sequence.
pub open spec fn is_continuation(b: u8) -> bool {
    0x80 <= b && b < 0xc0
}

/// The inputs on which slicing the digits by byte position would split a character.
pub open spec fn splits_a_char(h: Seq<char>) -> bool {
    let b = encode_utf8(h);
    ||| b.len() == 3 && (is_continuation(b[1]) || is_continuation(b[2]))
    ||| b.len() == 6 && (is_continuation(b[2]) || is_continuation(b[4]))
    ||| b.len() == 8 && (is_continuation(b[2]) || is_continuation(b[4]) || is_continuation(b[6]))
}

/// RGBA bytes of a colour: three digits each doubled (opaque), six digits (opaque), or eight
/// digits; anything else is no colour.
pub open spec fn parse_hex_spec(s: Seq<char>) -> Option<(u8, u8, u8, u8)> {
    let h = hex_digits_of(s);
    if !all_ascii(h) {
        None
    } else if h.len() == 3 {
        match (dup_digit(h[0]), dup_digit(h[1]), dup_digit(h[2])) {
            (Some(r), Some(g), Some(b)) => Some((r, g, b, 255)),
            _ => None,
        }
    } else if h.len() == 6 {
        match (hex_pair(h[0], h[1]), hex_pair(h[2], h[3]), hex_pair(h[4], h[5])) {
            (Some(r), Some(g), Some(b)) => Some((r, g, b, 255)),
            _ => None,
        }
    } else if h.len() == 8 {
        match (hex_pair(h[0], h[1]), hex_pair(h[2], h[3]), hex_pair(h[4], h[5])) {
            (Some(r), Some(g), Some(b)) => match hex_pair(h[6], h[7]) {
                Some(a) => Some((r, g, b, a)),
                None => None,
            },
            _ => None,
        }
    } else {
        None
    }
}

fn is_white_space_char(c: char) -> (r: bool)
    ensures
        r == is_white_space(c),
{
    c == '\t' || c == '\n' || c == '\u{0B}' || c == '\u{0C}' || c == '\r' || c == ' ' || c
        == '\u{85}' || c == '\u{A0}' || c == '\u{1680}' || ('\u{2000}' <= c && c <= '\u{200A}')
        || c == '\u{2028}' || c == '\u{2029}' || c == '\u{202F}' || c == '\u{205F}' || c
        == '\u{3000}'
}

fn hex_char_value(c: char) -> (r: Option<u8>)
    ensures
        r == hex_char(c),
{
    if '0' <= c && c <= '9' {
        Some(((c as u32) - ('0' as u32)) as u8)
    } else if 'a' <= c && c <= 'f' {
        Some(((c as u32) - ('a' as u32) + 10) as u8)
    } else if 'A' <= c && c <= 'F' {
        Some(((c as u32) - ('A' as u32) + 10) as u8)
    } else {
        None
    }
}

fn dup_value(c: char) -> (r: Option<u8>)
    ensures
        r == dup_digit(c),
{
    match hex_char_value(c) {
        Some(v) => Some(v * 16 + v),
        None => None,
    }
}

fn pair_value(a: char, b: char) -> (r: Option<u8>)
    ensures
        r == hex_pair(a, b),
{
    if a == '+' {
        hex_char_value(b)
    } else {
        match (hex_char_value(a), hex_char_value(b)) {
            (Some(x), Some(y)) => Some(x * 16 + y),
            _ => None,
        }
    }
}

/// The hex digits of a colour string.
pub fn hex_digits(s: &str) -> (r: Vec<char>)
    ensures
        r@ == hex_digits_of(s@),
{
    let c = chars_of(s);
    let n = c.len();
    let mut start: usize = 0;
    assert(c@.subrange(0, n as int) =~= c@);
    while start < n && is_white_space_char(c[start])
        invariant
            start <= n,
            n == c@.len(),
            trim_start(c@) == trim_start(c@.subrange(start as int, n as int)),
        decreases n - start,
    {
        assert(c@.subrange(start as int, n as int).drop_first() =~= c@.subrange(start + 1, n as int));
        start += 1;
    }
    let ghost ts = c@.subrange(start as int, n as int);
    assert(trim_start(c@) == ts);
    let mut end: usize = n;
    while end > start && is_white_space_char(c[end - 1])
        invariant
            start <= end <= n,
            n == c@.len(),
            ts == c@.subrange(start as int, n as int),
            trim_end(ts) == trim_end(c@.subrange(start as int, end as int)),
        decreases end,
    {
        assert(c@.subrange(start as int, end as int).drop_last() =~= c@.subrange(
            start as int,
            end - 1,
        ));
        end -= 1;
    }
    let ghost te = c@.subrange(start as int, end as int);
    assert(trim_end(ts) == te);
    let mut h = start;
    while h < end && c[h] == '#'
        invariant
            start <= h <= end,
            end <= n,
            n == c@.len(),
            strip_hashes(te) == strip_hashes(c@.subrange(h as int, end as int)),
        decreases end - h,
    {
        assert(c@.subrange(h as int, end as int).drop_first() =~= c@.subrange(h + 1, end as int));
        h += 1;
    }
    let mut out: Vec<char> = Vec::new();
    let mut i = h;
    while i < end
        invariant
            h <= i <= end,
            end <= n,
            n == c@.len(),
            out@ == c@.subrange(h as int, i as int),
        decreases end - i,
    {
        out.push(c[i]);
        i += 1;
        assert(out@ =~= c@.subrange(h as int, i as int));
    }
    out
}

/// Reads a colour into RGBA bytes. Defined on every input on which the digits can be sliced
/// by byte position without splitting a character.
pub fn parse_hex(s: &str) -> (r: Option<(u8, u8, u8, u8)>)
    requires
        !splits_a_char(hex_digits_of(s@)),
    ensures
        r == parse_hex_spec(s@),
{
    let h = hex_digits(s);
    let mut i: usize = 0;
    while i < h.len()
        invariant
            i <= h@.len(),
            h@ == hex_digits_of(s@),
            forall|j: int| 0 <= j < i ==> (h@[j] as u32) < 128,
        decreases h@.len() - i,
    {
        if (h[i] as u32) >= 128 {
            assert(!all_ascii(h@));
            return None;
        }
        i += 1;
    }
    if h.len() == 3 {
        match (dup_value(h[0]), dup_value(h[1]), dup_value(h[2])) {
            (Some(r), Some(g), Some(b)) => Some((r, g, b, 255)),
            _ => None,
        }
    } else if h.len() == 6 {
        match (pair_value(h[0], h[1]), pair_value(h[2], h[3]), pair_value(h[4], h[5])) {
            (Some(r), Some(g), Some(b)) => Some((r, g, b, 255)),
            _ => None,
        }
    } else if h.len() == 8 {
        match (pair_value(h[0], h[1]), pair_value(h[2], h[3]), pair_value(h[4], h[5])) {
            (Some(r), Some(g), Some(b)) => match pair_value(h[6], h[7]) {
                Some(a) => Some((r, g, b, a)),
                None => None,
            },
            _ => None,
        }
    } else {
        None
    }
}

} // verus!
