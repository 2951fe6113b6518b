//! `#rgb` / `#rrggbb` / `#rrggbbaa` colour parsing.
//!
//! The colour text is trimmed, loses one leading `#`, and is then cut at
//! UTF-8 byte offsets according to its byte length (3, 6 or 8). Each piece is
//! read as `u8::from_str_radix(piece, 16)`, which takes hex digits of either
//! case after an optional `+`. Cutting a string inside a multi-byte character
//! panics, so such inputs are excluded by `hex_would_panic`; every other
//! input that is not pure ASCII has a piece holding a non-digit and so parses
//! to nothing.

use vstd::prelude::*;
use crate::text::{
    is_unicode_whitespace, leading_ws, trailing_ws, chars_of, hex_digit, hex_value, is_ascii_seq, is_byte_boundary, is_hex_digit, trim_range,
    trimmed, utf8_len, utf8_width,
};

verus! {

/// The part of `s` that holds the digits: trimmed, without one leading `#`.
pub open spec fn hex_body(s: Seq<char>) -> Seq<char> {
    let t = trimmed(s);
    if t.len() > 0 && t[0] == '#' {
        t.drop_first()
    } else {
        t
    }
}

/// `u8::from_str_radix` in base 16 of the two-character string `[a, b]`.
pub open spec fn radix16_pair(a: char, b: char) -> Option<u8> {
    if a == '+' {
        if is_hex_digit(b) {
            Some(hex_value(b) as u8)
        } else {
            None
        }
    } else if is_hex_digit(a) && is_hex_digit(b) {
        Some((16 * hex_value(a) + hex_value(b)) as u8)
    } else {
        None
    }
}

/// Slicing the body at the byte offsets its byte length calls for would cut
/// through a multi-byte character.
pub open spec fn hex_would_panic(s: Seq<char>) -> bool {
    let t = hex_body(s);
    let n = utf8_len(t);
    ||| n == 3 && !(is_byte_boundary(t, 1) && is_byte_boundary(t, 2))
    ||| n == 6 && !(is_byte_boundary(t, 2) && is_byte_boundary(t, 4))
    ||| n == 8 && !(is_byte_boundary(t, 2) && is_byte_boundary(t, 4) && is_byte_boundary(t, 6))
}

/// Colour of a hex string as RGBA, alpha 255 unless given.
pub open spec fn spec_parse_hex(s: Seq<char>) -> Option<(u8, u8, u8, u8)> {
    let t = hex_body(s);
    if !is_ascii_seq(t) {
        None
    } else if t.len() == 3 {
        match (radix16_pair(t[0], t[0]), radix16_pair(t[1], t[1]), radix16_pair(t[2], t[2])) {
            (Some(r), Some(g), Some(b)) => Some((r, g, b, 255)),
            _ => None,
        }
    } else if t.len() == 6 {
        match (radix16_pair(t[0], t[1]), radix16_pair(t[2], t[3]), radix16_pair(t[4], t[5])) {
            (Some(r), Some(g), Some(b)) => Some((r, g, b, 255)),
            _ => None,
        }
    } else if t.len() == 8 {
        match (
            radix16_pair(t[0], t[1]),
            radix16_pair(t[2], t[3]),
            radix16_pair(t[4], t[5]),
            radix16_pair(t[6], t[7]),
        ) {
            (Some(r), Some(g), Some(b), Some(a)) => Some((r, g, b, a)),
            _ => None,
        }
    } else {
        None
    }
}

pub open spec fn rgba_of(c: [u8; 4]) -> (u8, u8, u8, u8) {
    (c[0], c[1], c[2], c[3])
}

/// Two hex digits read as one byte, high digit first.
pub open spec fn byte_of(hi: char, lo: char) -> u8 {
    (16 * hex_value(hi) + hex_value(lo)) as u8
}

/// Hex digits with or without one leading `#`: three digits give each
/// channel its digit doubled (`#abc` is `#aabbcc`), six give red, green and
/// blue from consecutive pairs, eight add alpha from the last pair; alpha
/// is opaque unless given.
pub proof fn lemma_hex_digits(t: Seq<char>)
    requires
        t.len() == 3 || t.len() == 6 || t.len() == 8,
        forall|i: int| 0 <= i < t.len() ==> is_hex_digit(#[trigger] t[i]),
    ensures
        spec_parse_hex(seq!['#'] + t) == spec_parse_hex(t),
        t.len() == 3 ==> spec_parse_hex(t) == Some(
            (byte_of(t[0], t[0]), byte_of(t[1], t[1]), byte_of(t[2], t[2]), 255u8),
        ),
        t.len() == 6 ==> spec_parse_hex(t) == Some(
            (byte_of(t[0], t[1]), byte_of(t[2], t[3]), byte_of(t[4], t[5]), 255u8),
        ),
        t.len() == 8 ==> spec_parse_hex(t) == Some(
            (byte_of(t[0], t[1]), byte_of(t[2], t[3]), byte_of(t[4], t[5]), byte_of(t[6], t[7])),
        ),
{
    let h = seq!['#'] + t;
    assert(!is_unicode_whitespace(t[0]));
    assert(!is_unicode_whitespace(t.last()));
    assert(h[0] == '#' && h.last() == t.last());
    assert(leading_ws(h) == 0);
    assert(trailing_ws(h) == 0);
    assert(trimmed(h) =~= h);
    assert(h.drop_first() =~= t);
    assert(leading_ws(t) == 0);
    assert(trailing_ws(t) == 0);
    assert(trimmed(t) =~= t);
    assert(hex_body(h) == t);
    assert(hex_body(t) == t);
    assert(is_ascii_seq(t));
}

fn radix16(a: char, b: char) -> (r: Option<u8>)
    ensures
        r == radix16_pair(a, b),
{
    if a == '+' {
        match hex_digit(b) {
            Some(v) => Some(v),
            None => None,
        }
    } else {
        match (hex_digit(a), hex_digit(b)) {
            (Some(x), Some(y)) => Some(16 * x + y),
            _ => None,
        }
    }
}

/// Index range of the body (`hex_body`) inside the characters of `s`.
fn body_range(v: &Vec<char>) -> (r: (usize, usize))
    ensures
        r.0 <= r.1 <= v@.len(),
        v@.subrange(r.0 as int, r.1 as int) == hex_body(v@),
{
    let (a, b) = trim_range(v);
    if a < b && v[a] == '#' {
        let ghost t = v@.subrange(a as int, b as int);
        assert(t.drop_first() =~= v@.subrange(a + 1, b as int));
        (a + 1, b)
    } else {
        (a, b)
    }
}

/// Parse `#rgb`, `#rrggbb` or `#rrggbbaa` (the `#` optional, surrounding
/// whitespace ignored).
pub fn parse_hex(s: &str) -> (r: Option<[u8; 4]>)
    requires
        !hex_would_panic(s@),
    ensures
        r is Some <==> spec_parse_hex(s@) is Some,
        r matches Some(c) ==> spec_parse_hex(s@) == Some(rgba_of(c)),
{
    let v = chars_of(s);
    let (a, b) = body_range(&v);
    let ghost t = hex_body(s@);
    let mut i = a;
    while i < b
        invariant
            a <= i <= b <= v@.len(),
            v@.subrange(a as int, b as int) == t,
            t == hex_body(s@),
            forall|j: int| a <= j < i ==> (#[trigger] v@[j] as u32) < 0x80,
        decreases b - i,
    {
        if (v[i] as u32) >= 0x80 {
            assert(t[i - a] == v@[i as int]);
            assert(!((t[i - a] as u32) < 0x80));
            assert(!is_ascii_seq(t));
            return None;
        }
        i = i + 1;
    }
    assert(is_ascii_seq(t)) by {
        assert forall|j: int| 0 <= j < t.len() implies (#[trigger] t[j] as u32) < 0x80 by {
            assert(t[j] == v@[a + j]);
        }
    }
    let n = b - a;
    if n == 3 {
        let (c0, c1, c2) = (v[a], v[a + 1], v[a + 2]);
        assert(c0 == t[0] && c1 == t[1] && c2 == t[2]);
        match (radix16(c0, c0), radix16(c1, c1), radix16(c2, c2)) {
            (Some(r), Some(g), Some(b)) => Some([r, g, b, 255]),
            _ => None,
        }
    } else if n == 6 {
        assert(v[a as int] == t[0] && v[a + 1] == t[1] && v[a + 2] == t[2] && v[a + 3] == t[3]
            && v[a + 4] == t[4] && v[a + 5] == t[5]);
        match (
            radix16(v[a], v[a + 1]),
            radix16(v[a + 2], v[a + 3]),
            radix16(v[a + 4], v[a + 5]),
        ) {
            (Some(r), Some(g), Some(b)) => Some([r, g, b, 255]),
            _ => None,
        }
    } else if n == 8 {
        assert(v[a as int] == t[0] && v[a + 1] == t[1] && v[a + 2] == t[2] && v[a + 3] == t[3]
            && v[a + 4] == t[4] && v[a + 5] == t[5] && v[a + 6] == t[6] && v[a + 7] == t[7]);
        match (
            radix16(v[a], v[a + 1]),
            radix16(v[a + 2], v[a + 3]),
            radix16(v[a + 4], v[a + 5]),
            radix16(v[a + 6], v[a + 7]),
        ) {
            (Some(r), Some(g), Some(b), Some(al)) => Some([r, g, b, al]),
            _ => None,
        }
    } else {
        None
    }
}

/// Growing a prefix by one character adds that character's width.
proof fn lemma_utf8_len_take(s: Seq<char>, i: int)
    requires
        0 <= i < s.len(),
    ensures
        utf8_len(s.take(i + 1)) == utf8_len(s.take(i)) + utf8_width(s[i]),
{
    assert(s.take(i + 1).drop_last() =~= s.take(i));
}

/// Prefix byte lengths strictly increase with the prefix.
proof fn lemma_utf8_len_take_mono(s: Seq<char>, i: int, j: int)
    requires
        0 <= i < j <= s.len(),
    ensures
        utf8_len(s.take(i)) < utf8_len(s.take(j)),
    decreases j - i,
{
    lemma_utf8_len_take(s, j - 1);
    if i < j - 1 {
        lemma_utf8_len_take_mono(s, i, j - 1);
    }
}

/// Whether `parse_hex` would panic on `s` (see `hex_would_panic`).
pub fn hex_panics(s: &str) -> (r: bool)
    ensures
        r == hex_would_panic(s@),
{
    let v = chars_of(s);
    let (a, b) = body_range(&v);
    let ghost t = hex_body(s@);
    // Byte offsets reached so far (capped past 8: only lengths 3, 6, 8 matter).
    let mut sum: usize = 0;
    let mut at1 = false;
    let mut at2 = false;
    let mut at4 = false;
    let mut at6 = false;
    let mut i = a;
    while i < b && sum <= 8
        invariant
            a <= i <= b <= v@.len(),
            v@.subrange(a as int, b as int) == t,
            sum == utf8_len(t.take(i - a)),
            at1 == (exists|k: int| 0 <= k <= i - a && #[trigger] utf8_len(t.take(k)) == 1),
            at2 == (exists|k: int| 0 <= k <= i - a && #[trigger] utf8_len(t.take(k)) == 2),
            at4 == (exists|k: int| 0 <= k <= i - a && #[trigger] utf8_len(t.take(k)) == 4),
            at6 == (exists|k: int| 0 <= k <= i - a && #[trigger] utf8_len(t.take(k)) == 6),
        decreases b - i,
    {
        let c = v[i];
        assert(c == t[i - a]);
        proof {
            lemma_utf8_len_take(t, i - a);
        }
        let w: usize = if (c as u32) < 0x80 {
            1
        } else if (c as u32) < 0x800 {
            2
        } else if (c as u32) < 0x10000 {
            3
        } else {
            4
        };
        let ghost old_i = i;
        sum = sum + w;
        i = i + 1;
        proof {
            assert forall|k: int| 0 <= k <= i - a && utf8_len(#[trigger] t.take(k)) == sum
                implies k == i - a by {
                if k < i - a {
                    lemma_utf8_len_take_mono(t, k, i - a);
                }
            }
        }
        if sum == 1 {
            at1 = true;
        }
        if sum == 2 {
            at2 = true;
        }
        if sum == 4 {
            at4 = true;
        }
        if sum == 6 {
            at6 = true;
        }
        assert(utf8_len(t.take(i - a)) == sum);
    }
    let ghost m = i - a;
    proof {
        // Offsets beyond the scanned prefix are all larger than `sum`.
        assert forall|k: int| m < k <= t.len() implies utf8_len(#[trigger] t.take(k)) > sum by {
            lemma_utf8_len_take_mono(t, m, k);
        }
        if i == b {
            assert(t.take(m) =~= t);
        } else {
            assert(sum > 8);
            if m < t.len() {
                lemma_utf8_len_take_mono(t, m, t.len() as int);
                assert(t.take(t.len() as int) =~= t);
            } else {
                assert(t.take(m) =~= t);
            }
        }
        assert(is_byte_boundary(t, 1) == at1);
        assert(is_byte_boundary(t, 2) == at2);
        assert(is_byte_boundary(t, 4) == at4);
        assert(is_byte_boundary(t, 6) == at6);
    }
    if i < b {
        // The body is longer than 8 bytes.
        false
    } else {
        (sum == 3 && !(at1 && at2)) || (sum == 6 && !(at2 && at4)) || (sum == 8 && !(at2 && at4
            && at6))
    }
}

} // verus!
