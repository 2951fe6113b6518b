//! Character-level helpers shared by the parsers: Unicode whitespace,
//! trimming, ASCII digits, and the UTF-8 byte width of characters.

use vstd::prelude::*;

verus! {

/// The Unicode `White_Space` property, which `char::is_whitespace` and
/// `str::trim` follow.
pub open spec fn is_unicode_whitespace(c: char) -> bool {
    ||| '\u{9}' <= c <= '\u{d}'
    ||| c == ' '
    ||| c == '\u{85}'
    ||| c == '\u{a0}'
    ||| c == '\u{1680}'
    ||| '\u{2000}' <= c <= '\u{200a}'
    ||| c == '\u{2028}'
    ||| c == '\u{2029}'
    ||| c == '\u{202f}'
    ||| c == '\u{205f}'
    ||| c == '\u{3000}'
}

pub fn is_whitespace(c: char) -> (r: bool)
    ensures
        r == is_unicode_whitespace(c),
{
    ('\u{9}' <= c && c <= '\u{d}') || c == ' ' || c == '\u{85}' || c == '\u{a0}' || c
        == '\u{1680}' || ('\u{2000}' <= c && c <= '\u{200a}') || c == '\u{2028}' || c
        == '\u{2029}' || c == '\u{202f}' || c == '\u{205f}' || c == '\u{3000}'
}

/// Number of leading whitespace characters.
pub open spec fn leading_ws(s: Seq<char>) -> nat
    decreases s.len(),
{
    if s.len() > 0 && is_unicode_whitespace(s[0]) {
        1 + leading_ws(s.drop_first())
    } else {
        0
    }
}

/// Number of trailing whitespace characters.
pub open spec fn trailing_ws(s: Seq<char>) -> nat
    decreases s.len(),
{
    if s.len() > 0 && is_unicode_whitespace(s.last()) {
        1 + trailing_ws(s.drop_last())
    } else {
        0
    }
}

/// `s` without leading and trailing whitespace, as `str::trim` gives it.
pub open spec fn trimmed(s: Seq<char>) -> Seq<char> {
    let a = leading_ws(s);
    if a == s.len() {
        Seq::empty()
    } else {
        s.subrange(a as int, s.len() - trailing_ws(s))
    }
}

pub proof fn lemma_leading_ws_bound(s: Seq<char>)
    ensures
        leading_ws(s) <= s.len(),
        forall|i: int| 0 <= i < leading_ws(s) ==> is_unicode_whitespace(#[trigger] s[i]),
        leading_ws(s) < s.len() ==> !is_unicode_whitespace(s[leading_ws(s) as int]),
    decreases s.len(),
{
    if s.len() > 0 && is_unicode_whitespace(s[0]) {
        lemma_leading_ws_bound(s.drop_first());
        assert forall|i: int| 0 <= i < leading_ws(s) implies is_unicode_whitespace(
            #[trigger] s[i],
        ) by {
            if i > 0 {
                assert(s[i] == s.drop_first()[i - 1]);
            }
        }
    }
}

pub proof fn lemma_trailing_ws_bound(s: Seq<char>)
    ensures
        trailing_ws(s) <= s.len(),
        forall|i: int|
            s.len() - trailing_ws(s) <= i < s.len() ==> is_unicode_whitespace(#[trigger] s[i]),
        trailing_ws(s) < s.len() ==> !is_unicode_whitespace(s[s.len() - trailing_ws(s) - 1]),
    decreases s.len(),
{
    if s.len() > 0 && is_unicode_whitespace(s.last()) {
        lemma_trailing_ws_bound(s.drop_last());
        assert forall|i: int|
            s.len() - trailing_ws(s) <= i < s.len() implies is_unicode_whitespace(
            #[trigger] s[i],
        ) by {
            if i < s.len() - 1 {
                assert(s[i] == s.drop_last()[i]);
            }
        }
    }
}

/// Trimming cuts whitespace off both ends and nothing else: the result is a
/// piece of `s` with only whitespace before and after it, and it neither
/// starts nor ends with whitespace; a string of whitespace trims to nothing.
pub proof fn lemma_trimmed(s: Seq<char>)
    ensures
        ({
            let t = trimmed(s);
            &&& t.len() > 0 ==> !is_unicode_whitespace(t[0]) && !is_unicode_whitespace(t.last())
            &&& exists|a: int|
                0 <= a && a + t.len() <= s.len() && #[trigger] s.subrange(a, a + t.len()) == t
                    && (forall|i: int| 0 <= i < a ==> is_unicode_whitespace(s[i])) && (forall|
                    i: int,
                | a + t.len() <= i < s.len() ==> is_unicode_whitespace(s[i]))
        }),
        (forall|i: int| 0 <= i < s.len() ==> is_unicode_whitespace(#[trigger] s[i]))
            ==> trimmed(s).len() == 0,
{
    lemma_leading_ws_bound(s);
    lemma_trailing_ws_bound(s);
    let a = leading_ws(s) as int;
    let t = trimmed(s);
    if a == s.len() {
        assert(s.subrange(a, a + t.len()) =~= t);
    } else {
        let e = s.len() - trailing_ws(s);
        assert(a < e) by {
            if e <= a {
                assert(is_unicode_whitespace(s[a]));
            }
        }
        assert(s.subrange(a, a + t.len()) =~= t);
        assert(t[0] == s[a]);
        assert(t.last() == s[e - 1]);
    }
    if forall|i: int| 0 <= i < s.len() ==> is_unicode_whitespace(#[trigger] s[i]) {
        if a < s.len() {
            assert(is_unicode_whitespace(s[a]));
        }
    }
}

/// The characters of a string slice.
pub fn chars_of(s: &str) -> (v: Vec<char>)
    ensures
        v@ == s@,
{
    let mut v: Vec<char> = Vec::new();
    for c in it: s.chars()
        invariant
            v@ == it.seq().take(it.index() as int),
            it.seq() == s@,
    {
        v.push(c);
    }
    v
}

/// Index range `(start, end)` of `s` that `trimmed` keeps.
pub fn trim_range(s: &Vec<char>) -> (r: (usize, usize))
    ensures
        r.0 <= r.1 <= s@.len(),
        s@.subrange(r.0 as int, r.1 as int) == trimmed(s@),
{
    proof {
        lemma_leading_ws_bound(s@);
        lemma_trailing_ws_bound(s@);
    }
    let n = s.len();
    let mut a: usize = 0;
    while a < n && is_whitespace(s[a])
        invariant
            a <= n == s@.len(),
            a <= leading_ws(s@),
            forall|i: int| 0 <= i < leading_ws(s@) ==> is_unicode_whitespace(#[trigger] s@[i]),
            leading_ws(s@) < s@.len() ==> !is_unicode_whitespace(s@[leading_ws(s@) as int]),
        decreases n - a,
    {
        a = a + 1;
    }
    if a == n {
        assert(leading_ws(s@) == n);
        return (n, n);
    }
    assert(a == leading_ws(s@));
    let mut b: usize = n;
    while b > a && is_whitespace(s[b - 1])
        invariant
            a <= b <= n == s@.len(),
            a == leading_ws(s@) < n,
            !is_unicode_whitespace(s@[a as int]),
            b >= s@.len() - trailing_ws(s@),
            forall|i: int|
                s@.len() - trailing_ws(s@) <= i < s@.len() ==> is_unicode_whitespace(
                    #[trigger] s@[i],
                ),
            trailing_ws(s@) < s@.len() ==> !is_unicode_whitespace(
                s@[s@.len() - trailing_ws(s@) - 1],
            ),
        decreases b,
    {
        b = b - 1;
    }
    assert(b == s@.len() - trailing_ws(s@));
    (a, b)
}

pub open spec fn is_ascii_digit(c: char) -> bool {
    '0' <= c <= '9'
}

pub open spec fn is_hex_digit(c: char) -> bool {
    ||| '0' <= c <= '9'
    ||| 'a' <= c <= 'f'
    ||| 'A' <= c <= 'F'
}

pub open spec fn hex_value(c: char) -> nat
    recommends
        is_hex_digit(c),
{
    if '0' <= c <= '9' {
        (c as nat - '0' as nat) as nat
    } else if 'a' <= c <= 'f' {
        (c as nat - 'a' as nat + 10) as nat
    } else {
        (c as nat - 'A' as nat + 10) as nat
    }
}

/// Hex digit values: `0` to `9` are 0 to 9, `a` to `f` and `A` to `F` are
/// 10 to 15 (code points 48, 97 and 65 start the three runs), so every
/// digit is below 16 and the letter case does not matter.
pub proof fn lemma_hex_values(c: char, d: char)
    ensures
        '0' <= c <= '9' ==> hex_value(c) == (c as u32) - 48,
        'a' <= c <= 'f' ==> hex_value(c) == (c as u32) - 87,
        'A' <= c <= 'F' ==> hex_value(c) == (c as u32) - 55,
        is_hex_digit(c) ==> hex_value(c) < 16,
        'a' <= c <= 'f' && (d as u32) == (c as u32) - 32 ==> is_hex_digit(d) && hex_value(d)
            == hex_value(c),
{
}

/// Value of a hex digit, if `c` is one.
pub fn hex_digit(c: char) -> (r: Option<u8>)
    ensures
        r is Some <==> is_hex_digit(c),
        r matches Some(v) ==> v == hex_value(c) && v < 16,
{
    if '0' <= c && c <= '9' {
        Some(((c as u32) - ('0' as u32)) as u8)
    } else if 'a' <= c && c <= 'f' {
        Some(((c as u32) - ('a' as u32) + 10) as u8)
    } else if 'A' <= c && c <= 'F' {
        Some(((c as u32) - ('A' as u32) + 10) as u8)
    } else {
        None
    }
}

/// Bytes that `c` takes in UTF-8.
pub open spec fn utf8_width(c: char) -> nat {
    if (c as u32) < 0x80 {
        1
    } else if (c as u32) < 0x800 {
        2
    } else if (c as u32) < 0x10000 {
        3
    } else {
        4
    }
}

/// UTF-8 byte length of `s` (what `str::len` counts).
pub open spec fn utf8_len(s: Seq<char>) -> nat
    decreases s.len(),
{
    if s.len() == 0 {
        0
    } else {
        utf8_len(s.drop_last()) + utf8_width(s.last())
    }
}

/// Byte offset `b` of the UTF-8 form of `s` starts a character (or is the end).
pub open spec fn is_byte_boundary(s: Seq<char>, b: nat) -> bool {
    exists|i: int| 0 <= i <= s.len() && #[trigger] utf8_len(s.take(i)) == b
}

pub open spec fn is_ascii_seq(s: Seq<char>) -> bool {
    forall|i: int| 0 <= i < s.len() ==> (#[trigger] s[i] as u32) < 0x80
}

/// Whether two strings hold the same characters.
pub fn str_eq(a: &str, b: &str) -> (r: bool)
    ensures
        r == (a@ == b@),
{
    let x = chars_of(a);
    let y = chars_of(b);
    if x.len() != y.len() {
        return false;
    }
    let mut i: usize = 0;
    while i < x.len()
        invariant
            i <= x@.len() == y@.len(),
            x@ == a@,
            y@ == b@,
            forall|j: int| 0 <= j < i ==> x@[j] == y@[j],
        decreases x@.len() - i,
    {
        if x[i] != y[i] {
            assert(x@[i as int] != y@[i as int]);
            return false;
        }
        i = i + 1;
    }
    assert(x@ =~= y@);
    true
}

} // verus!
