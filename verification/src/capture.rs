//! Captured pixels and monitor selection: the RGBA → Wayland Argb8888
//! swizzle, the dim layer, and which monitor the cursor is on.

use vstd::prelude::*;
use vstd::string::*;
use crate::text::chars_of;

verus! {

/// A zero-filled pixel buffer of `n` bytes.
pub fn alloc_pixels(n: usize) -> (v: Vec<u8>)
    ensures
        v@.len() == n,
        forall|i: int| 0 <= i < n ==> #[trigger] v@[i] == 0,
{
    let mut v: Vec<u8> = Vec::with_capacity(n);
    let mut i: usize = 0;
    while i < n
        invariant
            i <= n,
            v@.len() == i,
            forall|j: int| 0 <= j < i ==> #[trigger] v@[j] == 0,
        decreases n - i,
    {
        v.push(0);
        i = i + 1;
    }
    v
}

/// Swap R↔B and force alpha 0xFF on a little-endian RGBA word, turning it
/// into Wayland Argb8888 (BGRA in memory).
pub open spec fn spec_swizzle_u32(px: u32) -> u32 {
    (px & 0xFF00_FF00) | ((px & 0x00FF_0000) >> 16u32) | ((px & 0x0000_00FF) << 16u32)
        | 0xFF00_0000
}

pub fn swizzle_u32(px: u32) -> (r: u32)
    ensures
        r == spec_swizzle_u32(px),
{
    (px & 0xFF00_FF00) | ((px & 0x00FF_0000) >> 16) | ((px & 0x0000_00FF) << 16) | 0xFF00_0000
}

/// The little-endian word of four bytes.
pub open spec fn le_word(b0: u8, b1: u8, b2: u8, b3: u8) -> u32 {
    (b0 as u32) | ((b1 as u32) << 8u32) | ((b2 as u32) << 16u32) | ((b3 as u32) << 24u32)
}

/// Byte `k` of `src` after the swizzle: within each 4-byte pixel, bytes 0
/// and 2 trade places and byte 3 becomes 0xFF.
pub open spec fn swizzled_byte(src: Seq<u8>, k: int) -> u8 {
    let base = k - k % 4;
    if k % 4 == 0 {
        src[base + 2]
    } else if k % 4 == 1 {
        src[base + 1]
    } else if k % 4 == 2 {
        src[base]
    } else {
        0xFF
    }
}

/// The byte-level swizzle is the word-level one on little-endian pixels.
pub proof fn lemma_swizzle_bytes(b0: u8, b1: u8, b2: u8, b3: u8)
    ensures
        spec_swizzle_u32(le_word(b0, b1, b2, b3)) == le_word(b2, b1, b0, 0xFF),
{
    assert(spec_swizzle_u32(
        (b0 as u32) | ((b1 as u32) << 8u32) | ((b2 as u32) << 16u32) | ((b3 as u32) << 24u32),
    ) == (b2 as u32) | ((b1 as u32) << 8u32) | ((b0 as u32) << 16u32) | ((0xFFu8 as u32)
        << 24u32)) by (bit_vector);
}

/// Swizzling twice gives back red, green and blue; alpha stays 0xFF.
pub proof fn lemma_swizzle_twice(px: u32)
    ensures
        spec_swizzle_u32(spec_swizzle_u32(px)) == px | 0xFF00_0000,
{
    assert((((px & 0xFF00_FF00) | ((px & 0x00FF_0000) >> 16u32) | ((px & 0x0000_00FF) << 16u32)
        | 0xFF00_0000) & 0xFF00_FF00) | (((((px & 0xFF00_FF00) | ((px & 0x00FF_0000) >> 16u32)
        | ((px & 0x0000_00FF) << 16u32) | 0xFF00_0000)) & 0x00FF_0000) >> 16u32) | (((((px
        & 0xFF00_FF00) | ((px & 0x00FF_0000) >> 16u32) | ((px & 0x0000_00FF) << 16u32)
        | 0xFF00_0000)) & 0x0000_00FF) << 16u32) | 0xFF00_0000 == px | 0xFF00_0000)
        by (bit_vector);
}

/// Each whole pixel of the swizzled buffer is its source pixel with red
/// and blue swapped, green kept and alpha opaque, which is the word-level
/// swizzle of the source pixel; swizzling the result again gives the source
/// colour channels back, with alpha opaque.
pub proof fn lemma_swizzled_pixels(src: Seq<u8>, p: int)
    requires
        0 <= p,
        4 * p + 3 < src.len(),
    ensures
        swizzled_byte(src, 4 * p) == src[4 * p + 2],
        swizzled_byte(src, 4 * p + 1) == src[4 * p + 1],
        swizzled_byte(src, 4 * p + 2) == src[4 * p],
        swizzled_byte(src, 4 * p + 3) == 0xFF,
        le_word(
            swizzled_byte(src, 4 * p),
            swizzled_byte(src, 4 * p + 1),
            swizzled_byte(src, 4 * p + 2),
            swizzled_byte(src, 4 * p + 3),
        ) == spec_swizzle_u32(le_word(src[4 * p], src[4 * p + 1], src[4 * p + 2], src[4 * p + 3])),
        ({
            let once = Seq::new(src.len(), |k: int| swizzled_byte(src, k));
            &&& swizzled_byte(once, 4 * p) == src[4 * p]
            &&& swizzled_byte(once, 4 * p + 1) == src[4 * p + 1]
            &&& swizzled_byte(once, 4 * p + 2) == src[4 * p + 2]
            &&& swizzled_byte(once, 4 * p + 3) == 0xFF
        }),
{
    assert((4 * p) % 4 == 0 && (4 * p + 1) % 4 == 1 && (4 * p + 2) % 4 == 2 && (4 * p + 3) % 4
        == 3) by (nonlinear_arith)
        requires
            0 <= p,
    ;
    lemma_swizzle_bytes(src[4 * p], src[4 * p + 1], src[4 * p + 2], src[4 * p + 3]);
}

/// Swizzle the whole pixels of bytes `off..end` from `src` into `dst`.
fn swizzle_range(src: &[u8], dst: &mut [u8], off: usize, end: usize)
    requires
        off <= end <= src@.len(),
        end <= old(dst)@.len(),
        off % 4 == 0,
        end % 4 == 0,
    ensures
        final(dst)@.len() == old(dst)@.len(),
        forall|k: int|
            0 <= k < old(dst)@.len() ==> #[trigger] final(dst)@[k] == if off <= k < end {
                swizzled_byte(src@, k)
            } else {
                old(dst)@[k]
            },
{
    let mut i = off;
    while i < end
        invariant
            off <= i <= end <= src@.len(),
            end <= dst@.len() == old(dst)@.len(),
            i % 4 == 0,
            end % 4 == 0,
            forall|k: int|
                0 <= k < old(dst)@.len() ==> #[trigger] dst@[k] == if off <= k < i {
                    swizzled_byte(src@, k)
                } else {
                    old(dst)@[k]
                },
        decreases end - i,
    {
        assert(i + 4 <= end);
        let (s0, s1, s2) = (src[i], src[i + 1], src[i + 2]);
        dst[i] = s2;
        dst[i + 1] = s1;
        dst[i + 2] = s0;
        dst[i + 3] = 0xFF;
        assert forall|k: int| i <= k < i + 4 implies #[trigger] dst@[k] == swizzled_byte(
            src@,
            k,
        ) by {
            assert(k - k % 4 == i);
        }
        i = i + 4;
    }
}

/// Swap R↔B and force alpha 0xFF over whole buffers: RGBA in `src`,
/// Wayland Argb8888 (BGRA in memory) out in `dst`.
pub fn swizzle_rb_opaque(src: &[u8], dst: &mut [u8])
    requires
        src@.len() == old(dst)@.len(),
        src@.len() % 4 == 0,
    ensures
        final(dst)@.len() == src@.len(),
        forall|k: int| 0 <= k < src@.len() ==> #[trigger] final(dst)@[k] == swizzled_byte(src@, k),
{
    let n = src.len();
    swizzle_range(src, dst, 0, n);
}

/// Row `r` of the rectangle lies inside both buffers.
pub open spec fn rect_row_fits(n: int, width: u32, x: u32, y: u32, w: u32, r: int) -> bool {
    (y + r) * (width * 4) + (x + w) * 4 <= n
}

/// Byte `k` lies in row `r` of the rectangle.
pub open spec fn in_rect_row(width: u32, x: u32, y: u32, w: u32, r: int, k: int) -> bool {
    (y + r) * (width * 4) + x * 4 <= k < (y + r) * (width * 4) + (x + w) * 4
}

/// The offsets of row `r` of the rectangle fit `usize`.
pub open spec fn row_computable(width: u32, x: u32, y: u32, w: u32, r: int) -> bool {
    y + r <= usize::MAX && (y + r) * (width * 4) + (x + w) * 4 <= usize::MAX
}

/// Every row the swizzle reaches has offsets that fit `usize`: the first
/// row, and each row after rows that all lay inside the buffers.
pub open spec fn rows_computable(n: int, width: u32, x: u32, y: u32, w: u32, h: u32) -> bool {
    forall|r: int|
        0 <= r < h && (forall|q: int| 0 <= q < r ==> rect_row_fits(n, width, x, y, w, q))
            ==> #[trigger] row_computable(width, x, y, w, r)
}

/// The shorter of two lengths.
pub open spec fn shorter(a: int, b: int) -> int {
    if a < b {
        a
    } else {
        b
    }
}

/// Swizzle the dirty rectangle `(x, y, w, h)` of two images of `width`
/// pixels per row. Rows are done top to bottom and the work stops at the
/// first row that would run past the end of either buffer.
pub fn swizzle_rb_opaque_rect(src: &[u8], dst: &mut [u8], width: u32, x: u32, y: u32, w: u32, h: u32)
    requires
        width * 4 <= usize::MAX,
        rows_computable(shorter(src@.len() as int, old(dst)@.len() as int), width, x, y, w, h),
    ensures
        final(dst)@.len() == old(dst)@.len(),
        forall|k: int|
            0 <= k < old(dst)@.len() ==> #[trigger] final(dst)@[k] == if exists|r: int|
                0 <= r < h && rect_row_fits(shorter(src@.len() as int, old(dst)@.len() as int), width, x, y, w, r) && in_rect_row(
                    width,
                    x,
                    y,
                    w,
                    r,
                    k,
                ) {
                swizzled_byte(src@, k)
            } else {
                old(dst)@[k]
            },
{
    let stride = (width as usize) * 4;
    let x0 = x as usize;
    let wpx = w as usize;
    let n = if src.len() < dst.len() {
        src.len()
    } else {
        dst.len()
    };
    let m = dst.len();
    let mut row: usize = 0;
    while row < h as usize
        invariant
            dst@.len() == old(dst)@.len() == m,
            n == shorter(src@.len() as int, m as int),
            row <= h,
            stride == width * 4,
            x0 == x,
            wpx == w,
            rows_computable(n as int, width, x, y, w, h),
            forall|r: int| 0 <= r < row ==> rect_row_fits(n as int, width, x, y, w, r),
            forall|k: int|
                0 <= k < m ==> #[trigger] dst@[k] == if exists|r: int|
                    0 <= r < row && in_rect_row(width, x, y, w, r, k) {
                    swizzled_byte(src@, k)
                } else {
                    old(dst)@[k]
                },
        ensures
            dst@.len() == old(dst)@.len() == m,
            n == shorter(src@.len() as int, m as int),
            row <= h,
            forall|r: int| row <= r < h ==> !rect_row_fits(n as int, width, x, y, w, r),
            forall|k: int|
                0 <= k < m ==> #[trigger] dst@[k] == if exists|r: int|
                    0 <= r < row && in_rect_row(width, x, y, w, r, k) {
                    swizzled_byte(src@, k)
                } else {
                    old(dst)@[k]
                },
        decreases h - row,
    {
        let ghost yr = y + row;
        assert(row_computable(width, x, y, w, row as int));
        let yr_u = y as usize + row;
        assert(yr_u * stride == yr * (width * 4));
        let off = yr_u * stride + x0 * 4;
        let end = off + wpx * 4;
        if end > n {
            proof {
                assert forall|r: int| row <= r < h implies !rect_row_fits(
                    n as int,
                    width,
                    x,
                    y,
                    w,
                    r,
                ) by {
                    assert((y + row) * (width * 4) <= (y + r) * (width * 4)) by (nonlinear_arith)
                        requires
                            row <= r,
                    ;
                }
            }
            break;
        }
        let ghost before = dst@;
        proof {
            let a = yr * width;
            vstd::arithmetic::mul::lemma_mul_is_associative(yr, width as int, 4);
            vstd::arithmetic::div_mod::lemma_mod_multiples_basic(a, 4);
        }
        swizzle_range(src, dst, off, end);
        row = row + 1;
        assert forall|k: int| 0 <= k < m implies #[trigger] dst@[k] == if exists|r: int|
            0 <= r < row && in_rect_row(width, x, y, w, r, k) {
            swizzled_byte(src@, k)
        } else {
            old(dst)@[k]
        } by {
            if off <= k < end {
                assert(in_rect_row(width, x, y, w, (row - 1) as int, k));
            } else {
                if exists|r: int| 0 <= r < row && in_rect_row(width, x, y, w, r, k) {
                    let r = choose|r: int| 0 <= r < row && in_rect_row(width, x, y, w, r, k);
                    assert(r < row - 1);
                }
            }
        }
    }
    proof {
        assert forall|k: int| 0 <= k < m implies #[trigger] dst@[k] == if exists|r: int|
            0 <= r < h && rect_row_fits(n as int, width, x, y, w, r) && in_rect_row(
                width,
                x,
                y,
                w,
                r,
                k,
            ) {
            swizzled_byte(src@, k)
        } else {
            old(dst)@[k]
        } by {
            if exists|r: int| 0 <= r < h && rect_row_fits(n as int, width, x, y, w, r)
                && in_rect_row(width, x, y, w, r, k) {
                let r = choose|r: int|
                    0 <= r < h && rect_row_fits(n as int, width, x, y, w, r) && in_rect_row(
                        width,
                        x,
                        y,
                        w,
                        r,
                        k,
                    );
                assert(r < row);
            }
        }
    }
}

/// The dim layer: every colour channel halved, alpha opaque.
pub open spec fn dimmed_byte(src: Seq<u8>, k: int) -> u8 {
    if k % 4 == 3 {
        0xFF
    } else {
        src[k] / 2
    }
}

/// The dim layer halves each colour channel (rounding down) and makes every
/// pixel opaque: a dimmed channel is never brighter than its source, and
/// doubling it gives the source back up to the dropped low bit.
pub proof fn lemma_dimmed(src: Seq<u8>, k: int)
    requires
        0 <= k < src.len(),
    ensures
        k % 4 == 3 ==> dimmed_byte(src, k) == 0xFF,
        k % 4 != 3 ==> 2 * dimmed_byte(src, k) <= src[k] <= 2 * dimmed_byte(src, k) + 1,
        k % 4 != 3 ==> dimmed_byte(src, k) <= src[k],
{
}

/// Build the dim-overlay pixels of an RGBA buffer: RGB halved, alpha 0xFF.
pub fn dim_pixels(src: &[u8]) -> (out: Vec<u8>)
    requires
        src@.len() % 4 == 0,
    ensures
        out@.len() == src@.len(),
        forall|k: int| 0 <= k < src@.len() ==> #[trigger] out@[k] == dimmed_byte(src@, k),
{
    let n = src.len();
    let mut out = alloc_pixels(n);
    let mut i: usize = 0;
    while i < n
        invariant
            i <= n == src@.len() == out@.len(),
            n % 4 == 0,
            i % 4 == 0,
            forall|k: int| 0 <= k < i ==> #[trigger] out@[k] == dimmed_byte(src@, k),
        decreases n - i,
    {
        out.set(i, src[i] >> 1);
        out.set(i + 1, src[i + 1] >> 1);
        out.set(i + 2, src[i + 2] >> 1);
        out.set(i + 3, 0xff);
        proof {
            assert forall|k: int| i <= k < i + 3 implies #[trigger] out@[k] == dimmed_byte(src@, k) by {
                let b = src@[k];
                assert(b >> 1 == b / 2) by (bit_vector);
            }
        }
        i = i + 4;
    }
    out
}

/// The command-line arguments of `grim` for a PPM capture to standard output
/// of the output named `name` (of every output when `name` is empty), with
/// the pointer when `cursor` is set.
pub open spec fn grim_args_of(name: Seq<char>, cursor: bool) -> Seq<Seq<char>> {
    seq!["-t"@, "ppm"@] + (if name.len() > 0 {
        seq!["-o"@, name]
    } else {
        Seq::empty()
    }) + (if cursor {
        seq!["-c"@]
    } else {
        Seq::empty()
    }) + seq!["-"@]
}

pub fn grim_args(name: &str, cursor: bool) -> (r: Vec<String>)
    ensures
        r@.map_values(|s: String| s@) == grim_args_of(name@, cursor),
{
    let mut r: Vec<String> = Vec::new();
    r.push(String::from_str("-t"));
    r.push(String::from_str("ppm"));
    let has_name = chars_of(name).len() > 0;
    if has_name {
        r.push(String::from_str("-o"));
        r.push(String::from_str(name));
    }
    if cursor {
        r.push(String::from_str("-c"));
    }
    r.push(String::from_str("-"));
    assert(r@.map_values(|s: String| s@) =~= grim_args_of(name@, cursor));
    r
}

/// The grim command line always asks for PPM (`-t ppm`) on standard output
/// (`-` last), names the output with `-o` only when a name is given, and
/// carries `-c` (include the pointer) exactly when `cursor` is set: without
/// it, `-c` occurs nowhere but as the output name itself; with it, `-c` is
/// added just before the final `-` and nothing else changes.
pub proof fn lemma_grim_args_shape(name: Seq<char>)
    ensures
        ({
            let a = grim_args_of(name, false);
            let n: int = if name.len() > 0 { 2 } else { 0 };
            &&& a.len() == 3 + n
            &&& a[0] == "-t"@ && a[1] == "ppm"@
            &&& a[a.len() - 1] == "-"@
            &&& name.len() > 0 ==> a[2] == "-o"@ && a[3] == name
            &&& forall|i: int| 0 <= i < a.len() && a[i] == "-c"@ ==> i == 3 && name == "-c"@
        }),
        grim_args_of(name, true) == grim_args_of(name, false).insert(
            grim_args_of(name, false).len() - 1,
            "-c"@,
        ),
        grim_args_of(name, true)[grim_args_of(name, true).len() - 2] == "-c"@,
{
    reveal_strlit("-t");
    reveal_strlit("ppm");
    reveal_strlit("-o");
    reveal_strlit("-c");
    reveal_strlit("-");
    let a = grim_args_of(name, false);
    let b = grim_args_of(name, true);
    assert(b =~= a.insert(a.len() - 1, "-c"@));
    assert forall|i: int| 0 <= i < a.len() && a[i] == "-c"@ implies i == 3 && name == "-c"@ by {
        if i == 0 {
            assert(a[0][1] != "-c"@[1]);
        } else if i == 1 {
            assert(a[1].len() != "-c"@.len());
        } else if i == a.len() - 1 {
            assert(a[i].len() != "-c"@.len());
        } else if i == 2 {
            assert(a[2][1] != "-c"@[1]);
        }
    }
}

/// Name for what the `image` crate reads from encoded image bytes: the
/// format guessed from the bytes, the image decoded and converted to RGBA8,
/// as width, height and pixels; `None` when no format is recognised or
/// decoding fails.
pub uninterp spec fn decoded_rgba(bytes: Seq<u8>) -> Option<(u32, u32, Seq<u8>)>;

/// `image::ImageReader` over the bytes with `with_guessed_format`, then
/// `decode` and `to_rgba8`: the image's width, height and raw RGBA8 pixels,
/// or `None` when the reader or the decoder fails. Claims only that the
/// result is `decoded_rgba` of the bytes.
#[verifier::external_body]
fn decode_rgba(bytes: &[u8]) -> (r: Option<(u32, u32, Vec<u8>)>)
    ensures
        match r {
            Some((w, h, p)) => decoded_rgba(bytes@) == Some((w, h, p@)),
            None => decoded_rgba(bytes@) is None,
        },
{
    let reader = image::ImageReader::new(std::io::Cursor::new(bytes)).with_guessed_format().ok()?;
    let img = reader.decode().ok()?.to_rgba8();
    Some((img.width(), img.height(), img.into_raw()))
}

/// Why a capture's output could not be read.
#[derive(Debug, Clone, Copy, PartialEq, Eq, Structural)]
pub enum DecodeError {
    /// The bytes are not an image the `image` crate can decode.
    NotAnImage,
}

/// The screenshot `grim` printed (PPM on standard output) as width, height
/// and RGBA8 pixels.
pub fn grim_pixels(stdout: &[u8]) -> (r: Result<(u32, u32, Vec<u8>), DecodeError>)
    ensures
        match r {
            Ok((w, h, p)) => decoded_rgba(stdout@) == Some((w, h, p@)),
            Err(e) => e == DecodeError::NotAnImage && decoded_rgba(stdout@) is None,
        },
{
    match decode_rgba(stdout) {
        Some((w, h, p)) => Ok((w, h, p)),
        None => Err(DecodeError::NotAnImage),
    }
}

} // verus!
