//! The status-tray icon: a yellow selection frame inside a dark round badge,
//! the same yellow as the overlay's frame.

use vstd::prelude::*;

verus! {

/// Width and height of the icon, in pixels.
pub const ICON_SIZE: usize = 22;

/// The pixel at column `x`, row `y` lies in the round badge: its centre is
/// within 10.3 px of the icon's centre (10.5, 10.5). Doubling the offsets
/// makes them odd integers, and between the nearest squared distances on
/// either side (106 and 106.5) lies 10.3², so the test is exact in
/// integers.
pub open spec fn in_badge(x: int, y: int) -> bool {
    (2 * x - 21) * (2 * x - 21) + (2 * y - 21) * (2 * y - 21) <= 424
}

/// The pixel lies on the two-pixel frame between the squares [4, 17]² and
/// [6, 15]².
pub open spec fn on_frame(x: int, y: int) -> bool {
    &&& 4 <= x <= 17
    &&& 4 <= y <= 17
    &&& !(6 <= x <= 15 && 6 <= y <= 15)
}

/// The icon's pixel as (alpha, red, green, blue): the frame in opaque yellow
/// over everything, the badge in opaque near-black, transparent elsewhere.
pub open spec fn icon_argb(x: int, y: int) -> (u8, u8, u8, u8) {
    if on_frame(x, y) {
        (0xff, 0xff, 0xc8, 0x00)
    } else if in_badge(x, y) {
        (0xff, 0x20, 0x20, 0x24)
    } else {
        (0x00, 0x00, 0x00, 0x00)
    }
}

/// Byte `k` (0 = alpha … 3 = blue) of the pixel at (`x`, `y`).
pub open spec fn icon_byte(x: int, y: int, k: int) -> u8 {
    let p = icon_argb(x, y);
    if k == 0 {
        p.0
    } else if k == 1 {
        p.1
    } else if k == 2 {
        p.2
    } else {
        p.3
    }
}

/// Where byte `k` of pixel (`x`, `y`) sits: rows top to bottom, pixels left
/// to right, four bytes each.
pub open spec fn pixel_index(x: int, y: int, k: int) -> int {
    (y * 22 + x) * 4 + k
}

/// The icon looks the same mirrored left to right, top to bottom, or
/// across its diagonal; its corners are transparent, its centre is the dark
/// badge, and the frame's corner is yellow. The badge is the disc of radius
/// 10.3 around the centre: in doubled, hundredfold units, a squared
/// distance of at most (2 × 10.3)² × 100 = 42436.
pub proof fn lemma_icon_symmetry(x: int, y: int)
    ensures
        icon_argb(x, y) == icon_argb(21 - x, y),
        icon_argb(x, y) == icon_argb(x, 21 - y),
        icon_argb(x, y) == icon_argb(y, x),
        icon_argb(0, 0) == (0u8, 0u8, 0u8, 0u8),
        icon_argb(10, 10) == (0xffu8, 0x20u8, 0x20u8, 0x24u8),
        icon_argb(4, 4) == (0xffu8, 0xffu8, 0xc8u8, 0x00u8),
        in_badge(x, y) <==> 100 * ((2 * x - 21) * (2 * x - 21) + (2 * y - 21) * (2 * y - 21))
            <= 42436,
{
    assert((2 * (21 - x) - 21) * (2 * (21 - x) - 21) == (2 * x - 21) * (2 * x - 21))
        by (nonlinear_arith);
    assert((2 * (21 - y) - 21) * (2 * (21 - y) - 21) == (2 * y - 21) * (2 * y - 21))
        by (nonlinear_arith);
    assert((2 * 0 - 21) * (2 * 0 - 21) == 441int) by (nonlinear_arith);
    assert((2 * 10 - 21) * (2 * 10 - 21) == 1int) by (nonlinear_arith);
    assert(!in_badge(0, 0));
    assert(in_badge(10, 10));
}

fn pixel(x: usize, y: usize) -> (p: (u8, u8, u8, u8))
    requires
        x < 22,
        y < 22,
    ensures
        p == icon_argb(x as int, y as int),
{
    let frame = 4 <= x && x <= 17 && 4 <= y && y <= 17 && !(6 <= x && x <= 15 && 6 <= y && y
        <= 15);
    let dx: i32 = 2 * (x as i32) - 21;
    let dy: i32 = 2 * (y as i32) - 21;
    assert(0 <= dx * dx <= 441 && 0 <= dy * dy <= 441) by (nonlinear_arith)
        requires
            -21 <= dx <= 21,
            -21 <= dy <= 21,
    ;
    if frame {
        (0xff, 0xff, 0xc8, 0x00)
    } else if dx * dx + dy * dy <= 424 {
        (0xff, 0x20, 0x20, 0x24)
    } else {
        (0x00, 0x00, 0x00, 0x00)
    }
}

/// The icon as ARGB32 in network byte order, as the StatusNotifierItem
/// protocol carries it.
pub fn tray_icon_argb() -> (data: Vec<u8>)
    ensures
        data@.len() == 22 * 22 * 4,
        forall|x: int, y: int, k: int|
            0 <= x < 22 && 0 <= y < 22 && 0 <= k < 4 ==> #[trigger] data@[pixel_index(x, y, k)]
                == icon_byte(x, y, k),
{
    let mut data: Vec<u8> = Vec::new();
    let mut y: usize = 0;
    while y < ICON_SIZE
        invariant
            y <= 22,
            data@.len() == y * 22 * 4,
            forall|xx: int, yy: int, k: int|
                0 <= xx < 22 && 0 <= yy < y && 0 <= k < 4 ==> #[trigger] data@[pixel_index(
                    xx,
                    yy,
                    k,
                )] == icon_byte(xx, yy, k),
        decreases 22 - y,
    {
        let mut x: usize = 0;
        while x < ICON_SIZE
            invariant
                y < 22,
                x <= 22,
                data@.len() == (y * 22 + x) * 4,
                forall|xx: int, yy: int, k: int|
                    0 <= xx < 22 && 0 <= yy < 22 && 0 <= k < 4 && yy * 22 + xx < y * 22 + x
                        ==> #[trigger] data@[pixel_index(xx, yy, k)] == icon_byte(xx, yy, k),
            decreases 22 - x,
        {
            let (a, r, g, b) = pixel(x, y);
            let ghost before = data@;
            data.push(a);
            data.push(r);
            data.push(g);
            data.push(b);
            assert forall|xx: int, yy: int, k: int|
                0 <= xx < 22 && 0 <= yy < 22 && 0 <= k < 4 && yy * 22 + xx < y * 22 + x
                    + 1 implies #[trigger] data@[pixel_index(xx, yy, k)] == icon_byte(xx, yy, k) by {
                if yy * 22 + xx < y * 22 + x {
                    assert(data@[pixel_index(xx, yy, k)] == before[pixel_index(xx, yy, k)]);
                } else {
                    assert(yy == y && xx == x);
                }
            }
            x += 1;
        }
        y += 1;
    }
    data
}

} // verus!
