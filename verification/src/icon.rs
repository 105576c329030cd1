//! The tray icon: a 32x32 RGBA image of a blue disc of radius 12 centred between the
//! four middle pixels, on a transparent background.

use vstd::prelude::*;

verus! {

/// The width and height of the icon, in pixels.
pub const ICON_SIZE: u32 = 32;

/// Pixel `(x, y)` lies in the disc: its centre `(x + 0.5, y + 0.5)` is at most 12 from
/// the icon's centre `(16, 16)`; in half-pixel units, `(2x - 31)^2 + (2y - 31)^2 <= 24^2`.
pub open spec fn in_icon_disc(x: int, y: int) -> bool {
    (2 * x - 31) * (2 * x - 31) + (2 * y - 31) * (2 * y - 31) <= 576
}

/// Channel `c` (red, green, blue, alpha) of pixel `(x, y)`.
pub open spec fn icon_channel(x: int, y: int, c: int) -> u8 {
    if in_icon_disc(x, y) {
        if c == 0 {
            40
        } else if c == 1 {
            110
        } else if c == 2 {
            230
        } else {
            255
        }
    } else {
        0
    }
}

/// Where channel `c` of pixel `(x, y)` is stored in the row-major RGBA buffer.
pub open spec fn pixel_index(x: int, y: int, c: int) -> int {
    (y * 32 + x) * 4 + c
}

/// The icon's pixels, row by row, four bytes (red, green, blue, alpha) per pixel.
pub fn tray_icon_rgba() -> (v: Vec<u8>)
    ensures
        v@.len() == 32 * 32 * 4,
        forall|x: int, y: int, c: int|
            0 <= x < 32 && 0 <= y < 32 && 0 <= c < 4 ==> #[trigger] v@[pixel_index(x, y, c)]
                == icon_channel(x, y, c),
{
    let mut v: Vec<u8> = Vec::new();
    let mut y: u32 = 0;
    while y < ICON_SIZE
        invariant
            y <= 32,
            v@.len() == y * 32 * 4,
            forall|xx: int, yy: int, c: int|
                0 <= xx < 32 && 0 <= yy < y && 0 <= c < 4 ==> #[trigger] v@[pixel_index(
                    xx,
                    yy,
                    c,
                )] == icon_channel(xx, yy, c),
        decreases 32 - y,
    {
        let mut x: u32 = 0;
        while x < ICON_SIZE
            invariant
                y < 32,
                x <= 32,
                v@.len() == (y * 32 + x) * 4,
                forall|xx: int, yy: int, c: int|
                    0 <= xx < 32 && 0 <= yy < 32 && 0 <= c < 4 && yy * 32 + xx < y * 32 + x
                        ==> #[trigger] v@[pixel_index(xx, yy, c)] == icon_channel(xx, yy, c),
            decreases 32 - x,
        {
            let dx: i32 = 2 * (x as i32) - 31;
            let dy: i32 = 2 * (y as i32) - 31;
            assert(dx * dx <= 1089 && dy * dy <= 1089) by (nonlinear_arith)
                requires
                    -31 <= dx <= 33,
                    -31 <= dy <= 33,
            ;
            assert(0 <= dx * dx && 0 <= dy * dy) by (nonlinear_arith);
            let inside = dx * dx + dy * dy <= 576;
            assert(inside == in_icon_disc(x as int, y as int));
            let ghost before = v@;
            if inside {
                v.push(40);
                v.push(110);
                v.push(230);
                v.push(255);
            } else {
                v.push(0);
                v.push(0);
                v.push(0);
                v.push(0);
            }
            assert forall|xx: int, yy: int, c: int|
                0 <= xx < 32 && 0 <= yy < 32 && 0 <= c < 4 && yy * 32 + xx < y * 32 + x
                    + 1 implies #[trigger] v@[pixel_index(xx, yy, c)] == icon_channel(
                xx,
                yy,
                c,
            ) by {
                if yy * 32 + xx < y * 32 + x {
                    assert(v@[pixel_index(xx, yy, c)] == before[pixel_index(xx, yy, c)]);
                } else {
                    assert(yy == y && xx == x);
                }
            }
            x = x + 1;
        }
        y = y + 1;
    }
    v
}

/// The icon as an image: the buffer is row-major with four bytes per pixel, and a pixel
/// is opaque blue (red 40, green 110, blue 230, alpha 255) exactly when its centre lies
/// within 12 pixels of the icon's centre, twice that distance being measured in whole
/// numbers; every other pixel is fully transparent black.
pub proof fn lemma_icon_is_a_blue_disc(x: int, y: int)
    requires
        0 <= x < 32,
        0 <= y < 32,
    ensures
        pixel_index(x, y, 0) == 128 * y + 4 * x,
        pixel_index(x, y, 3) == pixel_index(x, y, 0) + 3,
        ((2 * x + 1 - 32) * (2 * x + 1 - 32) + (2 * y + 1 - 32) * (2 * y + 1 - 32) <= 24 * 24)
            ==> icon_channel(x, y, 0) == 40 && icon_channel(x, y, 1) == 110 && icon_channel(x, y, 2)
            == 230 && icon_channel(x, y, 3) == 255,
        ((2 * x + 1 - 32) * (2 * x + 1 - 32) + (2 * y + 1 - 32) * (2 * y + 1 - 32) > 24 * 24)
            ==> icon_channel(x, y, 0) == 0 && icon_channel(x, y, 1) == 0 && icon_channel(x, y, 2)
            == 0 && icon_channel(x, y, 3) == 0,
{
}

/// The icon is symmetric: mirroring it left to right or top to bottom gives it back.
pub proof fn lemma_icon_is_symmetric(x: int, y: int, c: int)
    requires
        0 <= x < 32,
        0 <= y < 32,
    ensures
        icon_channel(x, y, c) == icon_channel(31 - x, y, c),
        icon_channel(x, y, c) == icon_channel(x, 31 - y, c),
{
    assert((2 * (31 - x) - 31) * (2 * (31 - x) - 31) == (2 * x - 31) * (2 * x - 31)) by (nonlinear_arith);
    assert((2 * (31 - y) - 31) * (2 * (31 - y) - 31) == (2 * y - 31) * (2 * y - 31)) by (nonlinear_arith);
}

} // verus!
