//! The clipboard app's tray icon, drawn pixel by pixel: a pink square with a
//! dark border, a light plate and the clip on top.
use vstd::prelude::*;

verus! {

/// Side of the icon, in pixels.
pub const ICON_SIDE: u32 = 32;

/// The colour of the pixel at column `x`, row `y`.
pub open spec fn icon_pixel(x: u32, y: u32) -> (u8, u8, u8, u8) {
    let w = ICON_SIDE;
    let h = ICON_SIDE;
    let edge = x == 0 || y == 0 || x == w - 1 || y == h - 1;
    let plate = x >= 9 && x < w - 9 && y >= 6 && y < h - 8;
    let clip = x >= 13 && x < w - 13 && y >= 3 && y < 7;
    if clip || plate {
        (247, 237, 242, 255)
    } else if edge {
        (90, 50, 70, 255)
    } else {
        (201, 116, 159, 255)
    }
}

/// Channel `c` (0 red, 1 green, 2 blue, 3 alpha) of a colour.
pub open spec fn channel(p: (u8, u8, u8, u8), c: int) -> u8 {
    if c == 0 { p.0 } else if c == 1 { p.1 } else if c == 2 { p.2 } else { p.3 }
}

fn pixel(x: u32, y: u32) -> (r: (u8, u8, u8, u8))
    requires
        x < ICON_SIDE,
        y < ICON_SIDE,
    ensures
        r == icon_pixel(x, y),
{
    let w = ICON_SIDE;
    let h = ICON_SIDE;
    let edge = x == 0 || y == 0 || x == w - 1 || y == h - 1;
    let plate = x >= 9 && x < w - 9 && y >= 6 && y < h - 8;
    let clip = x >= 13 && x < w - 13 && y >= 3 && y < 7;
    if clip || plate {
        (247, 237, 242, 255)
    } else if edge {
        (90, 50, 70, 255)
    } else {
        (201, 116, 159, 255)
    }
}

/// The icon as RGBA bytes, row by row: byte `4 (32 y + x) + c` is channel `c`
/// of the pixel at column `x`, row `y`.
pub fn tray_icon_rgba() -> (r: Vec<u8>)
    ensures
        r@.len() == 4096,
        forall|x: u32, y: u32, c: int| x < 32 && y < 32 && 0 <= c < 4 ==> #[trigger] r@[4 * (32 * y + x) + c] == channel(icon_pixel(x, y), c),
{
    let mut rgba: Vec<u8> = Vec::new();
    let mut y: u32 = 0;
    while y < ICON_SIDE
        invariant
            y <= 32,
            rgba@.len() == 128 * y,
            forall|px: u32, py: u32, c: int| px < 32 && py < y && 0 <= c < 4 ==> #[trigger] rgba@[4 * (32 * py + px) + c] == channel(icon_pixel(px, py), c),
        decreases 32 - y,
    {
        let mut x: u32 = 0;
        while x < ICON_SIDE
            invariant
                y < 32,
                x <= 32,
                rgba@.len() == 128 * y + 4 * x,
                forall|px: u32, py: u32, c: int| px < 32 && py < y && 0 <= c < 4 ==> #[trigger] rgba@[4 * (32 * py + px) + c] == channel(icon_pixel(px, py), c),
                forall|px: u32, c: int| px < x && 0 <= c < 4 ==> #[trigger] rgba@[4 * (32 * y + px) + c] == channel(icon_pixel(px, y), c),
            decreases 32 - x,
        {
            let (r, g, b, a) = pixel(x, y);
            let ghost before = rgba@;
            rgba.push(r);
            rgba.push(g);
            rgba.push(b);
            rgba.push(a);
            proof {
                assert forall|px: u32, py: u32, c: int| px < 32 && py < y && 0 <= c < 4 implies #[trigger] rgba@[4 * (32 * py + px) + c] == channel(icon_pixel(px, py), c) by {
                    assert(4 * (32 * py + px) + c < 128 * y) by (nonlinear_arith)
                        requires px < 32, py < y, 0 <= c < 4;
                    assert(rgba@[4 * (32 * py + px) + c] == before[4 * (32 * py + px) + c]);
                }
                assert forall|px: u32, c: int| px < x + 1 && 0 <= c < 4 implies #[trigger] rgba@[4 * (32 * y + px) + c] == channel(icon_pixel(px, y), c) by {
                    if px < x {
                        assert(rgba@[4 * (32 * y + px) + c] == before[4 * (32 * y + px) + c]);
                    }
                }
            }
            x = x + 1;
        }
        y = y + 1;
    }
    rgba
}

} // verus!
