//! The tray icon: a 32x32 RGBA light bulb, lit (with a glow) or grey.

use vstd::prelude::*;

verus! {

/// Width and height of the icon, in pixels.
pub const ICON_SIZE: u32 = 32;

/// A pixel's four channels, red, green, blue, alpha.
pub type Rgba = (u8, u8, u8, u8);

/// Channel `c` (0 red, 1 green, 2 blue, 3 alpha) of a pixel.
pub open spec fn channel(p: Rgba, c: int) -> u8 {
    if c == 0 {
        p.0
    } else if c == 1 {
        p.1
    } else if c == 2 {
        p.2
    } else {
        p.3
    }
}

/// Index of the pixel that byte `k` of a 32-pixel-wide RGBA buffer belongs to.
pub open spec fn pixel_index(k: int) -> int {
    k / 4
}

/// Column of the pixel that byte `k` belongs to.
pub open spec fn pixel_x(k: int) -> int {
    (k / 4) % 32
}

/// Row of the pixel that byte `k` belongs to.
pub open spec fn pixel_y(k: int) -> int {
    (k / 4) / 32
}

/// Whether the whole pixel that byte `k` belongs to lies inside a buffer of `len` bytes.
pub open spec fn pixel_in_buffer(k: int, len: int) -> bool {
    (k / 4) * 4 + 3 < len
}

/// Writes the pixel at column `x`, row `y` of a 32-pixel-wide buffer,
/// if the whole pixel lies inside the buffer.
fn set_pixel(rgba: &mut [u8], x: usize, y: usize, r: u8, g: u8, b: u8, a: u8)
    requires
        (y * 32 + x) * 4 + 3 <= usize::MAX,
    ensures
        final(rgba)@.len() == old(rgba)@.len(),
        forall|k: int|
            0 <= k < old(rgba)@.len() ==> #[trigger] final(rgba)@[k] == if pixel_index(k) == y * 32 + x
                && pixel_in_buffer(k, old(rgba)@.len() as int) {
                channel((r, g, b, a), k % 4)
            } else {
                old(rgba)@[k]
            },
{
    let idx = (y * (ICON_SIZE as usize) + x) * 4;
    if idx + 3 < rgba.len() {
        rgba[idx] = r;
        rgba[idx + 1] = g;
        rgba[idx + 2] = b;
        rgba[idx + 3] = a;
    }
}

/// Alpha of a pixel of alpha `old_a` after painting over it with alpha `a`.
pub open spec fn blend_alpha(a: int, old_a: int) -> int {
    a + old_a * (255 - a) / 255
}

/// A colour channel after painting `c` with alpha `a` over `old_c` of alpha `old_a`.
pub open spec fn blend_channel(c: int, old_c: int, a: int, old_a: int) -> u8 {
    ((c * a + old_c * (255 - a) * old_a / 255) / blend_alpha(a, old_a)) as u8
}

/// Whether painting `c` with alpha `a` over `old_c` of alpha `old_a` stays within
/// the 16-bit arithmetic it is computed in.
pub open spec fn blend_fits(c: int, old_c: int, a: int, old_a: int) -> bool {
    &&& old_c * (255 - a) * old_a <= 65535
    &&& c * a + old_c * (255 - a) * old_a / 255 <= 65535
}

/// The pixel `old` after painting the colour `(r, g, b)` with alpha `a` over it
/// ("source over"); a fully transparent paint leaves it as it was.
pub open spec fn blended(old: Rgba, r: u8, g: u8, b: u8, a: u8) -> Rgba {
    if a == 0 || blend_alpha(a as int, old.3 as int) == 0 {
        old
    } else {
        (
            blend_channel(r as int, old.0 as int, a as int, old.3 as int),
            blend_channel(g as int, old.1 as int, a as int, old.3 as int),
            blend_channel(b as int, old.2 as int, a as int, old.3 as int),
            blend_alpha(a as int, old.3 as int) as u8,
        )
    }
}

/// The pixel starting at byte `o` of `buf`.
pub open spec fn pixel_of(buf: Seq<u8>, o: int) -> Rgba {
    (buf[o], buf[o + 1], buf[o + 2], buf[o + 3])
}

/// Paints the colour `(r, g, b)` with alpha `a` over the pixel at column `x`,
/// row `y` of a 32-pixel-wide buffer, if the whole pixel lies inside it.
fn blend_pixel(rgba: &mut [u8], x: usize, y: usize, r: u8, g: u8, b: u8, a: u8)
    requires
        (y * 32 + x) * 4 + 3 <= usize::MAX,
        (y * 32 + x) * 4 + 3 < old(rgba)@.len() && a > 0 ==> {
            let o = (y * 32 + x) * 4;
            &&& blend_fits(r as int, old(rgba)@[o] as int, a as int, old(rgba)@[o + 3] as int)
            &&& blend_fits(g as int, old(rgba)@[o + 1] as int, a as int, old(rgba)@[o + 3] as int)
            &&& blend_fits(b as int, old(rgba)@[o + 2] as int, a as int, old(rgba)@[o + 3] as int)
        },
    ensures
        final(rgba)@.len() == old(rgba)@.len(),
        forall|k: int|
            0 <= k < old(rgba)@.len() ==> #[trigger] final(rgba)@[k] == if pixel_index(k) == y * 32 + x
                && pixel_in_buffer(k, old(rgba)@.len() as int) {
                channel(blended(pixel_of(old(rgba)@, (y * 32 + x) * 4), r, g, b, a), k % 4)
            } else {
                old(rgba)@[k]
            },
{
    let idx = (y * (ICON_SIZE as usize) + x) * 4;
    if idx + 3 < rgba.len() {
        if a == 0 {
            return;
        }
        let old_r = rgba[idx] as u16;
        let old_g = rgba[idx + 1] as u16;
        let old_b = rgba[idx + 2] as u16;
        let old_a = rgba[idx + 3] as u16;

        let alpha = a as u16;
        let inv_alpha = 255 - alpha;

        assert(old_a * inv_alpha <= 255 * 255) by (nonlinear_arith)
            requires
                old_a <= 255,
                inv_alpha <= 255,
        ;
        assert(old_r * inv_alpha <= 255 * 255) by (nonlinear_arith)
            requires
                old_r <= 255,
                inv_alpha <= 255,
        ;
        assert(old_g * inv_alpha <= 255 * 255) by (nonlinear_arith)
            requires
                old_g <= 255,
                inv_alpha <= 255,
        ;
        assert(old_b * inv_alpha <= 255 * 255) by (nonlinear_arith)
            requires
                old_b <= 255,
                inv_alpha <= 255,
        ;
        assert(r as u16 * alpha <= 255 * 255) by (nonlinear_arith)
            requires
                r <= 255,
                alpha <= 255,
        ;
        assert(g as u16 * alpha <= 255 * 255) by (nonlinear_arith)
            requires
                g <= 255,
                alpha <= 255,
        ;
        assert(b as u16 * alpha <= 255 * 255) by (nonlinear_arith)
            requires
                b <= 255,
                alpha <= 255,
        ;
        let new_a = alpha + (old_a * inv_alpha) / 255;
        if new_a == 0 {
            return;
        }
        let nr = ((r as u16 * alpha + old_r * inv_alpha * old_a / 255) / new_a) as u8;
        let ng = ((g as u16 * alpha + old_g * inv_alpha * old_a / 255) / new_a) as u8;
        let nb = ((b as u16 * alpha + old_b * inv_alpha * old_a / 255) / new_a) as u8;
        rgba[idx] = nr;
        rgba[idx + 1] = ng;
        rgba[idx + 2] = nb;
        rgba[idx + 3] = new_a as u8;
    }
}

/// A colour channel darkened by `factor` percent (as Qt's `darker(factor)`):
/// `100 * c / factor`, rounded to the nearest integer with halves rounded up,
/// at most 255. A factor of zero keeps black and saturates every other value.
pub open spec fn darkened(c: int, factor: int) -> u8 {
    if factor == 0 {
        if c == 0 {
            0
        } else {
            255
        }
    } else {
        let v = (200 * c + factor) / (2 * factor);
        if v > 255 {
            255
        } else {
            v as u8
        }
    }
}

fn darken_channel(c: u8, factor: u32) -> (r: u8)
    ensures
        r == darkened(c as int, factor as int),
{
    if factor == 0 {
        if c == 0 {
            0
        } else {
            255
        }
    } else {
        let f = factor as u64;
        let num = 200 * (c as u64) + f;
        let v = num / (2 * f);
        if v > 255 {
            255
        } else {
            v as u8
        }
    }
}

/// Darkens a colour by a factor (e.g. 120 means Qt's `darker(120)`: each
/// channel multiplied by 100/120 and rounded).
fn darken(r: u8, g: u8, b: u8, factor: u32) -> (res: (u8, u8, u8))
    ensures
        res == (darkened(r as int, factor as int), darkened(g as int, factor as int), darkened(
            b as int,
            factor as int,
        )),
{
    (darken_channel(r, factor), darken_channel(g, factor), darken_channel(b, factor))
}

/// Whether byte `k` of an ARGB buffer is taken from byte `argb_source(k)` of
/// the RGBA buffer it was converted from.
pub open spec fn argb_source(k: int) -> int {
    (k / 4) * 4 + (k % 4 + 3) % 4
}

/// Convert an RGBA buffer to ARGB32 byte order (A, R, G, B per pixel).
pub fn to_argb32(rgba: &[u8], width: u32, height: u32) -> (argb: Vec<u8>)
    requires
        width * height <= u32::MAX,
        4 * width * height <= usize::MAX,
        rgba@.len() >= 4 * width * height,
    ensures
        argb@.len() == 4 * width * height,
        forall|k: int| 0 <= k < argb@.len() ==> #[trigger] argb@[k] == rgba@[argb_source(k)],
{
    let pixel_count = (width * height) as usize;
    assert(4 * width * height == 4 * (width * height)) by (nonlinear_arith);
    let mut argb: Vec<u8> = Vec::with_capacity(pixel_count * 4);
    let mut i: usize = 0;
    while i < pixel_count
        invariant
            pixel_count == width * height,
            4 * pixel_count <= usize::MAX,
            rgba@.len() >= 4 * pixel_count,
            i <= pixel_count,
            argb@.len() == 4 * i,
            forall|k: int| 0 <= k < argb@.len() ==> #[trigger] argb@[k] == rgba@[argb_source(k)],
        decreases pixel_count - i,
    {
        assert(i * 4 + 3 < 4 * pixel_count) by (nonlinear_arith)
            requires
                i < pixel_count,
        ;
        let r = rgba[i * 4];
        let g = rgba[i * 4 + 1];
        let b = rgba[i * 4 + 2];
        let a = rgba[i * 4 + 3];
        argb.push(a);
        argb.push(r);
        argb.push(g);
        argb.push(b);
        i = i + 1;
        assert forall|k: int| 0 <= k < argb@.len() implies #[trigger] argb@[k] == rgba@[argb_source(k)] by {
            if k >= 4 * (i - 1) {
                assert(k / 4 == i - 1);
            }
        }
    }
    argb
}

/// The smaller of two integers.
pub open spec fn min_int(a: int, b: int) -> int {
    if a < b {
        a
    } else {
        b
    }
}

/// Whether pixel `(px, py)` lies on the one-pixel border of the rectangle at
/// `(x, y)` of size `w` by `h`, clipped to the 32x32 icon.
pub open spec fn on_rect_outline(x: int, y: int, w: int, h: int, px: int, py: int) -> bool {
    ||| x <= px < min_int(x + w, 32) && ((py == y && y < 32) || (h > 0 && py == y + h - 1 && y + h
        - 1 < 32))
    ||| y <= py < min_int(y + h, 32) && ((px == x && x < 32) || (w > 0 && px == x + w - 1 && x + w
        - 1 < 32))
}

/// Facts about the byte layout of a 32-pixel-wide RGBA buffer.
proof fn lemma_pixel_coordinates(k: int, px: int, py: int)
    requires
        0 <= k,
        0 <= px < 32,
        0 <= py,
    ensures
        pixel_index(k) == py * 32 + px <==> (pixel_x(k) == px && pixel_y(k) == py),
{
}

/// Draw a rectangle outline (1px border), as QPainter::drawRect with a pen does.
fn draw_rect_outline(rgba: &mut [u8], x: usize, y: usize, w: usize, h: usize, r: u8, g: u8, b: u8)
    requires
        x + w <= usize::MAX,
        y + h <= usize::MAX,
        x < x + w && x < 32 ==> y + h >= 1,
        y < y + h && y < 32 ==> x + w >= 1,
    ensures
        final(rgba)@.len() == old(rgba)@.len(),
        forall|k: int|
            0 <= k < old(rgba)@.len() ==> #[trigger] final(rgba)@[k] == if on_rect_outline(
                x as int,
                y as int,
                w as int,
                h as int,
                pixel_x(k),
                pixel_y(k),
            ) && pixel_in_buffer(k, old(rgba)@.len() as int) {
                channel((r, g, b, 255u8), k % 4)
            } else {
                old(rgba)@[k]
            },
{
    let size: usize = ICON_SIZE as usize;
    let ghost len = old(rgba)@.len() as int;
    let ghost start = old(rgba)@;
    // Top and bottom edges
    let end_x: usize = if x + w < size {
        x + w
    } else {
        size
    };
    let mut i: usize = x;
    while i < end_x
        invariant
            x <= i,
            i <= end_x || i == x,
            end_x == min_int(x + w, 32),
            size == 32,
            x + w <= usize::MAX,
            y + h <= usize::MAX,
            x < x + w && x < 32 ==> y + h >= 1,
            rgba@.len() == len,
            forall|k: int|
                0 <= k < len ==> #[trigger] rgba@[k] == if x <= pixel_x(k) < i && ((pixel_y(k) == y
                    && y < 32) || (h > 0 && pixel_y(k) == y + h - 1 && y + h - 1 < 32))
                    && pixel_in_buffer(k, len) {
                    channel((r, g, b, 255u8), k % 4)
                } else {
                    start[k]
                },
        decreases end_x - i,
    {
        if y < size {
            set_pixel(rgba, i, y, r, g, b, 255);
        }
        if y + h - 1 < size && h > 0 {
            set_pixel(rgba, i, y + h - 1, r, g, b, 255);
        }
        i = i + 1;
        assert forall|k: int| 0 <= k < len implies #[trigger] rgba@[k] == if x <= pixel_x(k) < i && ((
        pixel_y(k) == y && y < 32) || (h > 0 && pixel_y(k) == y + h - 1 && y + h - 1 < 32))
            && pixel_in_buffer(k, len) {
            channel((r, g, b, 255u8), k % 4)
        } else {
            start[k]
        } by {
            lemma_pixel_coordinates(k, (i - 1) as int, y as int);
            lemma_pixel_coordinates(k, (i - 1) as int, (y + h - 1) as int);
        }
    }
    let ghost mid = rgba@;
    assert(forall|k: int| 0 <= k < len ==> #[trigger] mid[k] == if x <= pixel_x(k) < end_x && ((
        pixel_y(k) == y && y < 32) || (h > 0 && pixel_y(k) == y + h - 1 && y + h - 1 < 32))
        && pixel_in_buffer(k, len) {
        channel((r, g, b, 255u8), k % 4)
    } else {
        start[k]
    });
    // Left and right edges
    let end_y: usize = if y + h < size {
        y + h
    } else {
        size
    };
    let mut j: usize = y;
    while j < end_y
        invariant
            y <= j,
            j <= end_y || j == y,
            end_y == min_int(y + h, 32),
            size == 32,
            x + w <= usize::MAX,
            y + h <= usize::MAX,
            y < y + h && y < 32 ==> x + w >= 1,
            rgba@.len() == len,
            forall|k: int|
                0 <= k < len ==> #[trigger] rgba@[k] == if y <= pixel_y(k) < j && ((pixel_x(k) == x
                    && x < 32) || (w > 0 && pixel_x(k) == x + w - 1 && x + w - 1 < 32))
                    && pixel_in_buffer(k, len) {
                    channel((r, g, b, 255u8), k % 4)
                } else {
                    mid[k]
                },
        decreases end_y - j,
    {
        if x < size {
            set_pixel(rgba, x, j, r, g, b, 255);
        }
        if x + w - 1 < size && w > 0 {
            set_pixel(rgba, x + w - 1, j, r, g, b, 255);
        }
        j = j + 1;
        assert forall|k: int| 0 <= k < len implies #[trigger] rgba@[k] == if y <= pixel_y(k) < j && ((
        pixel_x(k) == x && x < 32) || (w > 0 && pixel_x(k) == x + w - 1 && x + w - 1 < 32))
            && pixel_in_buffer(k, len) {
            channel((r, g, b, 255u8), k % 4)
        } else {
            mid[k]
        } by {
            if x < 32 {
                lemma_pixel_coordinates(k, x as int, (j - 1) as int);
            }
            if w > 0 && x + w - 1 < 32 {
                lemma_pixel_coordinates(k, (x + w - 1) as int, (j - 1) as int);
            }
        }
    }
    assert forall|k: int| 0 <= k < len implies #[trigger] rgba@[k] == if on_rect_outline(
        x as int,
        y as int,
        w as int,
        h as int,
        pixel_x(k),
        pixel_y(k),
    ) && pixel_in_buffer(k, len) {
        channel((r, g, b, 255u8), k % 4)
    } else {
        start[k]
    } by {
        assert(mid[k] == if x <= pixel_x(k) < end_x && ((pixel_y(k) == y && y < 32) || (h > 0
            && pixel_y(k) == y + h - 1 && y + h - 1 < 32)) && pixel_in_buffer(k, len) {
            channel((r, g, b, 255u8), k % 4)
        } else {
            start[k]
        });
    }
}

/// Whether the glow's alpha at squared distance `n` from its centre rounds to
/// `a` or more: `180 * (1 - sqrt(n) / 14) >= a - 1/2`, i.e.
/// `180 * sqrt(n) <= 7 * (361 - 2a)`, squared.
pub open spec fn glow_reaches(n: int, a: int) -> bool {
    32400 * n <= 49 * (361 - 2 * a) * (361 - 2 * a)
}

/// The largest alpha at most `a` that the glow reaches at squared distance `n`, or 0.
pub open spec fn glow_alpha_from(n: int, a: nat) -> int
    decreases a,
{
    if glow_reaches(n, a as int) {
        a as int
    } else if a == 0 {
        0
    } else {
        glow_alpha_from(n, (a - 1) as nat)
    }
}

/// The glow's alpha at squared distance `n` (in pixels) from its centre: a radial
/// gradient of radius 14 from alpha 180 at the centre to 0 at the rim,
/// `round(180 * (1 - min(sqrt(n) / 14, 1)))`.
pub open spec fn glow_alpha(n: int) -> int {
    glow_alpha_from(n, 180)
}

proof fn lemma_glow_alpha_from_bounds(n: int, a: nat)
    ensures
        0 <= glow_alpha_from(n, a) <= a,
        glow_alpha_from(n, a) > 0 ==> glow_reaches(n, glow_alpha_from(n, a)),
        forall|b: int| glow_alpha_from(n, a) < b <= a ==> !glow_reaches(n, b),
    decreases a,
{
    if a > 0 && !glow_reaches(n, a as int) {
        lemma_glow_alpha_from_bounds(n, (a - 1) as nat);
    }
}

/// The glow's alpha is the rounded gradient value: for a point strictly inside
/// the rim, `alpha - 1/2 <= 180 * (1 - sqrt(n) / 14) < alpha + 1/2`, stated
/// without square roots; on and beyond the rim it is 0.
pub proof fn lemma_glow_alpha_rounds(n: int)
    requires
        0 <= n,
    ensures
        0 <= glow_alpha(n) <= 180,
        n < 196 ==> glow_reaches(n, glow_alpha(n)),
        glow_alpha(n) < 180 ==> !glow_reaches(n, glow_alpha(n) + 1),
        n >= 196 ==> glow_alpha(n) == 0,
{
    lemma_glow_alpha_from_bounds(n, 180);
    if n < 196 {
        assert(glow_reaches(n, 0)) by (nonlinear_arith)
            requires
                0 <= n < 196,
        ;
    }
    let g = glow_alpha(n);
    if n >= 196 && g > 0 {
        assert(!glow_reaches(n, g)) by (nonlinear_arith)
            requires
                n >= 196,
                1 <= g <= 180,
        ;
    }
}

/// The glow's alpha at squared distance `n` from its centre.
fn glow_alpha_at(n: u32) -> (a: u8)
    requires
        n <= 1000,
    ensures
        a == glow_alpha(n as int),
{
    let target: u64 = 32400 * (n as u64);
    let mut a: u64 = 180;
    loop
        invariant
            a <= 180,
            target == 32400 * n,
            n <= 1000,
            glow_alpha_from(n as int, a as nat) == glow_alpha(n as int),
        decreases a,
    {
        let d: u64 = 361 - 2 * a;
        assert(d * d <= 361 * 361) by (nonlinear_arith)
            requires
                d <= 361,
        ;
        assert(49 * d * d == 49 * (d * d)) by (nonlinear_arith);
        let reach: u64 = 49 * (d * d);
        if target <= reach {
            return a as u8;
        }
        if a == 0 {
            return 0;
        }
        a = a - 1;
    }
}

/// The glow painted onto a transparent icon when the light is on.
pub open spec fn glow_pixel(on: bool, x: int, y: int) -> Rgba {
    let a = glow_alpha((x - 16) * (x - 16) + (y - 12) * (y - 12));
    if on && 2 <= x < 30 && 0 <= y < 24 && a > 0 {
        (255, 240, 150, a as u8)
    } else {
        (0, 0, 0, 0)
    }
}

proof fn lemma_blend_onto_clear(c: int, a: int)
    requires
        0 <= c <= 255,
        0 < a <= 255,
    ensures
        blend_alpha(a, 0) == a,
        blend_channel(c, 0, a, 0) == c,
        blend_fits(c, 0, a, 0),
{
    assert(c * a / a == c) by (nonlinear_arith)
        requires
            a > 0,
    ;
    assert(c * a <= 255 * 255) by (nonlinear_arith)
        requires
            0 <= c <= 255,
            0 < a <= 255,
    ;
}

/// Paints the glow (a radial gradient centred on (16, 12), radius 14, colour
/// (255, 240, 150), alpha 180 at the centre) over the ellipse x in [2, 30),
/// y in [0, 24) of a transparent icon.
fn paint_glow(rgba: &mut [u8])
    requires
        old(rgba)@.len() == 4096,
        forall|k: int| 0 <= k < 4096 ==> #[trigger] old(rgba)@[k] == 0,
    ensures
        final(rgba)@.len() == 4096,
        forall|k: int|
            0 <= k < 4096 ==> #[trigger] final(rgba)@[k] == channel(
                glow_pixel(true, pixel_x(k), pixel_y(k)),
                k % 4,
            ),
{
    let mut y: usize = 0;
    while y < 24
        invariant
            y <= 24,
            rgba@.len() == 4096,
            forall|k: int|
                0 <= k < 4096 ==> #[trigger] rgba@[k] == if pixel_y(k) < y {
                    channel(glow_pixel(true, pixel_x(k), pixel_y(k)), k % 4)
                } else {
                    0
                },
        decreases 24 - y,
    {
        let mut x: usize = 2;
        while x < 30
            invariant
                y < 24,
                2 <= x <= 30,
                rgba@.len() == 4096,
                forall|k: int|
                    0 <= k < 4096 ==> #[trigger] rgba@[k] == if pixel_y(k) < y || (pixel_y(k) == y
                        && pixel_x(k) < x) {
                        channel(glow_pixel(true, pixel_x(k), pixel_y(k)), k % 4)
                    } else {
                        0
                    },
            decreases 30 - x,
        {
            let dx: i64 = x as i64 - 16;
            let dy: i64 = y as i64 - 12;
            assert(dx * dx <= 256 && dy * dy <= 144 && dx * dx >= 0 && dy * dy >= 0) by (nonlinear_arith)
                requires
                    -16 <= dx <= 16,
                    -12 <= dy <= 12,
            ;
            let n: u32 = (dx * dx + dy * dy) as u32;
            let alpha = glow_alpha_at(n);
            let ghost before = rgba@;
            let ghost o: int = (y * 32 + x) * 4;
            assert(pixel_x(o) == x && pixel_y(o) == y);
            assert(pixel_x(o + 3) == x && pixel_y(o + 3) == y);
            assert(pixel_x(o + 1) == x && pixel_y(o + 1) == y);
            assert(pixel_x(o + 2) == x && pixel_y(o + 2) == y);
            assert(before[o] == 0 && before[o + 1] == 0 && before[o + 2] == 0 && before[o + 3] == 0);
            proof {
                if alpha > 0 {
                    lemma_blend_onto_clear(255, alpha as int);
                    lemma_blend_onto_clear(240, alpha as int);
                    lemma_blend_onto_clear(150, alpha as int);
                }
            }
            blend_pixel(rgba, x, y, 255, 240, 150, alpha);
            x = x + 1;
            assert forall|k: int| 0 <= k < 4096 implies #[trigger] rgba@[k] == if pixel_y(k) < y || (
            pixel_y(k) == y && pixel_x(k) < x) {
                channel(glow_pixel(true, pixel_x(k), pixel_y(k)), k % 4)
            } else {
                0
            } by {
                lemma_pixel_coordinates(k, (x - 1) as int, y as int);
                if pixel_y(k) == y && pixel_x(k) == x - 1 {
                    assert(pixel_index(k) == y * 32 + (x - 1));
                    assert(n == (pixel_x(k) - 16) * (pixel_x(k) - 16) + (pixel_y(k) - 12) * (pixel_y(
                        k,
                    ) - 12));
                }
            }
        }
        y = y + 1;
    }
}

/// Squared, scaled distance of `(x, y)` from the bulb's centre (16, 11), for the
/// ellipse of radii 10 and 9: `8100 * ((x - 16)^2 / 100 + (y - 11)^2 / 81)`.
pub open spec fn bulb_distance(x: int, y: int) -> int {
    81 * (x - 16) * (x - 16) + 100 * (y - 11) * (y - 11)
}

/// Whether `(x, y)` is inside the bulb's stroke: normalised distance at most
/// `1 - 0.75 / 9.5 = 35/38` (squared and scaled: `1444 * d <= 8100 * 35^2`).
pub open spec fn in_bulb_fill(x: int, y: int) -> bool {
    1444 * bulb_distance(x, y) <= 9922500
}

/// Whether `(x, y)` is within the bulb's outer edge, normalised distance at most
/// `1 + 0.75 / 9.5 = 41/38` (`1444 * d <= 8100 * 41^2`).
pub open spec fn in_bulb_outline(x: int, y: int) -> bool {
    1444 * bulb_distance(x, y) <= 13616100
}

/// Whether `(x, y)` is in the trapezoid base (10,19)-(22,19)-(20,24)-(12,24),
/// widened by half a pixel: `10 + 0.4 t - 0.5 <= x <= 22 - 0.4 t + 0.5` with `t = y - 19`.
pub open spec fn in_base(x: int, y: int) -> bool {
    &&& 19 <= y <= 24
    &&& 10 * x >= 95 + 4 * (y - 19)
    &&& 10 * x <= 225 - 4 * (y - 19)
}

/// Whether `(x, y)` lies on one of the three screw threads under the base.
pub open spec fn on_threads(x: int, y: int) -> bool {
    ||| on_rect_outline(12, 24, 8, 2, x, y)
    ||| on_rect_outline(13, 26, 6, 2, x, y)
    ||| on_rect_outline(14, 28, 4, 2, x, y)
}

/// The bulb's fill colour: yellow when on, light grey in dark mode, grey otherwise.
pub open spec fn bulb_color(on: bool, dark_mode: bool) -> (u8, u8, u8) {
    if on {
        (255, 220, 80)
    } else if dark_mode {
        (200, 200, 200)
    } else {
        (128, 128, 128)
    }
}

/// The bulb's outline colour.
pub open spec fn outline_color(on: bool, dark_mode: bool) -> (u8, u8, u8) {
    if on {
        (200, 160, 40)
    } else if dark_mode {
        (150, 150, 150)
    } else {
        (80, 80, 80)
    }
}

/// The base's colour.
pub open spec fn base_color(on: bool) -> (u8, u8, u8) {
    if on {
        (180, 180, 180)
    } else {
        (100, 100, 100)
    }
}

/// The threads' colour: the base's, darkened by 120.
pub open spec fn thread_color(on: bool) -> (u8, u8, u8) {
    let c = base_color(on);
    (darkened(c.0 as int, 120), darkened(c.1 as int, 120), darkened(c.2 as int, 120))
}

/// An opaque pixel of the colour `c`.
pub open spec fn opaque(c: (u8, u8, u8)) -> Rgba {
    (c.0, c.1, c.2, 255)
}

/// The icon's pixel at `(x, y)`: threads over base over bulb over glow.
pub open spec fn icon_pixel(on: bool, dark_mode: bool, x: int, y: int) -> Rgba {
    if on_threads(x, y) {
        opaque(thread_color(on))
    } else if in_base(x, y) {
        opaque(base_color(on))
    } else if in_bulb_fill(x, y) {
        opaque(bulb_color(on, dark_mode))
    } else if in_bulb_outline(x, y) {
        opaque(outline_color(on, dark_mode))
    } else {
        glow_pixel(on, x, y)
    }
}

/// The bulb ellipse's scaled distance, computed exactly.
fn bulb_distance_at(x: usize, y: usize) -> (d: i64)
    requires
        x < 32,
        y < 32,
    ensures
        d == bulb_distance(x as int, y as int),
        0 <= d <= 81 * 256 + 100 * 441,
{
    let a: i64 = x as i64 - 16;
    let b: i64 = y as i64 - 11;
    assert(0 <= a * a <= 256 && 0 <= b * b <= 441) by (nonlinear_arith)
        requires
            -16 <= a <= 16,
            -11 <= b <= 21,
    ;
    assert(81 * a * a == 81 * (a * a) && 100 * b * b == 100 * (b * b)) by (nonlinear_arith);
    81 * (a * a) + 100 * (b * b)
}

/// Fills the bulb ellipse (at (6, 2), 20 by 18) with `fill`, and draws its
/// outline, a stroke of width 1.5, with `outline`.
fn paint_bulb(rgba: &mut [u8], fill: (u8, u8, u8), outline: (u8, u8, u8))
    requires
        old(rgba)@.len() == 4096,
    ensures
        final(rgba)@.len() == 4096,
        forall|k: int|
            0 <= k < 4096 ==> #[trigger] final(rgba)@[k] == if in_bulb_fill(pixel_x(k), pixel_y(k)) {
                channel(opaque(fill), k % 4)
            } else if in_bulb_outline(pixel_x(k), pixel_y(k)) {
                channel(opaque(outline), k % 4)
            } else {
                old(rgba)@[k]
            },
{
    let ghost start = old(rgba)@;
    let size: usize = ICON_SIZE as usize;
    let mut y: usize = 0;
    while y < size
        invariant
            size == 32,
            y <= 32,
            rgba@.len() == 4096,
            forall|k: int|
                0 <= k < 4096 ==> #[trigger] rgba@[k] == if pixel_y(k) < y && in_bulb_fill(
                    pixel_x(k),
                    pixel_y(k),
                ) {
                    channel(opaque(fill), k % 4)
                } else if pixel_y(k) < y && in_bulb_outline(pixel_x(k), pixel_y(k)) {
                    channel(opaque(outline), k % 4)
                } else {
                    start[k]
                },
        decreases 32 - y,
    {
        let mut x: usize = 0;
        while x < size
            invariant
                size == 32,
                y < 32,
                x <= 32,
                rgba@.len() == 4096,
                forall|k: int|
                    0 <= k < 4096 ==> #[trigger] rgba@[k] == if (pixel_y(k) < y || (pixel_y(k) == y
                        && pixel_x(k) < x)) && in_bulb_fill(pixel_x(k), pixel_y(k)) {
                        channel(opaque(fill), k % 4)
                    } else if (pixel_y(k) < y || (pixel_y(k) == y && pixel_x(k) < x))
                        && in_bulb_outline(pixel_x(k), pixel_y(k)) {
                        channel(opaque(outline), k % 4)
                    } else {
                        start[k]
                    },
            decreases 32 - x,
        {
            let d = bulb_distance_at(x, y);
            if 1444 * d <= 9922500 {
                set_pixel(rgba, x, y, fill.0, fill.1, fill.2, 255);
            } else if 1444 * d <= 13616100 {
                set_pixel(rgba, x, y, outline.0, outline.1, outline.2, 255);
            }
            x = x + 1;
            assert forall|k: int| 0 <= k < 4096 implies #[trigger] rgba@[k] == if (pixel_y(k) < y || (
            pixel_y(k) == y && pixel_x(k) < x)) && in_bulb_fill(pixel_x(k), pixel_y(k)) {
                channel(opaque(fill), k % 4)
            } else if (pixel_y(k) < y || (pixel_y(k) == y && pixel_x(k) < x)) && in_bulb_outline(
                pixel_x(k),
                pixel_y(k),
            ) {
                channel(opaque(outline), k % 4)
            } else {
                start[k]
            } by {
                lemma_pixel_coordinates(k, (x - 1) as int, y as int);
            }
        }
        y = y + 1;
    }
}

/// Fills the trapezoid base with `color`.
fn paint_base(rgba: &mut [u8], color: (u8, u8, u8))
    requires
        old(rgba)@.len() == 4096,
    ensures
        final(rgba)@.len() == 4096,
        forall|k: int|
            0 <= k < 4096 ==> #[trigger] final(rgba)@[k] == if in_base(pixel_x(k), pixel_y(k)) {
                channel(opaque(color), k % 4)
            } else {
                old(rgba)@[k]
            },
{
    let ghost start = old(rgba)@;
    let size: usize = ICON_SIZE as usize;
    let mut y: usize = 19;
    while y <= 24
        invariant
            size == 32,
            19 <= y <= 25,
            rgba@.len() == 4096,
            forall|k: int|
                0 <= k < 4096 ==> #[trigger] rgba@[k] == if pixel_y(k) < y && in_base(
                    pixel_x(k),
                    pixel_y(k),
                ) {
                    channel(opaque(color), k % 4)
                } else {
                    start[k]
                },
        decreases 25 - y,
    {
        let t: usize = y - 19;
        let mut x: usize = 0;
        while x < size
            invariant
                size == 32,
                19 <= y <= 24,
                t == y - 19,
                x <= 32,
                rgba@.len() == 4096,
                forall|k: int|
                    0 <= k < 4096 ==> #[trigger] rgba@[k] == if (pixel_y(k) < y || (pixel_y(k) == y
                        && pixel_x(k) < x)) && in_base(pixel_x(k), pixel_y(k)) {
                        channel(opaque(color), k % 4)
                    } else {
                        start[k]
                    },
            decreases 32 - x,
        {
            if 10 * x >= 95 + 4 * t && 10 * x <= 225 - 4 * t {
                set_pixel(rgba, x, y, color.0, color.1, color.2, 255);
            }
            x = x + 1;
            assert forall|k: int| 0 <= k < 4096 implies #[trigger] rgba@[k] == if (pixel_y(k) < y || (
            pixel_y(k) == y && pixel_x(k) < x)) && in_base(pixel_x(k), pixel_y(k)) {
                channel(opaque(color), k % 4)
            } else {
                start[k]
            } by {
                lemma_pixel_coordinates(k, (x - 1) as int, y as int);
            }
        }
        y = y + 1;
    }
    assert forall|k: int| 0 <= k < 4096 implies #[trigger] rgba@[k] == if in_base(
        pixel_x(k),
        pixel_y(k),
    ) {
        channel(opaque(color), k % 4)
    } else {
        start[k]
    } by {
        if in_base(pixel_x(k), pixel_y(k)) {
            assert(pixel_y(k) < 25);
        }
    }
}

/// Renders the 32x32 RGBA tray icon: a light bulb, yellow with a glow when the
/// light is on, grey when it is off (lighter grey in dark mode).
pub fn render_lightbulb_icon(on: bool, dark_mode: bool) -> (rgba: Vec<u8>)
    ensures
        rgba@.len() == ICON_SIZE * ICON_SIZE * 4,
        forall|k: int|
            0 <= k < rgba@.len() ==> #[trigger] rgba@[k] == channel(
                icon_pixel(on, dark_mode, pixel_x(k), pixel_y(k)),
                k % 4,
            ),
{
    let size = ICON_SIZE as usize;
    let mut rgba: Vec<u8> = Vec::with_capacity(size * size * 4);
    while rgba.len() < size * size * 4
        invariant
            size == 32,
            rgba@.len() <= 4096,
            forall|k: int| 0 <= k < rgba@.len() ==> #[trigger] rgba@[k] == 0,
        decreases 4096 - rgba@.len(),
    {
        rgba.push(0);
    }

    let bulb = if on {
        (255u8, 220u8, 80u8)
    } else if dark_mode {
        (200u8, 200u8, 200u8)
    } else {
        (128u8, 128u8, 128u8)
    };
    let outline = if on {
        (200u8, 160u8, 40u8)
    } else if dark_mode {
        (150u8, 150u8, 150u8)
    } else {
        (80u8, 80u8, 80u8)
    };
    let base = if on {
        (180u8, 180u8, 180u8)
    } else {
        (100u8, 100u8, 100u8)
    };
    let base_dark = darken(base.0, base.1, base.2, 120);

    // Glow (only when on)
    if on {
        paint_glow(rgba.as_mut_slice());
    }
    let ghost after_glow = rgba@;
    assert forall|k: int| 0 <= k < 4096 implies #[trigger] after_glow[k] == channel(
        glow_pixel(on, pixel_x(k), pixel_y(k)),
        k % 4,
    ) by {}

    // Bulb and its outline
    paint_bulb(rgba.as_mut_slice(), bulb, outline);

    // Base
    paint_base(rgba.as_mut_slice(), base);

    // Screw threads
    draw_rect_outline(rgba.as_mut_slice(), 12, 24, 8, 2, base_dark.0, base_dark.1, base_dark.2);
    draw_rect_outline(rgba.as_mut_slice(), 13, 26, 6, 2, base_dark.0, base_dark.1, base_dark.2);
    draw_rect_outline(rgba.as_mut_slice(), 14, 28, 4, 2, base_dark.0, base_dark.1, base_dark.2);

    assert forall|k: int| 0 <= k < 4096 implies #[trigger] rgba@[k] == channel(
        icon_pixel(on, dark_mode, pixel_x(k), pixel_y(k)),
        k % 4,
    ) by {
        assert(pixel_in_buffer(k, 4096));
    }
    rgba
}

/// Painting is "source over": an opaque paint replaces the pixel with the
/// paint's colour; any paint over a transparent pixel leaves exactly the paint
/// (its colour at its alpha); a fully transparent paint changes nothing.
pub proof fn lemma_blend_laws(old: Rgba, r: u8, g: u8, b: u8, a: u8)
    ensures
        blended(old, r, g, b, 255) == (r, g, b, 255u8),
        a > 0 && old.3 == 0 ==> blended(old, r, g, b, a) == (r, g, b, a),
        blended(old, r, g, b, 0) == old,
{
    assert(old.3 as int * 0 / 255 == 0);
    assert(blend_alpha(255, old.3 as int) == 255);
    assert(blend_channel(r as int, old.0 as int, 255, old.3 as int) == r) by {
        assert(old.0 as int * 0 * old.3 as int == 0) by (nonlinear_arith);
        assert(r as int * 255 / 255 == r) by (nonlinear_arith);
    }
    assert(blend_channel(g as int, old.1 as int, 255, old.3 as int) == g) by {
        assert(old.1 as int * 0 * old.3 as int == 0) by (nonlinear_arith);
        assert(g as int * 255 / 255 == g) by (nonlinear_arith);
    }
    assert(blend_channel(b as int, old.2 as int, 255, old.3 as int) == b) by {
        assert(old.2 as int * 0 * old.3 as int == 0) by (nonlinear_arith);
        assert(b as int * 255 / 255 == b) by (nonlinear_arith);
    }
    if a > 0 && old.3 == 0 {
        assert(old.0 as int * (255 - a) * 0 == 0 && old.1 as int * (255 - a) * 0 == 0
            && old.2 as int * (255 - a) * 0 == 0) by (nonlinear_arith);
        lemma_blend_onto_clear(r as int, a as int);
        lemma_blend_onto_clear(g as int, a as int);
        lemma_blend_onto_clear(b as int, a as int);
    }
}

/// Darkening by a factor of at least 100 never brightens a channel, and
/// (below the cap) gives the integer nearest to `100 * c / factor`:
/// `factor * (2r - 1) <= 200 c < factor * (2r + 1)`.
pub proof fn lemma_darkened(c: int, factor: int)
    requires
        0 <= c <= 255,
        factor >= 100,
    ensures
        darkened(c, factor) <= c,
        factor * (2 * darkened(c, factor) - 1) <= 200 * c,
        200 * c < factor * (2 * darkened(c, factor) + 1),
{
    let v = (200 * c + factor) / (2 * factor);
    assert(2 * factor * v <= 200 * c + factor < 2 * factor * v + 2 * factor) by (nonlinear_arith)
        requires
            factor > 0,
            v == (200 * c + factor) / (2 * factor),
    ;
    assert(v <= c) by (nonlinear_arith)
        requires
            2 * factor * v <= 200 * c + factor,
            factor >= 100,
            0 <= c,
    ;
    assert(v >= 0) by (nonlinear_arith)
        requires
            factor > 0,
            0 <= c,
            v == (200 * c + factor) / (2 * factor),
    ;
    assert(darkened(c, factor) == v);
    assert(factor * (2 * v - 1) <= 200 * c && 200 * c < factor * (2 * v + 1)) by (nonlinear_arith)
        requires
            2 * factor * v <= 200 * c + factor,
            200 * c + factor < 2 * factor * v + 2 * factor,
    ;
}

/// Converting to ARGB moves each pixel's alpha to the front: the first byte of
/// a pixel comes from its alpha, the others from red, green and blue in turn,
/// always within the same pixel.
pub proof fn lemma_argb_source(p: int)
    requires
        p >= 0,
    ensures
        argb_source(4 * p) == 4 * p + 3,
        argb_source(4 * p + 1) == 4 * p,
        argb_source(4 * p + 2) == 4 * p + 1,
        argb_source(4 * p + 3) == 4 * p + 2,
{
}

} // verus!
