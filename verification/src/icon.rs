//! The tray icon: a 32x32 teal circle on transparent background.

use vstd::prelude::*;

verus! {

/// Width and height of the icon.
pub const ICON_SIZE: u32 = 32;

/// The square of twice the distance from the middle of a pixel to the middle of the icon.
pub open spec fn double_distance_squared(x: int, y: int) -> int {
    (2 * x - 31) * (2 * x - 31) + (2 * y - 31) * (2 * y - 31)
}

/// Whether a pixel at distance `d` with `d2 == (2 * d) * (2 * d)` lies so far inside the
/// circle of radius 14.5 that `(14.5 - d) * 255` is `alpha` or more.
pub open spec fn as_opaque(d2: int, alpha: int) -> bool {
    65025 * d2 <= (7395 - 2 * alpha) * (7395 - 2 * alpha)
}

/// The greatest alpha value up to `most` that a pixel is as opaque as.
pub open spec fn edge_alpha(d2: int, most: nat) -> nat
    decreases most,
{
    if most == 0 || as_opaque(d2, most as int) {
        most
    } else {
        edge_alpha(d2, (most - 1) as nat)
    }
}

/// Red, green, blue and alpha of a pixel: teal (#1CC8D2) within 14.5 of the middle, with a
/// smooth edge over the outermost 1, and transparent beyond.
pub open spec fn pixel(x: int, y: int) -> Seq<u8> {
    let d2 = double_distance_squared(x, y);
    if d2 <= 29 * 29 {
        let alpha = if d2 > 27 * 27 {
            edge_alpha(d2, 255) as u8
        } else {
            255u8
        };
        seq![28u8, 200u8, 210u8, alpha]
    } else {
        seq![0u8, 0u8, 0u8, 0u8]
    }
}

/// The bytes of the first `count` pixels, row by row.
pub open spec fn pixel_bytes(count: nat) -> Seq<u8> {
    Seq::new(4 * count, |i: int| pixel((i / 4) % 32, (i / 4) / 32)[i % 4])
}

/// The greatest alpha value up to 255 that a pixel is as opaque as.
fn find_alpha(d2: i64) -> (alpha: u8)
    requires
        0 <= d2 <= 2000,
    ensures
        alpha == edge_alpha(d2 as int, 255),
{
    let mut alpha: u8 = 255;
    while alpha > 0
        invariant
            0 <= d2 <= 2000,
            edge_alpha(d2 as int, 255) == edge_alpha(d2 as int, alpha as nat),
        decreases alpha,
    {
        let rest: i64 = 7395 - 2 * (alpha as i64);
        assert(rest * rest <= 7395 * 7395) by (nonlinear_arith)
            requires
                0 <= rest <= 7395,
        ;
        if 65025 * d2 <= rest * rest {
            return alpha;
        }
        alpha = alpha - 1;
    }
    alpha
}

/// Generates a 32x32 RGBA image: a teal (#1CC8D2) filled circle.
pub fn generate_icon_rgba() -> (pixels: Vec<u8>)
    ensures
        pixels@ == pixel_bytes(32 * 32),
{
    let mut pixels: Vec<u8> = Vec::new();
    let mut count: u32 = 0;
    while count < 1024
        invariant
            count <= 1024,
            pixels@ == pixel_bytes(count as nat),
        decreases 1024 - count,
    {
        let x: i64 = (count % 32) as i64;
        let y: i64 = (count / 32) as i64;
        let dx: i64 = 2 * x - 31;
        let dy: i64 = 2 * y - 31;
        assert(0 <= dx * dx <= 961) by (nonlinear_arith)
            requires
                -31 <= dx <= 31,
        ;
        assert(0 <= dy * dy <= 961) by (nonlinear_arith)
            requires
                -31 <= dy <= 31,
        ;
        let d2: i64 = dx * dx + dy * dy;
        assert(d2 == double_distance_squared(x as int, y as int));
        let ghost before = pixels@;
        if d2 <= 841 {
            let alpha: u8 = if d2 > 729 {
                find_alpha(d2)
            } else {
                255
            };
            pixels.push(28);
            pixels.push(200);
            pixels.push(210);
            pixels.push(alpha);
        } else {
            pixels.push(0);
            pixels.push(0);
            pixels.push(0);
            pixels.push(0);
        }
        assert(pixels@ == before + pixel(x as int, y as int));
        assert(pixels@ == pixel_bytes((count + 1) as nat));
        count = count + 1;
    }
    pixels
}

/// The place in a pixel from which its `i`-th byte comes when alpha moves to the front.
pub open spec fn alpha_first(i: int) -> int {
    if i == 0 {
        3
    } else {
        i - 1
    }
}

/// Puts the alpha byte of each pixel before its colors, as ARGB32 big-endian has it. Bytes
/// that make no whole pixel at the end are left out.
pub fn rgba_to_argb(rgba: &Vec<u8>) -> (argb: Vec<u8>)
    ensures
        argb@ == Seq::new(
            4 * (rgba@.len() / 4),
            |i: int| rgba@[(i / 4) * 4 + alpha_first(i % 4)],
        ),
{
    let mut argb: Vec<u8> = Vec::new();
    let mut at: usize = 0;
    let len: usize = rgba.len();
    let whole: usize = len / 4;
    let mut done: usize = 0;
    while done < whole
        invariant
            len == rgba@.len(),
            whole == len / 4,
            done <= whole,
            at == 4 * done,
            argb@ == Seq::new(
                4 * done as nat,
                |i: int| rgba@[(i / 4) * 4 + alpha_first(i % 4)],
            ),
        decreases whole - done,
    {
        let ghost before = argb@;
        argb.push(rgba[at + 3]);
        argb.push(rgba[at]);
        argb.push(rgba[at + 1]);
        argb.push(rgba[at + 2]);
        at = at + 4;
        done = done + 1;
        assert(argb@ == Seq::new(
            4 * done as nat,
            |i: int| rgba@[(i / 4) * 4 + alpha_first(i % 4)],
        ));
    }
    argb
}

/// The icon looks the same when mirrored at its middle, left to right or top to bottom.
pub proof fn law_icon_is_symmetric(x: int, y: int)
    ensures
        pixel(31 - x, y) == pixel(x, y),
        pixel(x, 31 - y) == pixel(x, y),
{
    assert((2 * (31 - x) - 31) * (2 * (31 - x) - 31) == (2 * x - 31) * (2 * x - 31))
        by (nonlinear_arith);
    assert((2 * (31 - y) - 31) * (2 * (31 - y) - 31) == (2 * y - 31) * (2 * y - 31))
        by (nonlinear_arith);
}

/// The icon has 32 by 32 pixels, row by row, four bytes each. A pixel within 13.5 of the middle
/// is plain teal, one beyond 14.5 is transparent, and in between it is teal that fades: its
/// alpha is the greatest value up to 255 that stays within 255 times its distance to the edge.
pub proof fn law_icon_is_a_teal_circle(pixels: Vec<u8>, x: int, y: int)
    requires
        call_ensures(generate_icon_rgba, (), pixels),
        0 <= x < 32,
        0 <= y < 32,
    ensures
        pixels@.len() == 4_096,
        ({
            let at = (y * 32 + x) * 4;
            let d2 = (2 * x - 31) * (2 * x - 31) + (2 * y - 31) * (2 * y - 31);
            let alpha = pixels@[at + 3] as int;
            &&& d2 <= 841 ==> pixels@[at] == 28 && pixels@[at + 1] == 200 && pixels@[at + 2] == 210
            &&& d2 <= 729 ==> alpha == 255
            &&& 729 < d2 <= 841 ==> {
                &&& alpha > 0 ==> 65025 * d2 <= (7395 - 2 * alpha) * (7395 - 2 * alpha)
                &&& alpha < 255 ==> 65025 * d2 > (7395 - 2 * (alpha + 1)) * (7395 - 2 * (alpha
                    + 1))
            }
            &&& d2 > 841 ==> pixels@[at] == 0 && pixels@[at + 1] == 0 && pixels@[at + 2] == 0
                && alpha == 0
        }),
{
    let n = y * 32 + x;
    let d2 = double_distance_squared(x, y);
    assert(n % 32 == x && n / 32 == y);
    assert(0 <= n < 1024);
    let at = 4 * n;
    assert(pixels@[at] == pixel(x, y)[0]);
    assert(pixels@[at + 1] == pixel(x, y)[1]);
    assert(pixels@[at + 2] == pixel(x, y)[2]);
    assert(pixels@[at + 3] == pixel(x, y)[3]);
    lemma_edge(d2, 255);
}

/// The alpha at the edge is the greatest that the pixel is as opaque as.
proof fn lemma_edge(d2: int, most: nat)
    requires
        most <= 255,
    ensures
        edge_alpha(d2, most) <= most,
        edge_alpha(d2, most) > 0 ==> as_opaque(d2, edge_alpha(d2, most) as int),
        edge_alpha(d2, most) < most ==> !as_opaque(d2, edge_alpha(d2, most) as int + 1),
    decreases most,
{
    if most > 0 && !as_opaque(d2, most as int) {
        lemma_edge(d2, (most - 1) as nat);
    }
}

/// Each whole pixel keeps its place; its alpha comes first, and red, green and blue follow.
pub proof fn law_alpha_comes_first(rgba: Vec<u8>, argb: Vec<u8>, n: int)
    requires
        call_ensures(rgba_to_argb, (&rgba,), argb),
        0 <= n < rgba@.len() / 4,
    ensures
        argb@.len() == 4 * (rgba@.len() / 4),
        argb@[4 * n] == rgba@[4 * n + 3],
        argb@[4 * n + 1] == rgba@[4 * n],
        argb@[4 * n + 2] == rgba@[4 * n + 1],
        argb@[4 * n + 3] == rgba@[4 * n + 2],
{
}

} // verus!
