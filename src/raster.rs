//! Collapsing the voxel cube into a row-major 8-bit intensity buffer.
use crate::grid::{lemma_pixel_index, pixel_index, pixel_index_of, Voxel};
use crate::scan::{column_outcomes, first_bounded, is_probe, scan_column};
use vstd::prelude::*;

verus! {

/// A scaled level clamped into the byte range.
pub open spec fn clamp_level(level: int) -> u8 {
    if level < 0 {
        0
    } else if level > 255 {
        255
    } else {
        level as u8
    }
}

/// The intensity of a column: its clamped level when a depth is bounded,
/// white (255) when every depth escapes.
pub open spec fn intensity_of(result: Option<i64>) -> u8 {
    match result {
        Some(level) => clamp_level(level as int),
        None => 255,
    }
}

/// Maps a column's scan result to an 8-bit intensity.
pub fn intensity(result: Option<i64>) -> (r: u8)
    ensures
        r == intensity_of(result),
{
    match result {
        Some(level) => {
            if level < 0 {
                0
            } else if level > 255 {
                255
            } else {
                level as u8
            }
        },
        None => 255,
    }
}

/// The intensity of pixel `(x, y)`.
pub open spec fn pixel_value<F: Fn(Voxel) -> Option<i64>>(
    probe: F,
    side: int,
    x: usize,
    y: usize,
) -> u8 {
    intensity_of(first_bounded(column_outcomes(probe, x, y, side)))
}

/// `pixels` is the complete picture of the cube under `probe`: pixel `(x, y)`
/// stands at `y * side + x` and holds the intensity of its column.
pub open spec fn is_rendering<F: Fn(Voxel) -> Option<i64>>(
    probe: F,
    side: int,
    pixels: Seq<u8>,
) -> bool {
    &&& pixels.len() == side * side
    &&& forall|x: usize, y: usize|
        x < side && y < side ==> pixels[#[trigger] pixel_index_of(x as int, y as int, side)]
            == pixel_value(probe, side, x, y)
}

/// Rendering is deterministic: two buffers that both render the same cube
/// under the same probe are byte for byte equal.
pub proof fn lemma_render_deterministic<F: Fn(Voxel) -> Option<i64>>(
    probe: F,
    side: usize,
    a: Seq<u8>,
    b: Seq<u8>,
)
    requires
        is_rendering(probe, side as int, a),
        is_rendering(probe, side as int, b),
    ensures
        a == b,
{
    let s = side as int;
    assert forall|i: int| 0 <= i < a.len() implies a[i] == b[i] by {
        let x = i % s;
        let y = i / s;
        assert(s > 0 && 0 <= x < s && 0 <= y < s && i == y * s + x) by (nonlinear_arith)
            requires
                0 <= i < s * s,
                s >= 0,
                x == i % s,
                y == i / s,
        {
            if s == 0 {
                assert(s * s == 0);
            }
            vstd::arithmetic::div_mod::lemma_fundamental_div_mod(i, s);
            vstd::arithmetic::div_mod::lemma_mod_pos_bound(i, s);
            vstd::arithmetic::div_mod::lemma_div_pos_is_pos(i, s);
            if y >= s {
                vstd::arithmetic::mul::lemma_mul_inequality(s, y, s);
            }
        }
        assert(a[pixel_index_of(x as usize as int, y as usize as int, s)] == b[pixel_index_of(
            x as usize as int,
            y as usize as int,
            s,
        )]);
    }
    assert(a =~= b);
}

/// Fills `pixels` with the picture of the cube: for each pixel, in row-major
/// order, the column is scanned front to back and its result mapped to an
/// intensity.
pub fn render<F: Fn(Voxel) -> Option<i64>>(pixels: &mut Vec<u8>, side: usize, probe: &F)
    requires
        old(pixels).len() == side * side,
        is_probe(*probe),
    ensures
        is_rendering(*probe, side as int, final(pixels)@),
{
    let ghost n = side * side;
    let mut y: usize = 0;
    while y < side
        invariant
            y <= side,
            pixels.len() == n,
            n == side * side,
            is_probe(*probe),
            forall|i: int|
                0 <= i < y * side ==> #[trigger] pixels@[i] == pixel_value(
                    *probe,
                    side as int,
                    (i % side as int) as usize,
                    (i / side as int) as usize,
                ),
        decreases side - y,
    {
        let mut x: usize = 0;
        while x < side
            invariant
                x <= side,
                y < side,
                pixels.len() == n,
                n == side * side,
                is_probe(*probe),
                forall|i: int|
                    0 <= i < y * side + x ==> #[trigger] pixels@[i] == pixel_value(
                        *probe,
                        side as int,
                        (i % side as int) as usize,
                        (i / side as int) as usize,
                    ),
            decreases side - x,
        {
            let result = scan_column(probe, x, y, side);
            let idx = pixel_index(x, y, side);
            proof {
                lemma_pixel_index(x as int, y as int, side as int);
            }
            pixels.set(idx, intensity(result));
            x = x + 1;
        }
        assert((y + 1) * side == y * side + side) by (nonlinear_arith);
        y = y + 1;
    }
    proof {
        assert forall|x: usize, y: usize| x < side && y < side implies pixels@[
            #[trigger] pixel_index_of(x as int, y as int, side as int)
        ] == pixel_value(*probe, side as int, x, y) by {
            lemma_pixel_index(x as int, y as int, side as int);
        }
    }
}

} // verus!
