//! The cubic voxel grid: coordinates, centring and the row-major pixel layout.
use vstd::prelude::*;

verus! {

/// One cell of the `side × side × side` grid.
#[derive(Clone, Copy, Debug, PartialEq, Eq, Structural)]
pub struct Voxel {
    pub x: usize,
    pub y: usize,
    pub z: usize,
}

/// A voxel's signed distance from the grid centre, in cells, on each axis.
#[derive(Clone, Copy, Debug, PartialEq, Eq, Structural)]
pub struct Offset {
    pub dx: i64,
    pub dy: i64,
    pub dz: i64,
}

impl Voxel {
    /// The voxel lies inside a grid of the given side.
    pub open spec fn in_grid(self, side: int) -> bool {
        self.x < side && self.y < side && self.z < side
    }
}

/// The signed distance of coordinate `v` from the centre `side / 2`
/// (integer division: an odd side puts the centre on the lower cell).
pub open spec fn axis_offset_of(v: int, side: int) -> int {
    v - side / 2
}

/// Half of the grid side, rounded down.
pub fn half_side(side: usize) -> (r: usize)
    ensures
        r == side / 2,
{
    side / 2
}

/// The distance of coordinate `v` from the grid centre.
pub fn axis_offset(v: usize, side: usize) -> (r: i64)
    requires
        v < side,
        side <= i64::MAX,
    ensures
        r == axis_offset_of(v as int, side as int),
{
    v as i64 - (side / 2) as i64
}

/// The distance of a voxel from the grid centre on all three axes; the
/// normalised sample point is this offset divided by the half side.
pub fn center_offset(voxel: Voxel, side: usize) -> (r: Offset)
    requires
        voxel.in_grid(side as int),
        side <= i64::MAX,
    ensures
        r.dx == axis_offset_of(voxel.x as int, side as int),
        r.dy == axis_offset_of(voxel.y as int, side as int),
        r.dz == axis_offset_of(voxel.z as int, side as int),
{
    Offset {
        dx: axis_offset(voxel.x, side),
        dy: axis_offset(voxel.y, side),
        dz: axis_offset(voxel.z, side),
    }
}

/// The voxel at `(side / 2, side / 2, side / 2)` sits exactly at the centre:
/// its offset is zero on every axis, so with no rotation it samples the origin.
pub proof fn lemma_center_voxel_is_origin(side: usize)
    requires
        side > 0,
    ensures
        axis_offset_of((side / 2) as int, side as int) == 0,
        (Voxel { x: side / 2, y: side / 2, z: side / 2 }).in_grid(side as int),
{
}

/// Position of pixel `(x, y)` in a row-major buffer.
pub open spec fn pixel_index_of(x: int, y: int, side: int) -> int {
    y * side + x
}

/// Row-major indexing is a bijection between the `side × side` pixels and
/// the positions `0 .. side * side`.
pub proof fn lemma_pixel_index(x: int, y: int, side: int)
    requires
        0 <= x < side,
        0 <= y < side,
    ensures
        0 <= pixel_index_of(x, y, side) < side * side,
        pixel_index_of(x, y, side) % side == x,
        pixel_index_of(x, y, side) / side == y,
{
    assert(0 <= y * side + x < side * side) by (nonlinear_arith)
        requires
            0 <= x < side,
            0 <= y < side,
    ;
    vstd::arithmetic::div_mod::lemma_fundamental_div_mod_converse(y * side + x, side, y, x);
}

/// Position of pixel `(x, y)` in a row-major `side × side` buffer.
pub fn pixel_index(x: usize, y: usize, side: usize) -> (r: usize)
    requires
        x < side,
        y < side,
        side * side <= usize::MAX,
    ensures
        r == pixel_index_of(x as int, y as int, side as int),
        r < side * side,
{
    proof {
        lemma_pixel_index(x as int, y as int, side as int);
    }
    y * side + x
}

} // verus!
