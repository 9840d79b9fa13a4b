//! Layout of the procedural terrain: chunk extent, grid of chunks, and the
//! compute dispatch that fills their voxels.
use vstd::prelude::*;
use crate::assets::UVec3;

verus! {

/// Voxels along each axis of a terrain chunk.
pub const TERRAIN_CHUNK_SIDE: u32 = 64;

/// Chunks along each horizontal side of the terrain grid.
pub const TERRAIN_GRID_SIDE: usize = 12;

/// Chunks in the terrain grid.
pub const TERRAIN_GRID_COUNT: usize = TERRAIN_GRID_SIDE * TERRAIN_GRID_SIDE;

/// The voxel extent of a terrain chunk.
pub fn terrain_chunk_dimensions() -> (r: UVec3)
    ensures
        r.x == TERRAIN_CHUNK_SIDE && r.y == TERRAIN_CHUNK_SIDE && r.z == TERRAIN_CHUNK_SIDE,
{
    UVec3::new(TERRAIN_CHUNK_SIDE, TERRAIN_CHUNK_SIDE, TERRAIN_CHUNK_SIDE)
}

/// The quotient of `x` by `d`, rounded up.
pub open spec fn ceil_div(x: int, d: int) -> int {
    (x + d - 1) / d
}

pub(crate) proof fn lemma_ceil_div(x: int, d: int)
    by (nonlinear_arith)
    requires
        d > 0,
        x >= 0,
    ensures
        ceil_div(x, d) == x / d + (if x % d != 0 { 1int } else { 0int }),
        x % d != 0 ==> d >= 2 && x / d < x,
{
    let q = x / d;
    let m = x % d;
    assert(x == q * d + m);
    assert(0 <= m < d);
    assert(x + d - 1 == q * d + (m + d - 1));
    if m == 0 {
        assert((q * d + (d - 1)) / d == q);
    } else {
        assert(d <= m + d - 1 < 2 * d);
        assert((q * d + (m + d - 1)) / d == q + 1);
    }
}

/// `x` divided by `d`, rounded up, as `u32::div_ceil` computes it.
pub fn div_ceil_u32(x: u32, d: u32) -> (r: u32)
    requires
        d > 0,
    ensures
        r == ceil_div(x as int, d as int),
{
    let q = x / d;
    proof {
        lemma_ceil_div(x as int, d as int);
    }
    if x % d != 0 {
        q + 1
    } else {
        q
    }
}

/// The workgroup counts of the terrain generation dispatch: workgroups of
/// 8x4x8 threads over a volume that stacks every grid chunk along z.
pub fn terrain_dispatch_group_counts(dimensions: UVec3) -> (r: [u32; 3])
    requires
        dimensions.z * TERRAIN_GRID_COUNT <= u32::MAX,
    ensures
        r[0] == ceil_div(dimensions.x as int, 8),
        r[1] == ceil_div(dimensions.y as int, 4),
        r[2] == ceil_div(dimensions.z * TERRAIN_GRID_COUNT, 8),
{
    let group_count_x = div_ceil_u32(dimensions.x, 8);
    let group_count_y = div_ceil_u32(dimensions.y, 4);
    let total_depth = dimensions.z * TERRAIN_GRID_COUNT as u32;
    let group_count_z = div_ceil_u32(total_depth, 8);
    [group_count_x, group_count_y, group_count_z]
}

/// Workgroups of `size` threads, `ceil_div(extent, size)` of them, cover the
/// whole extent with less than one workgroup to spare.
pub proof fn lemma_dispatch_covers_extent(extent: int, size: int)
    by (nonlinear_arith)
    requires
        extent >= 0,
        size > 0,
    ensures
        extent <= ceil_div(extent, size) * size < extent + size,
{
    lemma_ceil_div(extent, size);
    let q = extent / size;
    let m = extent % size;
    assert(extent == q * size + m);
    if m == 0 {
        assert(ceil_div(extent, size) * size == q * size);
    } else {
        assert(ceil_div(extent, size) * size == (q + 1) * size);
    }
}

} // verus!
