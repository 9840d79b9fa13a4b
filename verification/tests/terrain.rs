use ash_voxels::assets::UVec3;
use ash_voxels::terrain::{
    div_ceil_u32, terrain_chunk_dimensions, terrain_dispatch_group_counts, TERRAIN_GRID_COUNT,
};

#[test]
fn terrain_dispatch_covers_every_chunk() {
    assert_eq!(TERRAIN_GRID_COUNT, 144);
    assert_eq!(
        terrain_dispatch_group_counts(terrain_chunk_dimensions()),
        [8, 16, 64 * 144 / 8]
    );
    assert_eq!(terrain_dispatch_group_counts(UVec3::new(9, 5, 1)), [2, 2, 18]);
}

#[test]
fn div_ceil_rounds_up() {
    for (x, d) in [(0u32, 1u32), (1, 8), (8, 8), (9, 8), (u32::MAX, 2), (u32::MAX, u32::MAX)] {
        assert_eq!(div_ceil_u32(x, d), x.div_ceil(d));
    }
}

#[test]
fn dispatch_covers_the_volume_with_less_than_one_group_to_spare() {
    let [x, y, z] = terrain_dispatch_group_counts(UVec3::new(65, 3, 2));
    assert!(x * 8 >= 65 && x * 8 < 65 + 8);
    assert!(y * 4 >= 3 && y * 4 < 3 + 4);
    assert!(z * 8 >= 2 * 144 && z * 8 < 2 * 144 + 8);
}
