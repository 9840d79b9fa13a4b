use ash_voxels::assets::{
    chunk_dimensions, chunk_voxel_count, empty_chunk_occupancy, flatten_leaf_index,
    flatten_region_index, occupancy_bit_is_set, occupancy_word_and_mask, region_dimensions,
    region_grid_dimensions, region_leaf_word_offset, region_mask_bit_is_set, set_occupancy_bit,
    UVec3, VoxelModel, CHUNK_OCCUPANCY_WORD_COUNT, LEAF_MASK_WORD_OFFSET, MASK_WORD_COUNT,
    REGION_COUNT,
};

#[test]
fn empty_chunk_storage_matches_fixed_layout() {
    let occupancy = empty_chunk_occupancy();

    assert_eq!(occupancy.len(), CHUNK_OCCUPANCY_WORD_COUNT);
    assert!(occupancy.iter().all(|word| *word == 0));
}

#[test]
fn setting_one_voxel_marks_one_region_and_one_leaf_bit() {
    let mut occupancy = empty_chunk_occupancy();
    let voxel = UVec3::new(9, 2, 17);

    set_occupancy_bit(&mut occupancy, voxel);

    let region_index = flatten_region_index(UVec3::new(1, 0, 2));
    assert!(region_mask_bit_is_set(&occupancy, region_index));
    assert_eq!(
        occupancy[..MASK_WORD_COUNT]
            .iter()
            .filter(|word| **word != 0)
            .count(),
        1
    );
    assert!(occupancy_bit_is_set(&occupancy, voxel));
    assert_eq!(
        occupancy[region_leaf_word_offset(region_index)
            ..region_leaf_word_offset(region_index) + MASK_WORD_COUNT]
            .iter()
            .filter(|word| **word != 0)
            .count(),
        1
    );
}

#[test]
fn voxels_in_same_region_share_region_mask_but_use_distinct_leaf_bits() {
    let mut occupancy = empty_chunk_occupancy();
    let first = UVec3::new(8, 8, 8);
    let second = UVec3::new(15, 15, 15);

    set_occupancy_bit(&mut occupancy, first);
    set_occupancy_bit(&mut occupancy, second);

    let region_index = flatten_region_index(UVec3::new(1, 1, 1));
    assert!(region_mask_bit_is_set(&occupancy, region_index));
    assert!(occupancy_bit_is_set(&occupancy, first));
    assert!(occupancy_bit_is_set(&occupancy, second));
    assert_eq!(
        occupancy[..MASK_WORD_COUNT]
            .iter()
            .filter(|word| **word != 0)
            .count(),
        1
    );
    assert_ne!(
        flatten_leaf_index(UVec3::new(first.x & 7, first.y & 7, first.z & 7)),
        flatten_leaf_index(UVec3::new(second.x & 7, second.y & 7, second.z & 7))
    );
}

#[test]
fn voxels_in_different_regions_use_distinct_region_and_leaf_offsets() {
    let mut occupancy = empty_chunk_occupancy();
    let first = UVec3::new(0, 0, 0);
    let second = UVec3::new(63, 63, 63);

    set_occupancy_bit(&mut occupancy, first);
    set_occupancy_bit(&mut occupancy, second);

    let first_region = flatten_region_index(UVec3::new(0, 0, 0));
    let second_region = flatten_region_index(UVec3::new(7, 7, 7));
    assert_ne!(first_region, second_region);
    assert_ne!(
        region_leaf_word_offset(first_region),
        region_leaf_word_offset(second_region)
    );
    assert!(occupancy_bit_is_set(&occupancy, first));
    assert!(occupancy_bit_is_set(&occupancy, second));
    assert_eq!(
        occupancy[..MASK_WORD_COUNT]
            .iter()
            .filter(|word| **word != 0)
            .count(),
        2
    );
}

#[test]
fn empty_chunk_model_uses_fixed_chunk_dimensions() {
    let model = VoxelModel::empty_chunk();

    assert_eq!(model.dimensions, chunk_dimensions());
    assert_eq!(model.occupancy_word_count(), CHUNK_OCCUPANCY_WORD_COUNT);
    assert_eq!(model.voxel_count(), 64 * 64 * 64);
    assert_eq!(REGION_COUNT, 512);
}

#[test]
fn layout_constants_have_expected_values() {
    assert_eq!(CHUNK_OCCUPANCY_WORD_COUNT, 8208);
    assert_eq!(LEAF_MASK_WORD_OFFSET, 16);
    assert_eq!(chunk_voxel_count(), 262_144);
    assert_eq!(chunk_dimensions(), UVec3::new(64, 64, 64));
    assert_eq!(region_dimensions(), UVec3::new(8, 8, 8));
    assert_eq!(region_grid_dimensions(), UVec3::new(8, 8, 8));
}

#[test]
fn flatten_indices_are_row_major() {
    assert_eq!(flatten_region_index(UVec3::new(1, 0, 2)), 129);
    assert_eq!(flatten_region_index(UVec3::new(7, 7, 7)), 511);
    assert_eq!(flatten_leaf_index(UVec3::new(3, 2, 1)), 3 + 8 * (2 + 8 * 1));
    assert_eq!(flatten_leaf_index(UVec3::new(0, 0, 0)), 0);
}

#[test]
fn word_and_mask_split_a_flat_bit_index() {
    assert_eq!(occupancy_word_and_mask(0), (0, 1));
    assert_eq!(occupancy_word_and_mask(31), (0, 1 << 31));
    assert_eq!(occupancy_word_and_mask(32), (1, 1));
    assert_eq!(occupancy_word_and_mask(129), (4, 1 << 1));
}

#[test]
fn region_leaf_words_follow_the_region_mask() {
    assert_eq!(region_leaf_word_offset(0), 16);
    assert_eq!(region_leaf_word_offset(1), 32);
    assert_eq!(region_leaf_word_offset(511), 16 + 511 * 16);
}

#[test]
fn setting_a_voxel_writes_the_exact_words() {
    let mut occupancy = empty_chunk_occupancy();
    set_occupancy_bit(&mut occupancy, UVec3::new(9, 2, 17));
    // region 129: word 4, bit 1; leaf (1, 2, 1) = 81: word 16 + 129 * 16 + 2, bit 17
    assert_eq!(occupancy[4], 1 << 1);
    assert_eq!(occupancy[16 + 129 * 16 + 2], 1 << 17);
    assert_eq!(occupancy.iter().filter(|word| **word != 0).count(), 2);
}

#[test]
fn setting_a_voxel_twice_changes_nothing_more() {
    let mut once = empty_chunk_occupancy();
    set_occupancy_bit(&mut once, UVec3::new(40, 5, 63));
    let mut twice = once.clone();
    set_occupancy_bit(&mut twice, UVec3::new(40, 5, 63));
    assert_eq!(once, twice);
}

#[test]
fn marking_order_does_not_matter() {
    let a = UVec3::new(1, 2, 3);
    let b = UVec3::new(4, 50, 60);
    let mut ab = empty_chunk_occupancy();
    set_occupancy_bit(&mut ab, a);
    set_occupancy_bit(&mut ab, b);
    let mut ba = empty_chunk_occupancy();
    set_occupancy_bit(&mut ba, b);
    set_occupancy_bit(&mut ba, a);
    assert_eq!(ab, ba);
}

#[test]
fn marking_adds_only_the_marked_voxel() {
    let mut occupancy = empty_chunk_occupancy();
    let marked = UVec3::new(12, 34, 56);
    set_occupancy_bit(&mut occupancy, marked);
    let mut occupied = Vec::new();
    for z in 0..64 {
        for y in 0..64 {
            for x in 0..64 {
                let p = UVec3::new(x, y, z);
                if occupancy_bit_is_set(&occupancy, p) {
                    occupied.push(p);
                }
            }
        }
    }
    assert_eq!(occupied, vec![marked]);
}

#[test]
fn lookup_in_an_empty_region_reads_only_the_region_mask() {
    let occupancy = vec![0u32; MASK_WORD_COUNT];
    assert!(!occupancy_bit_is_set(&occupancy, UVec3::new(63, 63, 63)));
}

#[test]
fn model_sizes_follow_its_occupancy() {
    let model = VoxelModel::empty_chunk();
    assert_eq!(model.occupancy_size_bytes(), CHUNK_OCCUPANCY_WORD_COUNT * 4);
}

#[test]
fn region_mask_marks_exactly_the_regions_with_voxels() {
    let mut occupancy = empty_chunk_occupancy();
    for p in [UVec3::new(0, 0, 0), UVec3::new(9, 2, 17), UVec3::new(63, 0, 63), UVec3::new(10, 3, 18)] {
        set_occupancy_bit(&mut occupancy, p);
    }
    for region in 0..REGION_COUNT {
        let offset = region_leaf_word_offset(region);
        let has_leaf = occupancy[offset..offset + MASK_WORD_COUNT].iter().any(|w| *w != 0);
        assert_eq!(region_mask_bit_is_set(&occupancy, region), has_leaf, "region {region}");
    }
}

#[test]
fn word_and_mask_give_the_index_back() {
    let mut seen = std::collections::HashSet::new();
    for index in 0..1024usize {
        let (word, mask) = occupancy_word_and_mask(index);
        assert_eq!(mask.count_ones(), 1);
        assert_eq!(mask & (mask - 1), 0);
        assert_eq!(word * 32 + mask.trailing_zeros() as usize, index);
        assert!(seen.insert((word, mask)));
    }
}
