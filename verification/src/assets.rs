//! Fixed-layout voxel chunk storage.
//!
//! A chunk is a 64x64x64 block of voxels split into 512 regions of 8x8x8
//! voxels. Its occupancy is stored as `u32` words: the first
//! `MASK_WORD_COUNT` words hold one bit per region, and each region then owns
//! `MASK_WORD_COUNT` further words that hold one bit per voxel in the region.
use vstd::prelude::*;

verus! {

/// An unsigned position or extent on the three grid axes.
#[derive(Clone, Copy, Debug, PartialEq, Eq, Structural)]
pub struct UVec3 {
    pub x: u32,
    pub y: u32,
    pub z: u32,
}

impl UVec3 {
    pub fn new(x: u32, y: u32, z: u32) -> (r: Self)
        ensures
            r.x == x,
            r.y == y,
            r.z == z,
    {
        UVec3 { x, y, z }
    }
}

/// Voxels along each axis of a chunk.
pub const CHUNK_SIDE: u32 = 64;

/// Voxels along each axis of a region.
pub const REGION_SIDE: u32 = 8;

/// Regions along each axis of a chunk.
pub const REGION_GRID_SIDE: u32 = 8;

/// The voxel extent of a chunk.
pub fn chunk_dimensions() -> (r: UVec3)
    ensures
        r.x == CHUNK_SIDE && r.y == CHUNK_SIDE && r.z == CHUNK_SIDE,
{
    UVec3 { x: CHUNK_SIDE, y: CHUNK_SIDE, z: CHUNK_SIDE }
}

/// The voxel extent of a region.
pub fn region_dimensions() -> (r: UVec3)
    ensures
        r.x == REGION_SIDE && r.y == REGION_SIDE && r.z == REGION_SIDE,
{
    UVec3 { x: REGION_SIDE, y: REGION_SIDE, z: REGION_SIDE }
}

/// The number of regions along each axis of a chunk.
pub fn region_grid_dimensions() -> (r: UVec3)
    ensures
        r.x == REGION_GRID_SIDE && r.y == REGION_GRID_SIDE && r.z == REGION_GRID_SIDE,
{
    UVec3 { x: REGION_GRID_SIDE, y: REGION_GRID_SIDE, z: REGION_GRID_SIDE }
}

pub const REGION_COUNT: usize = 512;

pub const MASK_WORD_BITS: usize = 32;

pub const MASK_WORD_COUNT: usize = 16;

pub const LEAF_MASK_WORD_OFFSET: usize = MASK_WORD_COUNT;

pub const CHUNK_OCCUPANCY_WORD_COUNT: usize = MASK_WORD_COUNT + REGION_COUNT * MASK_WORD_COUNT;

/// Bit `bit` (counted from the least significant end) of `word`.
pub open spec fn word_bit(word: u32, bit: int) -> bool {
    (word >> (bit as u32)) & 1u32 == 1u32
}

/// Bit `bit` of word `word` of an occupancy buffer; false outside the buffer.
pub open spec fn bit_at(occupancy: Seq<u32>, word: int, bit: int) -> bool {
    &&& 0 <= word < occupancy.len()
    &&& 0 <= bit < 32
    &&& word_bit(occupancy[word], bit)
}

/// The bit with flat index `index` (word `index / 32`, bit `index % 32`).
pub open spec fn flat_bit(occupancy: Seq<u32>, index: int) -> bool {
    index >= 0 && bit_at(occupancy, index / 32, index % 32)
}

pub open spec fn in_chunk(p: UVec3) -> bool {
    p.x < 64 && p.y < 64 && p.z < 64
}

/// Row-major index of a cell in an 8x8x8 grid.
pub open spec fn grid_index(x: int, y: int, z: int) -> int {
    x + 8 * (y + 8 * z)
}

/// The region that holds voxel `p`.
pub open spec fn region_of(p: UVec3) -> int {
    grid_index((p.x / 8) as int, (p.y / 8) as int, (p.z / 8) as int)
}

/// The index of voxel `p` inside its region.
pub open spec fn leaf_of(p: UVec3) -> int {
    grid_index((p.x % 8) as int, (p.y % 8) as int, (p.z % 8) as int)
}

/// The word that holds the leaf bit `leaf` of region `region`.
pub open spec fn leaf_word(region: int, leaf: int) -> int {
    LEAF_MASK_WORD_OFFSET + region * MASK_WORD_COUNT + leaf / 32
}

pub open spec fn region_bit_set(occupancy: Seq<u32>, region: int) -> bool {
    bit_at(occupancy, region / 32, region % 32)
}

pub open spec fn leaf_bit_set(occupancy: Seq<u32>, region: int, leaf: int) -> bool {
    bit_at(occupancy, leaf_word(region, leaf), leaf % 32)
}

/// What a lookup of voxel `p` reports: its region bit and its leaf bit are set.
pub open spec fn voxel_occupied(occupancy: Seq<u32>, p: UVec3) -> bool {
    region_bit_set(occupancy, region_of(p)) && leaf_bit_set(occupancy, region_of(p), leaf_of(p))
}

/// A chunk buffer of the fixed length in which no leaf bit is set under a
/// clear region bit.
pub open spec fn occupancy_wf(occupancy: Seq<u32>) -> bool {
    &&& occupancy.len() == CHUNK_OCCUPANCY_WORD_COUNT
    &&& forall|r: int, l: int|
        0 <= r < 512 && 0 <= l < 512 && #[trigger] leaf_bit_set(occupancy, r, l)
            ==> region_bit_set(occupancy, r)
}

/// The set of voxels of the chunk that a lookup reports as occupied.
pub open spec fn occupied_voxels(occupancy: Seq<u32>) -> Set<UVec3> {
    Set::new(|p: UVec3| in_chunk(p) && voxel_occupied(occupancy, p))
}

proof fn lemma_or_bit(w: u32, s: u32, c: u32)
    by (bit_vector)
    requires
        s < 32,
        c < 32,
    ensures
        ((w | (1u32 << s)) >> c) & 1u32 == 1u32 <==> (((w >> c) & 1u32 == 1u32) || s == c),
{
}

proof fn lemma_and_mask(w: u32, s: u32)
    by (bit_vector)
    requires
        s < 32,
    ensures
        (w & (1u32 << s) != 0u32) <==> ((w >> s) & 1u32 == 1u32),
{
}

proof fn lemma_low_bits(x: u32)
    by (bit_vector)
    ensures
        x & 7u32 == x % 8,
{
}

proof fn lemma_zero_word(c: u32)
    by (bit_vector)
    requires
        c < 32,
    ensures
        (0u32 >> c) & 1u32 != 1u32,
{
}

pub fn chunk_voxel_count() -> (r: usize)
    ensures
        r == 64 * 64 * 64,
{
    CHUNK_SIDE as usize * CHUNK_SIDE as usize * CHUNK_SIDE as usize
}

pub fn empty_chunk_occupancy() -> (r: Vec<u32>)
    ensures
        r@.len() == CHUNK_OCCUPANCY_WORD_COUNT,
        forall|i: int| 0 <= i < r@.len() ==> r@[i] == 0,
        occupancy_wf(r@),
        occupied_voxels(r@) == Set::<UVec3>::empty(),
        region_mask_exact(r@),
{
    let mut r: Vec<u32> = Vec::new();
    let mut i: usize = 0;
    while i < CHUNK_OCCUPANCY_WORD_COUNT
        invariant
            i <= CHUNK_OCCUPANCY_WORD_COUNT,
            r@.len() == i,
            forall|j: int| 0 <= j < r@.len() ==> r@[j] == 0,
        decreases CHUNK_OCCUPANCY_WORD_COUNT - i,
    {
        r.push(0u32);
        i = i + 1;
    }
    proof {
        lemma_empty_has_no_bits(r@);
        lemma_empty_region_mask_exact(r@);
        assert(occupied_voxels(r@) =~= Set::<UVec3>::empty());
    }
    r
}

proof fn lemma_empty_has_no_bits(occupancy: Seq<u32>)
    requires
        forall|i: int| 0 <= i < occupancy.len() ==> occupancy[i] == 0,
    ensures
        forall|w: int, b: int| !#[trigger] bit_at(occupancy, w, b),
{
    assert forall|w: int, b: int| !#[trigger] bit_at(occupancy, w, b) by {
        if 0 <= w < occupancy.len() && 0 <= b < 32 {
            lemma_zero_word(b as u32);
        }
    }
}

pub fn flatten_region_index(region_position: UVec3) -> (r: usize)
    requires
        region_position.x < REGION_GRID_SIDE,
        region_position.y < REGION_GRID_SIDE,
        region_position.z < REGION_GRID_SIDE,
    ensures
        r == grid_index(region_position.x as int, region_position.y as int, region_position.z as int),
        r < REGION_COUNT,
{
    let side = REGION_GRID_SIDE as usize;
    assert(side == 8);
    region_position.x as usize + side * (region_position.y as usize + side
        * region_position.z as usize)
}

pub fn flatten_leaf_index(local_position: UVec3) -> (r: usize)
    requires
        local_position.x < REGION_SIDE,
        local_position.y < REGION_SIDE,
        local_position.z < REGION_SIDE,
    ensures
        r == grid_index(local_position.x as int, local_position.y as int, local_position.z as int),
        r < 512,
{
    let side = REGION_SIDE as usize;
    assert(side == 8);
    local_position.x as usize + side * (local_position.y as usize + side
        * local_position.z as usize)
}

pub fn occupancy_word_and_mask(index: usize) -> (r: (usize, u32))
    ensures
        r.0 == index / 32,
        r.1 == 1u32 << ((index % 32) as u32),
{
    let word_index = index / MASK_WORD_BITS;
    let bit_index = index % MASK_WORD_BITS;
    (word_index, 1u32 << (bit_index as u32))
}

pub fn region_leaf_word_offset(region_index: usize) -> (r: usize)
    requires
        region_index < REGION_COUNT,
    ensures
        r == LEAF_MASK_WORD_OFFSET + region_index * MASK_WORD_COUNT,
{
    LEAF_MASK_WORD_OFFSET + region_index * MASK_WORD_COUNT
}

pub fn region_mask_bit_is_set(occupancy: &[u32], region_index: usize) -> (r: bool)
    requires
        region_index / 32 < occupancy@.len(),
    ensures
        r == region_bit_set(occupancy@, region_index as int),
{
    let (word_index, bit_mask) = occupancy_word_and_mask(region_index);
    proof {
        lemma_and_mask(occupancy@[word_index as int], (region_index % 32) as u32);
    }
    occupancy[word_index] & bit_mask != 0
}

/// The buffer after voxel `p` is marked: its region bit and its leaf bit are
/// or-ed into their words, and every other word is unchanged.
pub open spec fn occupancy_with_voxel(occupancy: Seq<u32>, p: UVec3) -> Seq<u32> {
    let r = region_of(p);
    let l = leaf_of(p);
    let rw = r / 32;
    let lw = leaf_word(r, l);
    let marked = occupancy.update(rw, occupancy[rw] | (1u32 << ((r % 32) as u32)));
    marked.update(lw, marked[lw] | (1u32 << ((l % 32) as u32)))
}

proof fn lemma_position_split(p: UVec3)
    requires
        in_chunk(p),
    ensures
        0 <= region_of(p) < 512,
        0 <= leaf_of(p) < 512,
        region_of(p) / 32 < 16,
        16 <= leaf_word(region_of(p), leaf_of(p)) < CHUNK_OCCUPANCY_WORD_COUNT,
{
}

/// Voxels of a chunk are told apart by their region and their place in it.
pub proof fn lemma_region_and_leaf_identify_voxel(p: UVec3, q: UVec3)
    requires
        in_chunk(p),
        in_chunk(q),
        region_of(p) == region_of(q),
        leaf_of(p) == leaf_of(q),
    ensures
        p == q,
{
    lemma_grid_index_injective(
        (p.x / 8) as int, (p.y / 8) as int, (p.z / 8) as int,
        (q.x / 8) as int, (q.y / 8) as int, (q.z / 8) as int,
    );
    lemma_grid_index_injective(
        (p.x % 8) as int, (p.y % 8) as int, (p.z % 8) as int,
        (q.x % 8) as int, (q.y % 8) as int, (q.z % 8) as int,
    );
}

/// Row-major flattening of an 8x8x8 grid sends distinct cells to distinct
/// indices.
pub proof fn lemma_grid_index_injective(x1: int, y1: int, z1: int, x2: int, y2: int, z2: int)
    requires
        0 <= x1 < 8 && 0 <= y1 < 8 && 0 <= z1 < 8,
        0 <= x2 < 8 && 0 <= y2 < 8 && 0 <= z2 < 8,
        grid_index(x1, y1, z1) == grid_index(x2, y2, z2),
    ensures
        x1 == x2 && y1 == y2 && z1 == z2,
{
}

/// Row-major flattening of an 8x8x8 grid covers exactly the indices below 512.
pub proof fn lemma_grid_index_range(x: int, y: int, z: int)
    requires
        0 <= x < 8 && 0 <= y < 8 && 0 <= z < 8,
    ensures
        0 <= grid_index(x, y, z) < 512,
        grid_index(x, y, z) % 8 == x,
        (grid_index(x, y, z) / 8) % 8 == y,
        grid_index(x, y, z) / 64 == z,
{
}

/// The leaf words of two distinct regions do not overlap, and none of them
/// overlaps the region mask words.
pub proof fn lemma_leaf_words_disjoint(r1: int, l1: int, r2: int, l2: int)
    requires
        0 <= r1 < 512 && 0 <= l1 < 512,
        0 <= r2 < 512 && 0 <= l2 < 512,
        r1 != r2,
    ensures
        leaf_word(r1, l1) != leaf_word(r2, l2),
        MASK_WORD_COUNT <= leaf_word(r1, l1) < CHUNK_OCCUPANCY_WORD_COUNT,
{
}

pub fn occupancy_bit_is_set(occupancy: &[u32], position: UVec3) -> (r: bool)
    requires
        in_chunk(position),
        region_of(position) / 32 < occupancy@.len(),
        region_bit_set(occupancy@, region_of(position)) ==> leaf_word(
            region_of(position),
            leaf_of(position),
        ) < occupancy@.len(),
    ensures
        r == voxel_occupied(occupancy@, position),
{
    let region_position = UVec3::new(position.x / 8, position.y / 8, position.z / 8);
    let region_index = flatten_region_index(region_position);
    if !region_mask_bit_is_set(occupancy, region_index) {
        return false;
    }
    proof {
        lemma_low_bits(position.x);
        lemma_low_bits(position.y);
        lemma_low_bits(position.z);
    }
    let leaf_local = UVec3::new(position.x & 7, position.y & 7, position.z & 7);
    let leaf_index = flatten_leaf_index(leaf_local);
    let (word_index, bit_mask) = occupancy_word_and_mask(leaf_index);
    let w = region_leaf_word_offset(region_index) + word_index;
    proof {
        lemma_and_mask(occupancy@[w as int], (leaf_index % 32) as u32);
    }
    occupancy[w] & bit_mask != 0
}

pub fn set_occupancy_bit(occupancy: &mut [u32], position: UVec3)
    requires
        in_chunk(position),
        leaf_word(region_of(position), leaf_of(position)) < old(occupancy)@.len(),
    ensures
        final(occupancy)@ == occupancy_with_voxel(old(occupancy)@, position),
        final(occupancy)@.len() == old(occupancy)@.len(),
        forall|w: int, b: int|
            #[trigger] bit_at(final(occupancy)@, w, b) == (bit_at(old(occupancy)@, w, b) || (w
                == region_of(position) / 32 && b == region_of(position) % 32) || (w == leaf_word(
                region_of(position),
                leaf_of(position),
            ) && b == leaf_of(position) % 32)),
        voxel_occupied(final(occupancy)@, position),
{
    proof {
        lemma_position_split(position);
    }
    let region_position = UVec3::new(position.x / 8, position.y / 8, position.z / 8);
    let region_index = flatten_region_index(region_position);
    let (region_word_index, region_bit_mask) = occupancy_word_and_mask(region_index);
    occupancy[region_word_index] = occupancy[region_word_index] | region_bit_mask;

    proof {
        lemma_low_bits(position.x);
        lemma_low_bits(position.y);
        lemma_low_bits(position.z);
    }
    let leaf_local = UVec3::new(position.x & 7, position.y & 7, position.z & 7);
    let leaf_index = flatten_leaf_index(leaf_local);
    let (leaf_word_index, leaf_bit_mask) = occupancy_word_and_mask(leaf_index);
    let w = region_leaf_word_offset(region_index) + leaf_word_index;
    occupancy[w] = occupancy[w] | leaf_bit_mask;

    proof {
        lemma_occupancy_with_voxel_bits(old(occupancy)@, position);
        assert(occupancy@ =~= occupancy_with_voxel(old(occupancy)@, position));
    }
}

/// Which bits are set after voxel `p` is marked: exactly the bits set before,
/// plus its region bit and its leaf bit.
pub proof fn lemma_occupancy_with_voxel_bits(occupancy: Seq<u32>, p: UVec3)
    requires
        in_chunk(p),
        leaf_word(region_of(p), leaf_of(p)) < occupancy.len(),
    ensures
        occupancy_with_voxel(occupancy, p).len() == occupancy.len(),
        forall|w: int, b: int|
            #[trigger] bit_at(occupancy_with_voxel(occupancy, p), w, b) == (bit_at(occupancy, w, b)
                || (w == region_of(p) / 32 && b == region_of(p) % 32) || (w == leaf_word(
                region_of(p),
                leaf_of(p),
            ) && b == leaf_of(p) % 32)),
        voxel_occupied(occupancy_with_voxel(occupancy, p), p),
{
    lemma_position_split(p);
    let o = occupancy;
    let n = occupancy_with_voxel(occupancy, p);
    let rw = region_of(p) / 32;
    let rb = region_of(p) % 32;
    let lw = leaf_word(region_of(p), leaf_of(p));
    let lb = leaf_of(p) % 32;
    assert forall|wi: int, b: int|
        #[trigger] bit_at(n, wi, b) == (bit_at(o, wi, b) || (wi == rw && b == rb) || (wi == lw && b
            == lb)) by {
        if 0 <= wi < n.len() && 0 <= b < 32 {
            if wi == rw {
                lemma_or_bit(o[wi], rb as u32, b as u32);
            } else if wi == lw {
                lemma_or_bit(o[wi], lb as u32, b as u32);
            }
        }
    }
    assert(bit_at(n, rw, rb));
    assert(bit_at(n, lw, lb));
}

/// Marking voxel `p` in a well-formed chunk buffer keeps it well-formed and
/// adds exactly `p` to the voxels that lookups report as occupied.
pub proof fn lemma_marking_inserts_voxel(occupancy: Seq<u32>, p: UVec3)
    requires
        occupancy_wf(occupancy),
        in_chunk(p),
    ensures
        occupancy_wf(occupancy_with_voxel(occupancy, p)),
        occupied_voxels(occupancy_with_voxel(occupancy, p)) == occupied_voxels(occupancy).insert(p),
{
    lemma_position_split(p);
    lemma_occupancy_with_voxel_bits(occupancy, p);
    let o = occupancy;
    let n = occupancy_with_voxel(occupancy, p);
    let rp = region_of(p);
    let lp = leaf_of(p);
    assert forall|r: int, l: int|
        0 <= r < 512 && 0 <= l < 512 && #[trigger] leaf_bit_set(n, r, l) implies region_bit_set(
        n,
        r,
    ) by {
        assert(bit_at(n, leaf_word(r, l), l % 32));
        if leaf_word(r, l) == leaf_word(rp, lp) && l % 32 == lp % 32 {
            assert(r == rp && l == lp);
            assert(bit_at(n, rp / 32, rp % 32));
        } else {
            assert(leaf_bit_set(o, r, l));
            assert(region_bit_set(o, r));
            assert(bit_at(n, r / 32, r % 32));
        }
    }
    assert forall|q: UVec3| #[trigger]
        occupied_voxels(n).contains(q) == occupied_voxels(o).insert(p).contains(q) by {
        if in_chunk(q) {
            lemma_position_split(q);
            let rq = region_of(q);
            let lq = leaf_of(q);
            assert(region_bit_set(n, rq) == bit_at(n, rq / 32, rq % 32));
            assert(leaf_bit_set(n, rq, lq) == bit_at(n, leaf_word(rq, lq), lq % 32));
            if q == p {
                assert(voxel_occupied(n, q));
            } else {
                if rq == rp && lq == lp {
                    lemma_region_and_leaf_identify_voxel(p, q);
                }
                assert(leaf_bit_set(n, rq, lq) == leaf_bit_set(o, rq, lq));
                if leaf_bit_set(o, rq, lq) {
                    assert(region_bit_set(o, rq));
                }
                assert(region_bit_set(o, rq) ==> region_bit_set(n, rq));
            }
        }
    }
    assert(occupied_voxels(n) =~= occupied_voxels(o).insert(p));
}

proof fn lemma_or_twice(w: u32, a: u32)
    by (bit_vector)
    ensures
        (w | a) | a == w | a,
{
}

proof fn lemma_or_swap(w: u32, a: u32, b: u32)
    by (bit_vector)
    ensures
        (w | a) | b == (w | b) | a,
{
}

/// Marking the same voxel twice leaves the buffer as marking it once.
pub proof fn lemma_marking_is_idempotent(occupancy: Seq<u32>, p: UVec3)
    requires
        in_chunk(p),
        leaf_word(region_of(p), leaf_of(p)) < occupancy.len(),
    ensures
        occupancy_with_voxel(occupancy_with_voxel(occupancy, p), p) == occupancy_with_voxel(
            occupancy,
            p,
        ),
{
    lemma_position_split(p);
    let once = occupancy_with_voxel(occupancy, p);
    let twice = occupancy_with_voxel(once, p);
    let rw = region_of(p) / 32;
    let lw = leaf_word(region_of(p), leaf_of(p));
    let rm = 1u32 << ((region_of(p) % 32) as u32);
    let lm = 1u32 << ((leaf_of(p) % 32) as u32);
    lemma_or_twice(occupancy[rw], rm);
    lemma_or_twice(occupancy[lw], lm);
    assert(twice =~= once);
}

/// Marking two voxels gives the same buffer in either order.
pub proof fn lemma_marking_commutes(occupancy: Seq<u32>, p: UVec3, q: UVec3)
    requires
        in_chunk(p),
        in_chunk(q),
        leaf_word(region_of(p), leaf_of(p)) < occupancy.len(),
        leaf_word(region_of(q), leaf_of(q)) < occupancy.len(),
    ensures
        occupancy_with_voxel(occupancy_with_voxel(occupancy, p), q) == occupancy_with_voxel(
            occupancy_with_voxel(occupancy, q),
            p,
        ),
{
    lemma_position_split(p);
    lemma_position_split(q);
    let pq = occupancy_with_voxel(occupancy_with_voxel(occupancy, p), q);
    let qp = occupancy_with_voxel(occupancy_with_voxel(occupancy, q), p);
    let prw = region_of(p) / 32;
    let plw = leaf_word(region_of(p), leaf_of(p));
    let qrw = region_of(q) / 32;
    let qlw = leaf_word(region_of(q), leaf_of(q));
    let prm = 1u32 << ((region_of(p) % 32) as u32);
    let plm = 1u32 << ((leaf_of(p) % 32) as u32);
    let qrm = 1u32 << ((region_of(q) % 32) as u32);
    let qlm = 1u32 << ((leaf_of(q) % 32) as u32);
    assert forall|i: int| 0 <= i < occupancy.len() implies pq[i] == qp[i] by {
        let w = occupancy[i];
        if i == prw && i == qrw {
            lemma_or_swap(w, prm, qrm);
        } else if i == plw && i == qlw {
            lemma_or_swap(w, plm, qlm);
        }
    }
    assert(pq =~= qp);
}

/// A chunk model: its voxel extent and its occupancy words.
#[derive(Clone, Debug)]
pub struct VoxelModel {
    pub dimensions: UVec3,
    pub occupancy: Vec<u32>,
}

impl VoxelModel {
    /// An empty chunk of the fixed chunk extent.
    pub fn empty_chunk() -> (r: Self)
        ensures
            r.dimensions == (UVec3 { x: 64, y: 64, z: 64 }),
            r.occupancy@.len() == CHUNK_OCCUPANCY_WORD_COUNT,
            forall|i: int| 0 <= i < r.occupancy@.len() ==> r.occupancy@[i] == 0,
            occupancy_wf(r.occupancy@),
            occupied_voxels(r.occupancy@) == Set::<UVec3>::empty(),
    {
        VoxelModel { dimensions: chunk_dimensions(), occupancy: empty_chunk_occupancy() }
    }

    pub fn voxel_count(&self) -> (r: usize)
        ensures
            r == 64 * 64 * 64,
    {
        chunk_voxel_count()
    }

    pub fn occupancy_word_count(&self) -> (r: usize)
        ensures
            r == self.occupancy@.len(),
    {
        self.occupancy.len()
    }

    pub fn occupancy_size_bytes(&self) -> (r: usize)
        requires
            self.occupancy@.len() * 4 <= usize::MAX,
        ensures
            r == self.occupancy@.len() * 4,
    {
        broadcast use vstd::layout::layout_of_primitives;

        self.occupancy.len() * core::mem::size_of::<u32>()
    }
}

/// Every set region bit has at least one set leaf bit in its region, so the
/// region mask tells exactly which regions hold voxels.
pub open spec fn region_mask_exact(occupancy: Seq<u32>) -> bool {
    forall|r: int|
        0 <= r < 512 && #[trigger] region_bit_set(occupancy, r) ==> exists|l: int|
            0 <= l < 512 && #[trigger] leaf_bit_set(occupancy, r, l)
}

/// An empty chunk has an exact region mask, and marking a voxel keeps the
/// region mask exact.
pub proof fn lemma_marking_keeps_region_mask_exact(occupancy: Seq<u32>, p: UVec3)
    requires
        region_mask_exact(occupancy),
        in_chunk(p),
        leaf_word(region_of(p), leaf_of(p)) < occupancy.len(),
    ensures
        region_mask_exact(occupancy_with_voxel(occupancy, p)),
{
    lemma_position_split(p);
    lemma_occupancy_with_voxel_bits(occupancy, p);
    let n = occupancy_with_voxel(occupancy, p);
    let rp = region_of(p);
    let lp = leaf_of(p);
    assert forall|r: int| 0 <= r < 512 && #[trigger] region_bit_set(n, r) implies exists|l: int|
        0 <= l < 512 && #[trigger] leaf_bit_set(n, r, l) by {
        assert(bit_at(n, r / 32, r % 32));
        if r == rp {
            assert(leaf_bit_set(n, rp, lp));
        } else {
            assert(r / 32 != rp / 32 || r % 32 != rp % 32);
            assert(region_bit_set(occupancy, r));
            let l = choose|l: int| 0 <= l < 512 && #[trigger] leaf_bit_set(occupancy, r, l);
            assert(bit_at(n, leaf_word(r, l), l % 32));
            assert(leaf_bit_set(n, r, l));
        }
    }
}

/// A buffer of zero words has an exact region mask.
pub proof fn lemma_empty_region_mask_exact(occupancy: Seq<u32>)
    requires
        forall|i: int| 0 <= i < occupancy.len() ==> occupancy[i] == 0,
    ensures
        region_mask_exact(occupancy),
{
    lemma_empty_has_no_bits(occupancy);
}

proof fn lemma_single_bit(b: u32, c: u32)
    by (bit_vector)
    requires
        b < 32,
        c < 32,
    ensures
        (1u32 << b) != 0u32,
        (1u32 << b) & (((1u32 << b) - 1u32) as u32) == 0u32,
        ((1u32 << b) >> c) & 1u32 == 1u32 <==> b == c,
{
}

/// The mask of `occupancy_word_and_mask(index)` has exactly one bit set, at
/// `index % 32`; together with the word index its trailing-zero count gives
/// the index back.
pub proof fn lemma_word_and_mask_round_trip(index: usize)
    ensures
        ({
            let m = 1u32 << ((index % 32) as u32);
            &&& m != 0
            &&& m & ((m - 1u32) as u32) == 0
            &&& forall|c: int| 0 <= c < 32 ==> (word_bit(m, c) <==> c == index % 32)
            &&& vstd::std_specs::bits::u32_trailing_zeros(m) == index % 32
            &&& (index / 32) * 32 + vstd::std_specs::bits::u32_trailing_zeros(m) == index
        }),
{
    let b = (index % 32) as u32;
    let m = 1u32 << b;
    lemma_single_bit(b, 0);
    assert forall|c: int| 0 <= c < 32 implies (word_bit(m, c) <==> c == index % 32) by {
        lemma_single_bit(b, c as u32);
    }
    vstd::std_specs::bits::axiom_u32_trailing_zeros(m);
    let t = vstd::std_specs::bits::u32_trailing_zeros(m);
    lemma_single_bit(b, t);
    vstd::arithmetic::div_mod::lemma_fundamental_div_mod(index as int, 32);
}

/// Distinct bit indices give distinct (word, mask) pairs.
pub proof fn lemma_word_and_mask_injective(i: usize, j: usize)
    requires
        i / 32 == j / 32,
        (1u32 << ((i % 32) as u32)) == (1u32 << ((j % 32) as u32)),
    ensures
        i == j,
{
    lemma_word_and_mask_round_trip(i);
    lemma_word_and_mask_round_trip(j);
}

} // verus!
