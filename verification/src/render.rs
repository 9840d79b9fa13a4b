//! The decisions and buffer layouts of the ray-tracing renderer: image and
//! buffer sizes, shader binding table packing, host buffer transfers, device,
//! queue, surface and format selection, and shader code decoding. The Vulkan
//! calls that feed them live with the application.
use vstd::prelude::*;
use vstd::string::*;
use crate::error::AppError;
use crate::terrain::{TERRAIN_GRID_COUNT, ceil_div, lemma_ceil_div};
use crate::text::{decimal_string, decimal_text};

verus! {

/// The most render objects a scene may hold: one per terrain grid chunk.
pub const MAX_OBJECTS: usize = TERRAIN_GRID_COUNT;

/// What the renderer reports about the selected GPU.
#[derive(Clone, Debug)]
pub struct RenderDeviceCaps {
    pub device_name: String,
    pub shader_group_handle_size: u32,
    pub shader_group_base_alignment: u32,
    pub max_ray_recursion_depth: u32,
}

/// A two-dimensional image extent in pixels.
#[derive(Clone, Copy, Debug, PartialEq, Eq, Structural)]
pub struct Extent2D {
    pub width: u32,
    pub height: u32,
}

pub open spec fn rgba_overflow_message() -> Seq<char> {
    "RGBA image byte size overflowed"@
}

/// The byte length of an 8-bit RGBA image of the given extent, or an error
/// when it does not fit in `usize`.
pub fn rgba_image_byte_len(extent: Extent2D) -> (r: Result<usize, AppError>)
    ensures
        r is Ok <==> extent.width * extent.height * 4 <= usize::MAX,
        match r {
            Ok(n) => n == extent.width * extent.height * 4,
            Err(e) => e.message() == rgba_overflow_message(),
        },
{
    let width = extent.width as usize;
    let height = extent.height as usize;
    match width.checked_mul(height) {
        Some(pixels) => match pixels.checked_mul(4) {
            Some(n) => Ok(n),
            None => Err(AppError::Message(String::from_str("RGBA image byte size overflowed"))),
        },
        None => Err(AppError::Message(String::from_str("RGBA image byte size overflowed"))),
    }
}

/// `value` rounded up to a multiple of `alignment`; alignments of 0 and 1
/// leave it unchanged.
pub open spec fn aligned_up(value: int, alignment: int) -> int {
    if alignment <= 1 {
        value
    } else {
        ceil_div(value, alignment) * alignment
    }
}

pub fn align_up(value: usize, alignment: usize) -> (r: usize)
    requires
        aligned_up(value as int, alignment as int) <= usize::MAX,
    ensures
        r == aligned_up(value as int, alignment as int),
{
    if alignment <= 1 {
        value
    } else {
        proof {
            lemma_ceil_div(value as int, alignment as int);
        }
        let q = value / alignment;
        let rounded = if value % alignment != 0 {
            q + 1
        } else {
            q
        };
        rounded * alignment
    }
}

/// For an alignment above one, rounding up gives the least multiple of the
/// alignment that is not below the value.
pub proof fn lemma_aligned_up_is_least_multiple(value: int, alignment: int)
    by (nonlinear_arith)
    requires
        value >= 0,
        alignment > 1,
    ensures
        aligned_up(value, alignment) % alignment == 0,
        value <= aligned_up(value, alignment) < value + alignment,
{
    lemma_ceil_div(value, alignment);
    let q = value / alignment;
    let m = value % alignment;
    assert(value == q * alignment + m);
    if m == 0 {
        assert(aligned_up(value, alignment) == q * alignment);
    } else {
        assert(aligned_up(value, alignment) == (q + 1) * alignment);
    }
}

/// Rounding up never goes below the value.
pub proof fn lemma_aligned_up_ge(value: int, alignment: int)
    requires
        value >= 0,
    ensures
        aligned_up(value, alignment) >= value,
{
    if alignment > 1 {
        lemma_aligned_up_is_least_multiple(value, alignment);
    }
}

/// The distance between consecutive shader group records: the handle size
/// aligned to `u64`, then to the shader group base alignment.
pub open spec fn shader_binding_stride(handle_size: int, base_alignment: int) -> int {
    aligned_up(aligned_up(handle_size, vstd::layout::align_of::<u64>() as int), base_alignment)
}

pub fn shader_binding_table_stride(handle_size: usize, base_alignment: usize) -> (r: usize)
    requires
        shader_binding_stride(handle_size as int, base_alignment as int) <= usize::MAX,
    ensures
        r == shader_binding_stride(handle_size as int, base_alignment as int),
        r >= handle_size,
{
    let word_alignment = core::mem::align_of::<u64>();
    proof {
        lemma_aligned_up_ge(handle_size as int, word_alignment as int);
        lemma_aligned_up_ge(aligned_up(handle_size as int, word_alignment as int), base_alignment as int);
    }
    let aligned_handle_size = align_up(handle_size, word_alignment);
    align_up(aligned_handle_size, base_alignment)
}

/// Whether byte `k` of a shader binding table lies in the handle part of one
/// of the `group_count` records.
pub open spec fn in_handle_slot(k: int, handle_size: int, stride: int, group_count: int) -> bool {
    stride > 0 && k / stride < group_count && k % stride < handle_size
}

proof fn lemma_record_position(g: int, j: int, stride: int)
    requires
        stride > 0,
        g >= 0,
        0 <= j < stride,
    ensures
        (g * stride + j) / stride == g,
        (g * stride + j) % stride == j,
{
    vstd::arithmetic::div_mod::lemma_fundamental_div_mod_converse(g * stride + j, stride, g, j);
}

proof fn lemma_record_end(g: int, handle_size: int, stride: int, group_count: int)
    by (nonlinear_arith)
    requires
        0 <= g < group_count,
        0 <= handle_size <= stride,
        (group_count - 1) * stride + handle_size >= 0,
    ensures
        g * stride + handle_size <= (group_count - 1) * stride + handle_size,
{
}

proof fn lemma_next_record_fits(g: int, group_count: int, handle_size: int)
    by (nonlinear_arith)
    requires
        0 <= g < group_count,
        handle_size >= 0,
    ensures
        g * handle_size + handle_size <= group_count * handle_size,
{
}

/// Copies each tightly packed shader group handle into its record of a
/// shader binding table whose records are `region_stride` bytes apart; the
/// bytes between handles are left as they were.
pub fn copy_shader_group_handles(
    mapped: &mut [u8],
    handles: &[u8],
    handle_size: usize,
    region_stride: usize,
    group_count: usize,
)
    requires
        handle_size <= region_stride,
        group_count * handle_size <= handles@.len(),
        group_count == 0 || (group_count - 1) * region_stride + handle_size <= old(mapped)@.len(),
    ensures
        final(mapped)@.len() == old(mapped)@.len(),
        forall|k: int|
            0 <= k < old(mapped)@.len() ==> #[trigger] final(mapped)@[k] == if in_handle_slot(
                k,
                handle_size as int,
                region_stride as int,
                group_count as int,
            ) {
                handles@[(k / region_stride as int) * handle_size + k % region_stride as int]
            } else {
                old(mapped)@[k]
            },
{
    let ghost initial = mapped@;
    let n = mapped.len();
    let handles_len = handles.len();
    let mut group: usize = 0;
    while group < group_count
        invariant
            n == mapped@.len(),
            n == initial.len(),
            group <= group_count,
            handles_len == handles@.len(),
            handle_size <= region_stride,
            group_count * handle_size <= handles@.len(),
            group_count == 0 || (group_count - 1) * region_stride + handle_size <= n,
            forall|k: int|
                0 <= k < n ==> #[trigger] mapped@[k] == if in_handle_slot(
                    k,
                    handle_size as int,
                    region_stride as int,
                    group as int,
                ) {
                    handles@[(k / region_stride as int) * handle_size + k % region_stride as int]
                } else {
                    initial[k]
                },
        decreases group_count - group,
    {
        proof {
            lemma_record_end(group as int, handle_size as int, region_stride as int, group_count as int);
            lemma_next_record_fits(group as int, group_count as int, handle_size as int);
        }
        let src_offset = group * handle_size;
        let dst_offset = group * region_stride;
        let mut j: usize = 0;
        while j < handle_size
            invariant
                n == mapped@.len(),
                n == initial.len(),
                group < group_count,
                handles_len == handles@.len(),
                j <= handle_size,
                handle_size <= region_stride,
                src_offset == group * handle_size,
                dst_offset == group * region_stride,
                src_offset + handle_size <= handles@.len(),
                dst_offset + handle_size <= n,
                forall|k: int|
                    0 <= k < n ==> #[trigger] mapped@[k] == if in_handle_slot(
                        k,
                        handle_size as int,
                        region_stride as int,
                        group as int,
                    ) {
                        handles@[(k / region_stride as int) * handle_size + k % region_stride as int]
                    } else if region_stride > 0 && k / region_stride as int == group && k
                        % region_stride as int >= 0 && (k % region_stride as int) < j {
                        handles@[group * handle_size + k % region_stride as int]
                    } else {
                        initial[k]
                    },
            decreases handle_size - j,
        {
            let ghost before = mapped@;
            let target = dst_offset + j;
            proof {
                lemma_record_position(group as int, j as int, region_stride as int);
            }
            mapped[target] = handles[src_offset + j];
            proof {
                assert forall|k: int| 0 <= k < n implies #[trigger] mapped@[k] == if in_handle_slot(
                    k,
                    handle_size as int,
                    region_stride as int,
                    group as int,
                ) {
                    handles@[(k / region_stride as int) * handle_size + k % region_stride as int]
                } else if region_stride > 0 && k / region_stride as int == group && k
                    % region_stride as int >= 0 && (k % region_stride as int) < j + 1 {
                    handles@[group * handle_size + k % region_stride as int]
                } else {
                    initial[k]
                } by {
                    vstd::arithmetic::div_mod::lemma_fundamental_div_mod(k, region_stride as int);
                    if k != target {
                        assert(mapped@[k] == before[k]);
                        if k / region_stride as int == group && k % region_stride as int == j {
                            vstd::arithmetic::mul::lemma_mul_is_commutative(group as int, region_stride as int);
                            assert(k == group * region_stride + j);
                        }
                    }
                }
            }
            j = j + 1;
        }
        proof {
            assert forall|k: int| 0 <= k < n implies #[trigger] mapped@[k] == if in_handle_slot(
                k,
                handle_size as int,
                region_stride as int,
                group + 1,
            ) {
                handles@[(k / region_stride as int) * handle_size + k % region_stride as int]
            } else {
                initial[k]
            } by {
                if region_stride > 0 {
                    vstd::arithmetic::div_mod::lemma_mod_bound(k, region_stride as int);
                }
            }
        }
        group = group + 1;
    }
}

pub open spec fn upload_overflow_message(data_len: nat, capacity: nat) -> Seq<char> {
    "buffer upload overflow: "@ + decimal_text(data_len) + " > "@ + decimal_text(capacity)
}

pub open spec fn read_overflow_message(byte_len: nat, capacity: nat) -> Seq<char> {
    "buffer read overflow: "@ + decimal_text(byte_len) + " > "@ + decimal_text(capacity)
}

/// Writes `data` to the start of a host-mapped buffer; the rest of the buffer
/// keeps its bytes. Data longer than the buffer is refused and nothing is
/// written.
pub fn write_bytes(mapped: &mut [u8], data: &[u8]) -> (r: Result<(), AppError>)
    ensures
        r is Ok <==> data@.len() <= old(mapped)@.len(),
        match r {
            Ok(()) => final(mapped)@ == data@ + old(mapped)@.subrange(
                data@.len() as int,
                old(mapped)@.len() as int,
            ),
            Err(e) => final(mapped)@ == old(mapped)@ && e.message() == upload_overflow_message(
                data@.len(),
                old(mapped)@.len(),
            ),
        },
{
    let capacity = mapped.len();
    let len = data.len();
    if len > capacity {
        let message = String::from_str("buffer upload overflow: ").concat(
            decimal_string(len).as_str(),
        ).concat(" > ").concat(decimal_string(capacity).as_str());
        return Err(AppError::Message(message));
    }
    let ghost initial = mapped@;
    let mut i: usize = 0;
    while i < len
        invariant
            len == data@.len(),
            capacity == initial.len(),
            len <= capacity,
            i <= len,
            mapped@.len() == capacity,
            forall|k: int| 0 <= k < i ==> mapped@[k] == data@[k],
            forall|k: int| i <= k < capacity ==> mapped@[k] == initial[k],
        decreases len - i,
    {
        mapped[i] = data[i];
        i = i + 1;
    }
    assert(mapped@ =~= data@ + initial.subrange(len as int, capacity as int));
    Ok(())
}

/// Copies the first `byte_len` bytes out of a host-mapped buffer, or refuses
/// a length beyond the buffer.
pub fn read_bytes(mapped: &[u8], byte_len: usize) -> (r: Result<Vec<u8>, AppError>)
    ensures
        r is Ok <==> byte_len <= mapped@.len(),
        match r {
            Ok(bytes) => bytes@ == mapped@.subrange(0, byte_len as int),
            Err(e) => e.message() == read_overflow_message(byte_len as nat, mapped@.len()),
        },
{
    let capacity = mapped.len();
    if byte_len > capacity {
        let message = String::from_str("buffer read overflow: ").concat(
            decimal_string(byte_len).as_str(),
        ).concat(" > ").concat(decimal_string(capacity).as_str());
        return Err(AppError::Message(message));
    }
    let mut bytes: Vec<u8> = Vec::new();
    let mut i: usize = 0;
    while i < byte_len
        invariant
            capacity == mapped@.len(),
            byte_len <= capacity,
            i <= byte_len,
            bytes@ == mapped@.subrange(0, i as int),
        decreases byte_len - i,
    {
        bytes.push(mapped[i]);
        i = i + 1;
        assert(bytes@ =~= mapped@.subrange(0, i as int));
    }
    Ok(bytes)
}

pub open spec fn empty_scene_message() -> Seq<char> {
    "extracted scene has no render objects"@
}

pub open spec fn too_many_objects_message(count: nat) -> Seq<char> {
    "scene contains "@ + decimal_text(count) + " objects, but only "@ + decimal_text(
        MAX_OBJECTS as nat,
    ) + " are currently supported"@
}

/// Checks the number of objects of a scene before it is uploaded: there must
/// be at least one and at most `MAX_OBJECTS`.
pub fn check_scene_object_count(count: usize) -> (r: Result<(), AppError>)
    ensures
        r is Ok <==> 0 < count <= MAX_OBJECTS,
        match r {
            Ok(()) => true,
            Err(e) => e.message() == if count == 0 {
                empty_scene_message()
            } else {
                too_many_objects_message(count as nat)
            },
        },
{
    if count == 0 {
        return Err(AppError::Message(String::from_str("extracted scene has no render objects")));
    }
    if count > MAX_OBJECTS {
        let message = String::from_str("scene contains ").concat(decimal_string(count).as_str()).concat(
            " objects, but only ",
        ).concat(decimal_string(MAX_OBJECTS).as_str()).concat(" are currently supported");
        return Err(AppError::Message(message));
    }
    Ok(())
}

/// Whether any occupancy word has a voxel set.
pub open spec fn has_set_word(occupancy: Seq<u32>) -> bool {
    exists|i: int| 0 <= i < occupancy.len() && occupancy[i] != 0
}

/// A buffer has a set word exactly when some word, anywhere in it, is not
/// zero.
pub proof fn lemma_has_set_word_scans_every_word(occupancy: Seq<u32>, i: int)
    requires
        0 <= i < occupancy.len(),
        occupancy[i] != 0,
    ensures
        has_set_word(occupancy),
{
}

/// The words to upload to the voxel buffer: the model's occupancy once per
/// render object when the model holds any voxel, or `None` when the buffer is
/// to be filled on the GPU by terrain generation instead.
pub fn voxel_buffer_upload(occupancy: &[u32]) -> (r: Option<Vec<u32>>)
    requires
        occupancy@.len() * MAX_OBJECTS <= usize::MAX,
    ensures
        r is Some <==> has_set_word(occupancy@),
        r is Some <==> exists|i: int| 0 <= i < occupancy@.len() && #[trigger] occupancy@[i] != 0u32,
        r is None ==> forall|i: int| 0 <= i < occupancy@.len() ==> #[trigger] occupancy@[i] == 0u32,
        match r {
            Some(words) => words@.len() == occupancy@.len() * MAX_OBJECTS && forall|k: int|
                0 <= k < words@.len() ==> #[trigger] words@[k] == occupancy@[k % occupancy@.len() as int],
            None => true,
        },
{
    let n = occupancy.len();
    let mut any = false;
    let mut i: usize = 0;
    while i < n
        invariant
            n == occupancy@.len(),
            i <= n,
            any <==> exists|j: int| 0 <= j < i && occupancy@[j] != 0,
        decreases n - i,
    {
        if occupancy[i] != 0 {
            any = true;
        }
        i = i + 1;
    }
    if !any {
        return None;
    }
    let mut repeated: Vec<u32> = Vec::new();
    let mut copy: usize = 0;
    while copy < MAX_OBJECTS
        invariant
            n == occupancy@.len(),
            n > 0,
            n * MAX_OBJECTS <= usize::MAX,
            copy <= MAX_OBJECTS,
            repeated@.len() == copy * n,
            forall|k: int| 0 <= k < repeated@.len() ==> #[trigger] repeated@[k] == occupancy@[k % n as int],
        decreases MAX_OBJECTS - copy,
    {
        let mut j: usize = 0;
        while j < n
            invariant
                n == occupancy@.len(),
                n > 0,
                n * MAX_OBJECTS <= usize::MAX,
                copy < MAX_OBJECTS,
                j <= n,
                repeated@.len() == copy * n + j,
                forall|k: int| 0 <= k < repeated@.len() ==> #[trigger] repeated@[k] == occupancy@[k % n as int],
            decreases n - j,
        {
            proof {
                lemma_record_position(copy as int, j as int, n as int);
                vstd::arithmetic::mul::lemma_mul_is_commutative(copy as int, n as int);
                lemma_next_record_fits(copy as int, MAX_OBJECTS as int, n as int);
                vstd::arithmetic::mul::lemma_mul_is_commutative(MAX_OBJECTS as int, n as int);
            }
            repeated.push(occupancy[j]);
            j = j + 1;
        }
        copy = copy + 1;
        proof {
            vstd::arithmetic::mul::lemma_mul_is_distributive_add_other_way(n as int, (copy - 1) as int, 1);
        }
    }
    proof {
        vstd::arithmetic::mul::lemma_mul_is_commutative(MAX_OBJECTS as int, n as int);
    }
    Some(repeated)
}

/// The kind of a physical device, as far as device selection tells kinds
/// apart.
#[derive(Clone, Copy, Debug, PartialEq, Eq, Structural)]
pub enum DeviceKind {
    DiscreteGpu,
    IntegratedGpu,
    Other,
}

pub open spec fn device_kind_score(kind: DeviceKind) -> int {
    match kind {
        DeviceKind::DiscreteGpu => 3,
        DeviceKind::IntegratedGpu => 2,
        DeviceKind::Other => 1,
    }
}

/// The preference score of a usable physical device: discrete above
/// integrated above the rest, plus the index of its chosen queue family.
pub fn physical_device_score(kind: DeviceKind, queue_family: u32) -> (r: u32)
    requires
        device_kind_score(kind) + queue_family <= u32::MAX,
    ensures
        r == device_kind_score(kind) + queue_family,
{
    let base: u32 = match kind {
        DeviceKind::DiscreteGpu => 3,
        DeviceKind::IntegratedGpu => 2,
        DeviceKind::Other => 1,
    };
    base + queue_family
}

/// Whether `name` is one of the names in `available`.
pub open spec fn name_listed(available: Seq<String>, name: Seq<char>) -> bool {
    exists|j: int| 0 <= j < available.len() && #[trigger] available[j]@ == name
}

/// Whether every required extension name occurs among the available ones.
pub fn required_extensions_present(available: &Vec<String>, required: &Vec<String>) -> (r: bool)
    ensures
        r == forall|i: int| 0 <= i < required@.len() ==> name_listed(available@, #[trigger] required@[i]@),
{
    let mut i: usize = 0;
    while i < required.len()
        invariant
            i <= required@.len(),
            forall|i2: int| 0 <= i2 < i ==> name_listed(available@, #[trigger] required@[i2]@),
        decreases required@.len() - i,
    {
        let name = required[i].as_str();
        let mut found = false;
        let mut j: usize = 0;
        while j < available.len()
            invariant
                i < required@.len(),
                name@ == required@[i as int]@,
                j <= available@.len(),
                found <==> exists|j2: int| 0 <= j2 < j && #[trigger] available@[j2]@ == name@,
            decreases available@.len() - j,
        {
            let candidate = available[j].as_str();
            assert(candidate@ == available@[j as int]@);
            if crate::text::str_eq(candidate, name) {
                found = true;
            }
            j = j + 1;
        }
        if !found {
            assert(!name_listed(available@, required@[i as int]@));
            return false;
        }
        i = i + 1;
    }
    true
}

pub open spec fn no_device_message() -> Seq<char> {
    "No Vulkan physical device with ray tracing support found"@
}

/// The candidate that device selection keeps: the highest score, and among
/// equal scores the one listed last (the last element after a stable sort by
/// score).
pub fn pick_best_candidate(scores: &Vec<u32>) -> (r: Result<usize, AppError>)
    ensures
        r is Ok <==> scores@.len() > 0,
        match r {
            Ok(best) => {
                &&& best < scores@.len()
                &&& forall|j: int| 0 <= j < scores@.len() ==> scores@[j] <= scores@[best as int]
                &&& forall|j: int| best < j < scores@.len() ==> scores@[j] < scores@[best as int]
            },
            Err(e) => e.message() == no_device_message(),
        },
{
    if scores.len() == 0 {
        return Err(AppError::Message(String::from_str("No Vulkan physical device with ray tracing support found")));
    }
    let mut best: usize = 0;
    let mut i: usize = 1;
    while i < scores.len()
        invariant
            0 < i <= scores@.len(),
            best < i,
            forall|j: int| 0 <= j < i ==> scores@[j] <= scores@[best as int],
            forall|j: int| best < j < i ==> scores@[j] < scores@[best as int],
        decreases scores@.len() - i,
    {
        if scores[i] >= scores[best] {
            best = i;
        }
        i = i + 1;
    }
    Ok(best)
}

/// `QueueFlags::GRAPHICS`.
pub const QUEUE_GRAPHICS_BIT: u32 = 0x1;

pub open spec fn supports_graphics(flags: u32) -> bool {
    flags & QUEUE_GRAPHICS_BIT == QUEUE_GRAPHICS_BIT
}

proof fn lemma_graphics_bit(flags: u32)
    by (bit_vector)
    ensures
        (flags & 1u32 == 1u32) <==> (flags & 1u32 != 0u32),
{
}

/// A queue family supports graphics exactly when its `GRAPHICS` bit (bit 0)
/// is set; the compute, transfer, sparse-binding and other bits play no part.
pub proof fn lemma_supports_graphics_is_graphics_bit(flags: u32)
    ensures
        supports_graphics(flags) <==> (flags & 1u32) != 0u32,
        supports_graphics(flags) == supports_graphics(flags | 0xEu32) ,
{
    lemma_graphics_bit(flags);
    lemma_graphics_bit(flags | 0xEu32);
    assert((flags | 0xEu32) & 1u32 == flags & 1u32) by (bit_vector);
}

pub open spec fn no_graphics_queue_message() -> Seq<char> {
    "No graphics queue family was found"@
}

pub open spec fn no_present_queue_message() -> Seq<char> {
    "No graphics queue family that can present to the surface was found"@
}

/// The first queue family that supports graphics.
pub fn pick_graphics_queue_family(queue_flags: &Vec<u32>) -> (r: Result<u32, AppError>)
    requires
        queue_flags@.len() <= u32::MAX,
    ensures
        r is Ok <==> exists|i: int| 0 <= i < queue_flags@.len() && supports_graphics(#[trigger] queue_flags@[i]),
        match r {
            Ok(index) => {
                &&& index < queue_flags@.len()
                &&& supports_graphics(queue_flags@[index as int])
                &&& forall|j: int| 0 <= j < index ==> !supports_graphics(#[trigger] queue_flags@[j])
            },
            Err(e) => e.message() == no_graphics_queue_message(),
        },
        // The same, by the raw GRAPHICS bit: the first family with bit 0 set.
        match r {
            Ok(index) => queue_flags@[index as int] & 1u32 != 0u32 && forall|j: int|
                0 <= j < index ==> #[trigger] queue_flags@[j] & 1u32 == 0u32,
            Err(_) => forall|j: int| 0 <= j < queue_flags@.len() ==> #[trigger] queue_flags@[j] & 1u32 == 0u32,
        },
{
    let mut i: usize = 0;
    while i < queue_flags.len()
        invariant
            i <= queue_flags@.len(),
            queue_flags@.len() <= u32::MAX,
            forall|j: int| 0 <= j < i ==> !supports_graphics(#[trigger] queue_flags@[j]),
            forall|j: int| 0 <= j < i ==> #[trigger] queue_flags@[j] & 1u32 == 0u32,
        decreases queue_flags@.len() - i,
    {
        proof {
            lemma_graphics_bit(queue_flags@[i as int]);
        }
        if queue_flags[i] & QUEUE_GRAPHICS_BIT == QUEUE_GRAPHICS_BIT {
            return Ok(i as u32);
        }
        i = i + 1;
    }
    Err(AppError::Message(String::from_str("No graphics queue family was found")))
}

/// The first queue family that supports graphics and can present to the
/// surface; `supports_present[i]` is the surface support of family `i`.
pub fn pick_queue_family(queue_flags: &Vec<u32>, supports_present: &Vec<bool>) -> (r: Result<u32, AppError>)
    requires
        queue_flags@.len() <= u32::MAX,
        supports_present@.len() == queue_flags@.len(),
    ensures
        r is Ok <==> exists|i: int|
            0 <= i < queue_flags@.len() && supports_present@[i] && supports_graphics(#[trigger] queue_flags@[i]),
        match r {
            Ok(index) => {
                &&& index < queue_flags@.len()
                &&& supports_present@[index as int]
                &&& supports_graphics(queue_flags@[index as int])
                &&& forall|j: int|
                    0 <= j < index ==> !(supports_present@[j] && supports_graphics(#[trigger] queue_flags@[j]))
            },
            Err(e) => e.message() == no_present_queue_message(),
        },
        // The same, by the raw GRAPHICS bit: the first presenting family with
        // bit 0 set.
        match r {
            Ok(index) => supports_present@[index as int] && queue_flags@[index as int] & 1u32 != 0u32
                && forall|j: int|
                0 <= j < index ==> !(supports_present@[j] && #[trigger] queue_flags@[j] & 1u32 != 0u32),
            Err(_) => forall|j: int|
                0 <= j < queue_flags@.len() ==> !(supports_present@[j] && #[trigger] queue_flags@[j] & 1u32
                    != 0u32),
        },
{
    let mut i: usize = 0;
    while i < queue_flags.len()
        invariant
            i <= queue_flags@.len(),
            queue_flags@.len() <= u32::MAX,
            supports_present@.len() == queue_flags@.len(),
            forall|j: int|
                0 <= j < i ==> !(supports_present@[j] && supports_graphics(#[trigger] queue_flags@[j])),
            forall|j: int|
                0 <= j < i ==> !(supports_present@[j] && #[trigger] queue_flags@[j] & 1u32 != 0u32),
        decreases queue_flags@.len() - i,
    {
        proof {
            lemma_graphics_bit(queue_flags@[i as int]);
        }
        if supports_present[i] && queue_flags[i] & QUEUE_GRAPHICS_BIT == QUEUE_GRAPHICS_BIT {
            return Ok(i as u32);
        }
        i = i + 1;
    }
    Err(AppError::Message(String::from_str("No graphics queue family that can present to the surface was found")))
}

/// Device addresses of the ray generation, miss and hit records of a shader
/// binding table at `base_address`, one record stride apart.
pub fn shader_binding_region_addresses(base_address: u64, region_stride: usize) -> (r: [u64; 3])
    requires
        region_stride * 2 <= usize::MAX,
        base_address + region_stride * 2 <= u64::MAX,
    ensures
        r[0] == base_address,
        r[1] == base_address + region_stride,
        r[2] == base_address + region_stride * 2,
{
    [base_address, base_address + region_stride as u64, base_address + (region_stride * 2) as u64]
}

/// `Format::R8G8B8A8_UNORM`.
pub const FORMAT_R8G8B8A8_UNORM: i32 = 37;

/// `Format::B8G8R8A8_UNORM`.
pub const FORMAT_B8G8R8A8_UNORM: i32 = 44;

/// `Format::B8G8R8A8_SRGB`.
pub const FORMAT_B8G8R8A8_SRGB: i32 = 50;

/// `Format::R32G32B32A32_SFLOAT`, the format of the ray-traced output image.
pub const FORMAT_R32G32B32A32_SFLOAT: i32 = 109;

/// `ColorSpaceKHR::SRGB_NONLINEAR`.
pub const COLOR_SPACE_SRGB_NONLINEAR: i32 = 0;

/// `PresentModeKHR::MAILBOX`.
pub const PRESENT_MODE_MAILBOX: i32 = 1;

/// `PresentModeKHR::FIFO`.
pub const PRESENT_MODE_FIFO: i32 = 2;

/// `ImageUsageFlags::TRANSFER_DST`.
pub const IMAGE_USAGE_TRANSFER_DST: u32 = 0x2;

/// `FormatFeatureFlags::STORAGE_IMAGE`.
pub const FORMAT_FEATURE_STORAGE_IMAGE: u32 = 0x2;

/// `FormatFeatureFlags::BLIT_SRC`.
pub const FORMAT_FEATURE_BLIT_SRC: u32 = 0x400;

/// `FormatFeatureFlags::BLIT_DST`.
pub const FORMAT_FEATURE_BLIT_DST: u32 = 0x800;

/// Whether `flags` holds every bit of `wanted`.
pub open spec fn has_flags(flags: u32, wanted: u32) -> bool {
    flags & wanted == wanted
}

/// A surface format: a `Format` and a `ColorSpaceKHR`, by their raw values.
#[derive(Clone, Copy, Debug, PartialEq, Eq, Structural)]
pub struct SurfaceFormat {
    pub format: i32,
    pub color_space: i32,
}

/// An 8-bit BGRA or RGBA format in the sRGB non-linear color space.
pub open spec fn preferred_surface_format(f: SurfaceFormat) -> bool {
    &&& (f.format == FORMAT_B8G8R8A8_UNORM || f.format == FORMAT_B8G8R8A8_SRGB || f.format
        == FORMAT_R8G8B8A8_UNORM)
    &&& f.color_space == COLOR_SPACE_SRGB_NONLINEAR
}

/// The swapchain format: the first preferred surface format, else the first
/// format offered.
pub fn choose_surface_format(formats: &Vec<SurfaceFormat>) -> (r: SurfaceFormat)
    requires
        formats@.len() > 0,
    ensures
        (exists|i: int| 0 <= i < formats@.len() && preferred_surface_format(#[trigger] formats@[i]))
            ==> exists|i: int|
            0 <= i < formats@.len() && formats@[i] == r && preferred_surface_format(r) && forall|j: int|
                0 <= j < i ==> !preferred_surface_format(#[trigger] formats@[j]),
        !(exists|i: int| 0 <= i < formats@.len() && preferred_surface_format(#[trigger] formats@[i]))
            ==> r == formats@[0],
{
    let mut i: usize = 0;
    while i < formats.len()
        invariant
            i <= formats@.len(),
            forall|j: int| 0 <= j < i ==> !preferred_surface_format(#[trigger] formats@[j]),
        decreases formats@.len() - i,
    {
        let f = formats[i];
        if (f.format == FORMAT_B8G8R8A8_UNORM || f.format == FORMAT_B8G8R8A8_SRGB || f.format
            == FORMAT_R8G8B8A8_UNORM) && f.color_space == COLOR_SPACE_SRGB_NONLINEAR {
            return f;
        }
        i = i + 1;
    }
    formats[0]
}

/// Mailbox presentation when the surface offers it, else FIFO.
pub fn choose_present_mode(present_modes: &Vec<i32>) -> (r: i32)
    ensures
        r == if present_modes@.contains(PRESENT_MODE_MAILBOX) {
            PRESENT_MODE_MAILBOX
        } else {
            PRESENT_MODE_FIFO
        },
{
    let mut i: usize = 0;
    while i < present_modes.len()
        invariant
            i <= present_modes@.len(),
            forall|j: int| 0 <= j < i ==> present_modes@[j] != PRESENT_MODE_MAILBOX,
        decreases present_modes@.len() - i,
    {
        if present_modes[i] == PRESENT_MODE_MAILBOX {
            assert(present_modes@[i as int] == PRESENT_MODE_MAILBOX);
            return PRESENT_MODE_MAILBOX;
        }
        i = i + 1;
    }
    PRESENT_MODE_FIFO
}

/// The larger of `v` and one.
pub open spec fn at_least_one(v: u32) -> u32 {
    if v > 1 {
        v
    } else {
        1
    }
}

/// `v` clamped into `[lo, hi]`.
pub open spec fn clamped(v: u32, lo: u32, hi: u32) -> u32 {
    if v < lo {
        lo
    } else if v > hi {
        hi
    } else {
        v
    }
}

/// Clamping keeps a value already in `[lo, hi]`, lifts a smaller one to `lo`
/// and lowers a larger one to `hi`; the result always lies in `[lo, hi]`.
pub proof fn lemma_clamped_law(v: u32, lo: u32, hi: u32)
    requires
        lo <= hi,
    ensures
        lo <= clamped(v, lo, hi) <= hi,
        lo <= v <= hi ==> clamped(v, lo, hi) == v,
        v < lo ==> clamped(v, lo, hi) == lo,
        v > hi ==> clamped(v, lo, hi) == hi,
{
}

/// The swapchain extent: the requested size clamped into the surface's
/// supported range, where a bound of zero counts as one.
pub fn swapchain_extent(width: u32, height: u32, min_extent: Extent2D, max_extent: Extent2D) -> (r: Extent2D)
    requires
        at_least_one(min_extent.width) <= at_least_one(max_extent.width),
        at_least_one(min_extent.height) <= at_least_one(max_extent.height),
    ensures
        r.width == clamped(width, at_least_one(min_extent.width), at_least_one(max_extent.width)),
        r.height == clamped(height, at_least_one(min_extent.height), at_least_one(max_extent.height)),
        // A size within the limits (a limit of zero counting as one) is kept;
        // any other size becomes the nearest limit.
        ({
            let lo = if min_extent.width > 1 { min_extent.width } else { 1u32 };
            let hi = if max_extent.width > 1 { max_extent.width } else { 1u32 };
            &&& lo <= r.width <= hi
            &&& lo <= width <= hi ==> r.width == width
            &&& width < lo ==> r.width == lo
            &&& width > hi ==> r.width == hi
        }),
        ({
            let lo = if min_extent.height > 1 { min_extent.height } else { 1u32 };
            let hi = if max_extent.height > 1 { max_extent.height } else { 1u32 };
            &&& lo <= r.height <= hi
            &&& lo <= height <= hi ==> r.height == height
            &&& height < lo ==> r.height == lo
            &&& height > hi ==> r.height == hi
        }),
{
    proof {
        lemma_clamped_law(width, at_least_one(min_extent.width), at_least_one(max_extent.width));
        lemma_clamped_law(height, at_least_one(min_extent.height), at_least_one(max_extent.height));
    }
    Extent2D {
        width: clamp_u32(width, min_extent.width.max(1), max_extent.width.max(1)),
        height: clamp_u32(height, min_extent.height.max(1), max_extent.height.max(1)),
    }
}

/// `v` clamped into `[lo, hi]`, as `Ord::clamp` does for `lo <= hi`.
fn clamp_u32(v: u32, lo: u32, hi: u32) -> (r: u32)
    requires
        lo <= hi,
    ensures
        r == clamped(v, lo, hi),
{
    if v < lo {
        lo
    } else if v > hi {
        hi
    } else {
        v
    }
}

/// The number of swapchain images to ask for. The cap by the surface maximum
/// is itself raised to at least `min_image_count + 1`, so the result is always
/// one more than the minimum.
pub fn desired_swapchain_image_count(min_image_count: u32, max_image_count: u32) -> (r: u32)
    requires
        min_image_count < u32::MAX,
    ensures
        r == min_image_count + 1,
{
    (min_image_count + 1).min(max_image_count.max(min_image_count + 1))
}

pub open spec fn transfer_dst_unsupported_message() -> Seq<char> {
    "Surface does not support transfer-destination swapchain images"@
}

/// Swapchain images are written by transfer, so the surface must allow
/// transfer-destination usage.
pub fn check_transfer_dst_usage(supported_usage: u32) -> (r: Result<(), AppError>)
    ensures
        r is Ok <==> has_flags(supported_usage, IMAGE_USAGE_TRANSFER_DST),
        match r {
            Ok(()) => true,
            Err(e) => e.message() == transfer_dst_unsupported_message(),
        },
{
    if supported_usage & IMAGE_USAGE_TRANSFER_DST != IMAGE_USAGE_TRANSFER_DST {
        return Err(AppError::Message(String::from_str("Surface does not support transfer-destination swapchain images")));
    }
    Ok(())
}

/// The text that ash's `Debug` for `vk::Format` writes for a raw format value.
pub uninterp spec fn vk_format_debug_text(raw: i32) -> Seq<char>;

/// Formats a raw format value with ash's `Debug` for `vk::Format` (the
/// format's name, or its number when ash does not name it). The contract
/// names the result and does not list ash's names.
#[verifier::external_body]
fn vk_format_debug(raw: i32) -> (r: String)
    ensures
        r@ == vk_format_debug_text(raw),
{
    format!("{:?}", ash::vk::Format::from_raw(raw))
}

pub open spec fn windowed_format_message(preferred_format: i32) -> Seq<char> {
    "could not find an R32G32B32A32_SFLOAT storage output format compatible with swapchain format "@
        + vk_format_debug_text(preferred_format)
}

/// The storage format of the windowed output image. `preferred_features` are
/// the optimal-tiling features of the swapchain format, `float_features`
/// those of `R32G32B32A32_SFLOAT`. A float swapchain format that supports
/// storage is used directly; otherwise the float format is used when it
/// supports storage and blit source and the swapchain format blit destination.
pub fn pick_windowed_output_storage_format(
    preferred_format: i32,
    preferred_features: u32,
    float_features: u32,
) -> (r: Result<i32, AppError>)
    ensures
        match r {
            Ok(format) => if preferred_format == FORMAT_R32G32B32A32_SFLOAT && has_flags(
                preferred_features,
                FORMAT_FEATURE_STORAGE_IMAGE,
            ) {
                format == preferred_format
            } else {
                &&& has_flags(preferred_features, FORMAT_FEATURE_BLIT_DST)
                &&& has_flags(float_features, FORMAT_FEATURE_STORAGE_IMAGE | FORMAT_FEATURE_BLIT_SRC)
                &&& format == FORMAT_R32G32B32A32_SFLOAT
            },
            Err(e) => {
                &&& !(preferred_format == FORMAT_R32G32B32A32_SFLOAT && has_flags(
                    preferred_features,
                    FORMAT_FEATURE_STORAGE_IMAGE,
                ))
                &&& !(has_flags(preferred_features, FORMAT_FEATURE_BLIT_DST) && has_flags(
                    float_features,
                    FORMAT_FEATURE_STORAGE_IMAGE | FORMAT_FEATURE_BLIT_SRC,
                ))
                &&& e.message() == windowed_format_message(preferred_format)
            },
        },
{
    let swapchain_can_blit_dst = preferred_features & FORMAT_FEATURE_BLIT_DST == FORMAT_FEATURE_BLIT_DST;
    if preferred_format == FORMAT_R32G32B32A32_SFLOAT {
        if preferred_features & FORMAT_FEATURE_STORAGE_IMAGE == FORMAT_FEATURE_STORAGE_IMAGE {
            return Ok(preferred_format);
        }
    }
    let wanted = FORMAT_FEATURE_STORAGE_IMAGE | FORMAT_FEATURE_BLIT_SRC;
    if swapchain_can_blit_dst && float_features & wanted == wanted {
        return Ok(FORMAT_R32G32B32A32_SFLOAT);
    }
    let message = String::from_str(
        "could not find an R32G32B32A32_SFLOAT storage output format compatible with swapchain format ",
    ).concat(vk_format_debug(preferred_format).as_str());
    Err(AppError::Message(message))
}

pub open spec fn headless_format_message() -> Seq<char> {
    "could not find an R32G32B32A32_SFLOAT storage output format for headless capture"@
}

/// The storage format of the headless output image, given the optimal-tiling
/// features of `R32G32B32A32_SFLOAT`: it must support storage and blit source.
pub fn pick_headless_output_storage_format(float_features: u32) -> (r: Result<i32, AppError>)
    ensures
        r is Ok <==> has_flags(float_features, FORMAT_FEATURE_STORAGE_IMAGE | FORMAT_FEATURE_BLIT_SRC),
        match r {
            Ok(format) => format == FORMAT_R32G32B32A32_SFLOAT,
            Err(e) => e.message() == headless_format_message(),
        },
{
    let wanted = FORMAT_FEATURE_STORAGE_IMAGE | FORMAT_FEATURE_BLIT_SRC;
    if float_features & wanted == wanted {
        return Ok(FORMAT_R32G32B32A32_SFLOAT);
    }
    Err(AppError::Message(String::from_str("could not find an R32G32B32A32_SFLOAT storage output format for headless capture")))
}

pub open spec fn capture_format_message() -> Seq<char> {
    "R8G8B8A8_UNORM capture images do not support blit-destination usage"@
}

/// The capture image is `R8G8B8A8_UNORM` and is written by a blit, so its
/// optimal-tiling features must include blit destination.
pub fn check_capture_format_support(capture_features: u32) -> (r: Result<(), AppError>)
    ensures
        r is Ok <==> has_flags(capture_features, FORMAT_FEATURE_BLIT_DST),
        match r {
            Ok(()) => true,
            Err(e) => e.message() == capture_format_message(),
        },
{
    if capture_features & FORMAT_FEATURE_BLIT_DST != FORMAT_FEATURE_BLIT_DST {
        return Err(AppError::Message(String::from_str("R8G8B8A8_UNORM capture images do not support blit-destination usage")));
    }
    Ok(())
}

/// The magic number that opens a SPIR-V module.
pub const SPIRV_MAGIC_NUMBER: u32 = 0x0723_0203;

/// Word `i` of `bytes` read least significant byte first.
pub open spec fn le_word(bytes: Seq<u8>, i: int) -> u32 {
    (bytes[4 * i] as u32) | ((bytes[4 * i + 1] as u32) << 8u32) | ((bytes[4 * i + 2] as u32)
        << 16u32) | ((bytes[4 * i + 3] as u32) << 24u32)
}

/// Word `i` of `bytes` read most significant byte first.
pub open spec fn be_word(bytes: Seq<u8>, i: int) -> u32 {
    (bytes[4 * i + 3] as u32) | ((bytes[4 * i + 2] as u32) << 8u32) | ((bytes[4 * i + 1] as u32)
        << 16u32) | ((bytes[4 * i] as u32) << 24u32)
}

/// The words of a SPIR-V module stored in `bytes`: the length must be a
/// multiple of four and the first word the magic number, read in either byte
/// order; the order in which the magic number reads decides the order of all
/// words.
pub open spec fn spirv_words(bytes: Seq<u8>) -> Option<Seq<u32>> {
    let n = bytes.len() / 4;
    if bytes.len() % 4 != 0 || n == 0 {
        None
    } else if le_word(bytes, 0) == SPIRV_MAGIC_NUMBER {
        Some(Seq::new(n, |i: int| le_word(bytes, i)))
    } else if be_word(bytes, 0) == SPIRV_MAGIC_NUMBER {
        Some(Seq::new(n, |i: int| be_word(bytes, i)))
    } else {
        None
    }
}

/// Why `read_spv` refuses `bytes`: the text of its error.
pub open spec fn spirv_error_message(bytes: Seq<u8>) -> Seq<char> {
    if bytes.len() % 4 != 0 {
        "input length not divisible by 4"@
    } else {
        "input missing SPIR-V magic number"@
    }
}

/// Calls `ash::util::read_spv` on the bytes and turns its `io::Error` into
/// its display text. By its source it refuses a length that is not a multiple
/// of four, reads the words, swaps their bytes when the first word is the
/// byte-swapped magic number, and refuses a first word that is then not the
/// magic number; which is `spirv_words` on every machine. Its errors are made
/// with `io::Error::new` from the two messages of `spirv_error_message`, and
/// such an error displays its message.
#[verifier::external_body]
fn read_spirv_words(bytes: &[u8]) -> (r: Result<Vec<u32>, String>)
    ensures
        match r {
            Ok(words) => spirv_words(bytes@) == Some(words@),
            Err(message) => spirv_words(bytes@) is None && message@ == spirv_error_message(bytes@),
        },
{
    ash::util::read_spv(&mut std::io::Cursor::new(bytes)).map_err(|error| error.to_string())
}

/// Decodes compiled SPIR-V shader code into its words.
pub fn decode_spirv(bytes: &[u8]) -> (r: Result<Vec<u32>, AppError>)
    ensures
        r is Ok <==> spirv_words(bytes@) is Some,
        match r {
            Ok(words) => spirv_words(bytes@) == Some(words@),
            Err(e) => e.message() == spirv_error_message(bytes@),
        },
{
    match read_spirv_words(bytes) {
        Ok(words) => Ok(words),
        Err(message) => Err(AppError::Message(message)),
    }
}

/// Whether the renderer presents to a window or renders off screen.
#[derive(Clone, Copy, Debug, PartialEq, Eq, Structural)]
pub enum RendererMode {
    Windowed,
    Headless,
}

pub open spec fn windowed_path_message() -> Seq<char> {
    "windowed render path was used for a headless renderer"@
}

pub open spec fn headless_path_message() -> Seq<char> {
    "headless render path was used for a windowed renderer"@
}

pub open spec fn capture_mode_message() -> Seq<char> {
    "PNG capture is only available for a headless renderer"@
}

/// Before a windowed frame: the renderer must be windowed; `Ok(false)` skips
/// the frame while the extent is empty.
pub fn windowed_frame_check(mode: RendererMode, extent: Extent2D) -> (r: Result<bool, AppError>)
    ensures
        r is Ok <==> mode == RendererMode::Windowed,
        match r {
            Ok(draw) => draw == (extent.width != 0 && extent.height != 0),
            Err(e) => e.message() == windowed_path_message(),
        },
{
    if mode != RendererMode::Windowed {
        return Err(AppError::Message(String::from_str("windowed render path was used for a headless renderer")));
    }
    Ok(!(extent.width == 0 || extent.height == 0))
}

/// Before a headless frame: the renderer must be headless; `Ok(false)` skips
/// the frame while the extent is empty.
pub fn headless_frame_check(mode: RendererMode, extent: Extent2D) -> (r: Result<bool, AppError>)
    ensures
        r is Ok <==> mode == RendererMode::Headless,
        match r {
            Ok(draw) => draw == (extent.width != 0 && extent.height != 0),
            Err(e) => e.message() == headless_path_message(),
        },
{
    if mode != RendererMode::Headless {
        return Err(AppError::Message(String::from_str("headless render path was used for a windowed renderer")));
    }
    Ok(!(extent.width == 0 || extent.height == 0))
}

/// A PNG capture needs a headless renderer.
pub fn capture_mode_check(mode: RendererMode) -> (r: Result<(), AppError>)
    ensures
        r is Ok <==> mode == RendererMode::Headless,
        match r {
            Ok(()) => true,
            Err(e) => e.message() == capture_mode_message(),
        },
{
    if mode != RendererMode::Headless {
        return Err(AppError::Message(String::from_str("PNG capture is only available for a headless renderer")));
    }
    Ok(())
}

/// Whether a window resize rebuilds the swapchain: only for a windowed
/// renderer, and not for an empty size.
pub fn resize_rebuilds_swapchain(mode: RendererMode, width: u32, height: u32) -> (r: bool)
    ensures
        r == (mode == RendererMode::Windowed && width != 0 && height != 0),
{
    if mode != RendererMode::Windowed {
        return false;
    }
    !(width == 0 || height == 0)
}

pub open spec fn png_length_message(actual: nat, expected: nat) -> Seq<char> {
    "PNG data length "@ + decimal_text(actual) + " did not match expected RGBA byte length "@
        + decimal_text(expected)
}

/// Before a PNG is encoded: the pixel data must be exactly one 8-bit RGBA
/// image of the extent.
pub fn check_png_data(extent: Extent2D, data_len: usize) -> (r: Result<(), AppError>)
    ensures
        r is Ok <==> extent.width * extent.height * 4 == data_len,
        match r {
            Ok(()) => true,
            Err(e) => if extent.width * extent.height * 4 > usize::MAX {
                e.message() == rgba_overflow_message()
            } else {
                e.message() == png_length_message(data_len as nat, (extent.width * extent.height * 4) as nat)
            },
        },
{
    let expected_len = match rgba_image_byte_len(extent) {
        Ok(n) => n,
        Err(e) => {
            return Err(e);
        },
    };
    if data_len != expected_len {
        let message = String::from_str("PNG data length ").concat(decimal_string(data_len).as_str()).concat(
            " did not match expected RGBA byte length ",
        ).concat(decimal_string(expected_len).as_str());
        return Err(AppError::Message(message));
    }
    Ok(())
}

/// Reading back the written length of a buffer after a successful write gives
/// the written data.
pub proof fn lemma_read_back_written(mapped: Seq<u8>, data: Seq<u8>)
    requires
        data.len() <= mapped.len(),
    ensures
        (data + mapped.subrange(data.len() as int, mapped.len() as int)).subrange(0, data.len() as int)
            == data,
        (data + mapped.subrange(data.len() as int, mapped.len() as int)).len() == mapped.len(),
{
    assert((data + mapped.subrange(data.len() as int, mapped.len() as int)).subrange(0, data.len() as int)
        =~= data);
}

pub open spec fn missing_features_message() -> Seq<char> {
    "Selected GPU does not expose required Vulkan ray tracing features"@
}

/// The selected device must expose buffer device addresses, acceleration
/// structures, ray tracing pipelines and ray queries.
pub fn check_ray_tracing_features(
    buffer_device_address: bool,
    acceleration_structure: bool,
    ray_tracing_pipeline: bool,
    ray_query: bool,
) -> (r: Result<(), AppError>)
    ensures
        r is Ok <==> buffer_device_address && acceleration_structure && ray_tracing_pipeline
            && ray_query,
        match r {
            Ok(()) => true,
            Err(e) => e.message() == missing_features_message(),
        },
{
    if !buffer_device_address || !acceleration_structure || !ray_tracing_pipeline || !ray_query {
        return Err(AppError::Message(String::from_str("Selected GPU does not expose required Vulkan ray tracing features")));
    }
    Ok(())
}

} // verus!
