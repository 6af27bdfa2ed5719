//! OpenVDB fog-volume encoding for smoke density grids.
//!
//! Builds the standard `.vdb` archive bytes of an uncompressed `Tree_float_5_4_3`
//! FloatGrid: one root child (a 32³ internal node) holding 16³ internal nodes that
//! hold 8³ leaves. Density samples are carried as the IEEE-754 bit patterns of
//! their `f32` values; a voxel is active when its value is greater than `1.0e-7`.

use crate::le_bytes::{le_i32, le_i64, le_u32, le_u64, push_bytes, push_i32_le, push_u32_le, push_u64_le};
use vstd::prelude::*;
use vstd::string::StringSliceAdditionalSpecFns;
use crate::text::{ascii_lower, char_ascii_lower, chars_of, has_text};

verus! {

/// Payload format identifier for exported OpenVDB fog grids.
pub const OPENVDB_FOG_FORMAT: &'static str = "openvdb_fog_floatgrid_v1";

/// Recommended file extension for OpenVDB archives.
pub const VDB_EXTENSION: &'static str = "vdb";

/// The archive magic number.
pub const MAGIC: u64 = 0x0000000056444220;
/// The archive file format version written.
pub const FILE_VERSION: u32 = 224;
/// The OpenVDB library major version recorded in the header.
pub const LIB_MAJOR: u32 = 12;
/// The OpenVDB library minor version recorded in the header.
pub const LIB_MINOR: u32 = 1;
/// The grid type name.
pub const GRID_TYPE: &'static str = "Tree_float_5_4_3";
/// The archive UUID written in the header.
pub const ARCHIVE_UUID: &'static str = "00000000-0000-4000-8000-000000000001";
/// Voxels per leaf edge.
pub const LEAF_DIM: i32 = 8;
/// Voxels per edge of a 16³ internal node.
pub const NODE4_STRIDE: i32 = 128;
/// Bit pattern of the `f32` value `1.0e-7`, the activity threshold.
pub const ACTIVE_THRESHOLD_BITS: u32 = 0x33d6_bf95;
/// Bit pattern of the `f64` value `1.0`.
pub const F64_ONE_BITS: u64 = 0x3ff0_0000_0000_0000;
/// Bit pattern of the `f64` value `0.5`.
pub const F64_HALF_BITS: u64 = 0x3fe0_0000_0000_0000;

/// Whether the `f32` with bit pattern `bits` is greater than `1.0e-7`.
///
/// Positive finite `f32` values order like their bit patterns, negative values and
/// NaNs compare false, and `+inf` (`0x7f80_0000`) compares true.
pub open spec fn is_active_bits(bits: u32) -> bool {
    ACTIVE_THRESHOLD_BITS < bits && bits <= 0x7f80_0000
}

/// Executable form of [`is_active_bits`].
pub fn value_is_active(bits: u32) -> (a: bool)
    ensures
        a == is_active_bits(bits),
{
    ACTIVE_THRESHOLD_BITS < bits && bits <= 0x7f80_0000
}

/// A length-prefixed name: its byte count as `u32` followed by its bytes.
pub open spec fn name_bytes(s: Seq<u8>) -> Seq<u8> {
    le_u32(s.len() as u32) + s
}

/// One metadata entry: name, type name, payload length and payload.
pub open spec fn metadata_entry_bytes(name: Seq<u8>, dtype: Seq<u8>, payload: Seq<u8>) -> Seq<u8> {
    name_bytes(name) + name_bytes(dtype) + le_u32(payload.len() as u32) + payload
}

/// The archive header: magic, versions, offsets flag, UUID, empty file
/// metadata and a grid count of one.
pub open spec fn archive_header_bytes() -> Seq<u8> {
    le_u64(MAGIC) + le_u32(FILE_VERSION) + le_u32(LIB_MAJOR) + le_u32(LIB_MINOR) + seq![1u8]
        + ARCHIVE_UUID.spec_bytes() + le_u32(0) + le_u32(1)
}

/// The grid descriptor: grid name, grid type, empty instance parent and the three stream offsets.
pub open spec fn grid_descriptor_bytes(grid_name: Seq<u8>, grid_pos: u64, block_pos: u64, end_pos: u64) -> Seq<u8> {
    name_bytes(grid_name) + name_bytes(GRID_TYPE.spec_bytes()) + name_bytes("".spec_bytes())
        + le_u64(grid_pos) + le_u64(block_pos) + le_u64(end_pos)
}

/// Three `f64` values (given by their bit patterns) as little-endian bytes.
pub open spec fn f64x3_bytes(v: [u64; 3]) -> Seq<u8> {
    le_u64(v[0]) + le_u64(v[1]) + le_u64(v[2])
}

/// Three `i32` values as little-endian bytes.
pub open spec fn i32x3_bytes(v: [i32; 3]) -> Seq<u8> {
    le_i32(v[0]) + le_i32(v[1]) + le_i32(v[2])
}

/// The `ScaleTranslateMap` transform with translation `bounds_min` and the given voxel size
/// (all as `f64` bit patterns), with unit scale.
pub open spec fn transform_bytes(bounds_min: [u64; 3], voxel_size: [u64; 3]) -> Seq<u8> {
    let ones = [F64_ONE_BITS, F64_ONE_BITS, F64_ONE_BITS];
    let halves = [F64_HALF_BITS, F64_HALF_BITS, F64_HALF_BITS];
    name_bytes("ScaleTranslateMap".spec_bytes()) + f64x3_bytes(bounds_min) + f64x3_bytes(ones)
        + f64x3_bytes(voxel_size) + f64x3_bytes(ones) + f64x3_bytes(ones) + f64x3_bytes(halves)
}

/// Whether bit `idx` of a mask given as a bool sequence is set (bits past the end are clear).
pub open spec fn mask_bit(bits: Seq<bool>, idx: int) -> bool {
    idx < bits.len() && bits[idx]
}

/// The low `n` bits of word `word` of the mask: bit `b` is bit `word * 64 + b` of `bits`.
pub open spec fn mask_word_prefix(bits: Seq<bool>, word: int, n: nat) -> u64
    decreases n,
{
    if n == 0 {
        0
    } else {
        let b = (n - 1) as nat;
        let lower = mask_word_prefix(bits, word, b);
        if mask_bit(bits, word * 64 + b) {
            lower | (1u64 << (b as u64))
        } else {
            lower
        }
    }
}

/// Word `word` of the mask: bit `b` is bit `word * 64 + b` of `bits`.
pub open spec fn mask_word(bits: Seq<bool>, word: int) -> u64 {
    mask_word_prefix(bits, word, 64)
}

/// A bit mask of `total_bits` bits as little-endian 64-bit words.
pub open spec fn bitmask_bytes(bits: Seq<bool>, total_bits: nat) -> Seq<u8> {
    mask_words(bits, total_bits / 64).flatten()
}

/// The first `n` words of the mask, each as little-endian bytes.
pub open spec fn mask_words(bits: Seq<bool>, n: nat) -> Seq<Seq<u8>> {
    Seq::new(n, |w: int| le_u64(mask_word(bits, w)))
}

/// Appends a length-prefixed name.
pub fn write_name(writer: &mut Vec<u8>, value: &str)
    ensures
        final(writer)@ == old(writer)@ + name_bytes(value.spec_bytes()),
{
    let bytes = value.as_bytes();
    push_u32_le(writer, bytes.len() as u32);
    push_bytes(writer, bytes);
    assert(writer@ =~= old(writer)@ + name_bytes(value.spec_bytes()));
}

/// Appends one metadata entry.
pub fn write_metadata_entry(writer: &mut Vec<u8>, name: &str, dtype: &str, payload: &[u8])
    ensures
        final(writer)@ == old(writer)@ + metadata_entry_bytes(name.spec_bytes(), dtype.spec_bytes(), payload@),
{
    write_name(writer, name);
    write_name(writer, dtype);
    push_u32_le(writer, payload.len() as u32);
    push_bytes(writer, payload);
    assert(writer@ =~= old(writer)@ + metadata_entry_bytes(name.spec_bytes(), dtype.spec_bytes(), payload@));
}

/// Appends a file-level metadata block with no entries.
pub fn write_metadata(writer: &mut Vec<u8>)
    ensures
        final(writer)@ == old(writer)@ + le_u32(0),
{
    push_u32_le(writer, 0);
}

/// Appends the archive header.
pub fn write_archive_header(writer: &mut Vec<u8>)
    ensures
        final(writer)@ == old(writer)@ + archive_header_bytes(),
{
    push_u64_le(writer, MAGIC);
    push_u32_le(writer, FILE_VERSION);
    push_u32_le(writer, LIB_MAJOR);
    push_u32_le(writer, LIB_MINOR);
    writer.push(1u8);
    push_bytes(writer, ARCHIVE_UUID.as_bytes());
    write_metadata(writer);
    push_u32_le(writer, 1);
    assert(writer@ =~= old(writer)@ + archive_header_bytes());
}

/// The byte length of the grid descriptor for `grid_name` (names, parent and three offsets).
pub fn estimate_descriptor_size(grid_name: &str) -> (n: u64)
    requires
        grid_name.spec_bytes().len() + GRID_TYPE.spec_bytes().len() + 36 <= u64::MAX,
    ensures
        n == grid_name.spec_bytes().len() + GRID_TYPE.spec_bytes().len() + 36,
{
    let name_len = grid_name.as_bytes().len() as u64;
    let type_len = GRID_TYPE.as_bytes().len() as u64;
    let base = 4 + name_len + 4 + type_len + 4 + 24;
    base
}

/// Appends the grid descriptor.
pub fn write_grid_descriptor(writer: &mut Vec<u8>, grid_name: &str, grid_pos: u64, block_pos: u64, end_pos: u64)
    ensures
        final(writer)@ == old(writer)@ + grid_descriptor_bytes(grid_name.spec_bytes(), grid_pos, block_pos, end_pos),
{
    write_name(writer, grid_name);
    write_name(writer, GRID_TYPE);
    write_name(writer, "");
    push_u64_le(writer, grid_pos);
    push_u64_le(writer, block_pos);
    push_u64_le(writer, end_pos);
    assert(writer@ =~= old(writer)@ + grid_descriptor_bytes(grid_name.spec_bytes(), grid_pos, block_pos, end_pos));
}

/// Appends three `f64` values given by their bit patterns.
pub fn write_f64x3(writer: &mut Vec<u8>, values: [u64; 3])
    ensures
        final(writer)@ == old(writer)@ + f64x3_bytes(values),
{
    push_u64_le(writer, values[0]);
    push_u64_le(writer, values[1]);
    push_u64_le(writer, values[2]);
    assert(writer@ =~= old(writer)@ + f64x3_bytes(values));
}

/// Appends three `i32` values.
pub fn write_i32x3(writer: &mut Vec<u8>, values: [i32; 3])
    ensures
        final(writer)@ == old(writer)@ + i32x3_bytes(values),
{
    push_i32_le(writer, values[0]);
    push_i32_le(writer, values[1]);
    push_i32_le(writer, values[2]);
    assert(writer@ =~= old(writer)@ + i32x3_bytes(values));
}

/// Appends the grid transform. The voxel size is `(bounds_max - bounds_min) / max(n, 1)`
/// per axis, computed by the caller in `f64` and passed as bit patterns.
pub fn write_transform(writer: &mut Vec<u8>, bounds_min: [u64; 3], voxel_size: [u64; 3])
    ensures
        final(writer)@ == old(writer)@ + transform_bytes(bounds_min, voxel_size),
{
    let ones = [F64_ONE_BITS, F64_ONE_BITS, F64_ONE_BITS];
    let halves = [F64_HALF_BITS, F64_HALF_BITS, F64_HALF_BITS];
    write_name(writer, "ScaleTranslateMap");
    write_f64x3(writer, bounds_min);
    write_f64x3(writer, ones);
    write_f64x3(writer, voxel_size);
    write_f64x3(writer, ones);
    write_f64x3(writer, ones);
    write_f64x3(writer, halves);
    assert(writer@ =~= old(writer)@ + transform_bytes(bounds_min, voxel_size));
}

/// Appends a bit mask of `total_bits` bits (a multiple of 64) as little-endian words.
pub fn write_bitmask(writer: &mut Vec<u8>, bits: &[bool], total_bits: usize)
    ensures
        final(writer)@ == old(writer)@ + bitmask_bytes(bits@, total_bits as nat),
{
    let words = total_bits / 64;
    let mut word: usize = 0;
    while word < words
        invariant
            word <= words,
            words == total_bits / 64,
            writer@ == old(writer)@ + mask_words(bits@, word as nat).flatten(),
        decreases words - word,
    {
        let mut value: u64 = 0;
        let mut bit: usize = 0;
        while bit < 64
            invariant
                bit <= 64,
                word < words,
                words == total_bits / 64,
                value == mask_word_prefix(bits@, word as int, bit as nat),
                writer@ == old(writer)@ + mask_words(bits@, word as nat).flatten(),
            decreases 64 - bit,
        {
            let idx = word * 64 + bit;
            let ghost prev = value;
            if idx < bits.len() && bits[idx] {
                value = value | (1u64 << (bit as u64));
            }
            assert(mask_bit(bits@, word * 64 + bit) == (idx < bits.len() && bits@[idx as int]));
            assert(value == mask_word_prefix(bits@, word as int, (bit + 1) as nat));
            bit = bit + 1;
        }
        assert(value == mask_word(bits@, word as int));
        push_u64_le(writer, value);
        proof {
            assert(mask_words(bits@, (word + 1) as nat) =~= mask_words(bits@, word as nat).push(le_u64(value)));
            mask_words(bits@, word as nat).lemma_flatten_push(le_u64(value));
        }
        word = word + 1;
    }
}

} // verus!

verus! {

/// A leaf of 8³ voxels: its index-space origin, the sample bit patterns and the
/// activity mask, both in the order the samples were taken (x fastest, then y, then z).
#[derive(Debug)]
pub struct LeafBlock {
    pub origin: [i32; 3],
    pub values: Vec<u32>,
    pub active: Vec<bool>,
}

/// A 16³ internal node: its origin and its leaves keyed by child offset, in increasing key order.
#[derive(Debug)]
pub struct Node4Block {
    pub origin: [i32; 3],
    pub leaves: Vec<(u32, LeafBlock)>,
}

/// The 32³ internal node under the root: its origin and its children keyed by child
/// offset, in increasing key order.
#[derive(Debug)]
pub struct Node5Block {
    pub origin: [i32; 3],
    pub children: Vec<(u32, Node4Block)>,
}

/// `2^d` for the node dimensions used here.
pub open spec fn pow2_dim(d: u32) -> int {
    if d == 3 { 8 } else if d == 4 { 16 } else { 32 }
}

/// The child offset of local coordinates `(x, y, z)` in a node of `2^d` children per axis.
pub open spec fn packed_offset(x: int, y: int, z: int, d: u32) -> int {
    x * pow2_dim(d) * pow2_dim(d) + y * pow2_dim(d) + z
}

/// Packs local child coordinates into a node child offset (`x` most significant).
pub fn pack_offset(x: i32, y: i32, z: i32, log2dim: u32) -> (o: u32)
    requires
        log2dim == 3 || log2dim == 4 || log2dim == 5,
        0 <= x < pow2_dim(log2dim),
        0 <= y < pow2_dim(log2dim),
        0 <= z < pow2_dim(log2dim),
    ensures
        o == packed_offset(x as int, y as int, z as int, log2dim),
{
    let xu = x as u32;
    let yu = y as u32;
    let zu = z as u32;
    let o = (xu << (2 * log2dim)) | (yu << log2dim) | zu;
    proof {
        if log2dim == 3 {
            assert(xu < 8 && yu < 8 && zu < 8 ==> (xu << 6u32) | (yu << 3u32) | zu == xu * 64 + yu * 8 + zu)
                by (bit_vector);
        } else if log2dim == 4 {
            assert(xu < 16 && yu < 16 && zu < 16 ==> (xu << 8u32) | (yu << 4u32) | zu == xu * 256 + yu * 16 + zu)
                by (bit_vector);
        } else {
            assert(xu < 32 && yu < 32 && zu < 32 ==> (xu << 10u32) | (yu << 5u32) | zu == xu * 1024 + yu * 32 + zu)
                by (bit_vector);
        }
    }
    o
}

/// Splits a node child offset back into local coordinates `(x, y, z)`.
pub fn offset_to_local(offset: u32, log2dim: u32) -> (r: (i32, i32, i32))
    requires
        log2dim == 3 || log2dim == 4 || log2dim == 5,
        offset < pow2_dim(log2dim) * pow2_dim(log2dim) * pow2_dim(log2dim),
    ensures
        r.0 == offset as int / (pow2_dim(log2dim) * pow2_dim(log2dim)),
        r.1 == (offset as int / pow2_dim(log2dim)) % pow2_dim(log2dim),
        r.2 == offset as int % pow2_dim(log2dim),
{
    let shift2 = 2 * log2dim;
    proof {
        assert(1u32 << 6u32 == 64u32 && 1u32 << 3u32 == 8u32) by (bit_vector);
        assert(1u32 << 8u32 == 256u32 && 1u32 << 4u32 == 16u32) by (bit_vector);
        assert(1u32 << 10u32 == 1024u32 && 1u32 << 5u32 == 32u32) by (bit_vector);
    }
    let mask2: u32 = (1u32 << shift2) - 1;
    let mask1: u32 = (1u32 << log2dim) - 1;
    let x = offset >> shift2;
    let rem = offset & mask2;
    let y = rem >> log2dim;
    let z = rem & mask1;
    proof {
        if log2dim == 3 {
            assert(1u32 << 6u32 == 64u32 && 1u32 << 3u32 == 8u32) by (bit_vector);
            assert(offset < 512 ==> offset >> 6u32 == offset / 64
                && (offset & 63u32) >> 3u32 == (offset / 8) % 8
                && (offset & 63u32) & 7u32 == offset % 8) by (bit_vector);
        } else if log2dim == 4 {
            assert(1u32 << 8u32 == 256u32 && 1u32 << 4u32 == 16u32) by (bit_vector);
            assert(offset < 4096 ==> offset >> 8u32 == offset / 256
                && (offset & 255u32) >> 4u32 == (offset / 16) % 16
                && (offset & 255u32) & 15u32 == offset % 16) by (bit_vector);
        } else {
            assert(1u32 << 10u32 == 1024u32 && 1u32 << 5u32 == 32u32) by (bit_vector);
            assert(offset < 32768 ==> offset >> 10u32 == offset / 1024
                && (offset & 1023u32) >> 5u32 == (offset / 32) % 32
                && (offset & 1023u32) & 31u32 == offset % 32) by (bit_vector);
        }
    }
    (x as i32, y as i32, z as i32)
}

/// Rounds each coordinate of a non-negative origin down to a multiple of `stride` (a power of two).
pub fn align_origin(origin: [i32; 3], stride: i32) -> (a: [i32; 3])
    requires
        stride == 8 || stride == 128,
        0 <= origin[0], 0 <= origin[1], 0 <= origin[2],
    ensures
        a[0] == origin[0] - origin[0] % stride,
        a[1] == origin[1] - origin[1] % stride,
        a[2] == origin[2] - origin[2] % stride,
{
    let low: i32 = stride - 1;
    let m = !low;
    let a = [origin[0] & m, origin[1] & m, origin[2] & m];
    proof {
        let (o0, o1, o2) = (origin[0], origin[1], origin[2]);
        if stride == 8 {
            assert(low == 7i32);
            assert(0 <= o0 && 0 <= o1 && 0 <= o2 ==> o0 & !7i32 == o0 - o0 % 8
                && o1 & !7i32 == o1 - o1 % 8 && o2 & !7i32 == o2 - o2 % 8) by (bit_vector);
        } else {
            assert(low == 127i32);
            assert(0 <= o0 && 0 <= o1 && 0 <= o2 ==> o0 & !127i32 == o0 - o0 % 128
                && o1 & !127i32 == o1 - o1 % 128 && o2 & !127i32 == o2 - o2 % 128) by (bit_vector);
        }
    }
    a
}

/// The child offset of the node at `origin` inside its parent at `parent_origin`
/// (`level` 5 for children of the 32³ node, which are 128 voxels apart; otherwise leaves, 8 apart).
pub fn node_offset(origin: [i32; 3], parent_origin: [i32; 3], level: u32) -> (o: u32)
    requires
        forall|k: int| 0 <= k < 3 ==> 0 <= #[trigger] origin[k] - parent_origin[k]
            < (if level == 5 { 4096int } else { 128int }),
        forall|k: int| 0 <= k < 3 ==> (#[trigger] origin[k] - parent_origin[k]) % (if level == 5 { 128int } else { 8int }) == 0,
    ensures
        o == packed_offset(
            (origin[0] - parent_origin[0]) / (if level == 5 { 128int } else { 8int }),
            (origin[1] - parent_origin[1]) / (if level == 5 { 128int } else { 8int }),
            (origin[2] - parent_origin[2]) / (if level == 5 { 128int } else { 8int }),
            if level == 5 { 5u32 } else { 4u32 }),
{
    let shift: i32 = if level == 5 { 7 } else { 3 };
    let dx = origin[0] - parent_origin[0];
    let dy = origin[1] - parent_origin[1];
    let dz = origin[2] - parent_origin[2];
    assert(0 <= dx && 0 <= dy && 0 <= dz) by {
        assert(0 <= origin[0] - parent_origin[0]);
        assert(0 <= origin[1] - parent_origin[1]);
        assert(0 <= origin[2] - parent_origin[2]);
    }
    let lx = dx >> shift;
    let ly = dy >> shift;
    let lz = dz >> shift;
    proof {
        assert(0 <= dx ==> dx >> 7i32 == dx / 128 && dx >> 3i32 == dx / 8) by (bit_vector);
        assert(0 <= dy ==> dy >> 7i32 == dy / 128 && dy >> 3i32 == dy / 8) by (bit_vector);
        assert(0 <= dz ==> dz >> 7i32 == dz / 128 && dz >> 3i32 == dz / 8) by (bit_vector);
        assert(origin[0] - parent_origin[0] < (if level == 5 { 4096int } else { 128int }));
        assert(origin[1] - parent_origin[1] < (if level == 5 { 4096int } else { 128int }));
        assert(origin[2] - parent_origin[2] < (if level == 5 { 4096int } else { 128int }));
    }
    pack_offset(lx, ly, lz, if level == 5 { 5 } else { 4 })
}

} // verus!

verus! {

/// The bit pattern of the dense sample at `(x, y, z)` (index `x + nx * (y + ny * z)`);
/// zero outside the `nx × ny × nz` grid or past the end of the data.
pub open spec fn dense_sample(nx: int, ny: int, nz: int, density: Seq<u32>, x: int, y: int, z: int) -> u32 {
    if x >= nx || y >= ny || z >= nz {
        0
    } else {
        let idx = x + nx * (y + ny * z);
        if idx < density.len() { density[idx] } else { 0 }
    }
}

/// Sample `i` of the leaf at `(ox, oy, oz)`: local `x = i % 8`, `y = (i / 8) % 8`, `z = i / 64`.
pub open spec fn leaf_value(nx: int, ny: int, nz: int, density: Seq<u32>, ox: int, oy: int, oz: int, i: int) -> u32 {
    dense_sample(nx, ny, nz, density, ox + i % 8, oy + (i / 8) % 8, oz + i / 64)
}

/// The 512 samples of the leaf at `(ox, oy, oz)`.
pub open spec fn leaf_values(nx: int, ny: int, nz: int, density: Seq<u32>, ox: int, oy: int, oz: int) -> Seq<u32> {
    Seq::new(512, |i: int| leaf_value(nx, ny, nz, density, ox, oy, oz, i))
}

/// The activity mask of the leaf at `(ox, oy, oz)`.
pub open spec fn leaf_active(nx: int, ny: int, nz: int, density: Seq<u32>, ox: int, oy: int, oz: int) -> Seq<bool> {
    Seq::new(512, |i: int| is_active_bits(leaf_value(nx, ny, nz, density, ox, oy, oz, i)))
}

/// Whether the leaf at `(ox, oy, oz)` has at least one active voxel.
pub open spec fn block_is_active(nx: int, ny: int, nz: int, density: Seq<u32>, ox: int, oy: int, oz: int) -> bool {
    exists|i: int| 0 <= i < 512 && #[trigger] is_active_bits(leaf_value(nx, ny, nz, density, ox, oy, oz, i))
}

/// A leaf entry `(key, leaf)` of the internal node at `node_origin` is the 8³ block of the
/// dense grid at the origin its key names, lies inside the grid, and has an active voxel.
pub open spec fn leaf_entry_ok(nx: int, ny: int, nz: int, density: Seq<u32>, node_origin: [i32; 3], key: u32, leaf: LeafBlock) -> bool {
    &&& key < 4096
    &&& leaf.origin[0] == node_origin[0] + (key / 256) * 8
    &&& leaf.origin[1] == node_origin[1] + ((key / 16) % 16) * 8
    &&& leaf.origin[2] == node_origin[2] + (key % 16) * 8
    &&& 0 <= leaf.origin[0] < nx && 0 <= leaf.origin[1] < ny && 0 <= leaf.origin[2] < nz
    &&& leaf.values@ == leaf_values(nx, ny, nz, density, leaf.origin[0] as int, leaf.origin[1] as int, leaf.origin[2] as int)
    &&& leaf.active@ == leaf_active(nx, ny, nz, density, leaf.origin[0] as int, leaf.origin[1] as int, leaf.origin[2] as int)
    &&& block_is_active(nx, ny, nz, density, leaf.origin[0] as int, leaf.origin[1] as int, leaf.origin[2] as int)
}

/// Keys strictly increase along `leaves`.
pub open spec fn leaf_keys_increasing(leaves: Seq<(u32, LeafBlock)>) -> bool {
    forall|a: int, b: int| 0 <= a < b < leaves.len() ==> leaves[a].0 < leaves[b].0
}

/// Whether one of the leaves has its origin at `(x, y, z)`.
pub open spec fn leaves_contain_block(leaves: Seq<(u32, LeafBlock)>, x: int, y: int, z: int) -> bool {
    exists|j: int| 0 <= j < leaves.len() && #[trigger] leaf_at(leaves, j, x, y, z)
}

/// Whether leaf `j` has its origin at `(x, y, z)`.
pub open spec fn leaf_at(leaves: Seq<(u32, LeafBlock)>, j: int, x: int, y: int, z: int) -> bool {
    leaves[j].1.origin[0] == x && leaves[j].1.origin[1] == y && leaves[j].1.origin[2] == z
}

/// Clamps the dense sample index so that `x + nx * (y + ny * z)` stays inside the grid.
proof fn lemma_dense_index(nx: int, ny: int, nz: int, x: int, y: int, z: int)
    requires
        0 <= x < nx, 0 <= y < ny, 0 <= z < nz,
    ensures
        0 <= x + nx * (y + ny * z) < nx * ny * nz,
{
    assert(0 <= y + ny * z <= ny * nz - 1) by (nonlinear_arith)
        requires 0 <= y < ny, 0 <= z < nz;
    assert(nx * (y + ny * z) <= nx * (ny * nz - 1)) by (nonlinear_arith)
        requires 0 <= y + ny * z <= ny * nz - 1, 0 < nx;
    assert(0 <= nx * (y + ny * z)) by (nonlinear_arith)
        requires 0 <= y + ny * z, 0 < nx;
    assert(nx * (ny * nz - 1) == nx * ny * nz - nx) by (nonlinear_arith);
}

/// The bit pattern of the dense sample at `(x, y, z)`.
fn sample(nx: usize, ny: usize, nz: usize, density: &[u32], x: usize, y: usize, z: usize) -> (v: u32)
    requires
        nx * ny * nz <= usize::MAX,
    ensures
        v == dense_sample(nx as int, ny as int, nz as int, density@, x as int, y as int, z as int),
{
    if x >= nx || y >= ny || z >= nz {
        0
    } else {
        proof {
            lemma_dense_index(nx as int, ny as int, nz as int, x as int, y as int, z as int);
            let t = y + ny * z;
            assert(0 <= ny * z) by (nonlinear_arith) requires 0 <= z, 0 <= ny;
            assert(t <= nx * t) by (nonlinear_arith) requires 0 <= t, 1 <= nx;
        }
        let idx = x + nx * (y + ny * z);
        if idx < density.len() {
            density[idx]
        } else {
            0
        }
    }
}

/// Reads the 8³ block at `(ox, oy, oz)`: its samples, activity mask, and whether any voxel is active.
fn collect_leaf(nx: usize, ny: usize, nz: usize, density: &[u32], ox: usize, oy: usize, oz: usize) -> (r: (LeafBlock, bool))
    requires
        nx * ny * nz <= usize::MAX,
        ox < 4096, oy < 4096, oz < 4096,
    ensures
        r.0.origin[0] == ox && r.0.origin[1] == oy && r.0.origin[2] == oz,
        r.0.values@ == leaf_values(nx as int, ny as int, nz as int, density@, ox as int, oy as int, oz as int),
        r.0.active@ == leaf_active(nx as int, ny as int, nz as int, density@, ox as int, oy as int, oz as int),
        r.1 == block_is_active(nx as int, ny as int, nz as int, density@, ox as int, oy as int, oz as int),
{
    let ghost (gnx, gny, gnz, gd) = (nx as int, ny as int, nz as int, density@);
    let mut values: Vec<u32> = Vec::new();
    let mut active: Vec<bool> = Vec::new();
    let mut has_active = false;
    let mut i: usize = 0;
    while i < 512
        invariant
            i <= 512,
            nx * ny * nz <= usize::MAX,
            ox < 4096, oy < 4096, oz < 4096,
            values@ == leaf_values(gnx, gny, gnz, gd, ox as int, oy as int, oz as int).subrange(0, i as int),
            active@ == leaf_active(gnx, gny, gnz, gd, ox as int, oy as int, oz as int).subrange(0, i as int),
            has_active == exists|k: int| 0 <= k < i && #[trigger] is_active_bits(leaf_value(gnx, gny, gnz, gd, ox as int, oy as int, oz as int, k)),
            gnx == nx, gny == ny, gnz == nz, gd == density@,
        decreases 512 - i,
    {
        let value = sample(nx, ny, nz, density, ox + i % 8, oy + (i / 8) % 8, oz + i / 64);
        let is_active = value_is_active(value);
        values.push(value);
        active.push(is_active);
        has_active = has_active || is_active;
        proof {
            assert(value == leaf_value(gnx, gny, gnz, gd, ox as int, oy as int, oz as int, i as int));
            assert(values@ =~= leaf_values(gnx, gny, gnz, gd, ox as int, oy as int, oz as int).subrange(0, i + 1));
            assert(active@ =~= leaf_active(gnx, gny, gnz, gd, ox as int, oy as int, oz as int).subrange(0, i + 1));
        }
        i = i + 1;
    }
    assert(values@ =~= leaf_values(gnx, gny, gnz, gd, ox as int, oy as int, oz as int));
    assert(active@ =~= leaf_active(gnx, gny, gnz, gd, ox as int, oy as int, oz as int));
    (LeafBlock { origin: [ox as i32, oy as i32, oz as i32], values, active }, has_active)
}

} // verus!

verus! {

/// The local key of the leaf at `(x, y, z)` inside the internal node at `(x0, y0, z0)`.
pub open spec fn local_leaf_key(x0: int, y0: int, z0: int, x: int, y: int, z: int) -> int {
    ((x - x0) / 8) * 256 + ((y - y0) / 8) * 16 + (z - z0) / 8
}

/// The leaf-aligned origins of the internal node at `(x0, y0, z0)` that lie in the grid and are active.
pub open spec fn node_block_wanted(nx: int, ny: int, nz: int, density: Seq<u32>, x0: int, y0: int, z0: int, x: int, y: int, z: int) -> bool {
    &&& x0 <= x < x0 + 128 && y0 <= y < y0 + 128 && z0 <= z < z0 + 128
    &&& x % 8 == 0 && y % 8 == 0 && z % 8 == 0
    &&& x < nx && y < ny && z < nz
    &&& block_is_active(nx, ny, nz, density, x, y, z)
}

/// One step of collecting an internal node's leaves at local position `(lx, ly, lz)`.
#[verifier::spinoff_prover]
#[verifier::rlimit(50)]
proof fn lemma_node_step(nx: int, ny: int, nz: int, d: Seq<u32>, old: Seq<(u32, LeafBlock)>,
    new: Seq<(u32, LeafBlock)>, origin: [i32; 3], lx: int, ly: int, lz: int, pushed: bool)
    requires
        0 <= lx < 16, 0 <= ly < 16, 0 <= lz < 16,
        forall|a: int| 0 <= a < old.len() ==> #[trigger] old[a].0 < 256 * lx + 16 * ly + lz,
        leaf_keys_increasing(old),
        forall|j: int| 0 <= j < old.len() ==> leaf_entry_ok(nx, ny, nz, d, origin, #[trigger] old[j].0, old[j].1),
        forall|x: int, y: int, z: int|
            #[trigger] node_block_wanted(nx, ny, nz, d, origin[0] as int, origin[1] as int, origin[2] as int, x, y, z)
            && local_leaf_key(origin[0] as int, origin[1] as int, origin[2] as int, x, y, z) < 256 * lx + 16 * ly + lz
            ==> leaves_contain_block(old, x, y, z),
        0 <= origin[0] && 0 <= origin[1] && 0 <= origin[2],
        origin[0] % 128 == 0 && origin[1] % 128 == 0 && origin[2] % 128 == 0,
        !pushed ==> new == old,
        !pushed ==> !(origin[0] + 8 * lx < nx && origin[1] + 8 * ly < ny && origin[2] + 8 * lz < nz
            && block_is_active(nx, ny, nz, d, origin[0] + 8 * lx, origin[1] + 8 * ly, origin[2] + 8 * lz)),
        pushed ==> new.len() == old.len() + 1 && new.subrange(0, old.len() as int) == old
            && new.last().0 == 256 * lx + 16 * ly + lz
            && leaf_entry_ok(nx, ny, nz, d, origin, new.last().0, new.last().1),
    ensures
        forall|a: int| 0 <= a < new.len() ==> #[trigger] new[a].0 < 256 * lx + 16 * ly + lz + 1,
        leaf_keys_increasing(new),
        forall|j: int| 0 <= j < new.len() ==> leaf_entry_ok(nx, ny, nz, d, origin, #[trigger] new[j].0, new[j].1),
        forall|x: int, y: int, z: int|
            #[trigger] node_block_wanted(nx, ny, nz, d, origin[0] as int, origin[1] as int, origin[2] as int, x, y, z)
            && local_leaf_key(origin[0] as int, origin[1] as int, origin[2] as int, x, y, z) < 256 * lx + 16 * ly + lz + 1
            ==> leaves_contain_block(new, x, y, z),
{
    let key_now = 256 * lx + 16 * ly + lz;
    let (x0, y0, z0) = (origin[0] as int, origin[1] as int, origin[2] as int);
    assert forall|a: int, b: int| 0 <= a < b < new.len() implies new[a].0 < new[b].0 by {
        assert(old[a] == new.subrange(0, old.len() as int)[a]);
        if b < old.len() {
            assert(old[b] == new.subrange(0, old.len() as int)[b]);
        }
    }
    assert forall|a: int| 0 <= a < new.len() implies #[trigger] new[a].0 < key_now + 1 by {
        if a < old.len() {
            assert(old[a] == new.subrange(0, old.len() as int)[a]);
        }
    }
    assert forall|j: int| 0 <= j < new.len() implies leaf_entry_ok(nx, ny, nz, d, origin, #[trigger] new[j].0, new[j].1) by {
        if j < old.len() {
            assert(old[j] == new.subrange(0, old.len() as int)[j]);
        }
    }
    assert forall|x: int, y: int, z: int|
        #[trigger] node_block_wanted(nx, ny, nz, d, x0, y0, z0, x, y, z)
        && local_leaf_key(x0, y0, z0, x, y, z) < key_now + 1
        implies leaves_contain_block(new, x, y, z) by {
        if local_leaf_key(x0, y0, z0, x, y, z) < key_now {
            let j = choose|j: int| 0 <= j < old.len() && #[trigger] leaf_at(old, j, x, y, z);
            assert(old[j] == new.subrange(0, old.len() as int)[j]);
            assert(leaf_at(new, j, x, y, z));
        } else {
            let (a, b, c) = ((x - x0) / 8, (y - y0) / 8, (z - z0) / 8);
            assert(0 <= a < 16 && 0 <= b < 16 && 0 <= c < 16);
            assert(a == lx && b == ly && c == lz);
            assert(x == x0 + 8 * lx && y == y0 + 8 * ly && z == z0 + 8 * lz);
            assert(pushed);
            let last = new.last();
            assert(last.0 / 256 == lx && (last.0 / 16) % 16 == ly && last.0 % 16 == lz);
            assert(leaf_at(new, old.len() as int, x, y, z));
        }
    }
}

/// The keyed leaf at local position `(lx, ly, lz)` of the internal node at `origin`,
/// when that block lies in the grid and has an active voxel.
#[verifier::spinoff_prover]
#[verifier::rlimit(50)]
fn leaf_entry_at(nx: usize, ny: usize, nz: usize, density: &[u32], origin: [i32; 3], lx: usize, ly: usize, lz: usize)
    -> (r: Option<(u32, LeafBlock)>)
    requires
        nx <= 4096, ny <= 4096, nz <= 4096,
        nx * ny * nz <= usize::MAX,
        lx < 16, ly < 16, lz < 16,
        0 <= origin[0] < 4096 && 0 <= origin[1] < 4096 && 0 <= origin[2] < 4096,
        origin[0] % 128 == 0 && origin[1] % 128 == 0 && origin[2] % 128 == 0,
    ensures
        r is None ==> !(origin[0] + 8 * lx < nx && origin[1] + 8 * ly < ny && origin[2] + 8 * lz < nz
            && block_is_active(nx as int, ny as int, nz as int, density@,
                origin[0] + 8 * lx, origin[1] + 8 * ly, origin[2] + 8 * lz)),
        r matches Some(e) ==> e.0 == 256 * lx + 16 * ly + lz
            && leaf_entry_ok(nx as int, ny as int, nz as int, density@, origin, e.0, e.1),
{
    let ox = origin[0] as usize + 8 * lx;
    let oy = origin[1] as usize + 8 * ly;
    let oz = origin[2] as usize + 8 * lz;
    if ox < nx && oy < ny && oz < nz {
        let (leaf, has_active) = collect_leaf(nx, ny, nz, density, ox, oy, oz);
        if has_active {
            let key = node_offset([ox as i32, oy as i32, oz as i32], origin, 4);
            let ghost k = 256 * lx + 16 * ly + lz;
            assert(k / 256 == lx && (k / 16) % 16 == ly && k % 16 == lz);
            Some((key, leaf))
        } else {
            None
        }
    } else {
        None
    }
}

/// Collects, in key order, the active in-grid leaves of the internal node whose origin is
/// `128 * (x4, y4, z4)`.
fn collect_node4(nx: usize, ny: usize, nz: usize, density: &[u32], x4: usize, y4: usize, z4: usize) -> (node: Node4Block)
    requires
        nx <= 4096, ny <= 4096, nz <= 4096,
        nx * ny * nz <= usize::MAX,
        x4 < 32, y4 < 32, z4 < 32,
    ensures
        node.origin[0] == 128 * x4 && node.origin[1] == 128 * y4 && node.origin[2] == 128 * z4,
        node.leaves.len() <= 4096,
        leaf_keys_increasing(node.leaves@),
        forall|j: int| 0 <= j < node.leaves.len() ==>
            leaf_entry_ok(nx as int, ny as int, nz as int, density@, node.origin, #[trigger] node.leaves@[j].0, node.leaves@[j].1),
        forall|x: int, y: int, z: int|
            #[trigger] node_block_wanted(nx as int, ny as int, nz as int, density@, 128 * x4, 128 * y4, 128 * z4, x, y, z)
            ==> leaves_contain_block(node.leaves@, x, y, z),
{
    let ghost (gnx, gny, gnz, gd) = (nx as int, ny as int, nz as int, density@);
    let x0 = 128 * x4;
    let y0 = 128 * y4;
    let z0 = 128 * z4;
    let origin: [i32; 3] = [x0 as i32, y0 as i32, z0 as i32];
    let mut leaves: Vec<(u32, LeafBlock)> = Vec::new();
    let mut lx: usize = 0;
    while lx < 16
        invariant
            lx <= 16,
            nx <= 4096, ny <= 4096, nz <= 4096,
            nx * ny * nz <= usize::MAX,
            x4 < 32, y4 < 32, z4 < 32,
            x0 == 128 * x4, y0 == 128 * y4, z0 == 128 * z4,
            origin[0] == x0 && origin[1] == y0 && origin[2] == z0,
            gnx == nx, gny == ny, gnz == nz, gd == density@,
            leaves.len() <= 256 * lx,
            forall|a: int| 0 <= a < leaves.len() ==> #[trigger] leaves@[a].0 < 256 * lx,
            leaf_keys_increasing(leaves@),
            forall|j: int| 0 <= j < leaves.len() ==>
                leaf_entry_ok(gnx, gny, gnz, gd, origin, #[trigger] leaves@[j].0, leaves@[j].1),
            forall|x: int, y: int, z: int|
                #[trigger] node_block_wanted(gnx, gny, gnz, gd, x0 as int, y0 as int, z0 as int, x, y, z)
                && local_leaf_key(x0 as int, y0 as int, z0 as int, x, y, z) < 256 * lx
                ==> leaves_contain_block(leaves@, x, y, z),
        decreases 16 - lx,
    {
        let mut ly: usize = 0;
        while ly < 16
            invariant
                lx < 16, ly <= 16,
                nx <= 4096, ny <= 4096, nz <= 4096,
                nx * ny * nz <= usize::MAX,
                x4 < 32, y4 < 32, z4 < 32,
                x0 == 128 * x4, y0 == 128 * y4, z0 == 128 * z4,
                origin[0] == x0 && origin[1] == y0 && origin[2] == z0,
                gnx == nx, gny == ny, gnz == nz, gd == density@,
                leaves.len() <= 256 * lx + 16 * ly,
                forall|a: int| 0 <= a < leaves.len() ==> #[trigger] leaves@[a].0 < 256 * lx + 16 * ly,
                leaf_keys_increasing(leaves@),
                forall|j: int| 0 <= j < leaves.len() ==>
                    leaf_entry_ok(gnx, gny, gnz, gd, origin, #[trigger] leaves@[j].0, leaves@[j].1),
                forall|x: int, y: int, z: int|
                    #[trigger] node_block_wanted(gnx, gny, gnz, gd, x0 as int, y0 as int, z0 as int, x, y, z)
                    && local_leaf_key(x0 as int, y0 as int, z0 as int, x, y, z) < 256 * lx + 16 * ly
                    ==> leaves_contain_block(leaves@, x, y, z),
            decreases 16 - ly,
        {
            let mut lz: usize = 0;
            while lz < 16
                invariant
                    lx < 16, ly < 16, lz <= 16,
                    nx <= 4096, ny <= 4096, nz <= 4096,
                    nx * ny * nz <= usize::MAX,
                    x4 < 32, y4 < 32, z4 < 32,
                    x0 == 128 * x4, y0 == 128 * y4, z0 == 128 * z4,
                    origin[0] == x0 && origin[1] == y0 && origin[2] == z0,
                    gnx == nx, gny == ny, gnz == nz, gd == density@,
                    leaves.len() <= 256 * lx + 16 * ly + lz,
                    forall|a: int| 0 <= a < leaves.len() ==> #[trigger] leaves@[a].0 < 256 * lx + 16 * ly + lz,
                    leaf_keys_increasing(leaves@),
                    forall|j: int| 0 <= j < leaves.len() ==>
                        leaf_entry_ok(gnx, gny, gnz, gd, origin, #[trigger] leaves@[j].0, leaves@[j].1),
                    forall|x: int, y: int, z: int|
                        #[trigger] node_block_wanted(gnx, gny, gnz, gd, x0 as int, y0 as int, z0 as int, x, y, z)
                        && local_leaf_key(x0 as int, y0 as int, z0 as int, x, y, z) < 256 * lx + 16 * ly + lz
                        ==> leaves_contain_block(leaves@, x, y, z),
                decreases 16 - lz,
            {
                let ghost old_leaves = leaves@;
                let mut pushed = false;
                let entry = leaf_entry_at(nx, ny, nz, density, origin, lx, ly, lz);
                match entry {
                    Some(e) => {
                        leaves.push(e);
                        pushed = true;
                        assert(leaves@.subrange(0, old_leaves.len() as int) =~= old_leaves);
                    },
                    None => {},
                }
                proof {
                    lemma_node_step(gnx, gny, gnz, gd, old_leaves, leaves@, origin, lx as int, ly as int, lz as int, pushed);
                }
                lz = lz + 1;
            }
            ly = ly + 1;
        }
        lx = lx + 1;
    }
    Node4Block { origin, leaves }
}

} // verus!

verus! {

/// A child entry `(key, node)` of the 32³ node is the internal node at the origin its key
/// names, holding at least one leaf, its leaves in increasing key order and each valid.
pub open spec fn node4_entry_ok(nx: int, ny: int, nz: int, density: Seq<u32>, key: u32, node: Node4Block) -> bool {
    &&& key < 32768
    &&& node.origin[0] == (key / 1024) * 128
    &&& node.origin[1] == ((key / 32) % 32) * 128
    &&& node.origin[2] == (key % 32) * 128
    &&& 1 <= node.leaves.len() <= 4096
    &&& leaf_keys_increasing(node.leaves@)
    &&& forall|j: int| 0 <= j < node.leaves.len() ==>
        leaf_entry_ok(nx, ny, nz, density, node.origin, #[trigger] node.leaves@[j].0, node.leaves@[j].1)
}

/// Keys strictly increase along `children`.
pub open spec fn child_keys_increasing(children: Seq<(u32, Node4Block)>) -> bool {
    forall|a: int, b: int| 0 <= a < b < children.len() ==> children[a].0 < children[b].0
}

/// Whether some child holds a leaf at `(x, y, z)`.
pub open spec fn tree_contains_block(children: Seq<(u32, Node4Block)>, x: int, y: int, z: int) -> bool {
    exists|i: int| 0 <= i < children.len() && #[trigger] leaves_contain_block(children[i].1.leaves@, x, y, z)
}

/// A leaf-aligned origin inside the `nx × ny × nz` grid whose 8³ block has an active voxel.
pub open spec fn block_wanted(nx: int, ny: int, nz: int, density: Seq<u32>, x: int, y: int, z: int) -> bool {
    &&& 0 <= x < nx && 0 <= y < ny && 0 <= z < nz
    &&& x % 8 == 0 && y % 8 == 0 && z % 8 == 0
    &&& block_is_active(nx, ny, nz, density, x, y, z)
}

/// The sparse tree of the dense grid: rooted at the origin, one child per internal node that
/// holds an active block (in increasing key order), and every active in-grid block present.
pub open spec fn tree_matches_dense(tree: Node5Block, nx: int, ny: int, nz: int, density: Seq<u32>) -> bool {
    &&& tree.origin[0] == 0 && tree.origin[1] == 0 && tree.origin[2] == 0
    &&& tree.children.len() <= 32768
    &&& child_keys_increasing(tree.children@)
    &&& forall|i: int| 0 <= i < tree.children.len() ==>
        node4_entry_ok(nx, ny, nz, density, #[trigger] tree.children@[i].0, tree.children@[i].1)
    &&& forall|x: int, y: int, z: int| #[trigger] block_wanted(nx, ny, nz, density, x, y, z)
        ==> tree_contains_block(tree.children@, x, y, z)
}

/// Whether the internal node holding `(x, y, z)` comes before node `(x4, y4, z4)` in key order.
pub open spec fn node_index_before(x: int, y: int, z: int, x4: int, y4: int, z4: int) -> bool {
    x / 128 < x4 || (x / 128 == x4 && (y / 128 < y4 || (y / 128 == y4 && z / 128 < z4)))
}

/// One step of the tree construction: appending the internal node at `(x4, y4, z4)` when it
/// holds leaves keeps the children sorted and valid, and covers every wanted block up to that node.
#[verifier::spinoff_prover]
#[verifier::rlimit(50)]
proof fn lemma_tree_step(nx: int, ny: int, nz: int, d: Seq<u32>, old: Seq<(u32, Node4Block)>,
    new: Seq<(u32, Node4Block)>, leaves: Seq<(u32, LeafBlock)>, origin: [i32; 3], x4: int, y4: int, z4: int)
    requires
        0 <= x4 < 32, 0 <= y4 < 32, 0 <= z4 < 32,
        forall|a: int| 0 <= a < old.len() ==> #[trigger] old[a].0 < 1024 * x4 + 32 * y4 + z4,
        child_keys_increasing(old),
        forall|i: int| 0 <= i < old.len() ==> node4_entry_ok(nx, ny, nz, d, #[trigger] old[i].0, old[i].1),
        forall|x: int, y: int, z: int| #[trigger] block_wanted(nx, ny, nz, d, x, y, z)
            && node_index_before(x, y, z, x4, y4, z4) ==> tree_contains_block(old, x, y, z),
        origin[0] == 128 * x4 && origin[1] == 128 * y4 && origin[2] == 128 * z4,
        leaves.len() <= 4096,
        leaf_keys_increasing(leaves),
        forall|j: int| 0 <= j < leaves.len() ==> leaf_entry_ok(nx, ny, nz, d, origin, #[trigger] leaves[j].0, leaves[j].1),
        forall|x: int, y: int, z: int| #[trigger] node_block_wanted(nx, ny, nz, d, 128 * x4, 128 * y4, 128 * z4, x, y, z)
            ==> leaves_contain_block(leaves, x, y, z),
        leaves.len() == 0 ==> new == old,
        leaves.len() > 0 ==> new.len() == old.len() + 1 && new.subrange(0, old.len() as int) == old
            && new.last().0 == 1024 * x4 + 32 * y4 + z4 && new.last().1.origin == origin
            && new.last().1.leaves@ == leaves,
    ensures
        forall|a: int| 0 <= a < new.len() ==> #[trigger] new[a].0 < 1024 * x4 + 32 * y4 + z4 + 1,
        child_keys_increasing(new),
        forall|i: int| 0 <= i < new.len() ==> node4_entry_ok(nx, ny, nz, d, #[trigger] new[i].0, new[i].1),
        forall|x: int, y: int, z: int| #[trigger] block_wanted(nx, ny, nz, d, x, y, z)
            && node_index_before(x, y, z, x4, y4, z4 + 1) ==> tree_contains_block(new, x, y, z),
{
    let key_now = 1024 * x4 + 32 * y4 + z4;
    assert forall|a: int, b: int| 0 <= a < b < new.len() implies new[a].0 < new[b].0 by {
        assert(old[a] == new.subrange(0, old.len() as int)[a]);
        if b < old.len() {
            assert(old[b] == new.subrange(0, old.len() as int)[b]);
        }
    }
    assert forall|a: int| 0 <= a < new.len() implies #[trigger] new[a].0 < key_now + 1 by {
        if a < old.len() {
            assert(old[a] == new.subrange(0, old.len() as int)[a]);
        }
    }
    assert forall|i: int| 0 <= i < new.len() implies node4_entry_ok(nx, ny, nz, d, #[trigger] new[i].0, new[i].1) by {
        if i < old.len() {
            assert(old[i] == new.subrange(0, old.len() as int)[i]);
        } else {
            assert(key_now / 1024 == x4 && (key_now / 32) % 32 == y4 && key_now % 32 == z4);
            assert(new[i].1.leaves@ == leaves);
            assert(new[i].1.origin == origin);
        }
    }
    assert forall|x: int, y: int, z: int| #[trigger] block_wanted(nx, ny, nz, d, x, y, z)
        && node_index_before(x, y, z, x4, y4, z4 + 1) implies tree_contains_block(new, x, y, z) by {
        if node_index_before(x, y, z, x4, y4, z4) {
            let i = choose|i: int| 0 <= i < old.len() && #[trigger] leaves_contain_block(old[i].1.leaves@, x, y, z);
            assert(old[i] == new.subrange(0, old.len() as int)[i]);
        } else {
            assert(x / 128 == x4 && y / 128 == y4 && z / 128 == z4);
            assert(node_block_wanted(nx, ny, nz, d, 128 * x4, 128 * y4, 128 * z4, x, y, z));
            assert(leaves_contain_block(leaves, x, y, z));
            assert(new[old.len() as int].1.leaves@ == leaves);
        }
    }
}

/// Builds the sparse leaf/internal-node tree of a dense `nx × ny × nz` grid of sample bit patterns.
pub fn build_tree_from_dense(nx: usize, ny: usize, nz: usize, density: &[u32]) -> (tree: Node5Block)
    requires
        nx <= 4096, ny <= 4096, nz <= 4096,
        nx * ny * nz <= usize::MAX,
    ensures
        tree_matches_dense(tree, nx as int, ny as int, nz as int, density@),
{
    let ghost (gnx, gny, gnz, gd) = (nx as int, ny as int, nz as int, density@);
    let root_origin: [i32; 3] = [0, 0, 0];
    let n4x = (nx + 127) / 128;
    let n4y = (ny + 127) / 128;
    let n4z = (nz + 127) / 128;
    let mut children: Vec<(u32, Node4Block)> = Vec::new();
    let mut x4: usize = 0;
    while x4 < n4x
        invariant
            x4 <= n4x, n4x == (nx + 127) / 128, n4y == (ny + 127) / 128, n4z == (nz + 127) / 128,
            nx <= 4096, ny <= 4096, nz <= 4096, nx * ny * nz <= usize::MAX,
            gnx == nx, gny == ny, gnz == nz, gd == density@,
            root_origin[0] == 0 && root_origin[1] == 0 && root_origin[2] == 0,
            children.len() <= 1024 * x4,
            forall|a: int| 0 <= a < children.len() ==> #[trigger] children@[a].0 < 1024 * x4,
            child_keys_increasing(children@),
            forall|i: int| 0 <= i < children.len() ==>
                node4_entry_ok(gnx, gny, gnz, gd, #[trigger] children@[i].0, children@[i].1),
            forall|x: int, y: int, z: int| #[trigger] block_wanted(gnx, gny, gnz, gd, x, y, z)
                && node_index_before(x, y, z, x4 as int, 0, 0) ==> tree_contains_block(children@, x, y, z),
        decreases n4x - x4,
    {
        let mut y4: usize = 0;
        while y4 < n4y
            invariant
                x4 < n4x, y4 <= n4y, n4x == (nx + 127) / 128, n4y == (ny + 127) / 128, n4z == (nz + 127) / 128,
                nx <= 4096, ny <= 4096, nz <= 4096, nx * ny * nz <= usize::MAX,
                gnx == nx, gny == ny, gnz == nz, gd == density@,
                root_origin[0] == 0 && root_origin[1] == 0 && root_origin[2] == 0,
                children.len() <= 1024 * x4 + 32 * y4,
                forall|a: int| 0 <= a < children.len() ==> #[trigger] children@[a].0 < 1024 * x4 + 32 * y4,
                child_keys_increasing(children@),
                forall|i: int| 0 <= i < children.len() ==>
                    node4_entry_ok(gnx, gny, gnz, gd, #[trigger] children@[i].0, children@[i].1),
                forall|x: int, y: int, z: int| #[trigger] block_wanted(gnx, gny, gnz, gd, x, y, z)
                    && node_index_before(x, y, z, x4 as int, y4 as int, 0) ==> tree_contains_block(children@, x, y, z),
            decreases n4y - y4,
        {
            let mut z4: usize = 0;
            while z4 < n4z
                invariant
                    x4 < n4x, y4 < n4y, z4 <= n4z, n4x == (nx + 127) / 128, n4y == (ny + 127) / 128, n4z == (nz + 127) / 128,
                    nx <= 4096, ny <= 4096, nz <= 4096, nx * ny * nz <= usize::MAX,
                    gnx == nx, gny == ny, gnz == nz, gd == density@,
                    root_origin[0] == 0 && root_origin[1] == 0 && root_origin[2] == 0,
                    children.len() <= 1024 * x4 + 32 * y4 + z4,
                    forall|a: int| 0 <= a < children.len() ==> #[trigger] children@[a].0 < 1024 * x4 + 32 * y4 + z4,
                    child_keys_increasing(children@),
                    forall|i: int| 0 <= i < children.len() ==>
                        node4_entry_ok(gnx, gny, gnz, gd, #[trigger] children@[i].0, children@[i].1),
                    forall|x: int, y: int, z: int| #[trigger] block_wanted(gnx, gny, gnz, gd, x, y, z)
                        && node_index_before(x, y, z, x4 as int, y4 as int, z4 as int) ==> tree_contains_block(children@, x, y, z),
                decreases n4z - z4,
            {
                let node = collect_node4(nx, ny, nz, density, x4, y4, z4);
                let ghost old_children = children@;
                let key_now = (1024 * x4 + 32 * y4 + z4) as u32;
                let ghost node_leaves = node.leaves@;
                let ghost node_origin = node.origin;
                let nonempty = node.leaves.len() > 0;
                if nonempty {
                    let key = node_offset(node.origin, root_origin, 5);
                    assert(key == key_now);
                    children.push((key, node));
                    assert(children@.subrange(0, old_children.len() as int) =~= old_children);
                }
                proof {
                    lemma_tree_step(gnx, gny, gnz, gd, old_children, children@, node_leaves, node_origin,
                        x4 as int, y4 as int, z4 as int);
                }
                z4 = z4 + 1;
            }
            proof {
                assert forall|x: int, y: int, z: int| #[trigger] block_wanted(gnx, gny, gnz, gd, x, y, z)
                    && node_index_before(x, y, z, x4 as int, (y4 + 1) as int, 0)
                    implies tree_contains_block(children@, x, y, z) by {
                    if !node_index_before(x, y, z, x4 as int, y4 as int, 0) {
                        assert(z / 128 < n4z);
                        assert(node_index_before(x, y, z, x4 as int, y4 as int, n4z as int));
                    }
                }
            }
            y4 = y4 + 1;
        }
        proof {
            assert forall|x: int, y: int, z: int| #[trigger] block_wanted(gnx, gny, gnz, gd, x, y, z)
                && node_index_before(x, y, z, (x4 + 1) as int, 0, 0)
                implies tree_contains_block(children@, x, y, z) by {
                if !node_index_before(x, y, z, x4 as int, 0, 0) {
                    assert(y / 128 < n4y);
                    assert(node_index_before(x, y, z, x4 as int, n4y as int, 0));
                }
            }
        }
        x4 = x4 + 1;
    }
    proof {
        assert forall|x: int, y: int, z: int| #[trigger] block_wanted(gnx, gny, gnz, gd, x, y, z)
            implies tree_contains_block(children@, x, y, z) by {
            assert(x / 128 < n4x);
            assert(node_index_before(x, y, z, n4x as int, 0, 0));
        }
    }
    Node5Block { origin: root_origin, children }
}

} // verus!

verus! {

/// Coordinate `axis` (0 = x, 1 = y, 2 = z) of voxel `k` of a leaf, reading the mask index
/// as `x = k / 64`, `y = (k / 8) % 8`, `z = k % 8` (the OpenVDB leaf offset order).
pub open spec fn leaf_voxel_coord(leaf: LeafBlock, k: int, axis: int) -> int {
    if axis == 0 {
        leaf.origin[0] + k / 64
    } else if axis == 1 {
        leaf.origin[1] + (k / 8) % 8
    } else {
        leaf.origin[2] + k % 8
    }
}

/// `max(a, b)` when `is_max`, else `min(a, b)`.
pub open spec fn extreme(is_max: bool, a: int, b: int) -> int {
    if is_max {
        if a >= b { a } else { b }
    } else {
        if a <= b { a } else { b }
    }
}

/// `acc` folded with the `axis` coordinate of every active voxel among the first `n` of `leaf`.
pub open spec fn leaf_extreme(acc: int, leaf: LeafBlock, axis: int, is_max: bool, n: int) -> int
    decreases n,
{
    if n <= 0 {
        acc
    } else {
        let prev = leaf_extreme(acc, leaf, axis, is_max, n - 1);
        if n - 1 < leaf.active.len() && leaf.active@[n - 1] {
            extreme(is_max, prev, leaf_voxel_coord(leaf, n - 1, axis))
        } else {
            prev
        }
    }
}

/// `acc` folded over the active voxels of the first `n` leaves.
pub open spec fn leaves_extreme(acc: int, leaves: Seq<(u32, LeafBlock)>, axis: int, is_max: bool, n: int) -> int
    decreases n,
{
    if n <= 0 {
        acc
    } else {
        leaf_extreme(leaves_extreme(acc, leaves, axis, is_max, n - 1), leaves[n - 1].1, axis, is_max,
            leaves[n - 1].1.active.len() as int)
    }
}

/// `acc` folded over the active voxels of the first `n` internal nodes.
pub open spec fn children_extreme(acc: int, children: Seq<(u32, Node4Block)>, axis: int, is_max: bool, n: int) -> int
    decreases n,
{
    if n <= 0 {
        acc
    } else {
        leaves_extreme(children_extreme(acc, children, axis, is_max, n - 1), children[n - 1].1.leaves@, axis, is_max,
            children[n - 1].1.leaves.len() as int)
    }
}

/// Number of `true` entries among the first `n` of `s`.
pub open spec fn count_true(s: Seq<bool>, n: int) -> nat
    decreases n,
{
    if n <= 0 {
        0
    } else {
        count_true(s, n - 1) + if n - 1 < s.len() && s[n - 1] { 1nat } else { 0nat }
    }
}

/// Number of active voxels in the first `n` leaves.
pub open spec fn leaves_active_count(leaves: Seq<(u32, LeafBlock)>, n: int) -> nat
    decreases n,
{
    if n <= 0 {
        0
    } else {
        leaves_active_count(leaves, n - 1) + count_true(leaves[n - 1].1.active@, leaves[n - 1].1.active.len() as int)
    }
}

/// Number of active voxels in the first `n` internal nodes.
pub open spec fn children_active_count(children: Seq<(u32, Node4Block)>, n: int) -> nat
    decreases n,
{
    if n <= 0 {
        0
    } else {
        children_active_count(children, n - 1)
            + leaves_active_count(children[n - 1].1.leaves@, children[n - 1].1.leaves.len() as int)
    }
}

/// Number of active voxels in the tree.
pub open spec fn tree_active_count(tree: Node5Block) -> nat {
    children_active_count(tree.children@, tree.children.len() as int)
}

/// Smallest (`is_max` false) or largest coordinate `axis` over the active voxels of the tree,
/// folded from `init`.
pub open spec fn tree_extreme(tree: Node5Block, axis: int, is_max: bool, init: int) -> int {
    children_extreme(init, tree.children@, axis, is_max, tree.children.len() as int)
}

/// All leaves hold 512 samples, so voxel coordinates fit `i32`.
pub open spec fn tree_leaves_sized(tree: Node5Block) -> bool {
    forall|i: int, j: int| 0 <= i < tree.children.len() && 0 <= j < tree.children@[i].1.leaves.len() ==> {
        let leaf = #[trigger] tree.children@[i].1.leaves@[j].1;
        &&& leaf.active.len() == 512 && leaf.values.len() == 512
        &&& 0 <= leaf.origin[0] < 4096 && 0 <= leaf.origin[1] < 4096 && 0 <= leaf.origin[2] < 4096
    }
}

/// Folds one leaf's active voxels into the running bounds and count.
fn leaf_bounds(leaf: &LeafBlock, min: &mut [i32; 3], max: &mut [i32; 3], active: &mut u64)
    requires
        leaf.active.len() == 512,
        0 <= leaf.origin[0] < 4096 && 0 <= leaf.origin[1] < 4096 && 0 <= leaf.origin[2] < 4096,
        *old(active) + 512 <= u64::MAX,
    ensures
        forall|a: int| 0 <= a < 3 ==> final(min)[a] == leaf_extreme(old(min)[a] as int, *leaf, a, false, 512),
        forall|a: int| 0 <= a < 3 ==> final(max)[a] == leaf_extreme(old(max)[a] as int, *leaf, a, true, 512),
        *final(active) == *old(active) + count_true(leaf.active@, 512),
        count_true(leaf.active@, 512) <= 512,
{
    let mut idx: usize = 0;
    while idx < 512
        invariant
            idx <= 512,
            leaf.active.len() == 512,
            0 <= leaf.origin[0] < 4096 && 0 <= leaf.origin[1] < 4096 && 0 <= leaf.origin[2] < 4096,
            *old(active) + 512 <= u64::MAX,
            forall|a: int| 0 <= a < 3 ==> min[a] == leaf_extreme(old(min)[a] as int, *leaf, a, false, idx as int),
            forall|a: int| 0 <= a < 3 ==> max[a] == leaf_extreme(old(max)[a] as int, *leaf, a, true, idx as int),
            *active == *old(active) + count_true(leaf.active@, idx as int),
            count_true(leaf.active@, idx as int) <= idx,
        decreases 512 - idx,
    {
        if leaf.active[idx] {
            *active = *active + 1;
            let (lx, ly, lz) = offset_to_local(idx as u32, 3);
            proof {
                assert(lx << 0i32 == lx && ly << 0i32 == ly && lz << 0i32 == lz) by (bit_vector);
            }
            let gx = leaf.origin[0] + (lx << 0i32);
            let gy = leaf.origin[1] + (ly << 0i32);
            let gz = leaf.origin[2] + (lz << 0i32);
            let ghost (m0, m1, m2) = (min[0], min[1], min[2]);
            let ghost (x0, x1, x2) = (max[0], max[1], max[2]);
            if gx < min[0] { min[0] = gx; }
            if gy < min[1] { min[1] = gy; }
            if gz < min[2] { min[2] = gz; }
            if gx > max[0] { max[0] = gx; }
            if gy > max[1] { max[1] = gy; }
            if gz > max[2] { max[2] = gz; }
            proof {
                assert(gx == leaf_voxel_coord(*leaf, idx as int, 0));
                assert(gy == leaf_voxel_coord(*leaf, idx as int, 1));
                assert(gz == leaf_voxel_coord(*leaf, idx as int, 2));
                assert(min[0] == extreme(false, m0 as int, gx as int));
                assert(min[1] == extreme(false, m1 as int, gy as int));
                assert(min[2] == extreme(false, m2 as int, gz as int));
                assert(max[0] == extreme(true, x0 as int, gx as int));
                assert(max[1] == extreme(true, x1 as int, gy as int));
                assert(max[2] == extreme(true, x2 as int, gz as int));
            }
        }
        idx = idx + 1;
    }
}

} // verus!

verus! {

/// Each internal node holds at most 4096 leaves and the root at most 32768 children.
pub open spec fn tree_counts_bounded(tree: Node5Block) -> bool {
    &&& tree.children.len() <= 32768
    &&& forall|i: int| 0 <= i < tree.children.len() ==> #[trigger] tree.children@[i].1.leaves.len() <= 4096
}

/// The index-space bounding box of the active voxels and their number; an empty tree gives
/// `([0, 0, 0], [-1, -1, -1], 0)`.
pub fn tree_index_bounds(tree: &Node5Block) -> (r: ([i32; 3], [i32; 3], u64))
    requires
        tree_leaves_sized(*tree),
        tree_counts_bounded(*tree),
    ensures
        r.2 == tree_active_count(*tree),
        r.2 == 0 ==> r.0[0] == 0 && r.0[1] == 0 && r.0[2] == 0 && r.1[0] == -1 && r.1[1] == -1 && r.1[2] == -1,
        r.2 > 0 ==> forall|a: int| 0 <= a < 3 ==> r.0[a] == tree_extreme(*tree, a, false, i32::MAX as int)
            && r.1[a] == tree_extreme(*tree, a, true, i32::MIN as int),
{
    let mut min: [i32; 3] = [i32::MAX, i32::MAX, i32::MAX];
    let mut max: [i32; 3] = [i32::MIN, i32::MIN, i32::MIN];
    let mut active: u64 = 0;
    let ghost ch = tree.children@;
    let mut i: usize = 0;
    while i < tree.children.len()
        invariant
            i <= tree.children.len(),
            ch == tree.children@,
            tree_leaves_sized(*tree),
            tree_counts_bounded(*tree),
            forall|a: int| 0 <= a < 3 ==> min[a] == children_extreme(i32::MAX as int, ch, a, false, i as int),
            forall|a: int| 0 <= a < 3 ==> max[a] == children_extreme(i32::MIN as int, ch, a, true, i as int),
            active == children_active_count(ch, i as int),
            active <= i * 4096 * 512,
        decreases tree.children.len() - i,
    {
        let node = &tree.children[i].1;
        let ghost lv = node.leaves@;
        let mut j: usize = 0;
        while j < node.leaves.len()
            invariant
                i < tree.children.len(),
                j <= node.leaves.len(),
                lv == node.leaves@,
                *node == tree.children@[i as int].1,
                ch == tree.children@,
                tree_leaves_sized(*tree),
                tree_counts_bounded(*tree),
                forall|a: int| 0 <= a < 3 ==> min[a] == leaves_extreme(
                    children_extreme(i32::MAX as int, ch, a, false, i as int), lv, a, false, j as int),
                forall|a: int| 0 <= a < 3 ==> max[a] == leaves_extreme(
                    children_extreme(i32::MIN as int, ch, a, true, i as int), lv, a, true, j as int),
                active == children_active_count(ch, i as int) + leaves_active_count(lv, j as int),
                active <= i * 4096 * 512 + j * 512,
            decreases node.leaves.len() - j,
        {
            let leaf = &node.leaves[j].1;
            proof {
                assert(tree.children@[i as int].1.leaves@[j as int].1 == *leaf);
                assert(node.leaves.len() <= 4096);
            }
            leaf_bounds(leaf, &mut min, &mut max, &mut active);
            j = j + 1;
        }
        proof {
            assert(node.leaves.len() <= 4096);
        }
        i = i + 1;
    }
    if active == 0 {
        return ([0, 0, 0], [-1, -1, -1], 0);
    }
    (min, max, active)
}

} // verus!

verus! {

/// Child mask of the 32³ node: bit `k` is set when some child has key `k`.
pub open spec fn child_key_mask(children: Seq<(u32, Node4Block)>) -> Seq<bool> {
    Seq::new(32768, |k: int| exists|i: int| 0 <= i < children.len() && #[trigger] children[i].0 == k)
}

/// Child mask of a 16³ node: bit `k` is set when some leaf has key `k`.
pub open spec fn leaf_key_mask(leaves: Seq<(u32, LeafBlock)>) -> Seq<bool> {
    Seq::new(4096, |k: int| exists|j: int| 0 <= j < leaves.len() && #[trigger] leaves[j].0 == k)
}

/// An all-clear mask of `n` bits.
pub open spec fn clear_mask(n: nat) -> Seq<bool> {
    Seq::new(n, |i: int| false)
}

/// An internal node header: child mask, an all-clear value mask, and the "no inactive values" flag byte.
pub open spec fn internal_header_bytes(total_bits: nat, child_mask: Seq<bool>) -> Seq<u8> {
    bitmask_bytes(child_mask, total_bits) + bitmask_bytes(clear_mask(total_bits), total_bits) + seq![0u8]
}

/// The activity masks of the leaves, each as bytes.
pub open spec fn leaf_mask_seq(leaves: Seq<(u32, LeafBlock)>) -> Seq<Seq<u8>> {
    Seq::new(leaves.len(), |j: int| bitmask_bytes(leaves[j].1.active@, 512))
}

/// Topology of a 16³ node: its header followed by each leaf's activity mask.
pub open spec fn node4_topology_bytes(node: Node4Block) -> Seq<u8> {
    internal_header_bytes(4096, leaf_key_mask(node.leaves@)) + leaf_mask_seq(node.leaves@).flatten()
}

/// Topology bytes of each internal node.
pub open spec fn node4_topology_seq(children: Seq<(u32, Node4Block)>) -> Seq<Seq<u8>> {
    Seq::new(children.len(), |i: int| node4_topology_bytes(children[i].1))
}

/// Tree topology: buffer count, background `0.0`, no tiles, one root child at the tree
/// origin, the 32³ node header, and each 16³ node's topology.
pub open spec fn tree_topology_bytes(tree: Node5Block) -> Seq<u8> {
    le_u32(1) + le_u32(0) + le_u32(0) + le_u32(1) + i32x3_bytes(tree.origin)
        + internal_header_bytes(32768, child_key_mask(tree.children@)) + node4_topology_seq(tree.children@).flatten()
}

/// The value stored for voxel `k`: its sample when active, `0.0` otherwise.
pub open spec fn leaf_stored_value(leaf: LeafBlock, k: int) -> u32 {
    if leaf.active@[k] { leaf.values@[k] } else { 0 }
}

/// The stored values of a leaf, each as little-endian bytes.
pub open spec fn leaf_value_seq(leaf: LeafBlock) -> Seq<Seq<u8>> {
    Seq::new(leaf.values@.len(), |k: int| le_u32(leaf_stored_value(leaf, k)))
}

/// A leaf's data: its activity mask, the "all values" flag byte `6`, and its stored values.
pub open spec fn leaf_data_bytes(leaf: LeafBlock) -> Seq<u8> {
    bitmask_bytes(leaf.active@, 512) + seq![6u8] + leaf_value_seq(leaf).flatten()
}

/// Data bytes of each leaf.
pub open spec fn leaf_data_seq(leaves: Seq<(u32, LeafBlock)>) -> Seq<Seq<u8>> {
    Seq::new(leaves.len(), |j: int| leaf_data_bytes(leaves[j].1))
}

/// Data bytes of each internal node (its leaves' data in key order).
pub open spec fn node4_data_seq(children: Seq<(u32, Node4Block)>) -> Seq<Seq<u8>> {
    Seq::new(children.len(), |i: int| leaf_data_seq(children[i].1.leaves@).flatten())
}

/// Tree data: every leaf's data, in key order.
pub open spec fn tree_data_bytes(tree: Node5Block) -> Seq<u8> {
    node4_data_seq(tree.children@).flatten()
}

/// Appends `total_bits` clear bits, returning them as a mask.
fn clear_bits(total_bits: usize) -> (m: Vec<bool>)
    ensures
        m@ == clear_mask(total_bits as nat),
{
    let mut m: Vec<bool> = Vec::new();
    let mut i: usize = 0;
    while i < total_bits
        invariant
            i <= total_bits,
            m@ == clear_mask(i as nat),
        decreases total_bits - i,
    {
        m.push(false);
        i = i + 1;
        assert(m@ =~= clear_mask(i as nat));
    }
    m
}

/// The child mask of the 32³ node.
pub fn child_mask_node5(tree: &Node5Block) -> (mask: Vec<bool>)
    requires
        forall|i: int| 0 <= i < tree.children.len() ==> #[trigger] tree.children@[i].0 < 32768,
    ensures
        mask@ == child_key_mask(tree.children@),
{
    let mut mask = clear_bits(32768);
    let ghost ch = tree.children@;
    let mut i: usize = 0;
    while i < tree.children.len()
        invariant
            i <= tree.children.len(),
            ch == tree.children@,
            forall|i: int| 0 <= i < tree.children.len() ==> #[trigger] tree.children@[i].0 < 32768,
            mask@ == Seq::new(32768, |k: int| exists|c: int| 0 <= c < i && #[trigger] ch[c].0 == k),
        decreases tree.children.len() - i,
    {
        let key = tree.children[i].0;
        let ghost before = mask@;
        mask.set(key as usize, true);
        i = i + 1;
        proof {
            assert forall|k: int| 0 <= k < 32768 implies mask@[k] == exists|c: int| 0 <= c < i && #[trigger] ch[c].0 == k by {
                if k == key {
                    assert(ch[i - 1].0 == k);
                } else {
                    assert(mask@[k] == before[k]);
                    if exists|c: int| 0 <= c < i && #[trigger] ch[c].0 == k {
                        let c = choose|c: int| 0 <= c < i && #[trigger] ch[c].0 == k;
                        assert(c != i - 1);
                    }
                }
            }
            assert(mask@ =~= Seq::new(32768, |k: int| exists|c: int| 0 <= c < i && #[trigger] ch[c].0 == k));
        }
    }
    assert(mask@ =~= child_key_mask(tree.children@));
    mask
}

/// The child mask of a 16³ node.
pub fn child_mask_node4(node4: &Node4Block) -> (mask: Vec<bool>)
    requires
        forall|j: int| 0 <= j < node4.leaves.len() ==> #[trigger] node4.leaves@[j].0 < 4096,
    ensures
        mask@ == leaf_key_mask(node4.leaves@),
{
    let mut mask = clear_bits(4096);
    let ghost lv = node4.leaves@;
    let mut j: usize = 0;
    while j < node4.leaves.len()
        invariant
            j <= node4.leaves.len(),
            lv == node4.leaves@,
            forall|j: int| 0 <= j < node4.leaves.len() ==> #[trigger] node4.leaves@[j].0 < 4096,
            mask@ == Seq::new(4096, |k: int| exists|c: int| 0 <= c < j && #[trigger] lv[c].0 == k),
        decreases node4.leaves.len() - j,
    {
        let key = node4.leaves[j].0;
        let ghost before = mask@;
        mask.set(key as usize, true);
        j = j + 1;
        proof {
            assert forall|k: int| 0 <= k < 4096 implies mask@[k] == exists|c: int| 0 <= c < j && #[trigger] lv[c].0 == k by {
                if k == key {
                    assert(lv[j - 1].0 == k);
                } else {
                    assert(mask@[k] == before[k]);
                    if exists|c: int| 0 <= c < j && #[trigger] lv[c].0 == k {
                        let c = choose|c: int| 0 <= c < j && #[trigger] lv[c].0 == k;
                        assert(c != j - 1);
                    }
                }
            }
            assert(mask@ =~= Seq::new(4096, |k: int| exists|c: int| 0 <= c < j && #[trigger] lv[c].0 == k));
        }
    }
    assert(mask@ =~= leaf_key_mask(node4.leaves@));
    mask
}

/// Appends an internal node header with `2^(3 * log2dim)` mask bits.
pub fn write_internal_node_header(writer: &mut Vec<u8>, log2dim: u32, child_mask: &[bool])
    requires
        log2dim == 4 || log2dim == 5,
    ensures
        final(writer)@ == old(writer)@ + internal_header_bytes(
            (if log2dim == 4 { 4096nat } else { 32768nat }), child_mask@),
{
    proof {
        assert(1usize << 12usize == 4096usize && 1usize << 15usize == 32768usize) by (bit_vector);
    }
    let total_bits: usize = 1usize << ((3 * log2dim) as usize);
    let value_mask = clear_bits(total_bits);
    write_bitmask(writer, child_mask, total_bits);
    write_bitmask(writer, value_mask.as_slice(), total_bits);
    writer.push(0u8);
    assert(writer@ =~= old(writer)@ + internal_header_bytes(total_bits as nat, child_mask@));
}

} // verus!

verus! {

/// Keys fit their node sizes and leaves hold 512 samples.
pub open spec fn tree_shape_ok(tree: Node5Block) -> bool {
    &&& forall|i: int| 0 <= i < tree.children.len() ==> #[trigger] tree.children@[i].0 < 32768
    &&& forall|i: int, j: int| 0 <= i < tree.children.len() && 0 <= j < tree.children@[i].1.leaves.len()
        ==> #[trigger] tree.children@[i].1.leaves@[j].0 < 4096
    &&& tree_leaves_sized(tree)
}

/// Appends a leaf's stored values (inactive voxels as `0.0`) after its "all values" flag.
pub fn write_leaf_buffer(writer: &mut Vec<u8>, leaf: &LeafBlock)
    requires
        leaf.active.len() >= leaf.values.len(),
    ensures
        final(writer)@ == old(writer)@ + seq![6u8] + leaf_value_seq(*leaf).flatten(),
{
    writer.push(6u8);
    let ghost start = writer@;
    let mut idx: usize = 0;
    while idx < leaf.values.len()
        invariant
            idx <= leaf.values.len(),
            leaf.active.len() >= leaf.values.len(),
            start == old(writer)@ + seq![6u8],
            writer@ == start + leaf_value_seq(*leaf).take(idx as int).flatten(),
        decreases leaf.values.len() - idx,
    {
        let stored: u32 = if leaf.active[idx] { leaf.values[idx] } else { 0 };
        push_u32_le(writer, stored);
        proof {
            assert(leaf_value_seq(*leaf).take(idx + 1) =~= leaf_value_seq(*leaf).take(idx as int).push(le_u32(stored)));
            leaf_value_seq(*leaf).take(idx as int).lemma_flatten_push(le_u32(stored));
        }
        idx = idx + 1;
    }
    assert(leaf_value_seq(*leaf).take(leaf.values.len() as int) =~= leaf_value_seq(*leaf));
}

/// Appends the tree topology.
pub fn write_tree_topology(writer: &mut Vec<u8>, tree: &Node5Block)
    requires
        tree_shape_ok(*tree),
    ensures
        final(writer)@ == old(writer)@ + tree_topology_bytes(*tree),
{
    push_u32_le(writer, 1);
    push_u32_le(writer, 0);
    push_u32_le(writer, 0);
    push_u32_le(writer, 1);
    write_i32x3(writer, tree.origin);
    let mask5 = child_mask_node5(tree);
    write_internal_node_header(writer, 5, mask5.as_slice());
    let ghost start = writer@;
    let ghost ch = tree.children@;
    let mut i: usize = 0;
    while i < tree.children.len()
        invariant
            i <= tree.children.len(),
            ch == tree.children@,
            tree_shape_ok(*tree),
            writer@ == start + node4_topology_seq(ch).take(i as int).flatten(),
        decreases tree.children.len() - i,
    {
        let node4 = &tree.children[i].1;
        let ghost before = writer@;
        proof {
            assert forall|j: int| 0 <= j < node4.leaves.len() implies #[trigger] node4.leaves@[j].0 < 4096 by {
                assert(tree.children@[i as int].1.leaves@[j].0 < 4096);
            }
        }
        let mask4 = child_mask_node4(node4);
        write_internal_node_header(writer, 4, mask4.as_slice());
        let ghost mid = writer@;
        let ghost lv = node4.leaves@;
        let mut j: usize = 0;
        while j < node4.leaves.len()
            invariant
                j <= node4.leaves.len(),
                lv == node4.leaves@,
                writer@ == mid + leaf_mask_seq(lv).take(j as int).flatten(),
            decreases node4.leaves.len() - j,
        {
            write_bitmask(writer, node4.leaves[j].1.active.as_slice(), 512);
            proof {
                let s = leaf_mask_seq(lv);
                assert(s.take(j + 1) =~= s.take(j as int).push(s[j as int]));
                s.take(j as int).lemma_flatten_push(s[j as int]);
            }
            j = j + 1;
        }
        proof {
            assert(leaf_mask_seq(lv).take(lv.len() as int) =~= leaf_mask_seq(lv));
            assert(writer@ =~= before + node4_topology_bytes(*node4));
            let s = node4_topology_seq(ch);
            assert(s[i as int] == node4_topology_bytes(*node4));
            assert(s.take(i + 1) =~= s.take(i as int).push(s[i as int]));
            s.take(i as int).lemma_flatten_push(s[i as int]);
        }
        i = i + 1;
    }
    assert(node4_topology_seq(ch).take(ch.len() as int) =~= node4_topology_seq(ch));
    assert(writer@ =~= old(writer)@ + tree_topology_bytes(*tree));
}

/// Appends the tree data: each leaf's activity mask and stored values, in key order.
pub fn write_tree_data(writer: &mut Vec<u8>, tree: &Node5Block)
    requires
        tree_shape_ok(*tree),
    ensures
        final(writer)@ == old(writer)@ + tree_data_bytes(*tree),
{
    let ghost ch = tree.children@;
    let mut i: usize = 0;
    while i < tree.children.len()
        invariant
            i <= tree.children.len(),
            ch == tree.children@,
            tree_shape_ok(*tree),
            writer@ == old(writer)@ + node4_data_seq(ch).take(i as int).flatten(),
        decreases tree.children.len() - i,
    {
        let node4 = &tree.children[i].1;
        let ghost before = writer@;
        let ghost lv = node4.leaves@;
        let mut j: usize = 0;
        while j < node4.leaves.len()
            invariant
                i < tree.children.len(),
                j <= node4.leaves.len(),
                lv == node4.leaves@,
                *node4 == tree.children@[i as int].1,
                tree_shape_ok(*tree),
                writer@ == before + leaf_data_seq(lv).take(j as int).flatten(),
            decreases node4.leaves.len() - j,
        {
            let leaf = &node4.leaves[j].1;
            proof {
                assert(tree.children@[i as int].1.leaves@[j as int].1 == *leaf);
            }
            let ghost b2 = writer@;
            write_bitmask(writer, leaf.active.as_slice(), 512);
            write_leaf_buffer(writer, leaf);
            proof {
                assert(writer@ =~= b2 + leaf_data_bytes(*leaf));
                let s = leaf_data_seq(lv);
                assert(s[j as int] == leaf_data_bytes(*leaf));
                assert(s.take(j + 1) =~= s.take(j as int).push(s[j as int]));
                s.take(j as int).lemma_flatten_push(s[j as int]);
            }
            j = j + 1;
        }
        proof {
            assert(leaf_data_seq(lv).take(lv.len() as int) =~= leaf_data_seq(lv));
            let s = node4_data_seq(ch);
            assert(s[i as int] == leaf_data_seq(lv).flatten());
            assert(s.take(i + 1) =~= s.take(i as int).push(s[i as int]));
            s.take(i as int).lemma_flatten_push(s[i as int]);
        }
        i = i + 1;
    }
    assert(node4_data_seq(ch).take(ch.len() as int) =~= node4_data_seq(ch));
}

} // verus!

verus! {

/// Summary metadata of a `.vdb` file as read back from disk.
#[derive(Debug, Clone, PartialEq, Eq)]
pub struct OpenVdbInfo {
    pub path: String,
    pub file_version: u32,
    pub grid_names: Vec<String>,
    pub grid_name: String,
    pub grid_type: String,
    pub bounds_min: [i32; 3],
    pub bounds_max: [i32; 3],
    pub voxel_count: i64,
    pub byte_len: usize,
}

/// Summary of an encoded fog `.vdb` file.
#[derive(Debug, Clone, PartialEq, Eq)]
pub struct OpenVdbExportResult {
    pub path: String,
    pub grid_name: String,
    pub frame_index: u32,
    pub byte_len: usize,
    pub format: String,
    pub active_voxels: u64,
    pub resolution: [u32; 3],
}

/// The twelve grid metadata entries (count first): fog class, index bounding box, compression,
/// memory estimate, voxel count, half-float flag, name, value type and the dense resolution.
pub open spec fn grid_metadata_bytes(grid_name: Seq<u8>, index_min: [i32; 3], index_max: [i32; 3],
    voxel_count: i64, mem_bytes: i64, resolution: [u32; 3]) -> Seq<u8> {
    le_u32(12)
        + metadata_entry_bytes("class".spec_bytes(), "string".spec_bytes(), "fog volume".spec_bytes())
        + metadata_entry_bytes("file_bbox_min".spec_bytes(), "vec3i".spec_bytes(), i32x3_bytes(index_min))
        + metadata_entry_bytes("file_bbox_max".spec_bytes(), "vec3i".spec_bytes(), i32x3_bytes(index_max))
        + metadata_entry_bytes("file_compression".spec_bytes(), "string".spec_bytes(), "active values".spec_bytes())
        + metadata_entry_bytes("file_mem_bytes".spec_bytes(), "int64".spec_bytes(), le_i64(mem_bytes))
        + metadata_entry_bytes("file_voxel_count".spec_bytes(), "int64".spec_bytes(), le_i64(voxel_count))
        + metadata_entry_bytes("is_saved_as_half_float".spec_bytes(), "bool".spec_bytes(), seq![0u8])
        + metadata_entry_bytes("name".spec_bytes(), "string".spec_bytes(), grid_name)
        + metadata_entry_bytes("value_type".spec_bytes(), "string".spec_bytes(), "float".spec_bytes())
        + metadata_entry_bytes("elfentier_nx".spec_bytes(), "int32".spec_bytes(), le_i32(resolution[0] as i32))
        + metadata_entry_bytes("elfentier_ny".spec_bytes(), "int32".spec_bytes(), le_i32(resolution[1] as i32))
        + metadata_entry_bytes("elfentier_nz".spec_bytes(), "int32".spec_bytes(), le_i32(resolution[2] as i32))
}

/// Packs three `i32` values little-endian.
pub fn pack_i32x3(v: [i32; 3]) -> (out: Vec<u8>)
    ensures
        out@ == i32x3_bytes(v),
{
    let mut out: Vec<u8> = Vec::new();
    write_i32x3(&mut out, v);
    out
}

/// Packs an `i64` little-endian.
pub fn pack_i64(v: i64) -> (out: Vec<u8>)
    ensures
        out@ == le_i64(v),
{
    let mut out: Vec<u8> = Vec::new();
    push_u64_le(&mut out, v as u64);
    out
}

/// Appends the grid metadata.
#[verifier::spinoff_prover]
#[verifier::rlimit(50)]
pub fn write_grid_metadata(writer: &mut Vec<u8>, grid_name: &str, index_min: [i32; 3], index_max: [i32; 3],
    voxel_count: i64, mem_bytes: i64, resolution: [u32; 3])
    ensures
        final(writer)@ == old(writer)@ + grid_metadata_bytes(grid_name.spec_bytes(), index_min, index_max,
            voxel_count, mem_bytes, resolution),
{
    let mut nx_bytes: Vec<u8> = Vec::new();
    push_i32_le(&mut nx_bytes, resolution[0] as i32);
    let mut ny_bytes: Vec<u8> = Vec::new();
    push_i32_le(&mut ny_bytes, resolution[1] as i32);
    let mut nz_bytes: Vec<u8> = Vec::new();
    push_i32_le(&mut nz_bytes, resolution[2] as i32);
    let bbox_min = pack_i32x3(index_min);
    let bbox_max = pack_i32x3(index_max);
    let mem = pack_i64(mem_bytes);
    let count = pack_i64(voxel_count);
    let no_half: Vec<u8> = vec![0u8];
    push_u32_le(writer, 12);
    write_metadata_entry(writer, "class", "string", "fog volume".as_bytes());
    write_metadata_entry(writer, "file_bbox_min", "vec3i", bbox_min.as_slice());
    write_metadata_entry(writer, "file_bbox_max", "vec3i", bbox_max.as_slice());
    write_metadata_entry(writer, "file_compression", "string", "active values".as_bytes());
    write_metadata_entry(writer, "file_mem_bytes", "int64", mem.as_slice());
    write_metadata_entry(writer, "file_voxel_count", "int64", count.as_slice());
    write_metadata_entry(writer, "is_saved_as_half_float", "bool", no_half.as_slice());
    write_metadata_entry(writer, "name", "string", grid_name.as_bytes());
    write_metadata_entry(writer, "value_type", "string", "float".as_bytes());
    write_metadata_entry(writer, "elfentier_nx", "int32", nx_bytes.as_slice());
    write_metadata_entry(writer, "elfentier_ny", "int32", ny_bytes.as_slice());
    write_metadata_entry(writer, "elfentier_nz", "int32", nz_bytes.as_slice());
    assert(no_half@ =~= seq![0u8]);
    assert(nx_bytes@ =~= le_i32(resolution[0] as i32));
    assert(writer@ =~= old(writer)@ + grid_metadata_bytes(grid_name.spec_bytes(), index_min, index_max,
        voxel_count, mem_bytes, resolution));
}

} // verus!

verus! {

/// Flattening sequences of at most `j` bytes each gives at most `s.len() * j` bytes.
proof fn lemma_flatten_len_le(s: Seq<Seq<u8>>, j: int)
    requires
        0 <= j,
        forall|i: int| 0 <= i < s.len() ==> (#[trigger] s[i]).len() <= j,
    ensures
        s.flatten().len() <= s.len() * j,
{
    s.lemma_flatten_length_le_mul(j);
    s.lemma_flatten_and_flatten_alt_are_equivalent();
}

proof fn lemma_bitmask_len(bits: Seq<bool>, total: nat)
    ensures
        bitmask_bytes(bits, total).len() <= (total / 64) * 8,
{
    lemma_flatten_len_le(mask_words(bits, total / 64), 8);
}

/// A tree built from a dense grid has in-range keys, full leaves, and bounded fan-out.
proof fn lemma_matching_tree_shape(tree: Node5Block, nx: int, ny: int, nz: int, d: Seq<u32>)
    requires
        tree_matches_dense(tree, nx, ny, nz, d),
        nx <= 4096, ny <= 4096, nz <= 4096,
    ensures
        tree_shape_ok(tree),
        tree_counts_bounded(tree),
{
    assert forall|i: int| 0 <= i < tree.children.len() implies #[trigger] tree.children@[i].0 < 32768 by {
        assert(node4_entry_ok(nx, ny, nz, d, tree.children@[i].0, tree.children@[i].1));
    }
    assert forall|i: int, j: int| 0 <= i < tree.children.len() && 0 <= j < tree.children@[i].1.leaves.len()
        implies #[trigger] tree.children@[i].1.leaves@[j].0 < 4096 by {
        assert(node4_entry_ok(nx, ny, nz, d, tree.children@[i].0, tree.children@[i].1));
        let node = tree.children@[i].1;
        assert(leaf_entry_ok(nx, ny, nz, d, node.origin, node.leaves@[j].0, node.leaves@[j].1));
    }
    assert forall|i: int, j: int| 0 <= i < tree.children.len() && 0 <= j < tree.children@[i].1.leaves.len() implies {
        let leaf = #[trigger] tree.children@[i].1.leaves@[j].1;
        &&& leaf.active.len() == 512 && leaf.values.len() == 512
        &&& 0 <= leaf.origin[0] < 4096 && 0 <= leaf.origin[1] < 4096 && 0 <= leaf.origin[2] < 4096
    } by {
        assert(node4_entry_ok(nx, ny, nz, d, tree.children@[i].0, tree.children@[i].1));
        let node = tree.children@[i].1;
        assert(leaf_entry_ok(nx, ny, nz, d, node.origin, node.leaves@[j].0, node.leaves@[j].1));
    }
    assert forall|i: int| 0 <= i < tree.children.len() implies #[trigger] tree.children@[i].1.leaves.len() <= 4096 by {
        assert(node4_entry_ok(nx, ny, nz, d, tree.children@[i].0, tree.children@[i].1));
    }
}

/// Topology and data of a well-shaped tree stay far below `2^40` bytes.
proof fn lemma_tree_bytes_bounded(tree: Node5Block)
    requires
        tree_shape_ok(tree),
        tree_counts_bounded(tree),
    ensures
        tree_topology_bytes(tree).len() <= 0x100_0000_0000,
        tree_data_bytes(tree).len() <= 0x100_0000_0000,
{
    let ch = tree.children@;
    lemma_bitmask_len(child_key_mask(ch), 32768);
    lemma_bitmask_len(clear_mask(32768), 32768);
    assert forall|i: int| 0 <= i < ch.len() implies (#[trigger] node4_topology_seq(ch)[i]).len() <= 263169 by {
        let node = ch[i].1;
        lemma_bitmask_len(leaf_key_mask(node.leaves@), 4096);
        lemma_bitmask_len(clear_mask(4096), 4096);
        assert forall|j: int| 0 <= j < node.leaves.len() implies (#[trigger] leaf_mask_seq(node.leaves@)[j]).len() <= 64 by {
            lemma_bitmask_len(node.leaves@[j].1.active@, 512);
        }
        lemma_flatten_len_le(leaf_mask_seq(node.leaves@), 64);
        assert(node.leaves.len() <= 4096);
    }
    lemma_flatten_len_le(node4_topology_seq(ch), 263169);
    assert forall|i: int| 0 <= i < ch.len() implies (#[trigger] node4_data_seq(ch)[i]).len() <= 4096 * 2113 by {
        let node = ch[i].1;
        assert forall|j: int| 0 <= j < node.leaves.len() implies (#[trigger] leaf_data_seq(node.leaves@)[j]).len() <= 2113 by {
            let leaf = node.leaves@[j].1;
            lemma_bitmask_len(leaf.active@, 512);
            assert forall|k: int| 0 <= k < leaf_value_seq(leaf).len() implies (#[trigger] leaf_value_seq(leaf)[k]).len() <= 4 by {}
            lemma_flatten_len_le(leaf_value_seq(leaf), 4);
        }
        lemma_flatten_len_le(leaf_data_seq(node.leaves@), 2113);
        assert(node.leaves.len() <= 4096);
    }
    lemma_flatten_len_le(node4_data_seq(ch), 4096int * 2113);
}

/// Active voxel count never exceeds 512 per leaf.
proof fn lemma_count_bounded(tree: Node5Block)
    requires
        tree_shape_ok(tree),
        tree_counts_bounded(tree),
    ensures
        tree_active_count(tree) <= 32768 * 4096 * 512,
{
    let ch = tree.children@;
    assert forall|n: int| 0 <= n <= ch.len() implies #[trigger] children_active_count(ch, n) <= n * 4096 * 512 by {
        lemma_children_count_bounded(tree, n);
    }
    assert(children_active_count(ch, ch.len() as int) <= ch.len() * 4096 * 512);
}

proof fn lemma_count_true_bounded(s: Seq<bool>, n: int)
    requires
        0 <= n,
    ensures
        count_true(s, n) <= n,
    decreases n,
{
    if n > 0 {
        lemma_count_true_bounded(s, n - 1);
    }
}

proof fn lemma_leaves_count_bounded(leaves: Seq<(u32, LeafBlock)>, n: int)
    requires
        0 <= n <= leaves.len(),
        forall|j: int| 0 <= j < leaves.len() ==> (#[trigger] leaves[j]).1.active.len() == 512,
    ensures
        leaves_active_count(leaves, n) <= n * 512,
    decreases n,
{
    if n > 0 {
        lemma_leaves_count_bounded(leaves, n - 1);
        lemma_count_true_bounded(leaves[n - 1].1.active@, 512);
    }
}

proof fn lemma_children_count_bounded(tree: Node5Block, n: int)
    requires
        tree_shape_ok(tree),
        tree_counts_bounded(tree),
        0 <= n <= tree.children.len(),
    ensures
        children_active_count(tree.children@, n) <= n * 4096 * 512,
    decreases n,
{
    if n > 0 {
        lemma_children_count_bounded(tree, n - 1);
        let node = tree.children@[n - 1].1;
        assert forall|j: int| 0 <= j < node.leaves.len() implies (#[trigger] node.leaves@[j]).1.active.len() == 512 by {
            assert(tree.children@[n - 1].1.leaves@[j].1.active.len() == 512);
        }
        lemma_leaves_count_bounded(node.leaves@, node.leaves.len() as int);
        assert(node.leaves.len() <= 4096);
    }
}

/// The index bounding box recorded in the metadata: the active voxels' extremes, or the
/// empty box `[0, 0, 0]`..`[-1, -1, -1]`.
pub open spec fn recorded_bbox(tree: Node5Block) -> ([i32; 3], [i32; 3]) {
    if tree_active_count(tree) == 0 {
        ([0i32, 0i32, 0i32], [-1i32, -1i32, -1i32])
    } else {
        ([tree_extreme(tree, 0, false, i32::MAX as int) as i32, tree_extreme(tree, 1, false, i32::MAX as int) as i32,
            tree_extreme(tree, 2, false, i32::MAX as int) as i32],
         [tree_extreme(tree, 0, true, i32::MIN as int) as i32, tree_extreme(tree, 1, true, i32::MIN as int) as i32,
            tree_extreme(tree, 2, true, i32::MIN as int) as i32])
    }
}

/// Everything of the grid between its descriptor and its topology: the "active mask,
/// uncompressed" compression code `2`, the grid metadata and the transform.
pub open spec fn grid_prefix_bytes(grid_name: Seq<u8>, nx: int, ny: int, nz: int, bounds_min: [u64; 3],
    voxel_size: [u64; 3], tree: Node5Block) -> Seq<u8> {
    let count = tree_active_count(tree);
    le_u32(2) + grid_metadata_bytes(grid_name, recorded_bbox(tree).0, recorded_bbox(tree).1, count as i64,
        (count * 4 + 4096) as i64, [nx as u32, ny as u32, nz as u32]) + transform_bytes(bounds_min, voxel_size)
}

/// Offset of the grid (its prefix) in the file.
pub open spec fn vdb_grid_pos(grid_name: Seq<u8>) -> int {
    (archive_header_bytes().len() + grid_name.len() + GRID_TYPE.spec_bytes().len() + 36) as int
}

/// The whole `.vdb` file: archive header, grid descriptor whose three offsets point at the
/// grid prefix, the start of the leaf data and the end of the file, then prefix, topology and data.
pub open spec fn fog_grid_file_bytes(grid_name: Seq<u8>, nx: int, ny: int, nz: int, bounds_min: [u64; 3],
    voxel_size: [u64; 3], tree: Node5Block) -> Seq<u8> {
    let prefix = grid_prefix_bytes(grid_name, nx, ny, nz, bounds_min, voxel_size, tree);
    let topology = tree_topology_bytes(tree);
    let data = tree_data_bytes(tree);
    let grid_pos = vdb_grid_pos(grid_name);
    let block_pos = grid_pos + prefix.len() + topology.len();
    let end_pos = block_pos + data.len();
    archive_header_bytes() + grid_descriptor_bytes(grid_name, grid_pos as u64, block_pos as u64, end_pos as u64)
        + prefix + topology + data
}

/// The grid prefix (compression code, metadata, transform) of `tree`, and its active count.
#[verifier::spinoff_prover]
#[verifier::rlimit(50)]
fn encode_grid_prefix(grid_name: &str, nx: usize, ny: usize, nz: usize, bounds_min: [u64; 3],
    voxel_size: [u64; 3], tree: &Node5Block) -> (r: (Vec<u8>, u64))
    requires
        nx <= 4096, ny <= 4096, nz <= 4096,
        tree_shape_ok(*tree),
        tree_counts_bounded(*tree),
        tree_active_count(*tree) <= 32768 * 4096 * 512,
        grid_name.spec_bytes().len() <= 0x1_0000_0000_0000,
    ensures
        r.0@ == grid_prefix_bytes(grid_name.spec_bytes(), nx as int, ny as int, nz as int, bounds_min,
            voxel_size, *tree),
        r.0.len() <= 0x1_0000_0000_0000 + 0x1_0000,
        r.1 == tree_active_count(*tree),
{
    let (index_min, index_max, active_voxels) = tree_index_bounds(tree);
    let voxel_count = active_voxels as i64;
    let mem_bytes = (active_voxels * 4 + 4096) as i64;
    let mut grid_prefix: Vec<u8> = Vec::new();
    push_u32_le(&mut grid_prefix, 2);
    write_grid_metadata(&mut grid_prefix, grid_name, index_min, index_max, voxel_count, mem_bytes,
        [nx as u32, ny as u32, nz as u32]);
    write_transform(&mut grid_prefix, bounds_min, voxel_size);
    proof {
        assert(recorded_bbox(*tree).0 == index_min && recorded_bbox(*tree).1 == index_max);
        assert(grid_prefix@ =~= grid_prefix_bytes(grid_name.spec_bytes(), nx as int, ny as int, nz as int,
            bounds_min, voxel_size, *tree));
        lemma_grid_prefix_len(grid_name.spec_bytes(), nx as int, ny as int, nz as int, bounds_min, voxel_size, *tree);
    }
    (grid_prefix, active_voxels)
}

/// Archive header, grid descriptor and the three grid sections, with the descriptor's
/// offsets computed from the sections' lengths.
#[verifier::spinoff_prover]
fn assemble_vdb_file(grid_name: &str, prefix: &Vec<u8>, topology: &Vec<u8>, data: &Vec<u8>) -> (file: Vec<u8>)
    requires
        grid_name.spec_bytes().len() <= 0x1_0000_0000_0000,
        prefix.len() <= 0x1_0000_0000_0000 + 0x1_0000,
        topology.len() <= 0x100_0000_0000,
        data.len() <= 0x100_0000_0000,
    ensures
        ({
            let grid_pos = vdb_grid_pos(grid_name.spec_bytes());
            let block_pos = grid_pos + prefix.len() + topology.len();
            let end_pos = block_pos + data.len();
            file@ == archive_header_bytes() + grid_descriptor_bytes(grid_name.spec_bytes(), grid_pos as u64,
                block_pos as u64, end_pos as u64) + prefix@ + topology@ + data@
        }),
{
    proof {
        lemma_fixed_lengths();
    }
    let mut file: Vec<u8> = Vec::new();
    write_archive_header(&mut file);
    let grid_pos = file.len() as u64 + estimate_descriptor_size(grid_name);
    let block_pos = grid_pos + prefix.len() as u64 + topology.len() as u64;
    let end_pos = block_pos + data.len() as u64;
    write_grid_descriptor(&mut file, grid_name, grid_pos, block_pos, end_pos);
    push_bytes(&mut file, prefix.as_slice());
    push_bytes(&mut file, topology.as_slice());
    push_bytes(&mut file, data.as_slice());
    file
}

/// Encodes a dense `nx × ny × nz` grid of `f32` sample bit patterns (x fastest) as a fog
/// `.vdb` FloatGrid named `grid_name`, with the transform's translation and voxel size given
/// as `f64` bit patterns. Returns the file bytes and the export summary (`path` is recorded
/// as given; the caller writes the bytes there).
#[verifier::spinoff_prover]
#[verifier::rlimit(50)]
pub fn encode_openvdb_fog_grid(path: &str, grid_name: &str, nx: usize, ny: usize, nz: usize,
    bounds_min: [u64; 3], voxel_size: [u64; 3], density: &[u32], frame_index: usize)
    -> (r: (Vec<u8>, OpenVdbExportResult))
    requires
        nx <= 4096, ny <= 4096, nz <= 4096,
        nx * ny * nz <= usize::MAX,
        grid_name.spec_bytes().len() <= 0x1_0000_0000_0000,
    ensures
        exists|tree: Node5Block| #[trigger] tree_matches_dense(tree, nx as int, ny as int, nz as int, density@)
            && r.0@ == fog_grid_file_bytes(grid_name.spec_bytes(), nx as int, ny as int, nz as int,
                bounds_min, voxel_size, tree)
            && r.1.active_voxels == tree_active_count(tree),
        r.1.path@ == path@,
        r.1.grid_name@ == grid_name@,
        r.1.frame_index == frame_index as u32,
        r.1.byte_len == r.0.len(),
        r.1.format@ == OPENVDB_FOG_FORMAT@,
        r.1.resolution == [nx as u32, ny as u32, nz as u32],
{
    let tree = build_tree_from_dense(nx, ny, nz, density);
    proof {
        lemma_matching_tree_shape(tree, nx as int, ny as int, nz as int, density@);
        lemma_tree_bytes_bounded(tree);
        lemma_count_bounded(tree);
    }
    let (grid_prefix, active_voxels) = encode_grid_prefix(grid_name, nx, ny, nz, bounds_min, voxel_size, &tree);
    let mut topology: Vec<u8> = Vec::new();
    write_tree_topology(&mut topology, &tree);
    let mut data: Vec<u8> = Vec::new();
    write_tree_data(&mut data, &tree);
    let file = assemble_vdb_file(grid_name, &grid_prefix, &topology, &data);
    assert(file@ =~= fog_grid_file_bytes(grid_name.spec_bytes(), nx as int, ny as int, nz as int,
        bounds_min, voxel_size, tree));

    let byte_len = file.len();
    let result = OpenVdbExportResult {
        path: path.to_string(),
        grid_name: grid_name.to_string(),
        frame_index: frame_index as u32,
        byte_len,
        format: OPENVDB_FOG_FORMAT.to_string(),
        active_voxels,
        resolution: [nx as u32, ny as u32, nz as u32],
    };
    (file, result)
}

} // verus!

verus! {

proof fn lemma_ascii_bytes_len(s: &str)
    requires
        vstd::utf8::is_ascii_chars(s@),
    ensures
        s.spec_bytes().len() == s@.len(),
{
    vstd::utf8::is_ascii_chars_encode_utf8(s@);
}

#[verifier::spinoff_prover]
proof fn lemma_metadata_names_len()
    ensures
        "class".spec_bytes().len() == 5,
        "string".spec_bytes().len() == 6,
        "fog volume".spec_bytes().len() == 10,
        "file_bbox_min".spec_bytes().len() == 13,
        "vec3i".spec_bytes().len() == 5,
        "file_bbox_max".spec_bytes().len() == 13,
        "file_compression".spec_bytes().len() == 16,
        "active values".spec_bytes().len() == 13,
        "file_mem_bytes".spec_bytes().len() == 14,
        "int64".spec_bytes().len() == 5,
{
    reveal_strlit("class");
    lemma_ascii_bytes_len("class");
    reveal_strlit("string");
    lemma_ascii_bytes_len("string");
    reveal_strlit("fog volume");
    lemma_ascii_bytes_len("fog volume");
    reveal_strlit("file_bbox_min");
    lemma_ascii_bytes_len("file_bbox_min");
    reveal_strlit("vec3i");
    lemma_ascii_bytes_len("vec3i");
    reveal_strlit("file_bbox_max");
    lemma_ascii_bytes_len("file_bbox_max");
    reveal_strlit("file_compression");
    lemma_ascii_bytes_len("file_compression");
    reveal_strlit("active values");
    lemma_ascii_bytes_len("active values");
    reveal_strlit("file_mem_bytes");
    lemma_ascii_bytes_len("file_mem_bytes");
    reveal_strlit("int64");
    lemma_ascii_bytes_len("int64");
}

#[verifier::spinoff_prover]
proof fn lemma_metadata_values_len()
    ensures
        "file_voxel_count".spec_bytes().len() == 16,
        "is_saved_as_half_float".spec_bytes().len() == 22,
        "bool".spec_bytes().len() == 4,
        "name".spec_bytes().len() == 4,
        "float".spec_bytes().len() == 5,
        "value_type".spec_bytes().len() == 10,
        "elfentier_nx".spec_bytes().len() == 12,
        "int32".spec_bytes().len() == 5,
        "elfentier_ny".spec_bytes().len() == 12,
        "elfentier_nz".spec_bytes().len() == 12,
        "ScaleTranslateMap".spec_bytes().len() == 17,
{
    reveal_strlit("file_voxel_count");
    lemma_ascii_bytes_len("file_voxel_count");
    reveal_strlit("is_saved_as_half_float");
    lemma_ascii_bytes_len("is_saved_as_half_float");
    reveal_strlit("bool");
    lemma_ascii_bytes_len("bool");
    reveal_strlit("name");
    lemma_ascii_bytes_len("name");
    reveal_strlit("float");
    lemma_ascii_bytes_len("float");
    reveal_strlit("value_type");
    lemma_ascii_bytes_len("value_type");
    reveal_strlit("elfentier_nx");
    lemma_ascii_bytes_len("elfentier_nx");
    reveal_strlit("int32");
    lemma_ascii_bytes_len("int32");
    reveal_strlit("elfentier_ny");
    lemma_ascii_bytes_len("elfentier_ny");
    reveal_strlit("elfentier_nz");
    lemma_ascii_bytes_len("elfentier_nz");
    reveal_strlit("ScaleTranslateMap");
    lemma_ascii_bytes_len("ScaleTranslateMap");
}

/// The grid prefix is the grid name plus less than 4 KiB.
#[verifier::spinoff_prover]
proof fn lemma_grid_prefix_len(grid_name: Seq<u8>, nx: int, ny: int, nz: int, bounds_min: [u64; 3],
    voxel_size: [u64; 3], tree: Node5Block)
    ensures
        grid_prefix_bytes(grid_name, nx, ny, nz, bounds_min, voxel_size, tree).len() <= grid_name.len() + 4096,
{
    lemma_metadata_names_len();
    lemma_metadata_values_len();
}

proof fn lemma_fixed_lengths()
    ensures
        GRID_TYPE.spec_bytes().len() == 16,
        ARCHIVE_UUID.spec_bytes().len() == 36,
{
    reveal_strlit("Tree_float_5_4_3");
    lemma_ascii_bytes_len("Tree_float_5_4_3");
    reveal_strlit("00000000-0000-4000-8000-000000000001");
    lemma_ascii_bytes_len("00000000-0000-4000-8000-000000000001");
}

/// Whether `a` and `b` are equal when ASCII letters are compared without case.
pub open spec fn eq_ignore_ascii_case(a: Seq<char>, b: Seq<char>) -> bool {
    a.len() == b.len() && forall|i: int| 0 <= i < a.len() ==> ascii_lower(a[i]) == ascii_lower(b[i])
}

/// Whether `s` is a bare file name on every platform: no `/`, `\\` or `:` (no separator and no
/// drive prefix) and not `..`.
pub open spec fn is_plain_name(s: Seq<char>) -> bool {
    !s.contains('/') && !s.contains('\\') && !s.contains(':') && s != seq!['.', '.']
}

/// The index of the last `.` in `s` (-1 when there is none).
pub open spec fn last_dot(s: Seq<char>) -> int
    decreases s.len(),
{
    if s.len() == 0 {
        -1
    } else if s.last() == '.' {
        s.len() - 1
    } else {
        last_dot(s.drop_last())
    }
}

/// The index of the last `/` in `s` (-1 when there is none).
pub open spec fn last_slash(s: Seq<char>) -> int
    decreases s.len(),
{
    if s.len() == 0 {
        -1
    } else if s.last() == '/' {
        s.len() - 1
    } else {
        last_slash(s.drop_last())
    }
}

/// What follows the last `/` of `s` (all of `s` when it has none).
pub open spec fn final_segment(s: Seq<char>) -> Seq<char> {
    s.skip(last_slash(s) + 1)
}

/// Whether `s` is a `/`-separated path whose file name is its final segment on every
/// platform: no backslash, no drive or other `:` prefix, no leading `//` (a network share
/// on Windows), and a final segment that is not empty (unless the path is) and not `.`.
pub open spec fn names_final_segment(s: Seq<char>) -> bool {
    &&& !s.contains('\\') && !s.contains(':')
    &&& !(s.len() >= 2 && s[0] == '/' && s[1] == '/')
    &&& final_segment(s).len() > 0 || s.len() == 0
    &&& final_segment(s) != seq!['.']
}

/// The extension of the file name `s`: what follows its last `.`, when that `.` does not start
/// the name (`..` has none).
pub open spec fn name_extension(s: Seq<char>) -> Option<Seq<char>> {
    if last_dot(s) <= 0 || s == seq!['.', '.'] {
        None
    } else {
        Some(s.skip(last_dot(s) + 1))
    }
}

/// `std::path::Path::extension` of `path`, as text: the part of the file name after its last
/// `.`, if the file name has a `.` that does not start it. What is claimed of it holds on
/// every platform: an extension follows a `.` in `path` and holds no `.` itself, a path
/// without any `.` has none, a path that is a bare file name (no separator, no drive
/// prefix) is its own file name, and so is the final segment of a `/`-separated path
/// without backslashes, prefixes or a trailing `/` or `.`. Which component of any other
/// path is the file name (backslash separators, drive and share prefixes, trailing `/` and
/// `.` components) is left unsaid.
#[verifier::external_body]
fn path_extension(path: &str) -> (ext: Option<Vec<char>>)
    ensures
        ext matches Some(e) ==> has_text(path@, seq!['.'] + e@) && !e@.contains('.'),
        !path@.contains('.') ==> ext is None,
        is_plain_name(path@) ==> match ext {
            Some(e) => name_extension(path@) == Some(e@),
            None => name_extension(path@) is None,
        },
        names_final_segment(path@) ==> match ext {
            Some(e) => name_extension(final_segment(path@)) == Some(e@),
            None => name_extension(final_segment(path@)) is None,
        },
{
    std::path::Path::new(path).extension().and_then(|e| e.to_str()).map(|e| e.chars().collect())
}

/// Whether a file extension is `vdb`, in any letter case (`false` for no extension).
pub fn extension_is_vdb(ext: Option<&[char]>) -> (b: bool)
    ensures
        b == (ext matches Some(e) && eq_ignore_ascii_case(e@, VDB_EXTENSION@)),
{
    match ext {
        None => false,
        Some(e) => {
            let want = chars_of(VDB_EXTENSION);
            if e.len() != want.len() {
                return false;
            }
            let mut i: usize = 0;
            while i < e.len()
                invariant
                    ext == Some(e),
                    i <= e@.len(),
                    e@.len() == want@.len(),
                    want@ == VDB_EXTENSION@,
                    forall|j: int| 0 <= j < i ==> ascii_lower(#[trigger] e@[j]) == ascii_lower(want@[j]),
                decreases e.len() - i,
            {
                if char_ascii_lower(e[i]) != char_ascii_lower(want[i]) {
                    assert(!eq_ignore_ascii_case(e@, VDB_EXTENSION@));
                    return false;
                }
                i += 1;
            }
            true
        },
    }
}

/// Whether the extension of `path` is `vdb`, in any letter case. The extension comes from
/// `Path::extension`; whatever it is, the answer is that of [`extension_is_vdb`] on it: a
/// `vdb` path has `.vdb` (in some letter case) in it, a path without `.` is none, and a bare
/// file name, or a `/`-separated path by its final segment, is one exactly when what follows
/// the last (not leading) `.` of that name is `vdb`.
pub fn is_vdb_path(path: &str) -> (b: bool)
    ensures
        b ==> exists|e: Seq<char>| has_text(path@, seq!['.'] + e) && #[trigger] eq_ignore_ascii_case(e, VDB_EXTENSION@),
        !path@.contains('.') ==> !b,
        is_plain_name(path@) ==> (b <==> (name_extension(path@) matches Some(e) && eq_ignore_ascii_case(e, VDB_EXTENSION@))),
        names_final_segment(path@) ==> (b <==> (name_extension(final_segment(path@)) matches Some(e)
            && eq_ignore_ascii_case(e, VDB_EXTENSION@))),
{
    let ext = path_extension(path);
    match ext {
        None => extension_is_vdb(None),
        Some(e) => extension_is_vdb(Some(e.as_slice())),
    }
}

/// Splitting a packed child offset gives back its local coordinates, and packing the split
/// coordinates of an offset gives back the offset.
pub proof fn lemma_offset_round_trip(x: int, y: int, z: int, o: int, d: u32)
    requires
        d == 3 || d == 4 || d == 5,
        0 <= x < pow2_dim(d),
        0 <= y < pow2_dim(d),
        0 <= z < pow2_dim(d),
        0 <= o < pow2_dim(d) * pow2_dim(d) * pow2_dim(d),
    ensures
        ({
            let n = pow2_dim(d);
            let p = packed_offset(x, y, z, d);
            &&& 0 <= p < n * n * n
            &&& p / (n * n) == x
            &&& (p / n) % n == y
            &&& p % n == z
            &&& packed_offset(o / (n * n), (o / n) % n, o % n, d) == o
        }),
{
    if d == 3 {
        lemma_offset_round_trip_n(x, y, z, o, 8);
    } else if d == 4 {
        lemma_offset_round_trip_n(x, y, z, o, 16);
    } else {
        lemma_offset_round_trip_n(x, y, z, o, 32);
    }
}

proof fn lemma_offset_round_trip_n(x: int, y: int, z: int, o: int, n: int)
    requires
        n == 8 || n == 16 || n == 32,
        0 <= x < n,
        0 <= y < n,
        0 <= z < n,
        0 <= o < n * n * n,
    ensures
        0 <= x * n * n + y * n + z < n * n * n,
        (x * n * n + y * n + z) / (n * n) == x,
        ((x * n * n + y * n + z) / n) % n == y,
        (x * n * n + y * n + z) % n == z,
        (o / (n * n)) * n * n + ((o / n) % n) * n + o % n == o,
{
    let q = x * n + y;
    let p = x * n * n + y * n + z;
    assert(p == q * n + z) by (nonlinear_arith)
        requires q == x * n + y, p == x * n * n + y * n + z;
    assert(0 <= q < n * n) by (nonlinear_arith)
        requires q == x * n + y, 0 <= x < n, 0 <= y < n;
    assert(0 <= p < n * n * n) by (nonlinear_arith)
        requires p == q * n + z, 0 <= q < n * n, 0 <= z < n;
    vstd::arithmetic::div_mod::lemma_fundamental_div_mod_converse(p, n, q, z);
    vstd::arithmetic::div_mod::lemma_fundamental_div_mod_converse(q, n, x, y);
    vstd::arithmetic::div_mod::lemma_div_denominator(p, n, n);
    let a = o / n;
    let b = a / n;
    vstd::arithmetic::div_mod::lemma_fundamental_div_mod(o, n);
    vstd::arithmetic::div_mod::lemma_fundamental_div_mod(a, n);
    vstd::arithmetic::div_mod::lemma_div_denominator(o, n, n);
    assert(b * n * n + (a % n) * n + o % n == o) by (nonlinear_arith)
        requires o == n * a + o % n, a == n * b + a % n;
}

} // verus!

verus! {

/// The fields of the transform: its name, the translation, the scale and the voxel size.
proof fn lemma_transform_fields(bounds_min: [u64; 3], voxel_size: [u64; 3])
    ensures
        transform_bytes(bounds_min, voxel_size).len() == 165,
        transform_bytes(bounds_min, voxel_size).subrange(0, 21) == le_u32(17) + "ScaleTranslateMap".spec_bytes(),
        transform_bytes(bounds_min, voxel_size).subrange(21, 45) == f64x3_bytes(bounds_min),
        transform_bytes(bounds_min, voxel_size).subrange(45, 69) == f64x3_bytes([F64_ONE_BITS, F64_ONE_BITS, F64_ONE_BITS]),
        transform_bytes(bounds_min, voxel_size).subrange(69, 93) == f64x3_bytes(voxel_size),
{
    lemma_metadata_names_len();
    let tr = transform_bytes(bounds_min, voxel_size);
    let name = le_u32(17) + "ScaleTranslateMap".spec_bytes();
    let ones = [F64_ONE_BITS, F64_ONE_BITS, F64_ONE_BITS];
    let halves = [F64_HALF_BITS, F64_HALF_BITS, F64_HALF_BITS];
    reveal_strlit("ScaleTranslateMap");
    lemma_ascii_bytes_len("ScaleTranslateMap");
    assert("ScaleTranslateMap".spec_bytes().len() == 17);
    assert(le_u32(17) + "ScaleTranslateMap".spec_bytes() == name);
    assert(name_bytes("ScaleTranslateMap".spec_bytes()) == name);
    assert(name.len() == 21);
    assert(tr =~= name + f64x3_bytes(bounds_min) + f64x3_bytes(ones) + f64x3_bytes(voxel_size) + f64x3_bytes(ones)
        + f64x3_bytes(ones) + f64x3_bytes(halves));
    assert(tr.subrange(0, 21) =~= name);
    assert(tr.subrange(21, 45) =~= f64x3_bytes(bounds_min));
    assert(tr.subrange(45, 69) =~= f64x3_bytes(ones));
    assert(tr.subrange(69, 93) =~= f64x3_bytes(voxel_size));
}

/// A slice of the middle part of `a + m + z` is the slice of `m`.
proof fn lemma_middle_slice(a: Seq<u8>, m: Seq<u8>, z: Seq<u8>, i: int, j: int)
    requires
        0 <= i <= j <= m.len(),
    ensures
        (a + m + z).subrange(a.len() + i, a.len() + j) == m.subrange(i, j),
{
    assert((a + m + z).subrange(a.len() + i, a.len() + j) =~= m.subrange(i, j));
}

/// Regrouping the parts of the file around the transform.
proof fn lemma_regroup(h: Seq<u8>, d: Seq<u8>, c: Seq<u8>, meta: Seq<u8>, tr: Seq<u8>, top: Seq<u8>, data: Seq<u8>)
    ensures
        h + d + (c + meta + tr) + top + data == (h + d + c + meta) + tr + (top + data),
{
    assert(h + d + (c + meta + tr) + top + data =~= (h + d + c + meta) + tr + (top + data));
}

/// The written fog file places the grid at `bounds_min` with the given voxel size: somewhere
/// in it stands the transform name `ScaleTranslateMap`, directly followed by the three `f64`
/// of `bounds_min` (the translation), a unit scale, and then the three `f64` of `voxel_size`.
#[verifier::spinoff_prover]
pub proof fn lemma_fog_file_transform(grid_name: Seq<u8>, nx: int, ny: int, nz: int, bounds_min: [u64; 3],
    voxel_size: [u64; 3], tree: Node5Block)
    ensures
        ({
            let file = fog_grid_file_bytes(grid_name, nx, ny, nz, bounds_min, voxel_size, tree);
            exists|t: int| #![trigger file.subrange(t, t + 21)]
                0 <= t && t + 165 <= file.len()
                && file.subrange(t, t + 21) == le_u32(17) + "ScaleTranslateMap".spec_bytes()
                && file.subrange(t + 21, t + 45) == le_u64(bounds_min[0]) + le_u64(bounds_min[1]) + le_u64(bounds_min[2])
                && file.subrange(t + 45, t + 69) == le_u64(F64_ONE_BITS) + le_u64(F64_ONE_BITS) + le_u64(F64_ONE_BITS)
                && file.subrange(t + 69, t + 93) == le_u64(voxel_size[0]) + le_u64(voxel_size[1]) + le_u64(voxel_size[2])
        }),
{
    let file = fog_grid_file_bytes(grid_name, nx, ny, nz, bounds_min, voxel_size, tree);
    let prefix = grid_prefix_bytes(grid_name, nx, ny, nz, bounds_min, voxel_size, tree);
    let topology = tree_topology_bytes(tree);
    let data = tree_data_bytes(tree);
    let grid_pos = vdb_grid_pos(grid_name);
    let block_pos = grid_pos + prefix.len() + topology.len();
    let end_pos = block_pos + data.len();
    let count = tree_active_count(tree);
    let h = archive_header_bytes();
    let d = grid_descriptor_bytes(grid_name, grid_pos as u64, block_pos as u64, end_pos as u64);
    let meta = grid_metadata_bytes(grid_name, recorded_bbox(tree).0, recorded_bbox(tree).1, count as i64,
        (count * 4 + 4096) as i64, [nx as u32, ny as u32, nz as u32]);
    let tr = transform_bytes(bounds_min, voxel_size);
    assert(prefix == le_u32(2) + meta + tr);
    assert(file == h + d + prefix + topology + data);
    lemma_regroup(h, d, le_u32(2), meta, tr, topology, data);
    let head = h + d + le_u32(2) + meta;
    let t = head.len() as int;
    lemma_transform_fields(bounds_min, voxel_size);
    lemma_middle_slice(head, tr, topology + data, 0, 21);
    lemma_middle_slice(head, tr, topology + data, 21, 45);
    lemma_middle_slice(head, tr, topology + data, 45, 69);
    lemma_middle_slice(head, tr, topology + data, 69, 93);
    assert(file.subrange(t, t + 21) == le_u32(17) + "ScaleTranslateMap".spec_bytes());
}

} // verus!
