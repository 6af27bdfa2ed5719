//! GPU-friendly 3D volume texture files (`elfentier_volume_texture_v1`, `.evol`).
//!
//! A 52-byte little-endian header (magic `EFVT`, version, resolution, frame count, channel
//! count, bounds) followed by the `f32` samples of every frame, x fastest. Samples and
//! bounds are carried as their IEEE-754 bit patterns.

use crate::export::{lemma_u32s_le_len, push_u32s_le, u32s_le};
use crate::le_bytes::{le_u32, lemma_u32_le_roundtrip, push_u32_le, read_u32_le_at, u32_of_le};
use vstd::prelude::*;

verus! {

/// Binary format identifier for 3D volume textures.
pub const VOLUME_TEXTURE_FORMAT: &'static str = "elfentier_volume_texture_v1";

/// File extension recommended for volume texture payloads.
pub const VOLUME_TEXTURE_EXTENSION: &'static str = "evol";

/// The format version written and accepted.
pub const VERSION: u32 = 1;

/// Byte length of the header.
pub const HEADER_SIZE: usize = 52;

/// The magic `EFVT` read as a little-endian `u32`.
pub const MAGIC_WORD: u32 = 0x5456_4645;

/// Parsed header of a volume texture file (data follows immediately after).
#[derive(Debug, Clone, Copy, PartialEq, Eq)]
pub struct VolumeTextureHeader {
    pub nx: u32,
    pub ny: u32,
    pub nz: u32,
    pub frame_count: u32,
    pub channels: u32,
    /// Minimum corner of the bounds (`f32` bits).
    pub bounds_min: [u32; 3],
    /// Maximum corner of the bounds (`f32` bits).
    pub bounds_max: [u32; 3],
}

/// Why a volume texture could not be read.
#[derive(Debug, Clone, Copy, PartialEq, Eq, Structural)]
pub enum VolumeTextureError {
    /// The data ended before the header or the requested frame.
    UnexpectedEof,
    /// The file does not start with `EFVT`.
    InvalidMagic,
    /// The file has another format version.
    UnsupportedVersion(u32),
    /// The requested frame index is not below the frame count.
    FrameOutOfRange,
}

/// Result of writing a volume texture file.
#[derive(Debug, Clone, PartialEq, Eq)]
pub struct VolumeTextureExportResult {
    pub path: String,
    pub frame_count: u32,
    pub byte_len: usize,
    pub format: String,
    pub resolution: [u32; 3],
}

impl VolumeTextureHeader {
    /// Voxels per channel of one frame.
    pub open spec fn spec_voxel_count(&self) -> int {
        self.nx * self.ny * self.nz
    }

    /// Samples in one frame.
    pub open spec fn spec_frame_voxel_count(&self) -> int {
        self.spec_voxel_count() * self.channels
    }

    /// Bytes of sample data over all frames.
    pub open spec fn spec_data_byte_len(&self) -> int {
        self.spec_frame_voxel_count() * self.frame_count * 4
    }

    /// Voxels per channel of one frame, `nx * ny * nz`.
    pub fn voxel_count(&self) -> (n: usize)
        requires
            self.nx * self.ny <= usize::MAX,
            self.spec_voxel_count() <= usize::MAX,
        ensures
            n == self.spec_voxel_count(),
    {
        self.nx as usize * self.ny as usize * self.nz as usize
    }

    /// Samples in one frame, `voxel_count() * channels`.
    pub fn frame_voxel_count(&self) -> (n: usize)
        requires
            self.nx * self.ny <= usize::MAX,
            self.spec_voxel_count() <= usize::MAX,
            self.spec_frame_voxel_count() <= usize::MAX,
        ensures
            n == self.spec_frame_voxel_count(),
    {
        self.voxel_count() * self.channels as usize
    }

    /// Bytes of sample data over all frames, `frame_voxel_count() * frame_count * 4`.
    pub fn data_byte_len(&self) -> (n: usize)
        requires
            self.nx * self.ny <= usize::MAX,
            self.spec_voxel_count() <= usize::MAX,
            self.spec_frame_voxel_count() <= usize::MAX,
            self.spec_frame_voxel_count() * self.frame_count <= usize::MAX,
            self.spec_data_byte_len() <= usize::MAX,
        ensures
            n == self.spec_data_byte_len(),
    {
        self.frame_voxel_count() * self.frame_count as usize * 4
    }
}

/// The 52 header bytes of `h`.
pub open spec fn header_bytes(h: VolumeTextureHeader) -> Seq<u8> {
    le_u32(MAGIC_WORD) + le_u32(VERSION) + le_u32(h.nx) + le_u32(h.ny) + le_u32(h.nz)
        + le_u32(h.frame_count) + le_u32(h.channels)
        + le_u32(h.bounds_min[0]) + le_u32(h.bounds_min[1]) + le_u32(h.bounds_min[2])
        + le_u32(h.bounds_max[0]) + le_u32(h.bounds_max[1]) + le_u32(h.bounds_max[2])
}

/// The little-endian `u32` at byte `at` of `b`.
pub open spec fn u32_at(b: Seq<u8>, at: int) -> u32 {
    u32_of_le(b[at], b[at + 1], b[at + 2], b[at + 3])
}

/// The header stored in the first 52 bytes of `b`, field by field.
pub open spec fn header_at(b: Seq<u8>) -> VolumeTextureHeader {
    VolumeTextureHeader {
        nx: u32_at(b, 8),
        ny: u32_at(b, 12),
        nz: u32_at(b, 16),
        frame_count: u32_at(b, 20),
        channels: u32_at(b, 24),
        bounds_min: [u32_at(b, 28), u32_at(b, 32), u32_at(b, 36)],
        bounds_max: [u32_at(b, 40), u32_at(b, 44), u32_at(b, 48)],
    }
}

/// What reading a header from `b` gives: too few bytes for the magic, a wrong magic, too
/// few bytes for the version, a wrong version, too few bytes for the fields, or the header.
pub open spec fn parse_header(b: Seq<u8>) -> Result<VolumeTextureHeader, VolumeTextureError> {
    if b.len() < 4 {
        Err(VolumeTextureError::UnexpectedEof)
    } else if b.subrange(0, 4) != le_u32(MAGIC_WORD) {
        Err(VolumeTextureError::InvalidMagic)
    } else if b.len() < 8 {
        Err(VolumeTextureError::UnexpectedEof)
    } else if u32_at(b, 4) != VERSION {
        Err(VolumeTextureError::UnsupportedVersion(u32_at(b, 4)))
    } else if b.len() < 52 {
        Err(VolumeTextureError::UnexpectedEof)
    } else {
        Ok(header_at(b))
    }
}

/// Appends the header bytes of `h`.
pub fn write_header(out: &mut Vec<u8>, h: &VolumeTextureHeader)
    ensures
        final(out)@ == old(out)@ + header_bytes(*h),
{
    push_u32_le(out, MAGIC_WORD);
    push_u32_le(out, VERSION);
    push_u32_le(out, h.nx);
    push_u32_le(out, h.ny);
    push_u32_le(out, h.nz);
    push_u32_le(out, h.frame_count);
    push_u32_le(out, h.channels);
    push_u32_le(out, h.bounds_min[0]);
    push_u32_le(out, h.bounds_min[1]);
    push_u32_le(out, h.bounds_min[2]);
    push_u32_le(out, h.bounds_max[0]);
    push_u32_le(out, h.bounds_max[1]);
    push_u32_le(out, h.bounds_max[2]);
    assert(out@ =~= old(out)@ + header_bytes(*h));
}

/// Reads the header at the start of `bytes`.
pub fn read_header(bytes: &[u8]) -> (r: Result<VolumeTextureHeader, VolumeTextureError>)
    ensures
        r == parse_header(bytes@),
{
    if bytes.len() < 4 {
        return Err(VolumeTextureError::UnexpectedEof);
    }
    proof {
        lemma_u32_le_roundtrip(MAGIC_WORD);
        lemma_le_bytes_eq(bytes@.subrange(0, 4));
    }
    if !(bytes[0] == 0x45 && bytes[1] == 0x46 && bytes[2] == 0x56 && bytes[3] == 0x54) {
        assert(bytes@.subrange(0, 4) != le_u32(MAGIC_WORD)) by {
            lemma_magic_bytes();
            if bytes@.subrange(0, 4) == le_u32(MAGIC_WORD) {
                assert(bytes@[0] == bytes@.subrange(0, 4)[0]);
                assert(bytes@[1] == bytes@.subrange(0, 4)[1]);
                assert(bytes@[2] == bytes@.subrange(0, 4)[2]);
                assert(bytes@[3] == bytes@.subrange(0, 4)[3]);
            }
        }
        return Err(VolumeTextureError::InvalidMagic);
    }
    assert(bytes@.subrange(0, 4) == le_u32(MAGIC_WORD)) by {
        lemma_magic_bytes();
        assert(bytes@.subrange(0, 4) =~= seq![0x45u8, 0x46u8, 0x56u8, 0x54u8]);
    }
    if bytes.len() < 8 {
        return Err(VolumeTextureError::UnexpectedEof);
    }
    let version = read_u32_le_at(bytes, 4);
    if version != VERSION {
        return Err(VolumeTextureError::UnsupportedVersion(version));
    }
    if bytes.len() < 52 {
        return Err(VolumeTextureError::UnexpectedEof);
    }
    Ok(VolumeTextureHeader {
        nx: read_u32_le_at(bytes, 8),
        ny: read_u32_le_at(bytes, 12),
        nz: read_u32_le_at(bytes, 16),
        frame_count: read_u32_le_at(bytes, 20),
        channels: read_u32_le_at(bytes, 24),
        bounds_min: [read_u32_le_at(bytes, 28), read_u32_le_at(bytes, 32), read_u32_le_at(bytes, 36)],
        bounds_max: [read_u32_le_at(bytes, 40), read_u32_le_at(bytes, 44), read_u32_le_at(bytes, 48)],
    })
}

/// The magic word is stored as the bytes `E F V T`.
proof fn lemma_magic_bytes()
    ensures
        le_u32(MAGIC_WORD) == seq![0x45u8, 0x46u8, 0x56u8, 0x54u8],
{
    assert(0x5456_4645u32 as u8 == 0x45u8 && (0x5456_4645u32 >> 8u32) as u8 == 0x46u8
        && (0x5456_4645u32 >> 16u32) as u8 == 0x56u8 && (0x5456_4645u32 >> 24u32) as u8 == 0x54u8)
        by (bit_vector);
    assert(le_u32(MAGIC_WORD) =~= seq![0x45u8, 0x46u8, 0x56u8, 0x54u8]);
}

proof fn lemma_le_bytes_eq(s: Seq<u8>)
    requires
        s.len() == 4,
    ensures
        s == seq![s[0], s[1], s[2], s[3]],
{
    assert(s =~= seq![s[0], s[1], s[2], s[3]]);
}

proof fn lemma_field_at(b: Seq<u8>, at: int, v: u32)
    requires
        0 <= at,
        at + 4 <= b.len(),
        b.subrange(at, at + 4) == le_u32(v),
    ensures
        u32_at(b, at) == v,
{
    lemma_u32_le_roundtrip(v);
    assert(b[at] == b.subrange(at, at + 4)[0]);
    assert(b[at + 1] == b.subrange(at, at + 4)[1]);
    assert(b[at + 2] == b.subrange(at, at + 4)[2]);
    assert(b[at + 3] == b.subrange(at, at + 4)[3]);
}

/// Reading the header of bytes that start with a written header gives that header back.
pub proof fn lemma_header_round_trip(h: VolumeTextureHeader, rest: Seq<u8>)
    ensures
        parse_header(header_bytes(h) + rest) == Ok::<VolumeTextureHeader, VolumeTextureError>(h),
{
    let b = header_bytes(h) + rest;
    let fields = seq![MAGIC_WORD, VERSION, h.nx, h.ny, h.nz, h.frame_count, h.channels,
        h.bounds_min[0], h.bounds_min[1], h.bounds_min[2], h.bounds_max[0], h.bounds_max[1], h.bounds_max[2]];
    assert(b.subrange(0, 4) =~= le_u32(fields[0]));
    lemma_field_at(b, 0, fields[0]);
    assert(b.subrange(4, 8) =~= le_u32(fields[1]));
    lemma_field_at(b, 4, fields[1]);
    assert(b.subrange(8, 12) =~= le_u32(fields[2]));
    lemma_field_at(b, 8, fields[2]);
    assert(b.subrange(12, 16) =~= le_u32(fields[3]));
    lemma_field_at(b, 12, fields[3]);
    assert(b.subrange(16, 20) =~= le_u32(fields[4]));
    lemma_field_at(b, 16, fields[4]);
    assert(b.subrange(20, 24) =~= le_u32(fields[5]));
    lemma_field_at(b, 20, fields[5]);
    assert(b.subrange(24, 28) =~= le_u32(fields[6]));
    lemma_field_at(b, 24, fields[6]);
    assert(b.subrange(28, 32) =~= le_u32(fields[7]));
    lemma_field_at(b, 28, fields[7]);
    assert(b.subrange(32, 36) =~= le_u32(fields[8]));
    lemma_field_at(b, 32, fields[8]);
    assert(b.subrange(36, 40) =~= le_u32(fields[9]));
    lemma_field_at(b, 36, fields[9]);
    assert(b.subrange(40, 44) =~= le_u32(fields[10]));
    lemma_field_at(b, 40, fields[10]);
    assert(b.subrange(44, 48) =~= le_u32(fields[11]));
    lemma_field_at(b, 44, fields[11]);
    assert(b.subrange(48, 52) =~= le_u32(fields[12]));
    lemma_field_at(b, 48, fields[12]);
    assert(b.subrange(0, 4) =~= le_u32(MAGIC_WORD));
    let g = header_at(b);
    assert(g.bounds_min =~= h.bounds_min);
    assert(g.bounds_max =~= h.bounds_max);
    assert(g == h);
}


/// The sample bytes of all frames, in order.
pub open spec fn frames_bytes(frames: Seq<Seq<u32>>) -> Seq<u8>
    decreases frames.len(),
{
    if frames.len() == 0 {
        Seq::empty()
    } else {
        frames_bytes(frames.drop_last()) + u32s_le(frames.last())
    }
}

/// The header an export of `frames` at `resolution` writes: one channel, at least one frame.
pub open spec fn export_header(resolution: [u32; 3], bounds_min: [u32; 3], bounds_max: [u32; 3],
    frame_count: nat) -> VolumeTextureHeader {
    VolumeTextureHeader {
        nx: resolution[0],
        ny: resolution[1],
        nz: resolution[2],
        frame_count: (if frame_count == 0 { 1 } else { frame_count }) as u32,
        channels: 1,
        bounds_min,
        bounds_max,
    }
}

/// The file an export writes: its header, then every frame's samples, or one frame of
/// zeros when there are no frames.
pub open spec fn volume_texture_file(h: VolumeTextureHeader, frames: Seq<Seq<u32>>) -> Seq<u8> {
    header_bytes(h) + if frames.len() == 0 {
        Seq::new((4 * h.spec_frame_voxel_count()) as nat, |i: int| 0u8)
    } else {
        frames_bytes(frames)
    }
}

/// Encodes smoke density frames (`f32` bits, x fastest) at `resolution` as a volume texture
/// file; `path` is recorded as given and the caller writes the bytes there. The reported byte
/// length is the header plus `frame_count` frames of `nx * ny * nz` samples.
pub fn encode_volume_texture(path: &str, resolution: [u32; 3], bounds_min: [u32; 3], bounds_max: [u32; 3],
    frames: &Vec<Vec<u32>>) -> (r: (Vec<u8>, VolumeTextureExportResult))
    requires
        ({
            let h = export_header(resolution, bounds_min, bounds_max, frames.len() as nat);
            &&& resolution[0] * resolution[1] <= usize::MAX
            &&& h.spec_voxel_count() <= usize::MAX
            &&& h.spec_voxel_count() * h.frame_count <= usize::MAX
            &&& HEADER_SIZE + h.spec_data_byte_len() <= usize::MAX
        }),
    ensures
        ({
            let h = export_header(resolution, bounds_min, bounds_max, frames.len() as nat);
            &&& r.0@ == volume_texture_file(h, frames@.map_values(|f: Vec<u32>| f@))
            &&& r.1.path@ == path@
            &&& r.1.frame_count == h.frame_count
            &&& r.1.byte_len == HEADER_SIZE + h.spec_data_byte_len()
            &&& r.1.format@ == VOLUME_TEXTURE_FORMAT@
            &&& r.1.resolution == resolution
        }),
{
    let frame_count: u32 = if frames.len() == 0 { 1 } else { frames.len() as u32 };
    let header = VolumeTextureHeader {
        nx: resolution[0],
        ny: resolution[1],
        nz: resolution[2],
        frame_count,
        channels: 1,
        bounds_min,
        bounds_max,
    };
    let ghost h = export_header(resolution, bounds_min, bounds_max, frames.len() as nat);
    assert(header == h);
    assert(h.spec_frame_voxel_count() == h.spec_voxel_count()) by (nonlinear_arith)
        requires h.channels == 1, h.spec_frame_voxel_count() == h.spec_voxel_count() * h.channels;
    assert(h.spec_voxel_count() >= 0) by (nonlinear_arith)
        requires h.spec_voxel_count() == h.nx * h.ny * h.nz, h.nx >= 0, h.ny >= 0, h.nz >= 0;
    let ghost fs = frames@.map_values(|f: Vec<u32>| f@);
    let mut out: Vec<u8> = Vec::new();
    write_header(&mut out, &header);
    if frames.len() == 0 {
        assert(h.spec_data_byte_len() == h.spec_frame_voxel_count() * 4) by (nonlinear_arith)
            requires h.frame_count == 1, h.spec_data_byte_len() == h.spec_frame_voxel_count() * h.frame_count * 4;
        let n = header.frame_voxel_count() * 4;
        let mut k: usize = 0;
        while k < n
            invariant
                k <= n,
                n == 4 * h.spec_frame_voxel_count(),
                out@ == header_bytes(h) + Seq::new(k as nat, |i: int| 0u8),
            decreases n - k,
        {
            out.push(0u8);
            assert(out@ =~= header_bytes(h) + Seq::new((k + 1) as nat, |i: int| 0u8));
            k += 1;
        }
    } else {
        let mut f: usize = 0;
        while f < frames.len()
            invariant
                f <= frames.len(),
                fs == frames@.map_values(|v: Vec<u32>| v@),
                out@ == header_bytes(h) + frames_bytes(fs.take(f as int)),
            decreases frames.len() - f,
        {
            push_u32s_le(&mut out, frames[f].as_slice());
            assert(fs.take(f + 1).drop_last() =~= fs.take(f as int));
            assert(fs.take(f + 1).last() == frames@[f as int]@);
            f += 1;
        }
        assert(fs.take(frames.len() as int) =~= fs);
    }
    let byte_len = HEADER_SIZE + header.data_byte_len();
    let result = VolumeTextureExportResult {
        path: path.to_string(),
        frame_count,
        byte_len,
        format: VOLUME_TEXTURE_FORMAT.to_string(),
        resolution,
    };
    (out, result)
}

/// The `n` little-endian `u32` words stored from byte `at` of `b`.
pub open spec fn words_at(b: Seq<u8>, at: int, n: nat) -> Seq<u32> {
    Seq::new(n, |i: int| u32_at(b, at + 4 * i))
}

/// What reading frame `frame_index` from the file bytes `b` gives: the header's error, an
/// out-of-range index, data ending before the frame, or the frame's samples (`f32` bits).
pub open spec fn parse_frame(b: Seq<u8>, frame_index: u32) -> Result<Seq<u32>, VolumeTextureError> {
    match parse_header(b) {
        Err(e) => Err(e),
        Ok(h) => {
            let count = h.spec_frame_voxel_count();
            let offset = HEADER_SIZE + frame_index * (4 * count);
            if frame_index >= h.frame_count {
                Err(VolumeTextureError::FrameOutOfRange)
            } else if offset + 4 * count > b.len() {
                Err(VolumeTextureError::UnexpectedEof)
            } else {
                Ok(words_at(b, offset, count as nat))
            }
        },
    }
}

/// Reads all samples of one frame (channel-major, x fastest) from the bytes of a volume
/// texture file.
pub fn read_volume_texture_frame(bytes: &[u8], frame_index: u32) -> (r: Result<Vec<u32>, VolumeTextureError>)
    ensures
        match (r, parse_frame(bytes@, frame_index)) {
            (Ok(v), Ok(w)) => v@ == w,
            (Err(e), Err(f)) => e == f,
            _ => false,
        },
{
    let header = match read_header(bytes) {
        Ok(h) => h,
        Err(e) => return Err(e),
    };
    if frame_index >= header.frame_count {
        return Err(VolumeTextureError::FrameOutOfRange);
    }
    let ghost count = header.spec_frame_voxel_count();
    let blen = bytes.len();
    proof {
        vstd::arithmetic::mul::lemma_mul_nonnegative(header.nx as int, header.ny as int);
        vstd::arithmetic::mul::lemma_mul_nonnegative(header.nx as int * header.ny as int, header.nz as int);
        vstd::arithmetic::mul::lemma_mul_nonnegative(header.spec_voxel_count(), header.channels as int);
        vstd::arithmetic::mul::lemma_mul_nonnegative(frame_index as int, 4 * count);
    }
    assert(count >= 0);
    let n = match checked_frame_samples(&header) {
        Some(n) => n,
        None => {
            assert(HEADER_SIZE + frame_index * (4 * count) + 4 * count > blen);
            return Err(VolumeTextureError::UnexpectedEof);
        },
    };
    let frame_bytes = match n.checked_mul(4) {
        Some(v) => v,
        None => {
            assert(HEADER_SIZE + frame_index * (4 * count) + 4 * count > blen);
            return Err(VolumeTextureError::UnexpectedEof);
        },
    };
    let skip = match (frame_index as usize).checked_mul(frame_bytes) {
        Some(v) => v,
        None => {
            return Err(VolumeTextureError::UnexpectedEof);
        },
    };
    if skip > bytes.len() || bytes.len() - skip < HEADER_SIZE || bytes.len() - skip - HEADER_SIZE < frame_bytes {
        return Err(VolumeTextureError::UnexpectedEof);
    }
    let offset = HEADER_SIZE + skip;
    let mut out: Vec<u32> = Vec::new();
    let mut i: usize = 0;
    while i < n
        invariant
            i <= n,
            n == count,
            blen == bytes@.len(),
            offset + 4 * n <= blen,
            out@ == words_at(bytes@, offset as int, i as nat),
        decreases n - i,
    {
        let w = read_u32_le_at(bytes, offset + 4 * i);
        out.push(w);
        assert(out@ =~= words_at(bytes@, offset as int, (i + 1) as nat));
        i += 1;
    }
    Ok(out)
}

/// `nx * ny * nz * channels` of `h`, or `None` when it does not fit in `usize`.
fn checked_frame_samples(h: &VolumeTextureHeader) -> (r: Option<usize>)
    ensures
        r matches Some(n) ==> n == h.spec_frame_voxel_count(),
        r is None ==> h.spec_frame_voxel_count() > usize::MAX,
{
    proof {
        vstd::arithmetic::mul::lemma_mul_nonnegative(h.nx as int, h.ny as int);
    }
    let xy = match (h.nx as usize).checked_mul(h.ny as usize) {
        Some(v) => v,
        None => {
            proof {
                lemma_product_overflow(h.nx as int * h.ny as int, h.nz as int, h.channels as int);
            }
            if h.nz == 0 || h.channels == 0 {
                return Some(0);
            }
            return None;
        },
    };
    let xyz = match xy.checked_mul(h.nz as usize) {
        Some(v) => v,
        None => {
            proof {
                lemma_product_overflow(xy as int * h.nz as int, h.channels as int, 1);
            }
            if h.channels == 0 {
                return Some(0);
            }
            return None;
        },
    };
    match xyz.checked_mul(h.channels as usize) {
        Some(v) => Some(v),
        None => None,
    }
}

/// A product over `usize::MAX` stays over it when multiplied by positive factors, and any
/// product with a zero factor is zero.
proof fn lemma_product_overflow(a: int, b: int, c: int)
    requires
        a >= 0,
        b >= 0,
        c >= 0,
    ensures
        a > usize::MAX && b >= 1 && c >= 1 ==> a * b * c > usize::MAX,
        b == 0 || c == 0 ==> a * b * c == 0,
{
    if a > usize::MAX && b >= 1 && c >= 1 {
        vstd::arithmetic::mul::lemma_mul_inequality(1, b, a);
        vstd::arithmetic::mul::lemma_mul_nonnegative(a, b);
        vstd::arithmetic::mul::lemma_mul_inequality(1, c, a * b);
    }
    if b == 0 || c == 0 {
        vstd::arithmetic::mul::lemma_mul_by_zero_is_zero(a);
        vstd::arithmetic::mul::lemma_mul_by_zero_is_zero(a * b);
        assert(a * 0 == 0 && (a * b) * 0 == 0) by (nonlinear_arith);
    }
}


/// Word `i` of `s` is stored at bytes `4 * i .. 4 * i + 4` of its little-endian bytes.
proof fn lemma_u32s_le_index(s: Seq<u32>, i: int)
    requires
        0 <= i < s.len(),
    ensures
        u32s_le(s).subrange(4 * i, 4 * i + 4) == le_u32(s[i]),
    decreases s.len(),
{
    lemma_u32s_le_len(s.drop_last());
    if i < s.len() - 1 {
        lemma_u32s_le_index(s.drop_last(), i);
        assert(u32s_le(s).subrange(4 * i, 4 * i + 4) =~= u32s_le(s.drop_last()).subrange(4 * i, 4 * i + 4));
    } else {
        assert(u32s_le(s).subrange(4 * i, 4 * i + 4) =~= le_u32(s.last()));
    }
}

/// Frames of `count` samples each are laid out back to back.
#[verifier::spinoff_prover]
proof fn lemma_frames_bytes_layout(fs: Seq<Seq<u32>>, count: int, k: int)
    requires
        count >= 0,
        forall|f: int| 0 <= f < fs.len() ==> (#[trigger] fs[f]).len() == count,
        0 <= k < fs.len(),
    ensures
        frames_bytes(fs).len() == 4 * count * fs.len(),
        frames_bytes(fs).subrange(4 * count * k, 4 * count * k + 4 * count) == u32s_le(fs[k]),
    decreases fs.len(),
{
    let init = fs.drop_last();
    lemma_u32s_le_len(fs.last());
    if init.len() > 0 {
        if k < fs.len() - 1 {
            lemma_frames_bytes_layout(init, count, k);
        } else {
            lemma_frames_bytes_layout(init, count, 0);
        }
    } else {
        assert(frames_bytes(init) =~= Seq::<u8>::empty());
        assert(4 * count * init.len() == 0) by (nonlinear_arith)
            requires init.len() == 0;
    }
    let n = init.len();
    assert(frames_bytes(init).len() == 4 * count * n);
    assert(fs.last() == fs[fs.len() - 1]);
    assert(frames_bytes(fs) == frames_bytes(init) + u32s_le(fs.last()));
    assert(4 * count * fs.len() == 4 * count * n + 4 * count) by (nonlinear_arith)
        requires fs.len() == n + 1;
    if k < fs.len() - 1 {
        assert(4 * count * k + 4 * count <= 4 * count * n) by (nonlinear_arith)
            requires k < n, count >= 0, k >= 0;
        assert(frames_bytes(fs).subrange(4 * count * k, 4 * count * k + 4 * count)
            =~= frames_bytes(init).subrange(4 * count * k, 4 * count * k + 4 * count));
    } else {
        assert(4 * count * k == 4 * count * n);
        assert(frames_bytes(fs).subrange(4 * count * k, 4 * count * k + 4 * count) =~= u32s_le(fs[k]));
    }
}

/// Reading frame `k` of an exported file gives back the samples of frame `k`, when every
/// frame holds one sample per voxel and channel.
#[verifier::spinoff_prover]
#[verifier::rlimit(40)]
pub proof fn lemma_frame_round_trip(h: VolumeTextureHeader, fs: Seq<Seq<u32>>, k: u32)
    requires
        fs.len() >= 1,
        h.frame_count == fs.len(),
        forall|f: int| 0 <= f < fs.len() ==> (#[trigger] fs[f]).len() == h.spec_frame_voxel_count(),
        k < fs.len(),
    ensures
        parse_frame(volume_texture_file(h, fs), k) == Ok::<Seq<u32>, VolumeTextureError>(fs[k as int]),
{
    let count = h.spec_frame_voxel_count();
    assert(count >= 0) by (nonlinear_arith)
        requires count == h.nx * h.ny * h.nz * h.channels, h.nx >= 0, h.ny >= 0, h.nz >= 0, h.channels >= 0;
    let data = frames_bytes(fs);
    let file = volume_texture_file(h, fs);
    assert(file == header_bytes(h) + data);
    lemma_header_round_trip(h, data);
    lemma_frames_bytes_layout(fs, count, k as int);
    let offset = HEADER_SIZE + k * (4 * count);
    assert(k * (4 * count) == 4 * count * k) by (nonlinear_arith);
    assert(4 * count * k + 4 * count <= 4 * count * fs.len()) by (nonlinear_arith)
        requires k < fs.len(), count >= 0, k >= 0;
    assert(header_bytes(h).len() == 52);
    let frame = fs[k as int];
    lemma_u32s_le_len(frame);
    assert forall|i: int| 0 <= i < count implies #[trigger] words_at(file, offset, count as nat)[i] == frame[i] by {
        lemma_u32s_le_index(frame, i);
        let sub = data.subrange(4 * count * k, 4 * count * k + 4 * count);
        assert(sub.subrange(4 * i, 4 * i + 4) =~= file.subrange(offset + 4 * i, offset + 4 * i + 4));
        lemma_u32_le_roundtrip(frame[i]);
        let w = file.subrange(offset + 4 * i, offset + 4 * i + 4);
        assert(file[offset + 4 * i] == w[0]);
        assert(file[offset + 4 * i + 1] == w[1]);
        assert(file[offset + 4 * i + 2] == w[2]);
        assert(file[offset + 4 * i + 3] == w[3]);
    }
    assert(words_at(file, offset, count as nat) =~= frame);
}

} // verus!
