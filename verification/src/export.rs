//! Export vocabulary and the binary glTF container for engine/DCC handoff.

use crate::le_bytes::{le_u32, push_bytes, push_u32_le};
use crate::mesh::{Mesh, PositionBits};
use crate::text::{
    ascii_bytes, ascii_lower, char_ascii_lower, char_is_ascii_alnum, chars_of, decimal_bytes, decimal_chars, is_ascii_alnum,
    push_ascii, push_chars, push_decimal, push_decimal_chars, string_from_chars,
};
use vstd::prelude::*;

verus! {

/// Format identifier of the index file that lists an export bundle's payloads.
pub const EXPORT_MANIFEST_FORMAT: &'static str = "elfentier_export_manifest_v1";

/// Linear unit convention for all spatial data in export bundles.
pub const EXPORT_UNITS: &'static str = "meters";

/// Up-axis convention for all spatial data in export bundles.
pub const EXPORT_UP_AXIS: &'static str = "Y";

/// The binary glTF magic `glTF`.
pub const GLB_MAGIC: u32 = 0x4654_6c67;
/// The binary glTF container version.
pub const GLB_VERSION: u32 = 2;
/// The chunk type of the JSON chunk, `JSON`.
pub const GLB_CHUNK_JSON: u32 = 0x4e4f_534a;
/// The chunk type of the binary chunk, `BIN\0`.
pub const GLB_CHUNK_BIN: u32 = 0x004e_4942;

/// Result of an export operation.
#[derive(Debug, Clone, PartialEq, Eq)]
pub struct ExportResult {
    pub path: String,
    pub vertex_count: u32,
    pub triangle_count: u32,
    pub byte_len: usize,
}

/// Result of a smoke density atlas export.
#[derive(Debug, Clone, PartialEq, Eq)]
pub struct SmokeExportResult {
    pub path: String,
    pub frame_count: u32,
    pub byte_len: usize,
    pub format: String,
}

/// Result of a liquid particle cache export.
#[derive(Debug, Clone, PartialEq, Eq)]
pub struct LiquidExportResult {
    pub path: String,
    pub frame_count: u32,
    pub byte_len: usize,
    pub format: String,
}

/// What a graph cooks to: instanced city geometry, a smoke volume or a liquid volume.
#[derive(Debug, Clone, Copy, PartialEq, Eq, Structural)]
pub enum GraphMode {
    City,
    Smoke,
    Liquid,
}

/// The manifest label of a graph mode.
pub open spec fn graph_mode_text(mode: GraphMode) -> Seq<char> {
    match mode {
        GraphMode::City => "city"@,
        GraphMode::Smoke => "smoke"@,
        GraphMode::Liquid => "liquid"@,
    }
}

/// The manifest label of a graph mode: `city`, `smoke` or `liquid`.
pub fn graph_mode_label(mode: GraphMode) -> (s: &'static str)
    ensures
        s@ == graph_mode_text(mode),
{
    match mode {
        GraphMode::City => "city",
        GraphMode::Smoke => "smoke",
        GraphMode::Liquid => "liquid",
    }
}

/// `s` with every backslash and double quote preceded by a backslash.
pub open spec fn json_escaped(s: Seq<char>) -> Seq<char>
    decreases s.len(),
{
    if s.len() == 0 {
        Seq::empty()
    } else {
        let c = s.last();
        let tail = if c == '\\' || c == '"' { seq!['\\', c] } else { seq![c] };
        json_escaped(s.drop_last()) + tail
    }
}

/// Escapes `s` for a JSON string literal (backslashes and double quotes).
pub fn escape_json(s: &str) -> (r: String)
    ensures
        r@ == json_escaped(s@),
{
    let chars = chars_of(s);
    let mut out: Vec<char> = Vec::new();
    let mut i: usize = 0;
    while i < chars.len()
        invariant
            i <= chars.len(),
            chars@ == s@,
            out@ == json_escaped(chars@.take(i as int)),
        decreases chars.len() - i,
    {
        let c = chars[i];
        if c == '\\' || c == '"' {
            out.push('\\');
        }
        out.push(c);
        assert(chars@.take(i + 1).drop_last() =~= chars@.take(i as int));
        i += 1;
    }
    assert(chars@.take(chars.len() as int) =~= chars@);
    string_from_chars(out.as_slice())
}

/// Each character of `s` kept when it is an ASCII letter or digit (lower-cased), else `_`.
pub open spec fn dir_slug(s: Seq<char>) -> Seq<char> {
    Seq::new(s.len(), |i: int| if is_ascii_alnum(s[i]) { ascii_lower(s[i]) } else { '_' })
}

/// Index of the first character of `s` that is not `_` (or `s.len()`).
pub open spec fn first_non_underscore(s: Seq<char>) -> int
    decreases s.len(),
{
    if s.len() == 0 {
        0
    } else if s[0] != '_' {
        0
    } else {
        1 + first_non_underscore(s.drop_first())
    }
}

/// One past the last character of `s` that is not `_` (or `0`).
pub open spec fn end_non_underscore(s: Seq<char>) -> int
    decreases s.len(),
{
    if s.len() == 0 {
        0
    } else if s.last() != '_' {
        s.len() as int
    } else {
        end_non_underscore(s.drop_last())
    }
}

/// A directory name made from `name`: its slug with leading and trailing `_` removed and
/// cut to 48 characters, or `cook` when nothing remains.
pub open spec fn sanitized_dir_name(name: Seq<char>) -> Seq<char> {
    let slug = dir_slug(name);
    let start = first_non_underscore(slug);
    let end = end_non_underscore(slug);
    if start >= end {
        "cook"@
    } else {
        let trimmed = slug.subrange(start, end);
        if trimmed.len() <= 48 { trimmed } else { trimmed.take(48) }
    }
}

proof fn lemma_underscore_bounds(s: Seq<char>)
    ensures
        0 <= first_non_underscore(s) <= s.len(),
        0 <= end_non_underscore(s) <= s.len(),
        forall|k: int| 0 <= k < first_non_underscore(s) ==> s[k] == '_',
        first_non_underscore(s) < s.len() ==> s[first_non_underscore(s)] != '_',
        forall|k: int| end_non_underscore(s) <= k < s.len() ==> s[k] == '_',
        end_non_underscore(s) > 0 ==> s[end_non_underscore(s) - 1] != '_',
    decreases s.len(),
{
    if s.len() > 0 {
        let t = s.drop_first();
        let u = s.drop_last();
        lemma_underscore_bounds(t);
        lemma_underscore_bounds(u);
        assert forall|k: int| 0 <= k < first_non_underscore(s) implies s[k] == '_' by {
            if k > 0 {
                assert(s[k] == t[k - 1]);
            }
        }
        assert forall|k: int| end_non_underscore(s) <= k < s.len() implies s[k] == '_' by {
            if k < s.len() - 1 {
                assert(s[k] == u[k]);
            }
        }
    }
}

/// A file-system friendly directory name for a cooked graph named `name`.
pub fn sanitize_dir_name(name: &str) -> (r: String)
    ensures
        r@ == sanitized_dir_name(name@),
{
    let chars = chars_of(name);
    let mut slug: Vec<char> = Vec::new();
    let mut i: usize = 0;
    while i < chars.len()
        invariant
            i <= chars.len(),
            chars@ == name@,
            slug@ == dir_slug(chars@).take(i as int),
        decreases chars.len() - i,
    {
        let c = chars[i];
        if char_is_ascii_alnum(c) {
            slug.push(char_ascii_lower(c));
        } else {
            slug.push('_');
        }
        i += 1;
    }
    assert(slug@ =~= dir_slug(name@));
    proof {
        lemma_underscore_bounds(slug@);
    }
    let mut start: usize = 0;
    while start < slug.len() && slug[start] == '_'
        invariant
            start <= slug.len(),
            forall|k: int| 0 <= k < start ==> slug@[k] == '_',
        decreases slug.len() - start,
    {
        start += 1;
    }
    let mut end: usize = slug.len();
    while end > start && slug[end - 1] == '_'
        invariant
            start <= end <= slug.len(),
            forall|k: int| end <= k < slug.len() ==> slug@[k] == '_',
        decreases end - start,
    {
        end -= 1;
    }
    proof {
        let fs = first_non_underscore(slug@);
        let es = end_non_underscore(slug@);
        if start < slug.len() {
            assert(start == fs);
        } else {
            assert(fs == slug.len() || slug@[fs] != '_');
            assert(fs >= start);
        }
        if start < end {
            assert(es == end);
        } else {
            assert(es <= fs);
        }
    }
    if start >= end {
        let cook: Vec<char> = vec!['c', 'o', 'o', 'k'];
        proof {
            reveal_strlit("cook");
        }
        assert(cook@ =~= "cook"@);
        return string_from_chars(cook.as_slice());
    }
    let mut out: Vec<char> = Vec::new();
    let mut k: usize = start;
    while k < end && k - start < 48
        invariant
            start <= k <= end <= slug.len(),
            k <= start + 48,
            out@ == slug@.subrange(start as int, k as int),
        decreases end - k,
    {
        out.push(slug[k]);
        k += 1;
    }
    let ghost trimmed = slug@.subrange(start as int, end as int);
    proof {
        assert(k == end || k - start == 48);
        if trimmed.len() <= 48 {
            assert(k == end);
            assert(out@ =~= trimmed);
        } else {
            assert(out@ =~= trimmed.take(48));
        }
    }
    string_from_chars(out.as_slice())
}

/// Little-endian bytes of each `u32`, in order.
pub open spec fn u32s_le(data: Seq<u32>) -> Seq<u8>
    decreases data.len(),
{
    if data.len() == 0 {
        Seq::empty()
    } else {
        u32s_le(data.drop_last()) + le_u32(data.last())
    }
}

/// Appends the little-endian bytes of each `u32` of `data`.
pub fn push_u32s_le(out: &mut Vec<u8>, data: &[u32])
    ensures
        final(out)@ == old(out)@ + u32s_le(data@),
{
    let mut i: usize = 0;
    while i < data.len()
        invariant
            i <= data.len(),
            out@ == old(out)@ + u32s_le(data@.take(i as int)),
        decreases data.len() - i,
    {
        push_u32_le(out, data[i]);
        assert(data@.take(i + 1).drop_last() =~= data@.take(i as int));
        i += 1;
    }
    assert(data@.take(data.len() as int) =~= data@);
}

/// The position components of `positions`, three per position, in order.
pub open spec fn position_components(positions: Seq<PositionBits>) -> Seq<u32>
    decreases positions.len(),
{
    if positions.len() == 0 {
        Seq::empty()
    } else {
        let p = positions.last();
        position_components(positions.drop_last()) + seq![p[0], p[1], p[2]]
    }
}

/// The binary chunk payload of a mesh: the `f32` position components, then the `u32` indices,
/// all little-endian.
pub open spec fn mesh_binary_bytes(positions: Seq<PositionBits>, indices: Seq<u32>) -> Seq<u8> {
    u32s_le(position_components(positions)) + u32s_le(indices)
}

/// The little-endian bytes of a concatenation are the concatenation of the bytes.
pub proof fn lemma_u32s_le_append(a: Seq<u32>, b: Seq<u32>)
    ensures
        u32s_le(a + b) == u32s_le(a) + u32s_le(b),
    decreases b.len(),
{
    if b.len() == 0 {
        assert(a + b =~= a);
    } else {
        lemma_u32s_le_append(a, b.drop_last());
        assert((a + b).drop_last() =~= a + b.drop_last());
    }
}

/// Every word takes four bytes.
pub proof fn lemma_u32s_le_len(a: Seq<u32>)
    ensures
        u32s_le(a).len() == 4 * a.len(),
    decreases a.len(),
{
    if a.len() > 0 {
        lemma_u32s_le_len(a.drop_last());
    }
}

proof fn lemma_position_components_len(p: Seq<PositionBits>)
    ensures
        position_components(p).len() == 3 * p.len(),
    decreases p.len(),
{
    if p.len() > 0 {
        lemma_position_components_len(p.drop_last());
    }
}

/// The first `12 * n` bytes of the position bytes, for `n` positions, are those of the
/// first `n`: `position_components` grows three words per position.
proof fn lemma_position_words(positions: Seq<PositionBits>, i: int)
    requires
        0 <= i < positions.len(),
    ensures
        u32s_le(position_components(positions)).len() == 12 * positions.len(),
        u32s_le(position_components(positions)).subrange(12 * i, 12 * i + 12)
            == le_u32(positions[i][0]) + le_u32(positions[i][1]) + le_u32(positions[i][2]),
    decreases positions.len(),
{
    let init = positions.drop_last();
    let p = positions.last();
    let w = seq![p[0], p[1], p[2]];
    lemma_u32s_le_append(position_components(init), w);
    lemma_position_components_len(init);
    lemma_u32s_le_len(position_components(init));
    assert(w.drop_last().drop_last().drop_last() =~= Seq::<u32>::empty());
    assert(w.drop_last().drop_last() =~= seq![p[0]]);
    assert(w.drop_last() =~= seq![p[0], p[1]]);
    assert(seq![p[0]].drop_last() =~= Seq::<u32>::empty());
    assert(seq![p[0], p[1]].drop_last() =~= seq![p[0]]);
    assert(u32s_le(Seq::<u32>::empty()) =~= Seq::<u8>::empty());
    assert(u32s_le(seq![p[0]]) =~= le_u32(p[0]));
    assert(u32s_le(seq![p[0], p[1]]) =~= le_u32(p[0]) + le_u32(p[1]));
    assert(u32s_le(w) =~= le_u32(p[0]) + le_u32(p[1]) + le_u32(p[2]));
    let head = u32s_le(position_components(init));
    if i < positions.len() - 1 {
        lemma_position_words(init, i);
        assert(u32s_le(position_components(positions)).subrange(12 * i, 12 * i + 12) =~= head.subrange(12 * i, 12 * i + 12));
    } else {
        assert(u32s_le(position_components(positions)).subrange(12 * i, 12 * i + 12) =~= u32s_le(w));
    }
}

/// Word `k` of `data` takes bytes `4 k` to `4 k + 4` of its little-endian bytes.
proof fn lemma_u32s_le_word(data: Seq<u32>, k: int)
    requires
        0 <= k < data.len(),
    ensures
        u32s_le(data).subrange(4 * k, 4 * k + 4) == le_u32(data[k]),
    decreases data.len(),
{
    lemma_u32s_le_len(data.drop_last());
    if k < data.len() - 1 {
        lemma_u32s_le_word(data.drop_last(), k);
        assert(u32s_le(data).subrange(4 * k, 4 * k + 4) =~= u32s_le(data.drop_last()).subrange(4 * k, 4 * k + 4));
    } else {
        assert(u32s_le(data).subrange(4 * k, 4 * k + 4) =~= le_u32(data.last()));
    }
}

/// After the positions come the indices: bytes `12 n + 4 k` to `12 n + 4 k + 4`, for `n`
/// positions, are the little-endian index `k`.
pub proof fn lemma_mesh_payload_indices(positions: Seq<PositionBits>, indices: Seq<u32>, k: int)
    requires
        0 <= k < indices.len(),
    ensures
        mesh_binary_bytes(positions, indices).subrange(12 * positions.len() + 4 * k, 12 * positions.len() + 4 * k + 4)
            == le_u32(indices[k]),
{
    lemma_position_components_len(positions);
    lemma_u32s_le_len(position_components(positions));
    lemma_u32s_le_word(indices, k);
    lemma_u32s_le_len(indices);
    let head = u32s_le(position_components(positions));
    assert(head.len() == 12 * positions.len());
    assert(mesh_binary_bytes(positions, indices).subrange(12 * positions.len() + 4 * k, 12 * positions.len() + 4 * k + 4)
        =~= u32s_le(indices).subrange(4 * k, 4 * k + 4));
}

/// The binary payload lays the positions out first, twelve bytes each: bytes `12 i` to
/// `12 i + 12` are the little-endian `x`, `y` and `z` words of position `i`, in that order;
/// the indices follow, four bytes each.
pub proof fn lemma_mesh_payload_layout(positions: Seq<PositionBits>, indices: Seq<u32>, i: int)
    requires
        0 <= i < positions.len(),
    ensures
        mesh_binary_bytes(positions, indices).len() == 12 * positions.len() + 4 * indices.len(),
        mesh_binary_bytes(positions, indices).subrange(12 * i, 12 * i + 12)
            == le_u32(positions[i][0]) + le_u32(positions[i][1]) + le_u32(positions[i][2]),
{
    lemma_position_words(positions, i);
    lemma_u32s_le_len(indices);
    let head = u32s_le(position_components(positions));
    assert(mesh_binary_bytes(positions, indices).subrange(12 * i, 12 * i + 12) =~= head.subrange(12 * i, 12 * i + 12));
}

/// The binary chunk payload of `mesh`: positions then indices.
pub fn mesh_binary_payload(mesh: &Mesh) -> (bin: Vec<u8>)
    ensures
        bin@ == mesh_binary_bytes(mesh.positions@, mesh.indices@),
{
    let mut bin: Vec<u8> = Vec::new();
    let mut i: usize = 0;
    while i < mesh.positions.len()
        invariant
            i <= mesh.positions.len(),
            bin@ == u32s_le(position_components(mesh.positions@.take(i as int))),
        decreases mesh.positions.len() - i,
    {
        let p = mesh.positions[i];
        let ghost before = position_components(mesh.positions@.take(i as int));
        push_u32s_le(&mut bin, &[p[0], p[1], p[2]]);
        proof {
            assert(mesh.positions@.take(i + 1).drop_last() =~= mesh.positions@.take(i as int));
            lemma_u32s_le_append(before, seq![p[0], p[1], p[2]]);
        }
        i += 1;
    }
    assert(mesh.positions@.take(mesh.positions.len() as int) =~= mesh.positions@);
    push_u32s_le(&mut bin, mesh.indices.as_slice());
    bin
}

/// Padding that brings `n` to a multiple of four.
pub open spec fn pad4(n: int) -> int {
    (4 - n % 4) % 4
}

/// A binary glTF 2.0 file: the 12-byte header (magic, version, total length), a JSON chunk
/// padded with spaces and a binary chunk padded with zero bytes, each chunk preceded by its
/// padded length and type.
pub open spec fn glb_bytes(json: Seq<u8>, bin: Seq<u8>) -> Seq<u8> {
    let jpad = pad4(json.len() as int);
    let bpad = pad4(bin.len() as int);
    let total = 12 + 8 + json.len() + jpad + 8 + bin.len() + bpad;
    le_u32(GLB_MAGIC) + le_u32(GLB_VERSION) + le_u32(total as u32)
        + le_u32((json.len() + jpad) as u32) + le_u32(GLB_CHUNK_JSON) + json + Seq::new(jpad as nat, |i: int| 0x20u8)
        + le_u32((bin.len() + bpad) as u32) + le_u32(GLB_CHUNK_BIN) + bin + Seq::new(bpad as nat, |i: int| 0u8)
}

/// Frames a JSON document and a binary payload as a binary glTF 2.0 file.
pub fn encode_glb(json: &[u8], bin: &[u8]) -> (out: Vec<u8>)
    requires
        json@.len() + bin@.len() + 40 <= u32::MAX,
    ensures
        out@ == glb_bytes(json@, bin@),
        out@.len() == 12 + 8 + json@.len() + pad4(json@.len() as int) + 8 + bin@.len() + pad4(bin@.len() as int),
{
    let jpad = (4 - json.len() % 4) % 4;
    let bpad = (4 - bin.len() % 4) % 4;
    let total = 12 + 8 + json.len() + jpad + 8 + bin.len() + bpad;
    let mut out: Vec<u8> = Vec::new();
    push_u32_le(&mut out, GLB_MAGIC);
    push_u32_le(&mut out, GLB_VERSION);
    push_u32_le(&mut out, total as u32);
    push_u32_le(&mut out, (json.len() + jpad) as u32);
    push_u32_le(&mut out, GLB_CHUNK_JSON);
    push_bytes(&mut out, json);
    let ghost before_jpad = out@;
    let mut k: usize = 0;
    while k < jpad
        invariant
            k <= jpad <= 3,
            out@ == before_jpad + Seq::new(k as nat, |i: int| 0x20u8),
        decreases jpad - k,
    {
        out.push(0x20u8);
        assert(out@ =~= before_jpad + Seq::new((k + 1) as nat, |i: int| 0x20u8));
        k += 1;
    }
    push_u32_le(&mut out, (bin.len() + bpad) as u32);
    push_u32_le(&mut out, GLB_CHUNK_BIN);
    push_bytes(&mut out, bin);
    let ghost before_bpad = out@;
    let mut k: usize = 0;
    while k < bpad
        invariant
            k <= bpad <= 3,
            out@ == before_bpad + Seq::new(k as nat, |i: int| 0u8),
        decreases bpad - k,
    {
        out.push(0u8);
        assert(out@ =~= before_bpad + Seq::new((k + 1) as nat, |i: int| 0u8));
        k += 1;
    }
    assert(out@ =~= glb_bytes(json@, bin@));
    out
}

/// The glTF document up to the node's name.
pub const GLTF_HEAD: &'static str = "{\n  \"asset\": {\"version\": \"2.0\", \"generator\": \"elfentierFX\"},\n  \"scene\": 0,\n  \"scenes\": [{\"nodes\": [0]}],\n  \"nodes\": [{\"mesh\": 0, \"name\": \"";
/// From the node's name to the position count.
pub const GLTF_POSITIONS: &'static str = "\"}],\n  \"meshes\": [{\"primitives\": [{\"attributes\": {\"POSITION\": 0}, \"indices\": 1, \"mode\": 4}]}],\n  \"accessors\": [\n    {\"bufferView\": 0, \"componentType\": 5126, \"count\": ";
/// From the position count to the minimum corner.
pub const GLTF_MIN: &'static str = ", \"type\": \"VEC3\", \"min\": [";
/// From the minimum corner to the maximum corner.
pub const GLTF_MAX: &'static str = "], \"max\": [";
/// From the maximum corner to the index count.
pub const GLTF_INDICES: &'static str = "]},\n    {\"bufferView\": 1, \"componentType\": 5125, \"count\": ";
/// From the index count to the position bytes.
pub const GLTF_POSITION_VIEW: &'static str = ", \"type\": \"SCALAR\"}\n  ],\n  \"bufferViews\": [\n    {\"buffer\": 0, \"byteOffset\": 0, \"byteLength\": ";
/// From the position bytes to the index view's offset.
pub const GLTF_INDEX_VIEW: &'static str = ", \"target\": 34962},\n    {\"buffer\": 0, \"byteOffset\": ";
/// From the index view's offset to its length.
pub const GLTF_INDEX_LENGTH: &'static str = ", \"byteLength\": ";
/// From the index view's length to the buffer length.
pub const GLTF_BUFFER: &'static str = ", \"target\": 34963}\n  ],\n  \"buffers\": [{\"byteLength\": ";
/// The end of the document.
pub const GLTF_TAIL: &'static str = "}]\n}";

/// The glTF document of a mesh named `name` with `vertices` positions (12 bytes each) and
/// `indices` indices (4 bytes each), positions first in one buffer; `min` and `max` are the
/// corners, already printed as comma-separated numbers.
pub open spec fn gltf_json_text(name: Seq<char>, vertices: nat, indices: nat, min: Seq<char>, max: Seq<char>) -> Seq<char> {
    GLTF_HEAD@ + json_escaped(name) + GLTF_POSITIONS@ + decimal_chars(vertices) + GLTF_MIN@ + min + GLTF_MAX@ + max
        + GLTF_INDICES@ + decimal_chars(indices) + GLTF_POSITION_VIEW@ + decimal_chars(12 * vertices)
        + GLTF_INDEX_VIEW@ + decimal_chars(12 * vertices) + GLTF_INDEX_LENGTH@ + decimal_chars(4 * indices)
        + GLTF_BUFFER@ + decimal_chars(12 * vertices + 4 * indices) + GLTF_TAIL@
}

/// The glTF document of a mesh: one node, one triangle primitive, a position accessor with
/// the given corners and an index accessor over two views of one buffer.
pub fn gltf_json(name: &str, vertices: usize, indices: usize, min: &str, max: &str) -> (j: String)
    requires
        12 * vertices + 4 * indices <= u64::MAX,
    ensures
        j@ == gltf_json_text(name@, vertices as nat, indices as nat, min@, max@),
{
    let pos_len: u64 = 12 * vertices as u64;
    let idx_len: u64 = 4 * indices as u64;
    let mut v: Vec<char> = Vec::new();
    push_chars(&mut v, GLTF_HEAD);
    let escaped = escape_json(name);
    push_chars(&mut v, escaped.as_str());
    push_chars(&mut v, GLTF_POSITIONS);
    push_decimal_chars(&mut v, vertices as u64);
    push_chars(&mut v, GLTF_MIN);
    push_chars(&mut v, min);
    push_chars(&mut v, GLTF_MAX);
    push_chars(&mut v, max);
    push_chars(&mut v, GLTF_INDICES);
    push_decimal_chars(&mut v, indices as u64);
    push_chars(&mut v, GLTF_POSITION_VIEW);
    push_decimal_chars(&mut v, pos_len);
    push_chars(&mut v, GLTF_INDEX_VIEW);
    push_decimal_chars(&mut v, pos_len);
    push_chars(&mut v, GLTF_INDEX_LENGTH);
    push_decimal_chars(&mut v, idx_len);
    push_chars(&mut v, GLTF_BUFFER);
    push_decimal_chars(&mut v, pos_len + idx_len);
    push_chars(&mut v, GLTF_TAIL);
    assert(v@ =~= gltf_json_text(name@, vertices as nat, indices as nat, min@, max@));
    string_from_chars(v.as_slice())
}

/// The export summary of a `.glb` written to `path` for `mesh`, `byte_len` bytes long.
pub fn glb_export_result(mesh: &Mesh, path: &str, byte_len: usize) -> (r: ExportResult)
    ensures
        r.path@ == path@,
        r.vertex_count == mesh.positions.len() as u32,
        r.triangle_count == (mesh.indices.len() / 3) as u32,
        r.byte_len == byte_len,
{
    ExportResult {
        path: path.to_string(),
        vertex_count: mesh.vertex_count(),
        triangle_count: mesh.triangle_count(),
        byte_len,
    }
}

/// Format identifier of smoke density atlas payloads.
pub const SMOKE_ATLAS_FORMAT: &'static str = "elfentier_smoke_atlas_v1";

/// Format identifier of liquid particle cache payloads.
pub const LIQUID_CACHE_FORMAT: &'static str = "elfentier_liquid_cache_v1";

/// Bit pattern of `0.1f32`, the radius of a particle without one.
pub const DEFAULT_PARTICLE_RADIUS_BITS: u32 = 0x3dcc_cccd;

/// The text header of a density atlas: three `#` lines naming the format, giving the frame
/// count and the slice resolution in decimal, and describing the sample layout.
pub open spec fn atlas_header_text(frame_count: usize, nx: u32, ny: u32) -> Seq<u8> {
    ascii_bytes("# elfentier smoke density atlas v1\n# frames="@) + decimal_bytes(frame_count as nat)
        + ascii_bytes(" res="@) + decimal_bytes(nx as nat) + ascii_bytes("x"@) + decimal_bytes(ny as nat)
        + ascii_bytes("\n# data=f32 little-endian row-major XY per slice, frame-major\n"@)
}

/// The text header of a particle cache: three `#` lines naming the format, giving the frame
/// count and the first frame's particle count in decimal, and describing the layout.
pub open spec fn cache_header_text(frame_count: usize, particles: u32) -> Seq<u8> {
    ascii_bytes("# elfentier liquid particle cache v1\n# frames="@) + decimal_bytes(frame_count as nat)
        + ascii_bytes(" particles_per_frame="@) + decimal_bytes(particles as nat)
        + ascii_bytes("\n# layout=frame-major [x,y,z,radius] f32 little-endian\n"@)
}

/// Formats the density atlas header.
fn format_atlas_header(frame_count: usize, nx: u32, ny: u32) -> (h: Vec<u8>)
    ensures
        h@ == atlas_header_text(frame_count, nx, ny),
{
    let mut h: Vec<u8> = Vec::new();
    push_ascii(&mut h, "# elfentier smoke density atlas v1\n# frames=");
    push_decimal(&mut h, frame_count as u64);
    push_ascii(&mut h, " res=");
    push_decimal(&mut h, nx as u64);
    push_ascii(&mut h, "x");
    push_decimal(&mut h, ny as u64);
    push_ascii(&mut h, "\n# data=f32 little-endian row-major XY per slice, frame-major\n");
    h
}

/// Formats the particle cache header.
fn format_cache_header(frame_count: usize, particles: u32) -> (h: Vec<u8>)
    ensures
        h@ == cache_header_text(frame_count, particles),
{
    let mut h: Vec<u8> = Vec::new();
    push_ascii(&mut h, "# elfentier liquid particle cache v1\n# frames=");
    push_decimal(&mut h, frame_count as u64);
    push_ascii(&mut h, " particles_per_frame=");
    push_decimal(&mut h, particles as u64);
    push_ascii(&mut h, "\n# layout=frame-major [x,y,z,radius] f32 little-endian\n");
    h
}

/// Encodes a smoke density atlas (`f32` bits, XY slices, frame-major) with its text header;
/// nothing is written for zero frames. The reported byte length is the sample bytes plus 128.
pub fn encode_density_atlas(path: &str, frame_count: usize, resolution: [u32; 3], atlas: &[u32])
    -> (r: (Vec<u8>, SmokeExportResult))
    requires
        atlas@.len() * 4 + 128 <= usize::MAX,
    ensures
        frame_count == 0 ==> r.0@.len() == 0 && r.1.frame_count == 0 && r.1.byte_len == 0,
        frame_count > 0 ==> r.0@ == atlas_header_text(frame_count, resolution[0], resolution[1]) + u32s_le(atlas@)
            && r.1.frame_count == frame_count as u32 && r.1.byte_len == atlas@.len() * 4 + 128,
        r.1.path@ == path@,
        r.1.format@ == SMOKE_ATLAS_FORMAT@,
{
    if frame_count == 0 {
        return (Vec::new(), SmokeExportResult {
            path: path.to_string(),
            frame_count: 0,
            byte_len: 0,
            format: SMOKE_ATLAS_FORMAT.to_string(),
        });
    }
    let mut out = format_atlas_header(frame_count, resolution[0], resolution[1]);
    push_u32s_le(&mut out, atlas);
    (out, SmokeExportResult {
        path: path.to_string(),
        frame_count: frame_count as u32,
        byte_len: atlas.len() * 4 + 128,
        format: SMOKE_ATLAS_FORMAT.to_string(),
    })
}

/// One frame of liquid particles: centres (`f32` bits, three per particle) and radii.
#[derive(Debug, Clone, PartialEq, Eq)]
pub struct ParticleFrame {
    pub particle_count: u32,
    pub positions: Vec<u32>,
    pub radii: Vec<u32>,
}

/// Element `i` of `s`, or `d` past its end.
pub open spec fn get_or(s: Seq<u32>, i: int, d: u32) -> u32 {
    if 0 <= i < s.len() { s[i] } else { d }
}

/// The cache words of the first `k` particles of a frame: `x, y, z, radius` each, missing
/// coordinates read as 0 and missing radii as 0.1.
pub open spec fn particle_words(positions: Seq<u32>, radii: Seq<u32>, k: int) -> Seq<u32>
    decreases k,
{
    if k <= 0 {
        Seq::empty()
    } else {
        let i = k - 1;
        particle_words(positions, radii, i) + seq![
            get_or(positions, 3 * i, 0),
            get_or(positions, 3 * i + 1, 0),
            get_or(positions, 3 * i + 2, 0),
            get_or(radii, i, DEFAULT_PARTICLE_RADIUS_BITS),
        ]
    }
}

/// The cache words of the first `k` frames.
pub open spec fn frames_words(frames: Seq<ParticleFrame>, k: int) -> Seq<u32>
    decreases k,
{
    if k <= 0 {
        Seq::empty()
    } else {
        let f = frames[k - 1];
        frames_words(frames, k - 1) + particle_words(f.positions@, f.radii@, f.particle_count as int)
    }
}

proof fn lemma_particle_words_len(positions: Seq<u32>, radii: Seq<u32>, k: int)
    requires
        k >= 0,
    ensures
        particle_words(positions, radii, k).len() == 4 * k,
    decreases k,
{
    if k > 0 {
        lemma_particle_words_len(positions, radii, k - 1);
    }
}

/// Coordinate `axis` of particle `i` (word `3 * i + axis`), or 0 past the end.
fn coordinate_or_zero(positions: &Vec<u32>, i: usize, axis: usize) -> (x: u32)
    requires
        axis < 3,
    ensures
        x == get_or(positions@, 3 * i + axis, 0),
{
    let len = positions.len();
    match i.checked_mul(3) {
        None => 0,
        Some(base) => match base.checked_add(axis) {
            None => 0,
            Some(j) => if j < len { positions[j] } else { 0 },
        },
    }
}

/// Appends the words of one frame's particles.
fn push_frame_words(words: &mut Vec<u32>, frame: &ParticleFrame)
    ensures
        final(words)@ == old(words)@ + particle_words(frame.positions@, frame.radii@, frame.particle_count as int),
{
    let count = frame.particle_count as usize;
    let mut i: usize = 0;
    while i < count
        invariant
            i <= count,
            count == frame.particle_count,
            words@ == old(words)@ + particle_words(frame.positions@, frame.radii@, i as int),
        decreases count - i,
    {
        let x = coordinate_or_zero(&frame.positions, i, 0);
        let y = coordinate_or_zero(&frame.positions, i, 1);
        let z = coordinate_or_zero(&frame.positions, i, 2);
        let r = if i < frame.radii.len() { frame.radii[i] } else { DEFAULT_PARTICLE_RADIUS_BITS };
        words.push(x);
        words.push(y);
        words.push(z);
        words.push(r);
        assert(words@ =~= old(words)@ + particle_words(frame.positions@, frame.radii@, (i + 1) as int));
        i += 1;
    }
}

/// Encodes a liquid particle cache: a text header, then per frame `particle_count` particles as
/// `x, y, z, radius` (`f32` bits, little-endian); nothing is written for zero frames.
pub fn encode_particle_cache(path: &str, frames: &Vec<ParticleFrame>) -> (r: (Vec<u8>, LiquidExportResult))
    requires
        4 * frames_words(frames@, frames@.len() as int).len() <= usize::MAX,
    ensures
        frames@.len() == 0 ==> r.0@.len() == 0 && r.1.frame_count == 0 && r.1.byte_len == 0,
        frames@.len() > 0 ==> r.0@ == cache_header_text(frames@.len() as usize, frames@[0].particle_count)
            + u32s_le(frames_words(frames@, frames@.len() as int))
            && r.1.frame_count == frames@.len() as u32
            && r.1.byte_len == 4 * frames_words(frames@, frames@.len() as int).len(),
        r.1.path@ == path@,
        r.1.format@ == LIQUID_CACHE_FORMAT@,
{
    if frames.len() == 0 {
        return (Vec::new(), LiquidExportResult {
            path: path.to_string(),
            frame_count: 0,
            byte_len: 0,
            format: LIQUID_CACHE_FORMAT.to_string(),
        });
    }
    let mut words: Vec<u32> = Vec::new();
    let mut k: usize = 0;
    while k < frames.len()
        invariant
            k <= frames@.len(),
            words@ == frames_words(frames@, k as int),
        decreases frames.len() - k,
    {
        push_frame_words(&mut words, &frames[k]);
        k += 1;
    }
    let mut out = format_cache_header(frames.len(), frames[0].particle_count);
    push_u32s_le(&mut out, words.as_slice());
    proof {
        lemma_u32s_le_len(words@);
    }
    (out, LiquidExportResult {
        path: path.to_string(),
        frame_count: frames.len() as u32,
        byte_len: words.len() * 4,
        format: LIQUID_CACHE_FORMAT.to_string(),
    })
}

/// A sanitized directory name is 1 to 48 characters, each a lower-case ASCII letter, a digit
/// or `_`, and never starts or ends with `_`.
pub proof fn lemma_sanitized_dir_name_shape(name: Seq<char>)
    ensures
        ({
            let r = sanitized_dir_name(name);
            &&& 1 <= r.len() <= 48
            &&& forall|i: int| 0 <= i < r.len() ==> ('a' <= #[trigger] r[i] <= 'z') || ('0' <= r[i] <= '9') || r[i] == '_'
            &&& r[0] != '_'
            &&& (r.len() < 48 ==> r.last() != '_')
        }),
{
    let slug = dir_slug(name);
    lemma_underscore_bounds(slug);
    let start = first_non_underscore(slug);
    let end = end_non_underscore(slug);
    let r = sanitized_dir_name(name);
    if start >= end {
        reveal_strlit("cook");
        assert(r == "cook"@);
    } else {
        assert forall|i: int| 0 <= i < r.len() implies ('a' <= #[trigger] r[i] <= 'z') || ('0' <= r[i] <= '9') || r[i] == '_' by {
            assert(r[i] == slug[start + i]);
        }
        assert(r[0] == slug[start]);
        if r.len() < 48 {
            assert(r.last() == slug[end - 1]);
        }
    }
}

/// The length field of a binary glTF header equals the length of the file.
pub proof fn lemma_glb_length_field(json: Seq<u8>, bin: Seq<u8>)
    requires
        json.len() + bin.len() + 40 <= u32::MAX,
    ensures
        glb_bytes(json, bin).subrange(8, 12) == le_u32(glb_bytes(json, bin).len() as u32),
{
    let out = glb_bytes(json, bin);
    assert(out.subrange(8, 12) =~= le_u32(out.len() as u32));
}

} // verus!
