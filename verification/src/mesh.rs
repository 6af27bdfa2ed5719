//! Mesh representation with positions and triangle indices.
//!
//! Positions are kept as the IEEE-754 bit patterns of their `f32` coordinates:
//! the bookkeeping here (appending primitives, merging, counting) only moves
//! coordinates around and never computes with them.

use crate::buffer::Buffer;
use vstd::prelude::*;

verus! {

/// Bit patterns of an `(x, y, z)` position of three `f32` values.
pub type PositionBits = [u32; 3];

/// IEEE-754 bit pattern of `0.5f32`.
pub const HALF_BITS: u32 = 0x3f00_0000;

/// IEEE-754 bit pattern of `-0.5f32`.
pub const NEG_HALF_BITS: u32 = 0xbf00_0000;

/// A polygon mesh with triangle list topology.
#[derive(Debug, Clone)]
pub struct Mesh {
    pub name: String,
    pub positions: Vec<PositionBits>,
    pub indices: Vec<u32>,
    /// Legacy buffer handles for future FFI handoff.
    pub vertices: Buffer,
    pub indices_buffer: Buffer,
}

/// The eight corners of the axis-aligned box spanned by `min` and `max`.
pub open spec fn box_corners(min: PositionBits, max: PositionBits) -> Seq<PositionBits> {
    seq![
        [min[0], min[1], min[2]],
        [max[0], min[1], min[2]],
        [max[0], max[1], min[2]],
        [min[0], max[1], min[2]],
        [min[0], min[1], max[2]],
        [max[0], min[1], max[2]],
        [max[0], max[1], max[2]],
        [min[0], max[1], max[2]],
    ]
}

/// Indices of the two triangles `(0,1,2)` and `(0,2,3)` of a quad starting at `base`.
pub open spec fn quad_triangle_indices(base: int, c0: int, c1: int, c2: int, c3: int) -> Seq<u32> {
    seq![
        (base + c0) as u32, (base + c1) as u32, (base + c2) as u32,
        (base + c0) as u32, (base + c2) as u32, (base + c3) as u32,
    ]
}

/// The 36 indices that `add_box` appends for corners starting at `base`.
pub open spec fn box_indices(base: int) -> Seq<u32> {
    quad_triangle_indices(base, 0, 1, 2, 3)
        + quad_triangle_indices(base, 5, 4, 7, 6)
        + quad_triangle_indices(base, 4, 0, 3, 7)
        + quad_triangle_indices(base, 1, 5, 6, 2)
        + quad_triangle_indices(base, 3, 2, 6, 7)
        + quad_triangle_indices(base, 4, 5, 1, 0)
}

/// `s` with `offset` added to every element.
pub open spec fn offset_indices(s: Seq<u32>, offset: int) -> Seq<u32> {
    Seq::new(s.len(), |i: int| (s[i] + offset) as u32)
}

impl Mesh {
    /// Every index names an existing vertex.
    pub open spec fn wf(&self) -> bool {
        forall|i: int| 0 <= i < self.indices.len() ==> #[trigger] self.indices[i] < self.positions.len()
    }

    /// A nameless mesh with no geometry.
    pub fn unnamed() -> (m: Mesh)
        ensures
            m.name@ == Seq::<char>::empty(),
            m.positions@ == Seq::<PositionBits>::empty(),
            m.indices@ == Seq::<u32>::empty(),
            m.vertices.label@ == "positions"@,
            m.vertices.byte_len == 0,
            m.indices_buffer.label@ == "indices"@,
            m.indices_buffer.byte_len == 0,
            m.wf(),
    {
        Mesh {
            name: String::new(),
            positions: Vec::new(),
            indices: Vec::new(),
            vertices: Buffer::empty(String::from_str("positions")),
            indices_buffer: Buffer::empty(String::from_str("indices")),
        }
    }

    /// An empty mesh with the given name.
    pub fn with_name(name: String) -> (m: Mesh)
        ensures
            m.name@ == name@,
            m.positions@ == Seq::<PositionBits>::empty(),
            m.indices@ == Seq::<u32>::empty(),
            m.vertices.label@ == "positions"@,
            m.vertices.byte_len == 0,
            m.indices_buffer.label@ == "indices"@,
            m.indices_buffer.byte_len == 0,
            m.wf(),
    {
        let mut m = Mesh::unnamed();
        m.name = name;
        m
    }

    /// Number of vertices, as `u32`.
    pub fn vertex_count(&self) -> (c: u32)
        ensures
            c == self.positions.len() as u32,
    {
        self.positions.len() as u32
    }

    /// Number of whole triangles, as `u32`.
    pub fn triangle_count(&self) -> (c: u32)
        ensures
            c == (self.indices.len() / 3) as u32,
    {
        (self.indices.len() / 3) as u32
    }

    /// Number of indices, as `u32`.
    pub fn index_count(&self) -> (c: u32)
        ensures
            c == self.indices.len() as u32,
    {
        self.indices.len() as u32
    }

    /// Appends a quad `a b c d` as the two triangles `(a,b,c)` and `(a,c,d)`.
    pub fn add_quad(&mut self, a: PositionBits, b: PositionBits, c: PositionBits, d: PositionBits)
        requires
            old(self).positions.len() + 3 <= u32::MAX,
        ensures
            final(self).name@ == old(self).name@,
            final(self).positions@ == old(self).positions@ + seq![a, b, c, d],
            final(self).indices@ == old(self).indices@ + quad_triangle_indices(
                old(self).positions.len() as int, 0, 1, 2, 3),
            final(self).vertices == old(self).vertices,
            final(self).indices_buffer == old(self).indices_buffer,
            old(self).wf() ==> final(self).wf(),
    {
        let base = self.positions.len() as u32;
        self.positions.push(a);
        self.positions.push(b);
        self.positions.push(c);
        self.positions.push(d);
        self.indices.push(base);
        self.indices.push(base + 1);
        self.indices.push(base + 2);
        self.indices.push(base);
        self.indices.push(base + 2);
        self.indices.push(base + 3);
        assert(self.positions@ =~= old(self).positions@ + seq![a, b, c, d]);
        assert(self.indices@ =~= old(self).indices@ + quad_triangle_indices(base as int, 0, 1, 2, 3));
        proof {
            if old(self).wf() {
                assert forall|i: int| 0 <= i < self.indices.len() implies
                    #[trigger] self.indices[i] < self.positions.len() by {
                    if i < old(self).indices.len() {
                        assert(self.indices[i] == old(self).indices[i]);
                    }
                }
            }
        }
    }

    fn push_quad_indices(&mut self, base: u32, c0: u32, c1: u32, c2: u32, c3: u32)
        requires
            base + 7 <= u32::MAX,
            c0 < 8, c1 < 8, c2 < 8, c3 < 8,
        ensures
            final(self).name@ == old(self).name@,
            final(self).positions@ == old(self).positions@,
            final(self).indices@ == old(self).indices@ + quad_triangle_indices(
                base as int, c0 as int, c1 as int, c2 as int, c3 as int),
            final(self).vertices == old(self).vertices,
            final(self).indices_buffer == old(self).indices_buffer,
            (forall|i: int| 0 <= i < old(self).indices.len() ==> #[trigger] old(self).indices[i] < base + 8)
                ==> (forall|i: int| 0 <= i < final(self).indices.len() ==> #[trigger] final(self).indices[i] < base + 8),
    {
        let i0 = base + c0;
        let i1 = base + c1;
        let i2 = base + c2;
        let i3 = base + c3;
        self.indices.push(i0);
        self.indices.push(i1);
        self.indices.push(i2);
        self.indices.push(i0);
        self.indices.push(i2);
        self.indices.push(i3);
        assert(self.indices@ =~= old(self).indices@ + quad_triangle_indices(
            base as int, c0 as int, c1 as int, c2 as int, c3 as int));
        proof {
            if forall|i: int| 0 <= i < old(self).indices.len() ==> #[trigger] old(self).indices[i] < base + 8 {
                assert forall|i: int| 0 <= i < self.indices.len() implies #[trigger] self.indices[i] < base + 8 by {
                    if i < old(self).indices.len() {
                        assert(self.indices[i] == old(self).indices[i]);
                    }
                }
            }
        }
    }

    /// Appends the eight corners and twelve triangles of the box spanned by `min` and `max`.
    pub fn add_box(&mut self, min: PositionBits, max: PositionBits)
        requires
            old(self).positions.len() + 7 <= u32::MAX,
        ensures
            final(self).name@ == old(self).name@,
            final(self).positions@ == old(self).positions@ + box_corners(min, max),
            final(self).indices@ == old(self).indices@ + box_indices(old(self).positions.len() as int),
            final(self).vertices == old(self).vertices,
            final(self).indices_buffer == old(self).indices_buffer,
            old(self).wf() ==> final(self).wf(),
    {
        let base = self.positions.len() as u32;
        let ghost was_wf = old(self).wf();
        self.positions.push([min[0], min[1], min[2]]);
        self.positions.push([max[0], min[1], min[2]]);
        self.positions.push([max[0], max[1], min[2]]);
        self.positions.push([min[0], max[1], min[2]]);
        self.positions.push([min[0], min[1], max[2]]);
        self.positions.push([max[0], min[1], max[2]]);
        self.positions.push([max[0], max[1], max[2]]);
        self.positions.push([min[0], max[1], max[2]]);
        assert(self.positions@ =~= old(self).positions@ + box_corners(min, max));
        assert(was_wf ==> forall|i: int| 0 <= i < self.indices.len() ==> #[trigger] self.indices[i] < base + 8);
        self.push_quad_indices(base, 0, 1, 2, 3);
        self.push_quad_indices(base, 5, 4, 7, 6);
        self.push_quad_indices(base, 4, 0, 3, 7);
        self.push_quad_indices(base, 1, 5, 6, 2);
        self.push_quad_indices(base, 3, 2, 6, 7);
        self.push_quad_indices(base, 4, 5, 1, 0);
        assert(self.indices@ =~= old(self).indices@ + box_indices(base as int));
    }

    /// Appends `other`'s vertices and its indices shifted past this mesh's vertices;
    /// an unnamed mesh takes `other`'s name.
    pub fn merge(&mut self, other: &Mesh)
        requires
            old(self).positions.len() <= u32::MAX,
            forall|i: int| 0 <= i < other.indices.len() ==>
                #[trigger] other.indices[i] + old(self).positions.len() <= u32::MAX,
        ensures
            final(self).positions@ == old(self).positions@ + other.positions@,
            final(self).indices@ == old(self).indices@ + offset_indices(
                other.indices@, old(self).positions.len() as int),
            final(self).name@ == (if old(self).name@.len() == 0 { other.name@ } else { old(self).name@ }),
            final(self).vertices == old(self).vertices,
            final(self).indices_buffer == old(self).indices_buffer,
            old(self).wf() && other.wf() ==> final(self).wf(),
    {
        let offset = self.positions.len() as u32;
        let mut k: usize = 0;
        while k < other.positions.len()
            invariant
                k <= other.positions.len(),
                self.positions@ == old(self).positions@ + other.positions@.subrange(0, k as int),
                self.indices@ == old(self).indices@,
                self.name@ == old(self).name@,
                self.vertices == old(self).vertices,
                self.indices_buffer == old(self).indices_buffer,
            decreases other.positions.len() - k,
        {
            self.positions.push(other.positions[k]);
            k = k + 1;
            assert(self.positions@ =~= old(self).positions@ + other.positions@.subrange(0, k as int));
        }
        assert(other.positions@.subrange(0, other.positions.len() as int) =~= other.positions@);
        let mut j: usize = 0;
        while j < other.indices.len()
            invariant
                j <= other.indices.len(),
                offset == old(self).positions.len(),
                forall|i: int| 0 <= i < other.indices.len() ==>
                    #[trigger] other.indices[i] + old(self).positions.len() <= u32::MAX,
                self.positions@ == old(self).positions@ + other.positions@,
                self.indices@ == old(self).indices@ + offset_indices(other.indices@.subrange(0, j as int), offset as int),
                self.name@ == old(self).name@,
                self.vertices == old(self).vertices,
                self.indices_buffer == old(self).indices_buffer,
            decreases other.indices.len() - j,
        {
            let v = other.indices[j] + offset;
            self.indices.push(v);
            j = j + 1;
            assert(self.indices@ =~= old(self).indices@ + offset_indices(other.indices@.subrange(0, j as int), offset as int));
        }
        assert(other.indices@.subrange(0, other.indices.len() as int) =~= other.indices@);
        if self.name.as_str().is_empty() {
            self.name = other.name.clone();
        }
        proof {
            if old(self).wf() && other.wf() {
                assert forall|i: int| 0 <= i < self.indices.len() implies
                    #[trigger] self.indices[i] < self.positions.len() by {
                    if i >= old(self).indices.len() {
                        let k = i - old(self).indices.len();
                        assert(other.indices[k] < other.positions.len());
                    }
                }
            }
        }
    }
}

/// Creates a unit cube mesh (centered at origin, edge length 1).
pub fn create_unit_box_mesh() -> (m: Mesh)
    ensures
        m.name@ == "unit_box"@,
        m.positions@ == box_corners([NEG_HALF_BITS, NEG_HALF_BITS, NEG_HALF_BITS], [HALF_BITS, HALF_BITS, HALF_BITS]),
        m.indices@ == box_indices(0),
        m.vertices.byte_len == 8 * 12,
        m.indices_buffer.byte_len == 36 * 4,
        m.wf(),
{
    let mut mesh = Mesh::with_name(String::from_str("unit_box"));
    mesh.add_box([NEG_HALF_BITS, NEG_HALF_BITS, NEG_HALF_BITS], [HALF_BITS, HALF_BITS, HALF_BITS]);
    assert(mesh.positions@.len() == 8);
    assert(mesh.indices@.len() == 36);
    mesh.vertices.byte_len = mesh.positions.len() * 12;
    mesh.indices_buffer.byte_len = mesh.indices.len() * 4;
    assert(mesh.positions@ =~= box_corners([NEG_HALF_BITS, NEG_HALF_BITS, NEG_HALF_BITS], [HALF_BITS, HALF_BITS, HALF_BITS]));
    assert(mesh.indices@ =~= box_indices(0));
    mesh
}

} // verus!
