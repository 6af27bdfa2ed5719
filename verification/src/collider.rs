//! Collider vocabulary shared by the smoke and liquid solvers, and the triangle layout of the
//! procedural collider meshes.

use vstd::prelude::*;

verus! {

/// Built-in mesh collider shapes.
#[derive(Debug, Clone, Copy, PartialEq, Eq, Structural)]
pub enum ColliderMeshKind {
    Box,
    Sphere,
    Torus,
    Ramp,
}

impl Default for ColliderMeshKind {
    fn default() -> (k: Self)
        ensures
            k == ColliderMeshKind::Box,
    {
        ColliderMeshKind::Box
    }
}

} // verus!

verus! {

/// The triangles a UV sphere of `seg` segments and `ring` rings adds for the quad at ring `r`,
/// segment `s` (vertices ring-major, `seg` per ring): the upper triangle except on the first
/// ring, the lower one except on the last.
pub open spec fn sphere_cell(seg: int, ring: int, r: int, s: int) -> Seq<u32> {
    let i0 = (r * seg + s) as u32;
    let i1 = (r * seg + (s + 1) % seg) as u32;
    let i2 = ((r + 1) * seg + s) as u32;
    let i3 = ((r + 1) * seg + (s + 1) % seg) as u32;
    (if r > 0 { seq![i0, i2, i1] } else { Seq::empty() }) + (if r + 1 < ring { seq![i1, i2, i3] } else { Seq::empty() })
}

/// The sphere indices of the first `t` quads, in ring-major order.
pub open spec fn sphere_cells(seg: int, ring: int, t: int) -> Seq<u32>
    decreases t,
{
    if t <= 0 || seg <= 0 {
        Seq::empty()
    } else {
        sphere_cells(seg, ring, t - 1) + sphere_cell(seg, ring, (t - 1) / seg, (t - 1) % seg)
    }
}

/// The number of sphere indices after the quads of the first `r` rings.
pub open spec fn sphere_len(seg: int, ring: int, r: int) -> int {
    if r <= 0 {
        0
    } else if r < ring {
        6 * seg * r - 3 * seg
    } else {
        6 * seg * (ring - 1)
    }
}

/// `a` raised to at least `lo`.
pub open spec fn at_least(a: u32, lo: u32) -> int {
    if a < lo { lo as int } else { a as int }
}

proof fn lemma_cell_split(seg: int, r: int, s: int)
    requires
        seg > 0,
        r >= 0,
        0 <= s < seg,
    ensures
        (r * seg + s) / seg == r,
        (r * seg + s) % seg == s,
        r * seg + s + 1 == (if s + 1 < seg { r * seg + (s + 1) } else { (r + 1) * seg }),
{
    vstd::arithmetic::div_mod::lemma_fundamental_div_mod_converse(r * seg + s, seg, r, s);
    assert((r + 1) * seg == r * seg + seg) by (nonlinear_arith);
}

proof fn lemma_sphere_cell_bounds(seg: int, ring: int, r: int, s: int)
    requires
        seg >= 3,
        ring >= 2,
        0 <= r < ring,
        0 <= s < seg,
        (ring + 1) * seg <= u32::MAX,
    ensures
        forall|k: int| 0 <= k < sphere_cell(seg, ring, r, s).len() ==> #[trigger] sphere_cell(seg, ring, r, s)[k] < (ring + 1) * seg,
        sphere_cell(seg, ring, r, s).len() == (if r > 0 { 3int } else { 0 }) + (if r + 1 < ring { 3int } else { 0 }),
{
    let a = r * seg + s;
    let b = r * seg + (s + 1) % seg;
    let c = (r + 1) * seg + s;
    let d = (r + 1) * seg + (s + 1) % seg;
    assert(0 <= (s + 1) % seg < seg);
    assert(0 <= a && a < (ring + 1) * seg && 0 <= b && b < (ring + 1) * seg
        && 0 <= c && c < (ring + 1) * seg && 0 <= d && d < (ring + 1) * seg) by (nonlinear_arith)
        requires
            a == r * seg + s,
            b == r * seg + (s + 1) % seg,
            c == (r + 1) * seg + s,
            d == (r + 1) * seg + (s + 1) % seg,
            0 <= (s + 1) % seg < seg,
            0 <= r < ring,
            0 <= s < seg,
            seg >= 3;
}

/// The triangle indices of a UV sphere with `segments` segments (at least 3) around and `rings`
/// rings (at least 2) from pole to pole: the quads between consecutive rings, ring-major,
/// each split into two triangles, the degenerate ones at the poles left out. Every index names
/// one of the `(rings + 1) * segments` vertices.
pub fn sphere_indices(segments: u32, rings: u32) -> (v: Vec<u32>)
    requires
        (at_least(rings, 2) + 1) * at_least(segments, 3) <= u32::MAX,
    ensures
        v@ == sphere_cells(at_least(segments, 3), at_least(rings, 2), at_least(rings, 2) * at_least(segments, 3)),
        v@.len() == 6 * at_least(segments, 3) * (at_least(rings, 2) - 1),
        forall|k: int| 0 <= k < v@.len() ==> #[trigger] v@[k] < (at_least(rings, 2) + 1) * at_least(segments, 3),
{
    let seg: u32 = if segments < 3 { 3 } else { segments };
    let ring: u32 = if rings < 2 { 2 } else { rings };
    let ghost bound = (ring + 1) * seg;
    assert(ring * seg <= bound) by (nonlinear_arith) requires bound == (ring + 1) * seg, seg >= 3;
    let mut v: Vec<u32> = Vec::new();
    let mut r: u32 = 0;
    while r < ring
        invariant
            seg == at_least(segments, 3),
            ring == at_least(rings, 2),
            bound == (ring + 1) * seg,
            bound <= u32::MAX,
            r <= ring,
            v@ == sphere_cells(seg as int, ring as int, r * seg),
            v@.len() == sphere_len(seg as int, ring as int, r as int),
            forall|k: int| 0 <= k < v@.len() ==> #[trigger] v@[k] < bound,
        decreases ring - r,
    {
        let mut s: u32 = 0;
        while s < seg
            invariant
                seg == at_least(segments, 3),
                ring == at_least(rings, 2),
                bound == (ring + 1) * seg,
                bound <= u32::MAX,
                r < ring,
                s <= seg,
                v@ == sphere_cells(seg as int, ring as int, r * seg + s),
                v@.len() == sphere_len(seg as int, ring as int, r as int) + s * (if r > 0 { 3int } else { 0 })
                    + s * (if r + 1 < ring { 3int } else { 0 }),
                forall|k: int| 0 <= k < v@.len() ==> #[trigger] v@[k] < bound,
            decreases seg - s,
        {
            proof {
                lemma_cell_split(seg as int, r as int, s as int);
                lemma_sphere_cell_bounds(seg as int, ring as int, r as int, s as int);
                assert(r * seg + s < bound) by (nonlinear_arith)
                    requires bound == (ring + 1) * seg, r < ring, s < seg;
                assert((r + 1) * seg + s < bound) by (nonlinear_arith)
                    requires bound == (ring + 1) * seg, r < ring, s < seg;
            }
            let next: u32 = if s + 1 < seg { s + 1 } else { 0 };
            proof {
                if s + 1 < seg {
                    vstd::arithmetic::div_mod::lemma_fundamental_div_mod_converse(s + 1, seg as int, 0, s + 1);
                } else {
                    vstd::arithmetic::div_mod::lemma_fundamental_div_mod_converse(s + 1, seg as int, 1, 0);
                }
            }
            assert(next == (s + 1) % (seg as int));
            let i0 = r * seg + s;
            let i1 = r * seg + next;
            let i2 = (r + 1) * seg + s;
            let i3 = (r + 1) * seg + next;
            let ghost before = v@;
            if r > 0 {
                v.push(i0);
                v.push(i2);
                v.push(i1);
            }
            if r + 1 < ring {
                v.push(i1);
                v.push(i2);
                v.push(i3);
            }
            assert(v@ =~= before + sphere_cell(seg as int, ring as int, r as int, s as int));
            assert(v@ =~= sphere_cells(seg as int, ring as int, r * seg + s + 1));
            s += 1;
        }
        proof {
            assert(r * seg + seg == (r + 1) * seg) by (nonlinear_arith);
            let a = if r > 0 { 3int } else { 0 };
            let b = if r + 1 < ring { 3int } else { 0 };
            assert(sphere_len(seg as int, ring as int, r as int) + seg * a + seg * b
                == sphere_len(seg as int, ring as int, r + 1)) by (nonlinear_arith)
                requires
                    seg >= 3,
                    ring >= 2,
                    r < ring,
                    a == (if r > 0 { 3int } else { 0 }),
                    b == (if r + 1 < ring { 3int } else { 0 }),
                    sphere_len(seg as int, ring as int, r as int) == (if r <= 0 { 0 } else if r < ring {
                        6 * seg * r - 3 * seg } else { 6 * seg * (ring - 1) }),
                    sphere_len(seg as int, ring as int, r + 1) == (if r + 1 <= 0 { 0 } else if r + 1 < ring {
                        6 * seg * (r + 1) - 3 * seg } else { 6 * seg * (ring - 1) });
        }
        r += 1;
    }
    v
}

/// The two triangles a torus of `seg` segments around and `tube` segments across adds for
/// the quad at segment `i`, tube step `j` (vertices segment-major, `tube` per segment), both
/// wrapping around.
pub open spec fn torus_cell(seg: int, tube: int, i: int, j: int) -> Seq<u32> {
    let i0 = (i * tube + j) as u32;
    let i1 = (i * tube + (j + 1) % tube) as u32;
    let i2 = (((i + 1) % seg) * tube + j) as u32;
    let i3 = (((i + 1) % seg) * tube + (j + 1) % tube) as u32;
    seq![i0, i2, i1, i1, i2, i3]
}

/// The torus indices of the first `t` quads, segment-major.
pub open spec fn torus_cells(seg: int, tube: int, t: int) -> Seq<u32>
    decreases t,
{
    if t <= 0 || tube <= 0 {
        Seq::empty()
    } else {
        torus_cells(seg, tube, t - 1) + torus_cell(seg, tube, (t - 1) / tube, (t - 1) % tube)
    }
}

proof fn lemma_wrap(x: int, n: int) -> (w: int)
    requires
        n > 0,
        0 <= x < n,
    ensures
        w == (x + 1) % n,
        w == (if x + 1 < n { x + 1 } else { 0 }),
        0 <= w < n,
{
    if x + 1 < n {
        vstd::arithmetic::div_mod::lemma_fundamental_div_mod_converse(x + 1, n, 0, x + 1);
    } else {
        vstd::arithmetic::div_mod::lemma_fundamental_div_mod_converse(x + 1, n, 1, 0);
    }
    (x + 1) % n
}

/// The triangle indices of a torus with `segments` segments (at least 3) around its axis and
/// `tube_segments` (at least 3) around its tube: every quad of the wrapped grid, segment-major,
/// split into two triangles. Every index names one of the `segments * tube_segments` vertices.
pub fn torus_indices(segments: u32, tube_segments: u32) -> (v: Vec<u32>)
    requires
        at_least(segments, 3) * at_least(tube_segments, 3) <= u32::MAX,
    ensures
        v@ == torus_cells(at_least(segments, 3), at_least(tube_segments, 3), at_least(segments, 3) * at_least(tube_segments, 3)),
        v@.len() == 6 * at_least(segments, 3) * at_least(tube_segments, 3),
        forall|k: int| 0 <= k < v@.len() ==> #[trigger] v@[k] < at_least(segments, 3) * at_least(tube_segments, 3),
{
    let seg: u32 = if segments < 3 { 3 } else { segments };
    let tube: u32 = if tube_segments < 3 { 3 } else { tube_segments };
    let ghost bound = seg * tube;
    let mut v: Vec<u32> = Vec::new();
    let mut i: u32 = 0;
    while i < seg
        invariant
            seg == at_least(segments, 3),
            tube == at_least(tube_segments, 3),
            bound == seg * tube,
            bound <= u32::MAX,
            i <= seg,
            v@ == torus_cells(seg as int, tube as int, i * tube),
            v@.len() == 6 * i * tube,
            forall|k: int| 0 <= k < v@.len() ==> #[trigger] v@[k] < bound,
        decreases seg - i,
    {
        let mut j: u32 = 0;
        while j < tube
            invariant
                seg == at_least(segments, 3),
                tube == at_least(tube_segments, 3),
                bound == seg * tube,
                bound <= u32::MAX,
                i < seg,
                j <= tube,
                v@ == torus_cells(seg as int, tube as int, i * tube + j),
                v@.len() == 6 * i * tube + 6 * j,
                forall|k: int| 0 <= k < v@.len() ==> #[trigger] v@[k] < bound,
            decreases tube - j,
        {
            let ni: u32 = if i + 1 < seg { i + 1 } else { 0 };
            let nj: u32 = if j + 1 < tube { j + 1 } else { 0 };
            proof {
                lemma_cell_split(tube as int, i as int, j as int);
                lemma_wrap(i as int, seg as int);
                lemma_wrap(j as int, tube as int);
                assert(i * tube + j < bound && i * tube + nj < bound && ni * tube + j < bound && ni * tube + nj < bound)
                    by (nonlinear_arith)
                    requires
                        bound == seg * tube,
                        i < seg,
                        ni < seg,
                        j < tube,
                        nj < tube;
            }
            let i0 = i * tube + j;
            let i1 = i * tube + nj;
            let i2 = ni * tube + j;
            let i3 = ni * tube + nj;
            let ghost before = v@;
            v.push(i0);
            v.push(i2);
            v.push(i1);
            v.push(i1);
            v.push(i2);
            v.push(i3);
            assert(v@ =~= before + torus_cell(seg as int, tube as int, i as int, j as int));
            assert(v@ =~= torus_cells(seg as int, tube as int, i * tube + j + 1));
            j += 1;
        }
        proof {
            assert(i * tube + tube == (i + 1) * tube) by (nonlinear_arith);
            assert(6 * i * tube + 6 * tube == 6 * (i + 1) * tube) by (nonlinear_arith);
        }
        i += 1;
    }
    v
}

} // verus!
