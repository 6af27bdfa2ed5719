//! Rebuilding a dense density grid from the active voxels of a fog volume.
//!
//! A fog `.vdb` grid stores only its active voxels. Reading one back places each voxel's
//! value at its coordinate in a dense `nx × ny × nz` grid (x fastest), leaving the rest at
//! zero. The grid's size comes from the resolution the encoder records in the grid's
//! metadata, or else from the grid's bounding box.

use vstd::prelude::*;

verus! {

/// One active voxel: its integer coordinate and its value (`f32` bits).
#[derive(Debug, Clone, Copy, PartialEq, Eq)]
pub struct FogVoxel {
    pub coord: [i32; 3],
    pub value: u32,
}

/// The dense index of `c` in a grid of `res`, when `c` lies inside it.
pub open spec fn dense_index(res: [u32; 3], c: [i32; 3]) -> Option<int> {
    if 0 <= c[0] < res[0] && 0 <= c[1] < res[1] && 0 <= c[2] < res[2] {
        Some(c[0] + res[0] * (c[1] + res[1] * c[2]))
    } else {
        None
    }
}

/// The value at dense index `idx` after placing `voxels` in order: the last voxel that lands
/// there, or zero.
pub open spec fn density_at(res: [u32; 3], voxels: Seq<FogVoxel>, idx: int) -> u32
    decreases voxels.len(),
{
    if voxels.len() == 0 {
        0
    } else if dense_index(res, voxels.last().coord) == Some(idx) {
        voxels.last().value
    } else {
        density_at(res, voxels.drop_last(), idx)
    }
}

/// The number of voxels in a grid of `res`.
pub open spec fn voxel_total(res: [u32; 3]) -> int {
    res[0] * res[1] * res[2]
}

proof fn lemma_dense_index_bound(res: [u32; 3], c: [i32; 3])
    requires
        dense_index(res, c) is Some,
    ensures
        0 <= dense_index(res, c)->0 < voxel_total(res),
{
    let (x, y, z, nx, ny, nz) = (c[0] as int, c[1] as int, c[2] as int, res[0] as int, res[1] as int, res[2] as int);
    assert(0 <= x + nx * (y + ny * z) < nx * ny * nz) by (nonlinear_arith)
        requires 0 <= x < nx, 0 <= y < ny, 0 <= z < nz;
}

/// Places `voxels` in order into a zeroed dense grid of `res`; voxels outside the grid are
/// skipped. The grid must fit in memory.
pub fn dense_density(res: [u32; 3], voxels: &[FogVoxel]) -> (d: Vec<u32>)
    requires
        voxel_total(res) <= usize::MAX,
    ensures
        d@.len() == voxel_total(res),
        forall|j: int| 0 <= j < d@.len() ==> d@[j] == density_at(res, voxels@, j),
{
    let (nx, ny, nz) = (res[0] as usize, res[1] as usize, res[2] as usize);
    assert(0 <= nx * ny) by (nonlinear_arith)
        requires 0 <= nx, 0 <= ny;
    assert(nx * ny <= nx * ny * nz || nz == 0) by (nonlinear_arith)
        requires 0 <= nx * ny, 0 <= nz;
    assert(nz == 0 ==> nx * ny * nz == 0) by (nonlinear_arith);
    let plane: usize = if nz == 0 { 0 } else { nx * ny };
    let total: usize = plane * nz;
    assert(total == voxel_total(res)) by (nonlinear_arith)
        requires total == plane * nz, plane == (if nz == 0 { 0 } else { nx * ny }), voxel_total(res) == nx * ny * nz;
    let mut d: Vec<u32> = Vec::new();
    while d.len() < total
        invariant
            d@.len() <= total,
            forall|j: int| 0 <= j < d@.len() ==> d@[j] == 0u32,
        decreases total - d.len(),
    {
        d.push(0);
    }
    let ghost all = voxels@;
    let mut k: usize = 0;
    while k < voxels.len()
        invariant
            k <= voxels@.len(),
            all == voxels@,
            total == voxel_total(res),
            nx == res[0] && ny == res[1] && nz == res[2],
            d@.len() == total,
            forall|j: int| 0 <= j < d@.len() ==> d@[j] == density_at(res, all.take(k as int), j),
        decreases voxels.len() - k,
    {
        let v = voxels[k];
        let ghost before = d@;
        assert(all.take(k + 1).drop_last() =~= all.take(k as int));
        assert(all.take(k + 1).last() == v);
        let c = v.coord;
        if 0 <= c[0] && 0 <= c[1] && 0 <= c[2] && (c[0] as usize) < nx && (c[1] as usize) < ny && (c[2] as usize) < nz {
            proof {
                lemma_dense_index_bound(res, c);
            }
            let (x, y, z) = (c[0] as usize, c[1] as usize, c[2] as usize);
            assert(y + ny * z < ny * nz) by (nonlinear_arith)
                requires y < ny, z < nz;
            assert(x + nx * (y + ny * z) == dense_index(res, c)->0);
            assert(nx * (y + ny * z) < total) by (nonlinear_arith)
                requires x + nx * (y + ny * z) < total, 0 <= x;
            assert(ny * z <= y + ny * z);
            assert(y + ny * z <= nx * (y + ny * z)) by (nonlinear_arith)
                requires nx >= 1, y + ny * z >= 0;
            let idx = x + nx * (y + ny * z);
            d.set(idx, v.value);
            assert forall|j: int| 0 <= j < d@.len() implies d@[j] == density_at(res, all.take(k + 1), j) by {
                if j != idx as int {
                    assert(d@[j] == before[j]);
                }
            }
        }
        k += 1;
    }
    assert(all.take(voxels@.len() as int) =~= all);
    d
}

/// The size of a fog grid: the resolution recorded in its metadata when all three axes are
/// there (read as `u32`), or else the extent of its bounding box (at least one voxel per
/// axis; a missing box counts as a single voxel).
pub open spec fn fog_resolution_of(meta: [Option<i32>; 3], bbox: Option<([i32; 3], [i32; 3])>) -> [u32; 3] {
    match (meta[0], meta[1], meta[2]) {
        (Some(x), Some(y), Some(z)) => [x as u32, y as u32, z as u32],
        _ => {
            let (lo, hi) = match bbox {
                Some(b) => b,
                None => ([0i32, 0i32, 0i32], [0i32, 0i32, 0i32]),
            };
            [
                (if hi[0] - lo[0] + 1 >= 1 { hi[0] - lo[0] + 1 } else { 1 }) as u32,
                (if hi[1] - lo[1] + 1 >= 1 { hi[1] - lo[1] + 1 } else { 1 }) as u32,
                (if hi[2] - lo[2] + 1 >= 1 { hi[2] - lo[2] + 1 } else { 1 }) as u32,
            ]
        },
    }
}

/// Whether a box's extent per axis, `hi - lo + 1`, and the difference on the way to it
/// are `i32`s.
pub open spec fn extent_fits(bbox: Option<([i32; 3], [i32; 3])>) -> bool {
    match bbox {
        Some((lo, hi)) => forall|a: int| 0 <= a < 3 ==> i32::MIN <= #[trigger] hi[a] - lo[a] && hi[a] - lo[a] + 1 <= i32::MAX,
        None => true,
    }
}

/// One axis of a box's extent, at least one.
fn axis_extent(lo: i32, hi: i32) -> (n: u32)
    requires
        i32::MIN <= hi - lo,
        hi - lo + 1 <= i32::MAX,
    ensures
        n == (if hi - lo + 1 >= 1 { hi - lo + 1 } else { 1 }) as u32,
{
    let e: i32 = hi - lo + 1;
    if e >= 1 {
        e as u32
    } else {
        1
    }
}

/// The size of a fog grid from its recorded resolution, or else its bounding box. A box
/// whose extent overflows `i32` is out of range.
pub fn fog_resolution(meta: [Option<i32>; 3], bbox: Option<([i32; 3], [i32; 3])>) -> (r: [u32; 3])
    requires
        extent_fits(bbox),
    ensures
        r == fog_resolution_of(meta, bbox),
{
    match (meta[0], meta[1], meta[2]) {
        (Some(x), Some(y), Some(z)) => [x as u32, y as u32, z as u32],
        _ => {
            let (lo, hi) = match bbox {
                Some(b) => b,
                None => ([0i32, 0i32, 0i32], [0i32, 0i32, 0i32]),
            };
            proof {
                if bbox is Some {
                    assert(i32::MIN <= hi[0] - lo[0] && hi[0] - lo[0] + 1 <= i32::MAX);
                    assert(i32::MIN <= hi[1] - lo[1] && hi[1] - lo[1] + 1 <= i32::MAX);
                    assert(i32::MIN <= hi[2] - lo[2] && hi[2] - lo[2] + 1 <= i32::MAX);
                }
            }
            [axis_extent(lo[0], hi[0]), axis_extent(lo[1], hi[1]), axis_extent(lo[2], hi[2])]
        },
    }
}

} // verus!
