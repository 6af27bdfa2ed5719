use elfentier_core::openvdb::{encode_openvdb_fog_grid, is_vdb_path, offset_to_local, pack_offset, value_is_active, OPENVDB_FOG_FORMAT};
use std::io::Cursor;

fn grid(nx: usize, ny: usize, nz: usize, f: impl Fn(usize, usize, usize) -> f32) -> Vec<u32> {
    let mut d = Vec::new();
    for z in 0..nz {
        for y in 0..ny {
            for x in 0..nx {
                d.push(f(x, y, z).to_bits());
            }
        }
    }
    d
}

#[test]
fn activity_threshold() {
    assert!(!value_is_active(0.0f32.to_bits()));
    assert!(!value_is_active(1.0e-7f32.to_bits()));
    assert!(value_is_active(2.0e-7f32.to_bits()));
    assert!(!value_is_active((-1.0f32).to_bits()));
    assert!(value_is_active(f32::INFINITY.to_bits()));
    assert!(!value_is_active(f32::NAN.to_bits()));
}

#[test]
fn offsets_round_trip() {
    let off = pack_offset(3, 5, 7, 3);
    assert_eq!(off, (3 << 6) | (5 << 3) | 7);
    assert_eq!(offset_to_local(off, 3), (3, 5, 7));
}

#[test]
fn encodes_a_readable_fog_grid() {
    let (nx, ny, nz) = (12, 11, 10);
    let density = grid(nx, ny, nz, |x, y, z| if x == 3 && y == 4 && z == 5 { 0.75 } else if x == 9 && y == 1 && z == 2 { 0.25 } else { 0.0 });
    let (bytes, result) = encode_openvdb_fog_grid(
        "d.vdb",
        "density",
        nx,
        ny,
        nz,
        [0.0f64.to_bits(); 3],
        [0.5f64.to_bits(); 3],
        &density,
        4,
    );
    assert_eq!(result.active_voxels, 2);
    assert_eq!(result.byte_len, bytes.len());
    assert_eq!(result.format, OPENVDB_FOG_FORMAT);
    assert_eq!(result.frame_index, 4);
    assert_eq!(result.resolution, [12, 11, 10]);

    let mut reader = vdb_rs::VdbReader::new(Cursor::new(bytes)).expect("parse header");
    assert_eq!(reader.available_grids(), vec!["density".to_string()]);
    let g = reader.read_grid::<f32>("density").expect("read grid");
    let mut voxels: Vec<(i32, i32, i32, f32)> = g
        .iter()
        .map(|(p, v, _)| (p.x as i32, p.y as i32, p.z as i32, v))
        .filter(|&(_, _, _, v)| v > 1.0e-7)
        .collect();
    voxels.sort_by(|a, b| a.partial_cmp(b).unwrap());
    // Leaf samples are stored x fastest; a reader that walks leaf offsets x-major sees each
    // voxel with its in-leaf x and z exchanged.
    assert_eq!(voxels, vec![(5, 4, 3, 0.75), (10, 1, 1, 0.25)]);
}

#[test]
fn empty_grid_encodes_no_active_voxels() {
    let density = grid(4, 4, 4, |_, _, _| 0.0);
    let (bytes, result) = encode_openvdb_fog_grid("e.vdb", "density", 4, 4, 4, [0; 3], [0; 3], &density, 0);
    assert_eq!(result.active_voxels, 0);
    assert!(bytes.len() > 256);
}

#[test]
fn bare_file_names_are_judged_by_their_last_extension() {
    assert!(is_vdb_path("smoke.vdb"));
    assert!(is_vdb_path("smoke.cache.VDB"));
    assert!(!is_vdb_path("smoke.vdb.evol"));
    assert!(!is_vdb_path(".vdb"));
    assert!(is_vdb_path("..vdb"));
    assert!(!is_vdb_path("vdb"));
}
