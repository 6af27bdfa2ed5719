use elfentier_core::openvdb::{extension_is_vdb, is_vdb_path};
use elfentier_core::preview::{default_smoke_preview_frame, smoke_preview_cull_budget, CLEAR_RGBA};
use elfentier_core::regions::{preview_bright_bbox, smoke_plume_counts};
use elfentier_core::rng::{hash_coords, placement_hash, LcgRng};

#[test]
fn lcg_sequence() {
    let mut r = LcgRng::new(0);
    assert_eq!(r.state, 1);
    let a = r.next_u64();
    assert_eq!(a, 6364136223846793005u64.wrapping_add(1));
    let b = r.next_u64();
    assert_eq!(b, a.wrapping_mul(6364136223846793005).wrapping_add(1));
    assert_eq!(LcgRng::new(42).state, 42);
}

#[test]
fn facade_hash_is_a_byte() {
    let mut x: u64 = 7 ^ (3u64 << 32) ^ 5;
    x ^= x >> 33;
    x = x.wrapping_mul(0xff51_afed_0b33_aaad);
    x ^= x >> 33;
    assert_eq!(hash_coords(7, 3, 5), (x & 0xff) as u32);
    assert!(hash_coords(u64::MAX, u32::MAX, u32::MAX) < 256);
}

#[test]
fn preview_frame_choice() {
    assert_eq!(default_smoke_preview_frame(0), 0);
    assert_eq!(default_smoke_preview_frame(1), 0);
    assert_eq!(default_smoke_preview_frame(2), 1);
    assert_eq!(default_smoke_preview_frame(13), 8);
    assert_eq!(smoke_preview_cull_budget(399), 72);
    assert_eq!(smoke_preview_cull_budget(400), 680);
}

#[test]
fn vdb_extension_checks() {
    assert!(is_vdb_path("/tmp/smoke.vdb"));
    assert!(is_vdb_path("SMOKE.VDB"));
    assert!(!is_vdb_path("smoke.evol"));
    assert!(!is_vdb_path("vdb"));
    let e: Vec<char> = "VdB".chars().collect();
    assert!(extension_is_vdb(Some(&e)));
    assert!(!extension_is_vdb(None));
}

#[test]
fn bright_box_of_a_rectangle() {
    let (w, h) = (8u32, 6u32);
    let mut rgba = vec![0u8; (w * h * 4) as usize];
    for y in 2..4usize {
        for x in 3..6usize {
            let i = (y * w as usize + x) * 4;
            rgba[i] = 240;
            rgba[i + 1] = 240;
            rgba[i + 2] = 240;
        }
    }
    let b = preview_bright_bbox(&rgba, w, h, CLEAR_RGBA).expect("frame");
    assert_eq!((b.area, b.min_x, b.min_y, b.max_x, b.max_y), (6, 3, 2, 5, 3));
    let empty = preview_bright_bbox(&vec![0u8; 16], 2, 2, CLEAR_RGBA).expect("frame");
    assert_eq!((empty.area, empty.min_x, empty.min_y, empty.max_x, empty.max_y), (0, 2, 2, 0, 0));
    assert!(preview_bright_bbox(&rgba, 9, 6, CLEAR_RGBA).is_none());
}

#[test]
fn plume_window_counts() {
    let (w, h) = (100u32, 60u32);
    let mut rgba = vec![0u8; (w * h * 4) as usize];
    // a mid-grey pixel (smoke-toned, not bright) and a bright one
    rgba[4 * 10] = 70;
    rgba[4 * 10 + 1] = 70;
    rgba[4 * 10 + 2] = 70;
    rgba[4 * 20] = 200;
    rgba[4 * 20 + 1] = 200;
    rgba[4 * 20 + 2] = 200;
    // the last column of an odd-width frame of 100 columns is inside the window
    let c = smoke_plume_counts(&rgba, w, h, CLEAR_RGBA).expect("frame");
    assert_eq!(c.center_total, 100 * 60);
    assert_eq!(c.smoke_pixels, 2);
    assert_eq!(c.bright_pixels, 1);
    let odd = smoke_plume_counts(&vec![0u8; 101 * 3 * 4], 101, 3, CLEAR_RGBA).expect("frame");
    assert_eq!(odd.center_total, 100 * 3);
}

#[test]
fn placement_hash_matches_the_finalizer() {
    assert_eq!(placement_hash(1, 0), 24402);
    assert_eq!(placement_hash(42, 3), 4323);
    assert_eq!(placement_hash(0xdead ^ 7, 5), 51770);
    assert!(placement_hash(u64::MAX, u32::MAX) < 65536);
}
