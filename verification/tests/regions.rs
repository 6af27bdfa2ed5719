use elfentier_core::preview::CLEAR_RGBA;
use elfentier_core::regions::{
    contrast_counts, distinct_color_count, is_bright_rgb, is_bright_smoke_pixel, preview_bright_blob_count,
    preview_largest_bright_region_area,
};

fn f32_luma(r: u8, g: u8, b: u8) -> f32 {
    0.2126 * r as f32 + 0.7152 * g as f32 + 0.0722 * b as f32
}

fn blank(w: u32, h: u32) -> Vec<u8> {
    let mut rgba = vec![CLEAR_RGBA[0], CLEAR_RGBA[1], CLEAR_RGBA[2], CLEAR_RGBA[3]];
    rgba.resize(w as usize * h as usize * 4, 0);
    rgba
}

#[test]
fn slab_heuristics_reject_single_flat_region() {
    let w = 64u32;
    let h = 48u32;
    let mut rgba = blank(w, h);
    for y in 0..h {
        for x in 0..w / 2 {
            let i = (y as usize * w as usize + x as usize) * 4;
            rgba[i] = 220;
            rgba[i + 1] = 215;
            rgba[i + 2] = 205;
            rgba[i + 3] = 255;
        }
    }
    let largest = preview_largest_bright_region_area(&rgba, w, h, CLEAR_RGBA);
    let pct = 100.0 * largest as f32 / (w * h) as f32;
    assert!(pct > 40.0, "flat slab should exceed region cap, got {pct}%");
    assert_eq!(largest, 32 * 48);
    assert_eq!(preview_bright_blob_count(&rgba, w, h, CLEAR_RGBA), 1);
}

#[test]
fn slab_heuristics_accept_multiple_blobs() {
    let w = 96u32;
    let h = 72u32;
    let mut rgba = blank(w, h);
    let centers = [(24, 20), (48, 30), (70, 18), (36, 50), (60, 55), (18, 42)];
    for &(cx, cy) in &centers {
        for y in 0..h {
            for x in 0..w {
                let dx = x as i32 - cx;
                let dy = y as i32 - cy;
                if (dx * dx + dy * dy) > 42 {
                    continue;
                }
                let i = (y as usize * w as usize + x as usize) * 4;
                rgba[i] = 210;
                rgba[i + 1] = 205;
                rgba[i + 2] = 198;
                rgba[i + 3] = 255;
            }
        }
    }
    let blobs = preview_bright_blob_count(&rgba, w, h, CLEAR_RGBA);
    assert!(blobs >= 2, "expected multiple blobs, got {blobs}");
    assert_eq!(blobs, 6);
    let largest = preview_largest_bright_region_area(&rgba, w, h, CLEAR_RGBA);
    let pct = 100.0 * largest as f32 / (w * h) as f32;
    assert!(pct < 28.0 && pct >= 1.0, "largest={pct}%");
}

#[test]
fn small_specks_are_not_blobs() {
    let w = 10u32;
    let h = 10u32;
    let mut rgba = blank(w, h);
    for p in [0usize, 2, 4, 22, 44] {
        rgba[4 * p] = 255;
        rgba[4 * p + 1] = 255;
        rgba[4 * p + 2] = 255;
    }
    assert_eq!(preview_bright_blob_count(&rgba, w, h, CLEAR_RGBA), 0);
    assert_eq!(preview_largest_bright_region_area(&rgba, w, h, CLEAR_RGBA), 1);
}

#[test]
fn regions_touch_only_horizontally_and_vertically() {
    let w = 6u32;
    let h = 6u32;
    let mut rgba = blank(w, h);
    // a diagonal line: six separate one-pixel regions
    for k in 0..6usize {
        let p = k * 6 + k;
        rgba[4 * p] = 250;
        rgba[4 * p + 1] = 250;
        rgba[4 * p + 2] = 250;
    }
    assert_eq!(preview_largest_bright_region_area(&rgba, w, h, CLEAR_RGBA), 1);
    // a row that wraps is not one region: pixels 5 and 6 are on different rows
    let mut row = blank(w, h);
    for p in [5usize, 6] {
        row[4 * p] = 250;
        row[4 * p + 1] = 250;
        row[4 * p + 2] = 250;
    }
    assert_eq!(preview_largest_bright_region_area(&row, w, h, CLEAR_RGBA), 1);
}

#[test]
fn size_mismatch_counts_nothing() {
    let rgba = vec![255u8; 4 * 20];
    assert_eq!(preview_bright_blob_count(&rgba, 5, 5, CLEAR_RGBA), 0);
    assert_eq!(preview_largest_bright_region_area(&rgba, 0, 5, CLEAR_RGBA), 0);
}

#[test]
fn integer_luma_matches_single_precision_test() {
    for r in (0..=255u32).step_by(3) {
        for g in (0..=255u32).step_by(5) {
            for b in (0..=255u32).step_by(7) {
                let (r, g, b) = (r as u8, g as u8, b as u8);
                let delta = r.abs_diff(CLEAR_RGBA[0]).max(g.abs_diff(CLEAR_RGBA[1])).max(b.abs_diff(CLEAR_RGBA[2]));
                let expected = f32_luma(r, g, b) >= 82.0 && delta >= 16;
                assert_eq!(is_bright_rgb(r, g, b, CLEAR_RGBA), expected, "{r} {g} {b}");
            }
        }
    }
    for (r, g, b) in [(164u8, 55u8, 108u8), (246, 28, 134)] {
        assert!(f32_luma(r, g, b) < 82.0);
        assert!(!is_bright_smoke_pixel(&[r, g, b, 255], CLEAR_RGBA));
    }
}

#[test]
fn contrast_counts_track_the_largest_difference() {
    let clear = [10, 10, 10, 255];
    let rgba = vec![10, 10, 10, 255, 30, 12, 10, 255, 10, 10, 9, 0, 200, 10, 10, 1, 7];
    let (max_delta, reaching) = contrast_counts(&rgba, clear);
    assert_eq!(max_delta, 190);
    assert_eq!(reaching, 2);
    assert_eq!(contrast_counts(&[], clear), (0, 0));
}

#[test]
fn distinct_colors_ignore_alpha_and_trailing_bytes() {
    let rgba = vec![1, 2, 3, 0, 1, 2, 3, 255, 3, 2, 1, 7, 0, 0, 0, 0, 9, 9];
    assert_eq!(distinct_color_count(&rgba), 3);
    assert_eq!(distinct_color_count(&[]), 0);
}
