use elfentier_core::preview::{preview_has_visible_pixels, NativePreviewImage, CLEAR_RGBA};

#[test]
fn preview_from_rgba_validates_length() {
    let err = NativePreviewImage::from_rgba(2, 2, vec![0, 1, 2], "wgpu").expect_err("short buffer");
    assert!(err.contains("expected 16 bytes"));
}

#[test]
fn preview_base64_round_trip() {
    let rgba = vec![1u8, 2, 3, 4, 5, 6, 7, 8, 9, 10, 11, 12, 13, 14, 15, 16];
    let preview = NativePreviewImage::from_rgba(2, 2, rgba.clone(), "wgpu").expect("pack");
    assert_eq!(preview.decode_rgba().expect("decode"), rgba);
}

#[test]
fn preview_text_is_standard_base64() {
    let preview = NativePreviewImage::from_rgba(1, 1, vec![0x4d, 0x61, 0x6e, 0xff], "wgpu").expect("pack");
    assert_eq!(preview.rgba_base64, "TWFu/w==");
    assert_eq!(preview.backend, "wgpu");
}

#[test]
fn decode_rejects_text_that_is_not_base64() {
    let preview = NativePreviewImage {
        width: 1,
        height: 1,
        rgba_base64: "not base64!".to_string(),
        backend: "wgpu".to_string(),
    };
    let err = preview.decode_rgba().expect_err("bad text");
    assert!(err.starts_with("preview rgba base64 decode failed: "));
    assert!(err.len() > "preview rgba base64 decode failed: ".len());
}

#[test]
fn decode_rejects_wrong_decoded_length() {
    let preview = NativePreviewImage {
        width: 2,
        height: 1,
        rgba_base64: "TWFu/w==".to_string(),
        backend: "wgpu".to_string(),
    };
    let err = preview.decode_rgba().expect_err("short");
    assert!(err.contains("expected 8 bytes"));
}

#[test]
fn clear_frame_has_no_visible_pixels() {
    let frame: Vec<u8> = CLEAR_RGBA.iter().copied().cycle().take(4 * 6).collect();
    assert!(!preview_has_visible_pixels(&frame, CLEAR_RGBA));
    let mut lit = frame.clone();
    lit[4 * 5 + 3] = 0;
    assert!(preview_has_visible_pixels(&lit, CLEAR_RGBA));
    let mut trailing = frame.clone();
    trailing.push(1);
    assert!(!preview_has_visible_pixels(&trailing, CLEAR_RGBA));
}

#[test]
fn length_messages_spell_out_every_number() {
    let err = NativePreviewImage::from_rgba(120, 10, vec![7; 4803], "wgpu").expect_err("long buffer");
    assert_eq!(err, "preview rgba length 4803 does not match 120x10 (expected 4800 bytes)");
    let preview = NativePreviewImage {
        width: 2,
        height: 1,
        rgba_base64: "TWFu/w==".to_string(),
        backend: "wgpu".to_string(),
    };
    assert_eq!(preview.decode_rgba().expect_err("short"), "decoded preview rgba length 4 does not match 2x1 (expected 8 bytes)");
    let err = NativePreviewImage::from_rgba(0, 7, vec![0], "wgpu").expect_err("empty frame");
    assert_eq!(err, "preview rgba length 1 does not match 0x7 (expected 0 bytes)");
}
