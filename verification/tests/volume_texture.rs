use elfentier_core::volume_texture::{
    encode_volume_texture, read_header, read_volume_texture_frame, VolumeTextureError, HEADER_SIZE,
    VOLUME_TEXTURE_FORMAT,
};

fn bits(v: &[f32]) -> Vec<u32> {
    v.iter().map(|f| f.to_bits()).collect()
}

#[test]
fn round_trip_volume_texture_header_and_frame() {
    let n = 2 * 2 * 2;
    let frames = vec![bits(&vec![0.0; n]), bits(&[0.0, 0.5, 0.0, 0.25, 0.0, 0.0, 1.0, 0.0])];
    let bmin = [(-4.0f32).to_bits(), 0, (-4.0f32).to_bits()];
    let bmax = [4.0f32.to_bits(), 8.0f32.to_bits(), 4.0f32.to_bits()];
    let (bytes, result) = encode_volume_texture("v.evol", [2, 2, 2], bmin, bmax, &frames);
    assert_eq!(result.format, VOLUME_TEXTURE_FORMAT);
    assert!(result.byte_len > HEADER_SIZE);
    assert_eq!(result.byte_len, bytes.len());
    assert_eq!(&bytes[0..4], b"EFVT");

    let header = read_header(&bytes).expect("header");
    assert_eq!(header.nx, 2);
    assert_eq!(header.frame_count, 2);
    assert_eq!(header.bounds_max, bmax);

    let frame1 = read_volume_texture_frame(&bytes, 1).expect("frame");
    assert_eq!(frame1.len(), header.frame_voxel_count());
    assert_eq!(frame1, frames[1]);
    assert!(frame1.iter().any(|&v| f32::from_bits(v) > 0.0));
}

#[test]
fn empty_export_writes_one_zero_frame() {
    let (bytes, result) = encode_volume_texture("e.evol", [3, 1, 1], [0; 3], [0; 3], &vec![]);
    assert_eq!(result.frame_count, 1);
    assert_eq!(bytes.len(), HEADER_SIZE + 12);
    assert_eq!(read_volume_texture_frame(&bytes, 0).expect("frame"), vec![0, 0, 0]);
}

#[test]
fn read_errors() {
    let (bytes, _) = encode_volume_texture("e.evol", [1, 1, 1], [0; 3], [0; 3], &vec![vec![7]]);
    assert_eq!(read_volume_texture_frame(&bytes, 1), Err(VolumeTextureError::FrameOutOfRange));
    assert_eq!(read_volume_texture_frame(&bytes[..HEADER_SIZE + 2], 0), Err(VolumeTextureError::UnexpectedEof));
    assert_eq!(read_header(&bytes[..3]), Err(VolumeTextureError::UnexpectedEof));
    assert_eq!(read_header(&bytes[..30]), Err(VolumeTextureError::UnexpectedEof));
    let mut bad = bytes.clone();
    bad[0] = b'X';
    assert_eq!(read_header(&bad), Err(VolumeTextureError::InvalidMagic));
    let mut v2 = bytes.clone();
    v2[4] = 2;
    assert_eq!(read_header(&v2), Err(VolumeTextureError::UnsupportedVersion(2)));
    assert_eq!(read_volume_texture_frame(&bytes, 0), Ok(vec![7]));
}

#[test]
fn header_byte_counts() {
    let (bytes, _) = encode_volume_texture("c.evol", [4, 3, 2], [0; 3], [0; 3], &vec![vec![0; 24], vec![0; 24]]);
    let h = read_header(&bytes).expect("header");
    assert_eq!(h.voxel_count(), 24);
    assert_eq!(h.frame_voxel_count(), 24);
    assert_eq!(h.data_byte_len(), 24 * 2 * 4);
}
