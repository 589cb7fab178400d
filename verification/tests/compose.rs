use tsubame::compose::blend_pixel;

#[test]
fn opaque_pixel_replaces_target() {
    let mut rgba = vec![10u8; 2 * 2 * 4];
    blend_pixel(&mut rgba, 2, 2, 1, 1, [200, 100, 50, 255]);
    assert_eq!(&rgba[12..16], &[200, 100, 50, 255]);
    assert_eq!(&rgba[0..12], &[10u8; 12]);
}

#[test]
fn half_transparent_pixel_is_mixed_and_made_opaque() {
    let mut rgba = vec![0u8; 4];
    blend_pixel(&mut rgba, 1, 1, 0, 0, [255, 0, 100, 128]);
    // 255 * 128 / 255 = 128; 100 * 128 / 255 = 50.2 -> 50
    assert_eq!(rgba, vec![128, 0, 50, 255]);
}

#[test]
fn pixels_outside_the_frame_are_ignored() {
    let mut rgba = vec![7u8; 4 * 4];
    let before = rgba.clone();
    blend_pixel(&mut rgba, 2, 2, -1, 0, [255; 4]);
    blend_pixel(&mut rgba, 2, 2, 2, 0, [255; 4]);
    blend_pixel(&mut rgba, 2, 2, 0, 2, [255; 4]);
    assert_eq!(rgba, before);
}

#[test]
fn a_pixel_needs_only_its_own_bytes_in_the_buffer() {
    // A 4×4 frame whose buffer holds only the first row.
    let mut rgba = vec![0u8; 16];
    blend_pixel(&mut rgba, 4, 4, 3, 0, [255, 255, 255, 255]);
    assert_eq!(&rgba[12..16], &[255, 255, 255, 255]);
    blend_pixel(&mut rgba, 4, 4, 9, 9, [255, 0, 0, 255]);
    assert_eq!(&rgba[0..4], &[0, 0, 0, 0]);
}
