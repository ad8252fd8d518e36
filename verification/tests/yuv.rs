use capture_core::encoder::YuvConverter;

#[test]
fn yuv_converter_red_pixel() {
    let mut conv = YuvConverter::new(2, 2);
    // 4 red pixels (BGRA: B=0, G=0, R=255, A=255)
    let bgra = vec![
        0u8, 0, 255, 255, 0, 0, 255, 255, 0, 0, 255, 255, 0, 0, 255, 255,
    ];
    conv.convert(&bgra);

    // Y for pure red: ((66*255) >> 8) + 16 = 81
    assert_eq!(conv.y_plane[0], 81);
    // Cr for pure red: ((112*255) >> 8) + 128 = 239
    assert_eq!(conv.v_plane[0], 239);
}

#[test]
fn yuv_converter_green_pixel() {
    let mut conv = YuvConverter::new(2, 2);
    // 4 green pixels (BGRA: B=0, G=255, R=0, A=255)
    let bgra = vec![
        0u8, 255, 0, 255, 0, 255, 0, 255, 0, 255, 0, 255, 0, 255, 0, 255,
    ];
    conv.convert(&bgra);

    // Y for pure green: ((129*255) >> 8) + 16 = 144
    assert_eq!(conv.y_plane[0], 144);
    // Cb for pure green: ((-74*255) >> 8) + 128 = 54
    assert_eq!(conv.u_plane[0], 54);
    // Cr for pure green: ((-94*255) >> 8) + 128 = 34
    assert_eq!(conv.v_plane[0], 34);
}

#[test]
fn yuv_converter_black_pixel() {
    let mut conv = YuvConverter::new(2, 2);
    // 4 black pixels (BGRA: all zeros except alpha)
    let bgra = vec![
        0u8, 0, 0, 255, 0, 0, 0, 255, 0, 0, 0, 255, 0, 0, 0, 255,
    ];
    conv.convert(&bgra);

    // Y for black: (0 >> 8) + 16 = 16
    assert_eq!(conv.y_plane[0], 16);
    // Cb for black: (0 >> 8) + 128 = 128
    assert_eq!(conv.u_plane[0], 128);
    // Cr for black: (0 >> 8) + 128 = 128
    assert_eq!(conv.v_plane[0], 128);
}

#[test]
fn yuv_converter_white_pixel() {
    let mut conv = YuvConverter::new(2, 2);
    // 4 white pixels (BGRA: B=255, G=255, R=255, A=255)
    let bgra = vec![
        255u8, 255, 255, 255, 255, 255, 255, 255, 255, 255, 255, 255, 255, 255, 255, 255,
    ];
    conv.convert(&bgra);

    // Y for white: ((66*255 + 129*255 + 25*255) >> 8) + 16 = 235
    assert_eq!(conv.y_plane[0], 235);
    // Cb for white: ((-38*255 - 74*255 + 112*255) >> 8) + 128 = 128
    assert_eq!(conv.u_plane[0], 128);
    // Cr for white: ((112*255 - 94*255 - 18*255) >> 8) + 128 = 128
    assert_eq!(conv.v_plane[0], 128);
}

#[test]
fn yuv_converter_dimensions() {
    let conv = YuvConverter::new(1920, 1080);
    assert_eq!(conv.y_plane.len(), 1920 * 1080);
    assert_eq!(conv.u_plane.len(), 960 * 540);
    assert_eq!(conv.v_plane.len(), 960 * 540);
}

#[test]
fn yuv_converter_small_dimensions() {
    let conv = YuvConverter::new(4, 4);
    assert_eq!(conv.y_plane.len(), 16);
    assert_eq!(conv.u_plane.len(), 4);
    assert_eq!(conv.v_plane.len(), 4);
}

#[test]
fn yuv_converter_gradient_full_frame() {
    // Every luma sample is the BT.601 luma of its own pixel.
    let w = 4usize;
    let h = 4usize;
    let mut conv = YuvConverter::new(w as u32, h as u32);
    let mut bgra = Vec::new();
    for p in 0..(w * h) {
        bgra.push((p * 16) as u8); // B
        bgra.push((p * 8) as u8); // G
        bgra.push((p * 4) as u8); // R
        bgra.push(255u8); // A
    }
    conv.convert(&bgra);
    for p in 0..(w * h) {
        let b = bgra[p * 4] as i32;
        let g = bgra[p * 4 + 1] as i32;
        let r = bgra[p * 4 + 2] as i32;
        let luma = ((66 * r + 129 * g + 25 * b) >> 8) + 16;
        assert_eq!(conv.y_plane[p] as i32, luma);
    }
}
