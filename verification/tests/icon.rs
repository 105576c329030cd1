use actlog::icon::tray_icon_rgba;

#[test]
fn icon_has_one_rgba_quad_per_pixel() {
    assert_eq!(tray_icon_rgba().len(), 32 * 32 * 4);
}

#[test]
fn icon_centre_is_blue_and_corner_transparent() {
    let p = tray_icon_rgba();
    let at = |x: usize, y: usize| p[(y * 32 + x) * 4..(y * 32 + x) * 4 + 4].to_vec();
    assert_eq!(at(15, 15), vec![40, 110, 230, 255]);
    assert_eq!(at(0, 0), vec![0, 0, 0, 0]);
    assert_eq!(at(4, 15), vec![40, 110, 230, 255]);
    assert_eq!(at(3, 15), vec![0, 0, 0, 0]);
}

#[test]
fn icon_matches_float_disc() {
    let p = tray_icon_rgba();
    for y in 0..32usize {
        for x in 0..32usize {
            let dx = x as f32 - 15.5;
            let dy = y as f32 - 15.5;
            let expect: [u8; 4] = if dx * dx + dy * dy <= 144.0 { [40, 110, 230, 255] } else { [0, 0, 0, 0] };
            let idx = (y * 32 + x) * 4;
            assert_eq!(&p[idx..idx + 4], &expect[..], "pixel ({}, {})", x, y);
        }
    }
}
