use lab_suite::tray::tray_icon_rgba;

#[test]
fn icon_pixels() {
    let rgba = tray_icon_rgba();
    assert_eq!(rgba.len(), 32 * 32 * 4);
    let px = |x: usize, y: usize| &rgba[(y * 32 + x) * 4..(y * 32 + x) * 4 + 4];
    assert_eq!(px(0, 0), &[90, 50, 70, 255]);
    assert_eq!(px(15, 4), &[247, 237, 242, 255]);
    assert_eq!(px(10, 10), &[247, 237, 242, 255]);
    assert_eq!(px(3, 3), &[201, 116, 159, 255]);
    assert_eq!(px(31, 16), &[90, 50, 70, 255]);
}
