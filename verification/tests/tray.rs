use rustshot_wayland::tray::{tray_icon_argb, ICON_SIZE};

fn px(data: &[u8], x: usize, y: usize) -> [u8; 4] {
    let i = (y * 22 + x) * 4;
    [data[i], data[i + 1], data[i + 2], data[i + 3]]
}

#[test]
fn icon_size_and_regions() {
    let d = tray_icon_argb();
    assert_eq!(ICON_SIZE, 22);
    assert_eq!(d.len(), 22 * 22 * 4);
    assert_eq!(px(&d, 0, 0), [0, 0, 0, 0]);
    assert_eq!(px(&d, 4, 4), [0xff, 0xff, 0xc8, 0x00]);
    assert_eq!(px(&d, 17, 10), [0xff, 0xff, 0xc8, 0x00]);
    assert_eq!(px(&d, 10, 10), [0xff, 0x20, 0x20, 0x24]);
    assert_eq!(px(&d, 1, 10), [0xff, 0x20, 0x20, 0x24]);
}

#[test]
fn icon_matches_the_float_badge_rule() {
    let d = tray_icon_argb();
    let c = (22.0f32 - 1.0) / 2.0;
    for y in 0..22usize {
        for x in 0..22usize {
            let dx = x as f32 - c;
            let dy = y as f32 - c;
            let in_badge = (dx * dx + dy * dy).sqrt() <= 10.3;
            let in_outer = (4..=17).contains(&x) && (4..=17).contains(&y);
            let in_inner = (6..=15).contains(&x) && (6..=15).contains(&y);
            let want = if in_outer && !in_inner {
                [0xff, 0xff, 0xc8, 0x00]
            } else if in_badge {
                [0xff, 0x20, 0x20, 0x24]
            } else {
                [0, 0, 0, 0]
            };
            assert_eq!(px(&d, x, y), want, "pixel {x},{y}");
        }
    }
}
