use luminaire::icon::{render_lightbulb_icon, to_argb32, ICON_SIZE};

#[test]
fn test_icon_size() {
    let icon = render_lightbulb_icon(true, false);
    assert_eq!(icon.len(), (ICON_SIZE * ICON_SIZE * 4) as usize);
}

#[test]
fn test_on_icon_has_yellow_pixels() {
    let icon = render_lightbulb_icon(true, false);
    let idx = (11 * ICON_SIZE as usize + 16) * 4;
    assert_eq!(icon[idx], 255); // R
    assert_eq!(icon[idx + 1], 220); // G
    assert_eq!(icon[idx + 2], 80); // B
}

#[test]
fn test_off_icon_has_gray_pixels() {
    let icon = render_lightbulb_icon(false, false);
    let idx = (11 * ICON_SIZE as usize + 16) * 4;
    assert_eq!(icon[idx], 128);
    assert_eq!(icon[idx + 1], 128);
    assert_eq!(icon[idx + 2], 128);
}

#[test]
fn test_off_icon_dark_mode_lighter_gray() {
    let icon = render_lightbulb_icon(false, true);
    let idx = (11 * ICON_SIZE as usize + 16) * 4;
    assert_eq!(icon[idx], 200);
    assert_eq!(icon[idx + 1], 200);
    assert_eq!(icon[idx + 2], 200);
}

#[test]
fn test_on_icon_has_glow() {
    let icon = render_lightbulb_icon(true, false);
    let idx = (1 * ICON_SIZE as usize + 16) * 4;
    let a = icon[idx + 3];
    assert!(a > 0, "glow pixel should have alpha > 0, got {}", a);
    assert!(icon[idx] > 200, "glow should be reddish-yellow, R={}", icon[idx]);
}

#[test]
fn test_off_icon_no_glow() {
    let icon = render_lightbulb_icon(false, false);
    let idx = (1 * ICON_SIZE as usize + 16) * 4;
    assert_eq!(icon[idx + 3], 0, "off icon should have no glow");
}

#[test]
fn test_to_argb32_conversion() {
    let rgba = vec![
        255, 0, 0, 255, // pixel 0: red, opaque
        0, 255, 0, 128, // pixel 1: green, semi-transparent
        0, 0, 255, 0, // pixel 2: blue, transparent
        255, 255, 0, 255, // pixel 3: yellow, opaque
    ];
    let argb = to_argb32(&rgba, 2, 2);
    assert_eq!(&argb[0..4], &[255, 255, 0, 0]);
    assert_eq!(&argb[4..8], &[128, 0, 255, 0]);
    assert_eq!(&argb[8..12], &[0, 0, 0, 255]);
    assert_eq!(&argb[12..16], &[255, 255, 255, 0]);
}

#[test]
fn to_argb32_ignores_bytes_past_the_pixels() {
    let rgba = vec![1, 2, 3, 4, 5, 6, 7, 8, 9];
    assert_eq!(to_argb32(&rgba, 2, 1), vec![4, 1, 2, 3, 8, 5, 6, 7]);
    assert_eq!(to_argb32(&rgba, 0, 5), Vec::<u8>::new());
}

// A floating-point rendering of the same drawing (QPainter-style geometry
// computed in f64), to check the integer geometry against.
fn float_reference(on: bool, dark_mode: bool) -> Vec<u8> {
    let size = 32usize;
    let mut rgba = vec![0u8; size * size * 4];
    let set = |rgba: &mut Vec<u8>, x: usize, y: usize, c: (u8, u8, u8, u8)| {
        let idx = (y * 32 + x) * 4;
        rgba[idx] = c.0;
        rgba[idx + 1] = c.1;
        rgba[idx + 2] = c.2;
        rgba[idx + 3] = c.3;
    };
    let bulb = if on { (255, 220, 80) } else if dark_mode { (200, 200, 200) } else { (128, 128, 128) };
    let outline = if on { (200, 160, 40) } else if dark_mode { (150, 150, 150) } else { (80, 80, 80) };
    let base: (u8, u8, u8) = if on { (180, 180, 180) } else { (100, 100, 100) };
    let f = 100.0f64 / 120.0;
    let dark = (
        (base.0 as f64 * f).round() as u8,
        (base.1 as f64 * f).round() as u8,
        (base.2 as f64 * f).round() as u8,
    );
    if on {
        for y in 0..24 {
            for x in 2..30 {
                let dx = (x as f64) - 16.0;
                let dy = (y as f64) - 12.0;
                let dist = (dx * dx + dy * dy).sqrt();
                let t = (dist / 14.0).clamp(0.0, 1.0);
                let alpha = (180.0 * (1.0 - t)).round() as u8;
                if alpha > 0 {
                    set(&mut rgba, x, y, (255, 240, 150, alpha));
                }
            }
        }
    }
    let (cx, cy, rx, ry, pen_half) = (16.0f64, 11.0f64, 10.0f64, 9.0f64, 0.75f64);
    for y in 0..size {
        for x in 0..size {
            let nx = (x as f64 - cx) / rx;
            let ny = (y as f64 - cy) / ry;
            let d = (nx * nx + ny * ny).sqrt();
            if d <= 1.0 - pen_half / ((rx + ry) / 2.0) {
                set(&mut rgba, x, y, (bulb.0, bulb.1, bulb.2, 255));
            } else if d <= 1.0 + pen_half / ((rx + ry) / 2.0) {
                set(&mut rgba, x, y, (outline.0, outline.1, outline.2, 255));
            }
        }
    }
    for y in 19..=24 {
        let t = (y - 19) as f64 / 5.0;
        let left = 10.0 + t * 2.0;
        let right = 22.0 - t * 2.0;
        for x in 0..size {
            let px = x as f64;
            if px >= left - 0.5 && px <= right + 0.5 {
                set(&mut rgba, x, y, (base.0, base.1, base.2, 255));
            }
        }
    }
    for (x0, y0, w) in [(12usize, 24usize, 8usize), (13, 26, 6), (14, 28, 4)] {
        for y in y0..y0 + 2 {
            for x in x0..x0 + w {
                set(&mut rgba, x, y, (dark.0, dark.1, dark.2, 255));
            }
        }
    }
    rgba
}

#[test]
fn icon_matches_float_rendering() {
    for on in [false, true] {
        for dark_mode in [false, true] {
            let icon = render_lightbulb_icon(on, dark_mode);
            let reference = float_reference(on, dark_mode);
            for k in 0..icon.len() {
                assert_eq!(
                    icon[k], reference[k],
                    "on={} dark={} pixel ({}, {}) channel {}",
                    on, dark_mode, (k / 4) % 32, (k / 4) / 32, k % 4
                );
            }
        }
    }
}

#[test]
fn icon_threads_and_base_colors() {
    let on = render_lightbulb_icon(true, false);
    let off = render_lightbulb_icon(false, true);
    let px = |icon: &Vec<u8>, x: usize, y: usize| {
        let i = (y * 32 + x) * 4;
        (icon[i], icon[i + 1], icon[i + 2], icon[i + 3])
    };
    // threads: base colour darkened by 120
    assert_eq!(px(&on, 15, 24), (150, 150, 150, 255));
    assert_eq!(px(&off, 15, 29), (83, 83, 83, 255));
    // base trapezoid
    assert_eq!(px(&on, 16, 21), (180, 180, 180, 255));
    assert_eq!(px(&off, 11, 22), (100, 100, 100, 255));
    // outline ring of the bulb
    assert_eq!(px(&on, 6, 11), (200, 160, 40, 255));
    // glow at the centre is covered by the bulb, glow near the rim is faint
    assert_eq!(px(&on, 4, 11), (255, 240, 150, 25));
    assert_eq!(px(&off, 4, 11), (0, 0, 0, 0));
    assert_eq!(px(&on, 3, 3), (0, 0, 0, 0));
    // corners stay transparent
    assert_eq!(px(&on, 0, 31), (0, 0, 0, 0));
}
