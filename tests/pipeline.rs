use grad_glyphs::{
    cell_glyph, compute_gradient, decode_image, glyph_for_sector, gradient_glyphs, pack_cells,
    render_grad, sector, Image, Pixel,
};

fn grey(v: u8) -> Pixel {
    Pixel { r: v, g: v, b: v }
}

fn image_from(width: u32, height: u32, f: impl Fn(u32, u32) -> Pixel) -> Image {
    let mut pixels = Vec::new();
    for y in 0..height {
        for x in 0..width {
            pixels.push(f(x, y));
        }
    }
    Image { width, height, pixels }
}

fn text(chars: Vec<char>) -> String {
    chars.into_iter().collect()
}

#[test]
fn gradient_length_is_width_times_height() {
    for (w, h) in [(1u32, 1u32), (3, 2), (9, 4), (1, 7)] {
        let img = image_from(w, h, |x, y| grey((x * 10 + y) as u8));
        assert_eq!(compute_gradient(&img).len(), (w * h) as usize);
    }
}

#[test]
fn gradient_uses_clamped_neighbours() {
    // intensities along one row: 0, 30, 90 (channel sums of 0, 10, 30)
    let img = image_from(3, 1, |x, _| grey([0u8, 10, 30][x as usize]));
    let g = compute_gradient(&img);
    assert_eq!(g, vec![(30, 0), (90, 0), (60, 0)]);
}

#[test]
fn gradient_sums_channels_and_ignores_nothing_else() {
    let img = image_from(1, 3, |_, y| match y {
        0 => Pixel { r: 255, g: 0, b: 0 },
        1 => Pixel { r: 0, g: 0, b: 0 },
        _ => Pixel { r: 255, g: 255, b: 255 },
    });
    let g = compute_gradient(&img);
    assert_eq!(g, vec![(0, -255), (0, 510), (0, 765)]);
}

#[test]
fn uniform_image_gives_zero_field_and_left_arrows() {
    let img = image_from(16, 17, |_, _| Pixel { r: 12, g: 200, b: 7 });
    let g = compute_gradient(&img);
    assert!(g.iter().all(|&v| v == (0, 0)));
    let cells = pack_cells(&g, 16, 17);
    assert_eq!(cells.len(), 3 * 3);
    assert!(cells.iter().all(|&c| c == (0, 0)));
    assert_eq!(text(render_grad(&cells, 16, 17)), "←←\n←←\n");
}

#[test]
fn single_column_has_zero_horizontal_gradient() {
    let img = image_from(1, 5, |_, y| grey((y * 40) as u8));
    let g = compute_gradient(&img);
    assert!(g.iter().all(|v| v.0 == 0));
    assert_eq!(g[2], (0, 240));
}

#[test]
fn corner_gradient_replicates_edge_pixel() {
    let img = image_from(2, 2, |x, y| grey([[1u8, 5], [20, 50]][y as usize][x as usize]));
    let g = compute_gradient(&img);
    assert_eq!(g[0], (3 * 5 - 3 * 1, 3 * 20 - 3 * 1));
    let one = image_from(1, 1, |_, _| grey(99));
    assert_eq!(compute_gradient(&one), vec![(0, 0)]);
}

#[test]
fn rendered_grid_counts_only_whole_cells() {
    let img = image_from(20, 17, |x, y| grey(((x * 7 + y * 3) % 256) as u8));
    let out = text(gradient_glyphs(&img));
    let lines: Vec<&str> = out.split_terminator('\n').collect();
    assert_eq!(lines.len(), 2);
    assert!(lines.iter().all(|l| l.chars().count() == 2));
    let small = image_from(5, 5, |_, _| grey(1));
    assert!(gradient_glyphs(&small).is_empty());
    let thin = image_from(7, 16, |_, _| grey(1));
    assert_eq!(text(gradient_glyphs(&thin)), "\n\n");
}

#[test]
fn angle_examples_pick_expected_glyphs() {
    assert_eq!(sector(1, 0), 4);
    assert_eq!(cell_glyph(1, 0), '←');
    assert_eq!(sector(-1, 0), 0);
    assert_eq!(cell_glyph(-1, 0), '→');
    assert_eq!(sector(0, -1), 2);
    assert_eq!(cell_glyph(0, -1), '↓');
    assert_eq!(cell_glyph(0, 0), '←');
}

#[test]
fn every_sector_has_its_glyph() {
    let dirs = [
        ((-2, -1), 0, '→'),
        ((-1, -2), 1, '↘'),
        ((1, -2), 2, '↓'),
        ((0, -5), 2, '↓'),
        ((2, -1), 3, '↙'),
        ((2, 1), 4, '←'),
        ((1, 2), 5, '↖'),
        ((0, 3), 6, '↑'),
        ((-1, 2), 6, '↑'),
        ((-2, 1), 7, '↗'),
        ((-1, -1), 1, '↘'),
        ((1, 1), 5, '↖'),
    ];
    for ((gx, gy), s, c) in dirs {
        assert_eq!(sector(gx, gy), s, "sector of ({}, {})", gx, gy);
        assert_eq!(cell_glyph(gx, gy), c, "glyph of ({}, {})", gx, gy);
    }
    assert_eq!(sector(i64::MIN, i64::MAX), 7);
    assert_eq!(sector(i64::MAX, i64::MIN), 2);
}

#[test]
fn sector_table_has_fallback() {
    assert_eq!(glyph_for_sector(0), '→');
    assert_eq!(glyph_for_sector(8), '→');
    assert_eq!(glyph_for_sector(7), '↗');
    assert_eq!(glyph_for_sector(9), '💩');
    assert_eq!(glyph_for_sector(255), '💩');
}

#[test]
fn split_image_gives_one_horizontal_arrow() {
    let img = image_from(8, 8, |x, _| if x < 4 { grey(0) } else { grey(255) });
    let g = compute_gradient(&img);
    let cells = pack_cells(&g, 8, 8);
    assert_eq!(cells[0], (8 * 765, 0));
    assert_eq!(text(gradient_glyphs(&img)), "←\n");
    let flipped = image_from(8, 8, |x, _| if x < 4 { grey(255) } else { grey(0) });
    assert_eq!(text(gradient_glyphs(&flipped)), "→\n");
}

#[test]
fn pipeline_twice_gives_identical_text() {
    let img = image_from(33, 25, |x, y| Pixel { r: (x * 9) as u8, g: (y * 13) as u8, b: ((x * y) % 256) as u8 });
    let a = gradient_glyphs(&img);
    let b = gradient_glyphs(&img);
    assert_eq!(a, b);
    assert_eq!(a.len(), 3 * 5);
}

#[test]
fn pooling_sums_the_clamped_window() {
    // a constant field: every sample of every window counts once
    let g = vec![(1, 2); 16 * 8];
    let cells = pack_cells(&g, 16, 8);
    assert_eq!(cells.len(), 3 * 2);
    assert_eq!(cells[0], (64, 128));
    assert_eq!(cells[1], (64, 128));
    // one marked pixel at (0, 0) is replicated into the 5 x 5 clamped corner
    let mut h = vec![(0, 0); 8 * 8];
    h[0] = (1, -1);
    let c = pack_cells(&h, 8, 8);
    assert_eq!(c[0], (25, -25));
}

#[test]
fn pooling_partial_column_overwrites_next_row_start() {
    // width 12: anchors at x = 0 and x = 8, but rows hold 12 / 8 = 1 cell
    let mut g = vec![(0, 0); 12 * 16];
    g[0] = (1, 0);
    // seen only by the anchor at (8, 0), whose slot the anchor at (0, 8) reuses
    g[2 * 12 + 10] = (0, 1);
    // seen only by the anchor at (0, 8)
    g[4 * 12 + 3] = (7, 0);
    let cells = pack_cells(&g, 12, 16);
    assert_eq!(cells, vec![(25, 0), (7, 0), (0, 0), (0, 0), (0, 0), (0, 0)]);
}

#[test]
fn from_rgb_bytes_reads_triples() {
    let raw = vec![1, 2, 3, 4, 5, 6, 7];
    let img = Image::from_rgb_bytes(2, 1, &raw).unwrap();
    assert_eq!(img.pixels, vec![Pixel { r: 1, g: 2, b: 3 }, Pixel { r: 4, g: 5, b: 6 }]);
    assert!(Image::from_rgb_bytes(3, 1, &raw).is_none());
    assert_eq!(Image::from_rgb_bytes(0, 5, &vec![]).unwrap().pixels.len(), 0);
}

#[test]
fn decode_reads_png_pixels() {
    let buf = image::RgbImage::from_raw(2, 1, vec![10, 20, 30, 40, 50, 60]).unwrap();
    let mut bytes: Vec<u8> = Vec::new();
    buf.write_to(&mut std::io::Cursor::new(&mut bytes), image::ImageFormat::Png).unwrap();
    let img = match decode_image(&bytes) {
        Ok(img) => img,
        Err(e) => panic!("decode failed: {}", e.message),
    };
    assert_eq!((img.width, img.height), (2, 1));
    assert_eq!(img.pixels, vec![Pixel { r: 10, g: 20, b: 30 }, Pixel { r: 40, g: 50, b: 60 }]);
}

#[test]
fn decode_rejects_garbage_with_message() {
    match decode_image(&vec![0u8, 1, 2, 3, 4, 5]) {
        Ok(_) => panic!("garbage decoded"),
        Err(e) => assert!(!e.message.is_empty()),
    }
}
