use lifekit::note::frame::{draw_popup, GlyphBook, Palette};
use lifekit::note::layout::Role;
use lifekit::note::glyph::{cell_coverage, connect_to_edges, is_box_drawing, place_glyph, Bitmap};

fn reference_connect(cov: &mut [u8], w: usize, h: usize) {
    const GUARD: usize = 2;
    let row_used = |cov: &[u8], y: usize| (0..w).any(|x| cov[y * w + x] != 0);
    let col_used = |cov: &[u8], x: usize| (0..h).any(|y| cov[y * w + x] != 0);
    if let Some(top) = (0..h).find(|&y| row_used(cov, y)) {
        if (1..=GUARD).contains(&top) {
            for y in 0..top {
                cov.copy_within(top * w..(top + 1) * w, y * w);
            }
        }
    }
    if let Some(bot) = (0..h).rev().find(|&y| row_used(cov, y)) {
        let gap = h - 1 - bot;
        if (1..=GUARD).contains(&gap) {
            for y in bot + 1..h {
                cov.copy_within(bot * w..(bot + 1) * w, y * w);
            }
        }
    }
    if let Some(left) = (0..w).find(|&x| col_used(cov, x)) {
        if (1..=GUARD).contains(&left) {
            for y in 0..h {
                let v = cov[y * w + left];
                for x in 0..left {
                    cov[y * w + x] = v;
                }
            }
        }
    }
    if let Some(right) = (0..w).rev().find(|&x| col_used(cov, x)) {
        let gap = w - 1 - right;
        if (1..=GUARD).contains(&gap) {
            for y in 0..h {
                let v = cov[y * w + right];
                for x in right + 1..w {
                    cov[y * w + x] = v;
                }
            }
        }
    }
}

#[test]
fn box_block_bounds() {
    assert!(is_box_drawing('─'));
    assert!(is_box_drawing('╿'));
    assert!(!is_box_drawing('▀'));
    assert!(!is_box_drawing('a'));
}

#[test]
fn strokes_reach_the_edges() {
    let (w, h) = (6, 8);
    let mut v = vec![0u8; w * h];
    for y in 2..8 {
        v[y * w + 3] = 200;
    }
    let mut want = v.clone();
    reference_connect(&mut want, w, h);
    connect_to_edges(&mut v, w, h);
    assert_eq!(v, want);
    assert_eq!(v[0 * w + 3], 200);
    assert_eq!(v[1 * w + 3], 200);
    assert_eq!(v[3 * w + 0], 0);
}

#[test]
fn connect_matches_reference_on_many_bitmaps() {
    let mut seed: u64 = 0x1234_5678;
    for round in 0..300 {
        let w = 1 + (round % 7);
        let h = 1 + (round / 7 % 9);
        let mut v = vec![0u8; w * h];
        for c in v.iter_mut() {
            seed ^= seed << 13;
            seed ^= seed >> 7;
            seed ^= seed << 17;
            *c = if seed % 5 == 0 { (seed >> 8) as u8 | 1 } else { 0 };
        }
        let mut want = v.clone();
        reference_connect(&mut want, w, h);
        connect_to_edges(&mut v, w, h);
        assert_eq!(v, want, "w={w} h={h}");
    }
}

#[test]
fn glyph_placed_at_metrics() {
    let b = Bitmap { gw: 2, gh: 2, xmin: 1, ymin: 0, cov: vec![1, 2, 3, 4] };
    let out = place_glyph(&b, 3, 4, 4);
    let want = vec![
        0, 0, 0, 0,
        0, 1, 2, 0,
        0, 3, 4, 0,
        0, 0, 0, 0,
    ];
    assert_eq!(out, want);
    let clipped = place_glyph(&Bitmap { gw: 2, gh: 2, xmin: -1, ymin: 5, cov: vec![1, 2, 3, 4] }, 3, 2, 2);
    assert_eq!(clipped, vec![0, 0, 0, 0]);
    let edge = place_glyph(&Bitmap { gw: 2, gh: 2, xmin: -1, ymin: 1, cov: vec![1, 2, 3, 4] }, 3, 2, 2);
    assert_eq!(edge, vec![2, 0, 4, 0]);
    let line = Bitmap { gw: 4, gh: 1, xmin: 0, ymin: 1, cov: vec![9; 4] };
    let plain = cell_coverage('a', &line, 3, 4, 5);
    assert_eq!(plain, place_glyph(&line, 3, 4, 5));
    let mut joined = place_glyph(&line, 3, 4, 5);
    reference_connect(&mut joined, 4, 5);
    assert_eq!(cell_coverage('─', &line, 3, 4, 5), joined);
}

#[test]
fn draw_popup_fills_the_panel_and_inks_glyphs() {
    let grid = vec![vec![('x', Role::Body), (' ', Role::Body)]];
    let book = GlyphBook { chars: vec!['x'], covs: vec![vec![255]] };
    let pal = Palette { border: [0; 3], title: [0; 3], summary: [0; 3], body: [200, 100, 50] };
    let mut canvas = vec![0u8; 3 * 4];
    draw_popup(&mut canvas, 3, 1, 0, 0, &grid, 1, 1, &book, &pal, [1, 2, 3, 128]);
    // Full coverage: opaque ink, premultiplied ARGB bytes [B, G, R, A].
    assert_eq!(&canvas[0..4], &[50, 100, 200, 255]);
    // Blank cell: the panel colour.
    assert_eq!(&canvas[4..8], &[1, 2, 3, 128]);
    // Outside the popup: untouched.
    assert_eq!(&canvas[8..12], &[0, 0, 0, 0]);
}

#[test]
fn panel_fill_needs_only_the_rows_it_reaches() {
    let mut canvas = vec![0u8; 8];
    lifekit::note::frame::fill_rect(&mut canvas, 2, 100, 1, 0, 5, 1, [1, 2, 3, 4]);
    assert_eq!(canvas, vec![0, 0, 0, 0, 1, 2, 3, 4]);
}
