use lifekit::lock::scene::{draw_cells, CellPaint, CellSource, Glyph, GlyphCells};

#[test]
fn glyph_chars_and_bumps() {
    assert_eq!(Glyph::Light.ch(), '░');
    assert_eq!(Glyph::Medium.ch(), '▒');
    assert_eq!(Glyph::Dark.ch(), '▓');
    assert_eq!(Glyph::Full.ch(), '█');
    assert_eq!(Glyph::Light.bump(), Glyph::Medium);
    assert_eq!(Glyph::Medium.bump().bump(), Glyph::Full);
    assert_eq!(Glyph::Full.bump(), Glyph::Full);
}

#[test]
fn cell_sources_compare_by_value() {
    let a = CellSource::Face { face: 1, bx: 2, by: 3, panel: 4 };
    assert_eq!(a, CellSource::Face { face: 1, bx: 2, by: 3, panel: 4 });
    assert_ne!(a, CellSource::Ember);
}

#[test]
fn draw_cells_paints_each_cell_over_black() {
    // Two 2x1-pixel cells side by side on a 4x1 canvas; only the second painted.
    let cells = GlyphCells { light: vec![255, 0], medium: vec![0; 2], dark: vec![0; 2], full: vec![255; 2] };
    let mut canvas = vec![7u8; 4 * 4];
    let paints = vec![None, Some(CellPaint { glyph: Glyph::Light, color: [10, 20, 30] })];
    draw_cells(&mut canvas, 4, 1, 2, 1, 2, 1, &paints, &cells);
    assert_eq!(&canvas[0..8], &[0; 8]);
    // Covered pixel: XRGB bytes [B, G, R, X].
    assert_eq!(&canvas[8..12], &[30, 20, 10, 255]);
    // Uncovered pixel of the painted cell stays black.
    assert_eq!(&canvas[12..16], &[0, 0, 0, 0]);
}
