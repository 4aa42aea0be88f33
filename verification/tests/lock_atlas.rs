use lifekit::lock::atlas::{compose_run, stretch_to_cell, GlyphImage};

fn glyph(xmin: i32, ymin: i32, width: usize, height: usize, advance: i32, cov: Vec<u8>) -> GlyphImage {
    GlyphImage { xmin, ymin, width, height, advance, cov }
}

#[test]
fn stretch_widens_by_nearest_pixel() {
    let out = stretch_to_cell(&[10, 20, 30, 40], 2, 2, 4, 2);
    assert_eq!(out, vec![10, 10, 20, 20, 30, 30, 40, 40]);
}

#[test]
fn stretch_narrows_by_nearest_pixel() {
    let out = stretch_to_cell(&[1, 2, 3, 4], 4, 1, 2, 1);
    assert_eq!(out, vec![1, 3]);
}

#[test]
fn stretch_of_empty_bitmap_is_blank_cell() {
    let out = stretch_to_cell(&[], 0, 5, 3, 2);
    assert_eq!(out, vec![0; 6]);
}

#[test]
fn run_of_no_glyphs_is_none() {
    assert!(compose_run(&Vec::new()).is_none());
}

#[test]
fn run_lays_glyphs_on_a_common_baseline() {
    let gs = vec![
        glyph(0, 0, 2, 2, 3, vec![1, 2, 3, 4]),
        glyph(1, -1, 1, 3, 2, vec![5, 6, 7]),
    ];
    let run = compose_run(&gs).unwrap();
    assert_eq!(run.width, 5);
    assert_eq!(run.height, 3);
    assert_eq!(
        run.cov,
        vec![
            1, 2, 0, 0, 5, //
            3, 4, 0, 0, 6, //
            0, 0, 0, 0, 7,
        ]
    );
}

#[test]
fn overlapping_glyphs_keep_the_stronger_coverage() {
    let gs = vec![glyph(0, 0, 2, 1, 0, vec![1, 9]), glyph(0, 0, 2, 1, 2, vec![5, 5])];
    let run = compose_run(&gs).unwrap();
    assert_eq!((run.width, run.height), (2, 1));
    assert_eq!(run.cov, vec![5, 9]);
}

#[test]
fn run_is_at_least_one_pixel_each_way() {
    let gs = vec![glyph(0, 0, 0, 0, 0, vec![])];
    let run = compose_run(&gs).unwrap();
    assert_eq!((run.width, run.height), (1, 1));
    assert_eq!(run.cov, vec![0]);
}
