use lifekit::greet::frame::fit_tail;
use lifekit::lock::atlas::GlyphImage;

fn glyphs(n: usize) -> Vec<GlyphImage> {
    (0..n)
        .map(|i| GlyphImage { xmin: 0, ymin: 0, width: 1, height: 2, advance: 2, cov: vec![10 * (i as u8 + 1); 2] })
        .collect()
}

#[test]
fn name_that_fits_is_kept_whole() {
    let (cut, run) = fit_tail(&glyphs(3), 6).unwrap();
    assert_eq!(cut, 0);
    assert_eq!((run.width, run.height), (6, 2));
}

#[test]
fn long_name_loses_its_head() {
    let (cut, run) = fit_tail(&glyphs(3), 4).unwrap();
    assert_eq!(cut, 1);
    assert_eq!(run.width, 4);
    assert_eq!(run.cov, vec![20, 0, 30, 0, 20, 0, 30, 0]);
}

#[test]
fn caret_alone_is_always_shown() {
    let (cut, run) = fit_tail(&glyphs(3), 0).unwrap();
    assert_eq!(cut, 2);
    assert_eq!(run.width, 2);
}

#[test]
fn no_glyphs_no_run() {
    assert!(fit_tail(&Vec::new(), 10).is_none());
}
