use lifekit::conf::paint::{draw_str, paint_ops};
use lifekit::conf::scene::DrawOp;
use lifekit::note::frame::GlyphBook;

fn book() -> GlyphBook {
    GlyphBook { chars: vec!['a', 'b'], covs: vec![vec![255, 0], vec![128, 0]] }
}

#[test]
fn text_draws_one_cell_per_character() {
    let mut buf = vec![0u32; 6];
    let end = draw_str(&mut buf, 6, 1, 0, 0, "a a", &book(), 2, 1, (1, 2, 3));
    assert_eq!(end, 6);
    assert_eq!(buf, vec![0xff01_0203, 0, 0, 0, 0xff01_0203, 0]);
}

#[test]
fn text_blends_partial_coverage() {
    let mut buf = vec![0xff00_0000u32; 2];
    draw_str(&mut buf, 2, 1, 0, 0, "b", &book(), 2, 1, (255, 255, 255));
    assert_eq!(buf, vec![0xff80_8080, 0xff00_0000]);
}

#[test]
fn text_is_clipped_at_the_edge() {
    let mut buf = vec![0u32; 3];
    let end = draw_str(&mut buf, 3, 1, 2, 0, "aa", &book(), 2, 1, (1, 2, 3));
    assert_eq!(end, 6);
    assert_eq!(buf, vec![0, 0, 0xff01_0203]);
}

#[test]
fn steps_are_carried_out_in_order() {
    let mut buf = vec![0u32; 6];
    let ops = vec![
        DrawOp::Fill { x: 0, y: 0, w: 6, h: 1, color: (9, 9, 9) },
        DrawOp::Text { x: 2, y: 0, text: "a".to_string(), color: (1, 2, 3) },
    ];
    paint_ops(&mut buf, 6, 1, &ops, &book(), 2, 1);
    assert_eq!(buf, vec![0xff09_0909, 0xff09_0909, 0xff01_0203, 0xff09_0909, 0xff09_0909, 0xff09_0909]);
}

#[test]
fn fill_is_opaque_and_clipped() {
    let mut buf = vec![0u32; 4];
    let ops = vec![DrawOp::Fill { x: 1, y: 1, w: 5, h: 5, color: (0, 0, 255) }];
    paint_ops(&mut buf, 2, 2, &ops, &book(), 2, 1);
    assert_eq!(buf, vec![0, 0, 0, 0xff00_00ff]);
}
