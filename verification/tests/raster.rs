use lifekit::conf::gui::{blend, blit_glyph, fill_rect as gui_fill, margin, row_y, save_btn_rect, sidebar_w};
use lifekit::greet::frame::draw_box_border;
use lifekit::lock::frame::{blit_cell, blit_text, TextRun};
use lifekit::note::cfg::Cfg;
use lifekit::note::frame::{blit_cell as premul_cell, fill_rect as premul_fill, palette, popup_height, popup_width, Palette};
use lifekit::note::layout::{compose, Role, Style};
use lifekit::note::state::Urgency;

fn px(c: &[u8], w: usize, x: usize, y: usize) -> [u8; 4] {
    let o = (y * w + x) * 4;
    [c[o], c[o + 1], c[o + 2], c[o + 3]]
}

#[test]
fn xrgb_cell_is_coverage_over_black_and_clipped() {
    let (w, h) = (4, 3);
    let mut c = vec![7u8; w * h * 4];
    let cov = [255u8, 0, 128, 51];
    blit_cell(&mut c, w, h, 3, 2, 2, 2, &cov, [200, 100, 50]);
    assert_eq!(px(&c, w, 3, 2), [50, 100, 200, 0xff]);
    assert_eq!(px(&c, w, 2, 2), [7, 7, 7, 7]);
    assert_eq!(px(&c, w, 0, 0), [7, 7, 7, 7]);
    let mut d = vec![0u8; w * h * 4];
    blit_cell(&mut d, w, h, 0, 0, 2, 2, &cov, [200, 100, 50]);
    assert_eq!(px(&d, w, 1, 0), [0, 0, 0, 0]);
    assert_eq!(px(&d, w, 0, 1), [(50 * 128 / 255) as u8, (100 * 128 / 255) as u8, (200 * 128 / 255) as u8, 0xff]);
}

#[test]
fn text_blends_over_backdrop() {
    let (w, h) = (2, 1);
    let mut c = vec![100u8; w * h * 4];
    let run = TextRun { width: 2, height: 1, cov: vec![255, 128] };
    blit_text(&mut c, w, h, 0, 0, &run, [0, 0, 255]);
    assert_eq!(px(&c, w, 0, 0), [255, 0, 0, 0xff]);
    let inv = 255 - 128u32;
    let b = ((255 * 128 + 100 * inv) / 255) as u8;
    let o = ((100 * inv) / 255) as u8;
    assert_eq!(px(&c, w, 1, 0), [b, o, o, 0xff]);
}

#[test]
fn box_border_is_hollow() {
    let (w, h) = (6, 6);
    let mut c = vec![0u8; w * h * 4];
    draw_box_border(&mut c, w, h, 1, 1, 4, 4, 1, [9, 8, 7]);
    for y in 0..h {
        for x in 0..w {
            let edge = (1..5).contains(&x) && (1..5).contains(&y) && (x == 1 || x == 4 || y == 1 || y == 4);
            let want = if edge { [7, 8, 9, 0xff] } else { [0, 0, 0, 0] };
            assert_eq!(px(&c, w, x, y), want, "({x},{y})");
        }
    }
    let mut clipped = vec![0u8; w * h * 4];
    draw_box_border(&mut clipped, w, h, 4, 4, 10, 10, 1, [1, 1, 1]);
    assert_eq!(px(&clipped, w, 5, 5), [1, 1, 1, 0xff]);
    assert_eq!(px(&clipped, w, 3, 3), [0, 0, 0, 0]);
}

#[test]
fn premultiplied_popup_pixels() {
    let (w, h) = (3, 1);
    let mut c = vec![0u8; w * h * 4];
    premul_fill(&mut c, w, h, 0, 0, 2, 1, [10, 20, 30, 128]);
    assert_eq!(px(&c, w, 1, 0), [10, 20, 30, 128]);
    assert_eq!(px(&c, w, 2, 0), [0, 0, 0, 0]);
    premul_cell(&mut c, w, h, 0, 0, 1, 1, &[255], [1, 2, 3]);
    assert_eq!(px(&c, w, 0, 0), [3, 2, 1, 255]);
    let inv = 127u32;
    premul_cell(&mut c, w, h, 1, 0, 1, 1, &[128], [255, 255, 255]);
    assert_eq!(
        px(&c, w, 1, 0),
        [
            ((255 * 128 + 10 * inv) / 255) as u8,
            ((255 * 128 + 20 * inv) / 255) as u8,
            ((255 * 128 + 30 * inv) / 255) as u8,
            (128 + 128 * inv / 255) as u8
        ]
    );
}

#[test]
fn popup_palette_and_size() {
    let cfg = Cfg::new();
    let normal = palette(&cfg, Urgency::Normal);
    assert_eq!(normal, Palette { border: cfg.border.0, title: cfg.title.0, summary: cfg.text.0, body: cfg.text.0 });
    let crit = palette(&cfg, Urgency::Critical);
    assert_eq!(crit.border, cfg.urgent.0);
    assert_eq!(crit.summary, cfg.warn.0);
    assert_eq!(crit.for_role(Role::Title), cfg.urgent.0);
    assert_eq!(normal.for_role(Role::Body), cfg.text.0);
    let g = compose("app", &["hello".to_string()], &[], Style::Single, 40);
    assert_eq!(popup_height(&g, 20), 3 * 20);
    assert_eq!(popup_width(&g, 10), g[0].len() * 10);
    assert_eq!(popup_width(&Vec::new(), 10), 0);
}

#[test]
fn gui_pixels_and_layout() {
    let mut buf = vec![0u32; 4 * 2];
    gui_fill(&mut buf, 4, 2, 1, 0, 10, 1, (0x12, 0x34, 0x56));
    assert_eq!(buf, vec![0, 0xff123456, 0xff123456, 0xff123456, 0, 0, 0, 0]);
    assert_eq!(blend(0xff000000, (255, 255, 255), 255), 0xffffffff);
    assert_eq!(blend(0xff00ff00, (255, 0, 0), 0), 0xff00ff00);
    let mut g = vec![0xff000000u32; 2];
    blit_glyph(&mut g, 2, 1, 0, 0, &[255, 0], 2, 1, (1, 2, 3));
    assert_eq!(g, vec![0xff010203, 0xff000000]);
    assert_eq!(margin(20), 20);
    assert_eq!(sidebar_w(10, 20), 20 + 160);
    assert_eq!(row_y(20, 2), 40 + 2 * 24);
    assert_eq!(save_btn_rect(760, 520, 10, 20), (760 - 90, 520 - 32, 80, 28));
    assert_eq!(save_btn_rect(10, 10, 10, 20), (0, 0, 80, 28));
}

#[test]
fn gui_fill_needs_only_the_rows_it_reaches() {
    // A 4-wide, 100-tall window whose buffer holds just the first two rows.
    let mut buf = vec![0u32; 8];
    gui_fill(&mut buf, 4, 100, 1, 0, 2, 2, (1, 2, 3));
    assert_eq!(buf, vec![0, 0xff01_0203, 0xff01_0203, 0, 0, 0xff01_0203, 0xff01_0203, 0]);
    let mut short = vec![7u32; 3];
    gui_fill(&mut short, 4, 2, 0, 5, 4, 4, (9, 9, 9));
    assert_eq!(short, vec![7, 7, 7]);
    blit_glyph(&mut buf, 4, 100, 3, 1, &[255], 1, 1, (0, 0, 0));
    assert_eq!(buf[7], 0xff00_0000);
}
