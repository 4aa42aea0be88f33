use lifekit::conf::model::{Focus, Selection};
use lifekit::conf::keys::Command;
use lifekit::conf::scene::{click_target, scene, ClickTarget, DrawOp};
use lifekit::conf::theme::Palette;

fn palette() -> Palette {
    Palette {
        bg: "#121412".into(),
        surface: "#171a14".into(),
        border: "#39412b".into(),
        text: "#7b8c5a".into(),
        accent: "#a4c94b".into(),
        warn: "#c7d17a".into(),
        urgent: "#8a3b2e".into(),
    }
}

fn texts(ops: &[DrawOp]) -> Vec<(usize, usize, String)> {
    ops.iter()
        .filter_map(|o| match o {
            DrawOp::Text { x, y, text, .. } => Some((*x, *y, text.clone())),
            _ => None,
        })
        .collect()
}

#[test]
fn the_sidebar_lists_every_category_with_the_selected_one_lit() {
    let sel = Selection::new();
    let ops = scene(&sel, &palette(), &vec!["olive".to_string()], None, false, &"ready".to_string(), 800, 600, 8, 16);
    assert_eq!(ops.len(), 25);
    match &ops[0] {
        DrawOp::Fill { x, y, w, h, color } => assert_eq!((*x, *y, *w, *h, *color), (0, 0, 800, 600, (0x12, 0x14, 0x12))),
        _ => panic!("background first"),
    }
    // The selected category's bar is accent-coloured while the sidebar has the cursor.
    match &ops[4] {
        DrawOp::Fill { color, .. } => assert_eq!(*color, (0xa4, 0xc9, 0x4b)),
        _ => panic!("highlight bar"),
    }
    let t = texts(&ops);
    assert_eq!(t[0], (16, 8, "lifeconf".to_string()));
    assert_eq!(t[1], (16, 32, "Presets".to_string()));
    assert!(t.iter().any(|(_, _, s)| s == "olive"));
    assert_eq!(t.last().unwrap().2, "Save");
}

#[test]
fn editing_shows_a_caret_and_colours_get_a_swatch() {
    let mut sel = Selection::new();
    sel.move_down();
    sel.toggle_focus();
    assert_eq!(sel.focus, Focus::Fields);
    let values: Vec<String> = ["#121412", "#171a14", "#39412b", "#7b8c5a", "#a4c94b", "#c7d17a", "nope"]
        .iter()
        .map(|s| s.to_string())
        .collect();
    let typed = "#ff".to_string();
    let ops = scene(&sel, &palette(), &values, Some(&typed), true, &"s".to_string(), 800, 600, 8, 16);
    let t = texts(&ops);
    assert!(t.iter().any(|(_, _, s)| s == "#ff_"));
    assert!(t.iter().any(|(_, _, s)| s == "s   ● unsaved"));
    // Six well-formed colours get a swatch; the malformed one does not.
    let swatches = ops
        .iter()
        .filter(|o| matches!(o, DrawOp::Fill { w: 16, h: 16, .. }))
        .count();
    assert_eq!(swatches, 6);
}

#[test]
fn clicks_land_on_the_button_rows_or_nothing() {
    // 800x600, 8x16 cells: sidebar 16 + 16*8 = 144 wide; rows at 32 + 20*i.
    // The button: 64x24 at (728, 572).
    assert_eq!(click_target(730, 580, 800, 600, 8, 16, 7), ClickTarget::Save);
    assert_eq!(click_target(727, 580, 800, 600, 8, 16, 7), ClickTarget::Nothing);
    assert_eq!(click_target(20, 30, 800, 600, 8, 16, 7), ClickTarget::Category(0));
    assert_eq!(click_target(20, 52, 800, 600, 8, 16, 7), ClickTarget::Category(1));
    assert_eq!(click_target(20, 49, 800, 600, 8, 16, 7), ClickTarget::Nothing);
    assert_eq!(click_target(300, 72, 800, 600, 8, 16, 7), ClickTarget::Field(2));
    assert_eq!(click_target(300, 72, 800, 600, 8, 16, 2), ClickTarget::Nothing);
    assert_eq!(click_target(-5, 30, 800, 600, 8, 16, 7), ClickTarget::Category(0));
}

#[test]
fn a_click_moves_the_cursor_and_edits_or_steps() {
    let mut sel = Selection::new();
    assert_eq!(sel.click(ClickTarget::Category(1)), Command::Nothing);
    assert_eq!((sel.cat, sel.field, sel.focus), (1, 0, Focus::Cats));
    assert_eq!(sel.click(ClickTarget::Field(3)), Command::BeginEdit);
    assert_eq!((sel.field, sel.focus), (3, Focus::Fields));
    sel.click(ClickTarget::Category(4));
    assert_eq!(sel.click(ClickTarget::Field(0)), Command::Nudge(1));
    assert_eq!(sel.click(ClickTarget::Save), Command::Save);
}
