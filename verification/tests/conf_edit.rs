use lifekit::conf::edit::{Committed, Nudged, Shown, ThemeText};
use lifekit::conf::presets::NAMES;
use lifekit::conf::theme::{Cursor, Font, Idle, Meta, Palette, Screen};

fn theme() -> ThemeText {
    ThemeText {
        meta: Meta { schema_version: 1, active_preset: "olive".into() },
        palette: Palette {
            bg: "#121412".into(),
            surface: "#171a14".into(),
            border: "#39412b".into(),
            text: "#7b8c5a".into(),
            accent: "#a4c94b".into(),
            warn: "#c7d17a".into(),
            urgent: "#8a3b2e".into(),
        },
        wall_fps: 30,
        wall_glyph_mode: "custom".into(),
        wall_char: "#".into(),
        wall_mature: "#66744c".into(),
        wall_newborn: "#87a540".into(),
        note_border_style: "single".into(),
        note_critical_border_style: "double".into(),
        note_position: "top-right".into(),
        idle: Idle { lock_minutes: 10, screen_off_minutes: 15 },
        cursor: Cursor { theme: "phinger-cursors-light".into(), size: 24 },
        font: Font { family: "ShureTechMono Nerd Font".into(), size: 12 },
        lifelock: Screen::default(),
        lifegreet: Screen::default(),
    }
}

#[test]
fn palette_edits_normalise_and_mark_custom() {
    let mut t = theme();
    assert_eq!(t.set_text(1, 4, "  FF0000 "), Committed::Applied);
    assert_eq!(t.palette.accent, "#ff0000");
    assert_eq!(t.meta.active_preset, "custom");
    assert_eq!(t.set_text(1, 0, "nope"), Committed::Applied);
    assert_eq!(t.palette.bg, "#121412");
}

#[test]
fn numbers_parse_and_clamp() {
    let mut t = theme();
    t.set_text(2, 1, "500");
    assert_eq!(t.wall_fps, 240);
    t.set_text(2, 1, "abc");
    assert_eq!(t.wall_fps, 240);
    t.set_text(6, 0, "0");
    assert_eq!(t.idle.lock_minutes, 1);
    t.set_text(6, 1, " 20 ");
    assert_eq!(t.idle.screen_off_minutes, 20);
    t.set_text(8, 1, "4");
    assert_eq!(t.cursor.size, 8);
    t.set_text(9, 1, "99");
    assert_eq!(t.font.size, 48);
    assert_eq!(t.meta.active_preset, "olive");
}

#[test]
fn screen_edits_unlink() {
    let mut t = theme();
    assert_eq!(t.set_text(4, 3, "#010203"), Committed::Applied);
    assert!(!t.lifelock.link);
    assert_eq!(t.lifelock.accent, "#010203");
    assert!(t.lifegreet.link);
    t.set_text(5, 0, "#0a0b0c");
    assert_eq!(t.lifegreet.text, "#0a0b0c");
}

#[test]
fn text_fields_fractions_and_ignored() {
    let mut t = theme();
    t.set_text(2, 5, "  ");
    assert_eq!(t.wall_char, "#");
    t.set_text(2, 5, " ░▒ ");
    assert_eq!(t.wall_char, "░▒");
    t.set_text(8, 0, " Adwaita ");
    assert_eq!(t.cursor.theme, "Adwaita");
    t.set_text(9, 0, "Iosevka");
    assert_eq!(t.font.family, "Iosevka");
    assert_eq!(t.set_text(2, 0, "0.3"), Committed::Fractional);
    assert_eq!(t.set_text(3, 2, "0.9"), Committed::Fractional);
    assert_eq!(t.set_text(7, 0, "1"), Committed::Fractional);
    assert_eq!(t.set_text(0, 0, "olive"), Committed::Ignored);
    assert_eq!(t.set_text(3, 0, "heavy"), Committed::Ignored);
    assert_eq!(t.note_border_style, "single");
}

#[test]
fn presets_cycle_by_name_and_custom_starts_at_the_first() {
    let mut t = theme();
    assert_eq!(t.nudge(0, 0, 1), Nudged::Preset(1));
    assert_eq!(t.nudge(0, 0, -1), Nudged::Preset(NAMES.len() - 1));
    t.meta.active_preset = "custom".into();
    assert_eq!(t.nudge(0, 0, -1), Nudged::Preset(0));
}

#[test]
fn value_lists_cycle_both_ways() {
    let mut t = theme();
    assert_eq!(t.nudge(3, 0, 1), Nudged::Applied);
    assert_eq!(t.note_border_style, "rounded");
    t.nudge(3, 3, -1);
    assert_eq!(t.note_position, "bottom-left");
    t.nudge(2, 4, 1);
    assert_eq!(t.wall_glyph_mode, "kana");
    t.note_critical_border_style = "bogus".into();
    t.nudge(3, 1, 1);
    assert_eq!(t.note_critical_border_style, "rounded");
}

#[test]
fn whole_numbers_step_and_clamp() {
    let mut t = theme();
    t.nudge(2, 1, 1);
    assert_eq!(t.wall_fps, 35);
    t.wall_fps = 3;
    t.nudge(2, 1, -1);
    assert_eq!(t.wall_fps, 3);
    t.nudge(8, 1, -1);
    assert_eq!(t.cursor.size, 22);
    t.font.size = 48;
    t.nudge(9, 1, 1);
    assert_eq!(t.font.size, 48);
    t.idle.lock_minutes = 1;
    t.nudge(6, 0, -1);
    assert_eq!(t.idle.lock_minutes, 1);
}

#[test]
fn fractional_colour_and_text_fields() {
    let mut t = theme();
    assert_eq!(t.nudge(2, 0, 1), Nudged::Fractional);
    assert_eq!(t.nudge(7, 0, 1), Nudged::Fractional);
    assert_eq!(t.nudge(1, 2, 1), Nudged::Ignored);
    assert_eq!(t.nudge(8, 0, 1), Nudged::Ignored);
}

#[test]
fn links_toggle_and_linked_screens_follow_presets() {
    let mut t = theme();
    assert_eq!(t.nudge(4, 0, 1), Nudged::Applied);
    assert!(!t.lifelock.link);
    let mut p = t.palette.clone();
    p.accent = "#010203".into();
    t.apply_preset("slate", p, "#111111".into(), "#222222".into());
    assert_eq!(t.meta.active_preset, "slate");
    assert_eq!(t.lifegreet.accent, "#010203");
    assert_eq!(t.lifegreet.mature, "#111111");
    assert_ne!(t.lifelock.accent, "#010203");
}

#[test]
fn shown_values() {
    let t = theme();
    assert_eq!(t.value(0, 0), Shown::Text("olive".into()));
    assert_eq!(t.value(1, 4), Shown::Text("#a4c94b".into()));
    assert_eq!(t.value(2, 1), Shown::Text("30".into()));
    assert_eq!(t.value(2, 0), Shown::Fraction);
    assert_eq!(t.value(4, 0), Shown::Text("true".into()));
    assert_eq!(t.value(6, 1), Shown::Text("15".into()));
    assert_eq!(t.value(9, 1), Shown::Text("12".into()));
    assert_eq!(t.value(7, 0), Shown::Fraction);
    assert_eq!(t.value(2, 9), Shown::Text(String::new()));
}
