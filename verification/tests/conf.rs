use lifekit::conf::ansi16::fmt;
use lifekit::conf::cmd::{kana_charset, sanitize_glyphs, swayidle_argv, wall_glyphs};
use lifekit::conf::gen::{gen_border, gen_cursor, gen_idle, gen_insert_hint, gen_tab_indicator, Report};
use lifekit::conf::model::{field_labels, normalize_hex, step_index, Focus, Selection, CATS, N_CATS};
use lifekit::conf::niri_kdl::{replace_region, rewrite_regions};
use lifekit::conf::paths::Paths;
use lifekit::conf::presets::NAMES;
use lifekit::conf::theme::{bare, hash, rgb, Cursor, Idle, Palette, Screen};

fn palette() -> Palette {
    Palette {
        bg: "#121412".into(),
        surface: "#171a14".into(),
        border: "#39412b".into(),
        text: "#7b8c5a".into(),
        accent: "#A4C94B".into(),
        warn: "#c7d17a".into(),
        urgent: "8a3b2e".into(),
    }
}

#[test]
fn hex_helpers() {
    assert_eq!(bare("  #A4C94B "), "a4c94b");
    assert_eq!(bare("##12"), "12");
    assert_eq!(hash("a4c94b"), "#a4c94b");
    assert_eq!(hash("#A4C94B"), "#a4c94b");
    assert_eq!(hash(&hash(" ##A4c94B ")), hash(" ##A4c94B "));
    assert_eq!(hash("#FFaa00"), "#ffaa00");
    assert_eq!(rgb("#a4c94b"), Some((0xa4, 0xc9, 0x4b)));
    assert_eq!(rgb(" 121412 "), Some((0x12, 0x14, 0x12)));
    assert_eq!(rgb("#12141"), None);
    assert_eq!(rgb("#12141g"), None);
    assert_eq!(rgb("+abcde"), None);
    assert_eq!(rgb("##AbCdEf"), Some((0xab, 0xcd, 0xef)));
    assert_eq!(fmt((0x12, 0xab, 0x00)), "#12ab00");
}

#[test]
fn normalize_keeps_old_on_junk() {
    assert_eq!(normalize_hex(" #A4C94B ", "#000000"), "#a4c94b");
    assert_eq!(normalize_hex("a4c94b", "#000000"), "#a4c94b");
    assert_eq!(normalize_hex("#a4c94", "#000000"), "#000000");
    assert_eq!(normalize_hex("#a4c9zz", "#000000"), "#000000");
    assert_eq!(normalize_hex("", "#111111"), "#111111");
}

#[test]
fn linked_screen_follows_palette() {
    let p = palette();
    let mut s = Screen::default();
    s.follow(&p, &"#010101".to_string(), &"#020202".to_string());
    assert_eq!(s.mature, "#010101");
    assert_eq!(s.newborn, "#020202");
    assert_eq!(s.accent, p.accent);
    assert_eq!(s.text, p.text);
    let mut own = Screen::default();
    own.link = false;
    let before = own.clone();
    own.follow(&p, &"#010101".to_string(), &"#020202".to_string());
    assert_eq!(own, before);
}

#[test]
fn labels_and_cursor() {
    assert_eq!(CATS.len(), N_CATS);
    assert_eq!(field_labels(1), vec!["bg", "surface", "border", "text", "accent", "warn", "urgent"]);
    assert_eq!(field_labels(4), field_labels(5));
    assert_eq!(field_labels(9), vec!["family", "size"]);
    let mut sel = Selection::new();
    sel.move_up();
    assert_eq!(sel.cat, 9);
    sel.move_down();
    assert_eq!(sel.cat, 0);
    sel.move_down();
    sel.toggle_focus();
    assert_eq!(sel.focus, Focus::Fields);
    for _ in 0..7 {
        sel.move_down();
    }
    assert_eq!(sel.field, 0);
    sel.move_up();
    assert_eq!(sel.field, 6);
    assert_eq!(sel.n_fields(), 7);
}

#[test]
fn ring_steps_both_ways() {
    assert_eq!(step_index(0, -1, NAMES.len()), NAMES.len() - 1);
    assert_eq!(step_index(NAMES.len() - 1, 1, NAMES.len()), 0);
    assert_eq!(step_index(2, 1, 5), 3);
    assert_eq!(step_index(2, -7, 5), 0);
}

#[test]
fn glyphs_and_kana() {
    assert_eq!(sanitize_glyphs("a'b\"c\\d\te"), "abcde");
    assert_eq!(sanitize_glyphs("'\"\\"), "#");
    assert_eq!(sanitize_glyphs("█▓"), "█▓");
    let k = kana_charset();
    assert_eq!(k.chars().count(), 56);
    assert_eq!(k.chars().next(), Some('\u{FF66}'));
    assert_eq!(k.chars().last(), Some('\u{FF9D}'));
}

#[test]
fn swayidle_chain() {
    let argv = swayidle_argv(&Idle { lock_minutes: 10, screen_off_minutes: 15 });
    assert_eq!(argv.len(), 14);
    assert_eq!(argv[3], "600");
    assert_eq!(argv[6], "900");
    assert_eq!(argv[4], argv[11]);
    assert_eq!(argv[13], "systemd-cat -t lifelock ~/.local/bin/lifelock -f");
}

#[test]
fn paths_under_home() {
    let p = Paths { home: "/home/v".into() };
    assert_eq!(p.config("waybar/style.css"), "/home/v/.config/waybar/style.css");
    assert_eq!(p.cache("x"), "/home/v/.cache/x");
    assert_eq!(p.theme_toml(), "/home/v/.config/lifeconf/theme.toml");
}

#[test]
fn region_rewrite_keeps_everything_else() {
    let src = "a\n  // LIFECONF:BEGIN cursor\n  old\n  stuff\n  // LIFECONF:END cursor\nz\n";
    let out = replace_region(src, "cursor", "  new").unwrap();
    assert_eq!(out, "a\n  // LIFECONF:BEGIN cursor\n  new\n  // LIFECONF:END cursor\nz\n");
    assert_eq!(replace_region(src, "idle", "x"), None);
    assert_eq!(replace_region("// LIFECONF:BEGIN cursor", "cursor", "x"), None);
    assert_eq!(replace_region("// LIFECONF:BEGIN cursor\nno end\n", "cursor", "x"), None);
}

#[test]
fn region_bodies() {
    let c = Cursor { theme: "phinger-cursors-light".into(), size: 24 };
    assert_eq!(gen_cursor(&c), "cursor {\n    xcursor-theme \"phinger-cursors-light\"\n    xcursor-size 24\n}");
    let p = palette();
    assert_eq!(
        gen_border(&p),
        "    border {\n        width 2\n        active-color \"#a4c94b\"\n        inactive-color \"#39412b\"\n        urgent-color \"#8a3b2e\"\n    }"
    );
    assert!(gen_tab_indicator(&p).starts_with("    tab-indicator {\n        hide-when-single-tab\n"));
    assert_eq!(gen_insert_hint(&p), "    insert-hint {\n        color \"#a4c94b80\"\n    }");
    let idle = gen_idle(&Idle { lock_minutes: 1, screen_off_minutes: 2 });
    assert!(idle.starts_with("spawn-at-startup \"swayidle\" \"-w\" \"timeout\" \"60\" "));
    assert!(idle.ends_with("\"before-sleep\" \"systemd-cat -t lifelock ~/.local/bin/lifelock -f\""));
    let r = Report::default();
    assert!(r.written.is_empty() && r.notes.is_empty());
}

#[test]
fn regions_are_rewritten_in_turn_and_missing_ones_reported() {
    let src = "a\n// LIFECONF:BEGIN one\nold\n// LIFECONF:END one\nz\n";
    let regions = vec![
        ("one".to_string(), "new".to_string()),
        ("two".to_string(), "x".to_string()),
    ];
    let (out, missing) = rewrite_regions(src, &regions);
    assert_eq!(out, "a\n// LIFECONF:BEGIN one\nnew\n// LIFECONF:END one\nz\n");
    assert_eq!(missing, vec!["two".to_string()]);
}

#[test]
fn wallpaper_glyphs_follow_the_mode() {
    assert_eq!(wall_glyphs("kana", "#"), sanitize_glyphs(&kana_charset()));
    assert_eq!(wall_glyphs("custom", "a'b"), "ab");
    let ascii: String = (0x21u8..=0x7e).map(|b| b as char).filter(|c| !matches!(c, '\'' | '"' | '\\')).collect();
    assert_eq!(wall_glyphs("ascii", "XYZ"), ascii);
    assert_eq!(wall_glyphs("ascii", "XYZ"), wall_glyphs("ascii", "q"));
    assert_eq!(wall_glyphs("kana", "XYZ"), wall_glyphs("kana", "q"));
    assert_eq!(wall_glyphs("custom", ""), "#");
}
