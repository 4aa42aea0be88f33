use lifekit::note::cfg::{arg_step, key_value, parse_anchor, parse_hex, parse_style, strip_comment, AnchorCorner, ArgStep, Cfg, LineOutcome, Rgb};
use lifekit::note::layout::Style;

#[test]
fn comment_strip_spares_hex_values() {
    assert_eq!(strip_comment("default-timeout=3000   # ms").trim(), "default-timeout=3000");
    assert_eq!(strip_comment("background-color=#171a14"), "background-color=#171a14");
    assert_eq!(strip_comment("# whole-line comment"), "");
    assert_eq!(strip_comment("key=v # a # b").trim(), "key=v");
}

#[test]
fn hex_colours_parse_from_file_lines() {
    let mut cfg = Cfg::new();
    let line = strip_comment("urgent-color=#ff0000   # rust red").trim();
    let (k, v) = line.split_once('=').unwrap();
    assert!(cfg.set(k.trim(), v.trim()));
    assert_eq!(cfg.urgent, Rgb([0xff, 0x00, 0x00]));
}

#[test]
fn file_lines_colours_load() {
    let mut cfg = Cfg::new();
    let body = "text-color=#dd1111\ntitle-color=#dd1a1a   # note\n";
    for raw in body.lines() {
        assert_eq!(cfg.apply_line(raw), LineOutcome::Applied);
    }
    assert_eq!(cfg.text, Rgb([0xdd, 0x11, 0x11]));
    assert_eq!(cfg.title, Rgb([0xdd, 0x1a, 0x1a]));
    assert_eq!(cfg.border, Rgb([0x39, 0x41, 0x2b]));
}

#[test]
fn line_outcomes() {
    let mut cfg = Cfg::new();
    assert_eq!(cfg.apply_line("   # only a comment"), LineOutcome::Blank);
    assert_eq!(cfg.apply_line(""), LineOutcome::Blank);
    assert_eq!(cfg.apply_line("margin 12"), LineOutcome::NoEquals);
    assert_eq!(cfg.apply_line(" colour = red "), LineOutcome::UnknownKey("colour".to_string()));
    assert_eq!(cfg.apply_line(" margin = 12 # px"), LineOutcome::Applied);
    assert_eq!(cfg.margin, 12);
    assert_eq!(cfg.apply_line("font-px=18"), LineOutcome::Applied);
    assert_eq!(cfg, Cfg { margin: 12, ..Cfg::new() });
}

#[test]
fn bad_values_keep_previous_setting() {
    let mut cfg = Cfg::new();
    assert!(cfg.set("max-width", "wide"));
    assert_eq!(cfg.max_width, 40);
    assert!(cfg.set("border-style", "dotted"));
    assert_eq!(cfg.border_style, Style::Single);
    assert!(cfg.set("text-color", "#12345"));
    assert_eq!(cfg.text, Rgb([0x7b, 0x8c, 0x5a]));
    assert!(!cfg.set("no-such-key", "1"));
    assert_eq!(cfg, Cfg::new());
}

#[test]
fn every_key_applies() {
    let mut cfg = Cfg::new();
    assert!(cfg.set("border-style", "heavy"));
    assert!(cfg.set("critical-border-style", "ascii"));
    assert!(cfg.set("font", "/tmp/x.ttf"));
    assert!(cfg.set("default-timeout", "5000"));
    assert!(cfg.set("critical-timeout", "9000"));
    assert!(cfg.set("max-visible", "3"));
    assert!(cfg.set("max-lines", "2"));
    assert!(cfg.set("anchor", "bottom-left"));
    assert!(cfg.set("margin", "-4"));
    assert!(cfg.set("layer", "overlay"));
    assert_eq!(cfg.border_style, Style::Heavy);
    assert_eq!(cfg.critical_border_style, Style::Ascii);
    assert_eq!(cfg.font, "/tmp/x.ttf");
    assert_eq!(cfg.default_timeout_ms, 5000);
    assert_eq!(cfg.critical_timeout_ms, 9000);
    assert_eq!(cfg.max_visible, 3);
    assert_eq!(cfg.max_lines, 2);
    assert_eq!(cfg.anchor, AnchorCorner::BottomLeft);
    assert_eq!(cfg.margin, -4);
    cfg.clamp();
    assert_eq!(cfg.margin, 0);
}

#[test]
fn clamp_brings_numbers_into_range() {
    let mut cfg = Cfg::new();
    cfg.max_width = 500;
    cfg.max_visible = 0;
    cfg.max_lines = 41;
    cfg.margin = 999;
    cfg.clamp();
    assert_eq!((cfg.max_width, cfg.max_visible, cfg.max_lines, cfg.margin), (120, 1, 40, 200));
}

#[test]
fn value_parsers() {
    assert_eq!(parse_hex("#a4c94b"), Some(Rgb([0xa4, 0xc9, 0x4b])));
    assert_eq!(parse_hex("a4c94b"), Some(Rgb([0xa4, 0xc9, 0x4b])));
    assert_eq!(parse_hex("##a4c94b"), None);
    assert_eq!(parse_hex("#a4c94"), None);
    assert_eq!(parse_hex("#a4c9zz"), None);
    assert_eq!(parse_style("double"), Some(Style::Double));
    assert_eq!(parse_style("Double"), None);
    assert_eq!(parse_anchor("top-left"), Some(AnchorCorner::TopLeft));
    assert_eq!(parse_anchor("middle"), None);
}

#[test]
fn key_value_splits_at_the_first_equals() {
    assert_eq!(key_value("  font-px = 17 # big"), Some(("font-px".to_string(), "17".to_string())));
    assert_eq!(key_value("a=b=c"), Some(("a".to_string(), "b=c".to_string())));
    assert_eq!(key_value("   # only a comment"), None);
    assert_eq!(key_value("no equals here"), None);
}

fn args(v: &[&str]) -> Vec<String> {
    v.iter().map(|s| s.to_string()).collect()
}

#[test]
fn command_line_steps() {
    let a = args(&["--max-width", "50", "--config", "x", "--bogus"]);
    match arg_step(&a, 0) {
        ArgStep::Pair { key, val } => assert_eq!((key.as_str(), val.as_str()), ("max-width", "50")),
        _ => panic!("pair"),
    }
    assert!(matches!(arg_step(&a, 2), ArgStep::Config));
    match arg_step(&a, 4) {
        ArgStep::Missing(f) => assert_eq!(f, "--bogus"),
        _ => panic!("missing"),
    }
    assert!(matches!(arg_step(&a, 5), ArgStep::End));
    assert!(matches!(arg_step(&args(&["-h"]), 0), ArgStep::Help));
    assert!(matches!(arg_step(&args(&["--help", "x"]), 0), ArgStep::Help));
    match arg_step(&args(&["plain"]), 0) {
        ArgStep::Unexpected(s) => assert_eq!(s, "plain"),
        _ => panic!("unexpected"),
    }
}
