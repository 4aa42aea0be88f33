use lifekit::greet::cli::{strip_comment, Colours};
use lifekit::lock::colour::parse_hex;

#[test]
fn hash_values_survive_comment_stripping() {
    assert_eq!(strip_comment("accent=#dd1a1a"), "accent=#dd1a1a");
    assert_eq!(strip_comment("key=value   # note"), "key=value   ");
    assert_eq!(strip_comment("# whole-line comment"), "");
}

#[test]
fn cli_file_colours_actually_load() {
    let mut c = Colours::new();
    for raw in "accent=#dd1a1a\nurgent=#7e3b2c   # note\n".lines() {
        c.apply_line(raw);
    }
    assert_eq!(c.accent, [221, 26, 26]);
    assert_eq!(c.urgent, [126, 59, 44]);
    assert_eq!(c.text, [123, 140, 90]);
}

#[test]
fn colour_file_ignores_unknown_keys_and_bad_values() {
    let mut c = Colours::new();
    c.apply_line("font=/x.ttf");
    c.apply_line("text=#zzzzzz");
    c.apply_line("mature");
    c.apply_line("   ");
    assert_eq!(c, Colours::new());
    c.apply_line(" newborn = ##010203 ");
    assert_eq!(c.newborn, [135, 165, 64]);
    c.apply_line(" newborn =##010203 ");
    c.apply_line("mature=#040506\t# tab before the comment");
    assert_eq!(c.newborn, [1, 2, 3]);
    assert_eq!(c.mature, [4, 5, 6]);
}

#[test]
fn lock_hex_drops_every_leading_hash() {
    assert_eq!(parse_hex("#66744c"), Some([0x66, 0x74, 0x4c]));
    assert_eq!(parse_hex("###87a540"), Some([0x87, 0xa5, 0x40]));
    assert_eq!(parse_hex("87A540"), Some([0x87, 0xa5, 0x40]));
    assert_eq!(parse_hex("#87a54"), None);
    assert_eq!(parse_hex("#87a5g0"), None);
    assert_eq!(parse_hex(""), None);
}
