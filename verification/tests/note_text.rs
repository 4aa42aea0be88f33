use lifekit::note::text::{one_line, strip_markup, wrap};

#[test]
fn strips_tags_and_entities() {
    assert_eq!(strip_markup("<b>bold</b> &amp; <i>x</i>"), "bold & x");
    assert_eq!(strip_markup("a &lt;tag&gt; &quot;q&quot; &apos;s&apos;"), "a <tag> \"q\" 's'");
    assert_eq!(strip_markup("&#65;&#x42;"), "AB");
    assert_eq!(strip_markup("plain text"), "plain text");
    assert_eq!(strip_markup("<a href=\"x>y\">link</a>"), "y\">link");
}

#[test]
fn passes_unknown_entities_and_bare_amp() {
    assert_eq!(strip_markup("fish &chips; now"), "fish &chips; now");
    assert_eq!(strip_markup("R&D dept"), "R&D dept");
    assert_eq!(strip_markup("trailing &"), "trailing &");
    assert_eq!(strip_markup("&#xZZ;"), "&#xZZ;");
}

#[test]
fn drops_unterminated_tag() {
    assert_eq!(strip_markup("pre <b unterminated"), "pre ");
}

#[test]
fn wraps_words() {
    assert_eq!(wrap("one two three four", 9), vec!["one two", "three", "four"]);
    assert_eq!(wrap("short", 40), vec!["short"]);
}

#[test]
fn wraps_newlines_and_long_words() {
    assert_eq!(wrap("a\nb", 10), vec!["a", "b"]);
    assert_eq!(wrap("abcdefghij", 4), vec!["abcd", "efgh", "ij"]);
    assert_eq!(wrap("x abcdefgh y", 4), vec!["x", "abcd", "efgh", "y"]);
}

#[test]
fn empty_and_trailing_blank() {
    assert_eq!(wrap("", 10), vec![""]);
    assert_eq!(wrap("a\n\n", 10), vec!["a"]);
    assert_eq!(wrap("a\n\nb", 10), vec!["a", "", "b"]);
}

#[test]
fn entity_edge_cases() {
    // A '+' sign is accepted by the numeric parse, as u32::from_str_radix does.
    assert_eq!(strip_markup("&#+66;"), "B");
    assert_eq!(strip_markup("&#X4a;"), "J");
    // Surrogates are not characters: passed through verbatim.
    assert_eq!(strip_markup("&#xD800;"), "&#xD800;");
    // A name longer than eight bytes is not an entity.
    assert_eq!(strip_markup("&abcdefghij;"), "&abcdefghij;");
    // '<' inside an entity name ends it and starts a tag.
    assert_eq!(strip_markup("&am<b>p"), "&amp");
    assert_eq!(strip_markup("&#x1F512;"), "🔒");
}

#[test]
fn one_line_collapses_whitespace() {
    assert_eq!(one_line("From: bob\nSubject: hi"), "From: bob Subject: hi");
    assert_eq!(one_line("<b>line1</b>\nline2"), "line1 line2");
    assert_eq!(one_line("  \t spaced \r\n  out\u{3000}"), "spaced out");
    assert_eq!(one_line(""), "");
}

#[test]
fn wrap_zero_columns_means_one() {
    assert_eq!(wrap("ab c", 0), vec!["a", "b", "c"]);
}

#[test]
fn wrap_lines_never_exceed_columns() {
    let text = "the quick brown fox jumps over a remarkably lazy dog\nand then keeps going";
    for cols in 1..30 {
        for line in wrap(text, cols) {
            assert!(line.chars().count() <= cols);
        }
    }
}

#[test]
fn plain_text_passes_through_stripping() {
    let s = "Boards of Canada — Olson; 5% > 4%";
    assert_eq!(strip_markup(s), s);
}
