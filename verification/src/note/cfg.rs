//! Notification daemon configuration: defaults, `key=value` settings (the
//! same keys serve the config file and the `--flags`), comment stripping,
//! reading the command line, and the value parsers for colours, frame
//! styles and anchors. The two floating-point settings (font size and
//! background opacity) are not held here.
use vstd::prelude::*;
use crate::chars::{chars_of, eq_lit, is_whitespace, is_ws, string_of, utf8_bytes, utf8_bytes_capped, tail_from, trim, trim_chars};
use crate::num::{parse_i32, parse_i32_spec, parse_u32_at, parse_u32_spec, parse_u64, parse_u64_spec, parse_usize, parse_usize_spec};
use crate::note::layout::Style;

verus! {

#[derive(Clone, Copy, PartialEq, Eq, Debug)]
pub struct Rgb(pub [u8; 3]);

impl Rgb {
    pub fn to_u8(self) -> (r: [u8; 3])
        ensures
            r == self.0,
    {
        self.0
    }
}

/// The colour a 24-bit value spells: red in the high byte.
pub open spec fn rgb_of(v: nat) -> [u8; 3] {
    [(v / 65536 % 256) as u8, (v / 256 % 256) as u8, (v % 256) as u8]
}

/// Six bytes that `from_str_radix(_, 16)` accepts, read as a colour.
pub open spec fn hex6_spec(t: Seq<char>) -> Option<[u8; 3]> {
    if utf8_bytes(t) != 6 {
        None
    } else {
        match parse_u32_spec(t, 16) {
            Some(v) => Some(rgb_of(v as nat)),
            None => None,
        }
    }
}

/// `#rrggbb` or `rrggbb` (one leading `#` dropped).
pub open spec fn hex_spec(s: Seq<char>) -> Option<[u8; 3]> {
    hex6_spec(
        if s.len() > 0 && s[0] == '#' {
            s.drop_first()
        } else {
            s
        },
    )
}

/// The colour of a 24-bit value: red in the high byte.
pub fn rgb_from_u32(v: u32) -> (r: [u8; 3])
    ensures
        r == rgb_of(v as nat),
{
    [(v / 65536 % 256) as u8, (v / 256 % 256) as u8, (v % 256) as u8]
}

/// Parse six hex digits as a colour.
pub fn hex6_chars(t: &Vec<char>) -> (r: Option<[u8; 3]>)
    ensures
        r == hex6_spec(t@),
{
    if utf8_bytes_capped(t, 7) != 6 {
        return None;
    }
    assert(t@.skip(0) == t@);
    match parse_u32_at(t, 0, 16) {
        Some(x) => Some(rgb_from_u32(x)),
        None => None,
    }
}

/// Parse `#rrggbb` / `rrggbb` characters.
pub fn hex_chars(v: &Vec<char>) -> (r: Option<[u8; 3]>)
    ensures
        r == hex_spec(v@),
{
    let t = if v.len() > 0 && v[0] == '#' {
        tail_from(v, 1)
    } else {
        tail_from(v, 0)
    };
    assert(v@.skip(0) == v@);
    assert(v@.len() > 0 ==> v@.skip(1) == v@.drop_first());
    hex6_chars(&t)
}

pub fn parse_hex(s: &str) -> (r: Option<Rgb>)
    ensures
        match r {
            Some(c) => hex_spec(s@) == Some(c.0),
            None => hex_spec(s@) is None,
        },
{
    let v = chars_of(s);
    match hex_chars(&v) {
        Some(c) => Some(Rgb(c)),
        None => None,
    }
}

#[derive(Clone, Copy, PartialEq, Eq, Debug, Structural)]
pub enum AnchorCorner {
    TopRight,
    TopLeft,
    BottomRight,
    BottomLeft,
}

#[derive(Clone, Copy, PartialEq, Eq, Debug, Structural)]
pub enum LayerChoice {
    /// Above windows, below fullscreen ones.
    Top,
    /// Above everything, fullscreen apps included.
    Overlay,
}

pub open spec fn style_spec(s: Seq<char>) -> Option<Style> {
    if s == seq!['s', 'i', 'n', 'g', 'l', 'e'] {
        Some(Style::Single)
    } else if s == seq!['r', 'o', 'u', 'n', 'd', 'e', 'd'] {
        Some(Style::Rounded)
    } else if s == seq!['h', 'e', 'a', 'v', 'y'] {
        Some(Style::Heavy)
    } else if s == seq!['d', 'o', 'u', 'b', 'l', 'e'] {
        Some(Style::Double)
    } else if s == seq!['a', 's', 'c', 'i', 'i'] {
        Some(Style::Ascii)
    } else {
        None
    }
}

pub open spec fn anchor_spec(s: Seq<char>) -> Option<AnchorCorner> {
    if s == seq!['t', 'o', 'p', '-', 'r', 'i', 'g', 'h', 't'] {
        Some(AnchorCorner::TopRight)
    } else if s == seq!['t', 'o', 'p', '-', 'l', 'e', 'f', 't'] {
        Some(AnchorCorner::TopLeft)
    } else if s == seq!['b', 'o', 't', 't', 'o', 'm', '-', 'r', 'i', 'g', 'h', 't'] {
        Some(AnchorCorner::BottomRight)
    } else if s == seq!['b', 'o', 't', 't', 'o', 'm', '-', 'l', 'e', 'f', 't'] {
        Some(AnchorCorner::BottomLeft)
    } else {
        None
    }
}

pub open spec fn layer_spec(s: Seq<char>) -> Option<LayerChoice> {
    if s == seq!['t', 'o', 'p'] {
        Some(LayerChoice::Top)
    } else if s == seq!['o', 'v', 'e', 'r', 'l', 'a', 'y'] {
        Some(LayerChoice::Overlay)
    } else {
        None
    }
}

/// The layer setting: `overlay` puts popups above everything, `top` above
/// windows only, and nothing else names a layer.
pub proof fn layer_names(s: Seq<char>)
    ensures
        layer_spec(s) == Some(LayerChoice::Overlay) <==> s == "overlay"@,
        layer_spec(s) == Some(LayerChoice::Top) <==> s == "top"@,
        layer_spec(s) is None <==> s != "overlay"@ && s != "top"@,
{
    reveal_strlit("overlay");
    reveal_strlit("top");
    assert("overlay"@ =~= seq!['o', 'v', 'e', 'r', 'l', 'a', 'y']);
    assert("top"@ =~= seq!['t', 'o', 'p']);
}

/// Setting `layer` changes only the layer: to the one the value names, or
/// not at all for a value that names none.
pub proof fn layer_setting(c: Cfg, val: Seq<char>)
    ensures
        set_spec(c, "layer"@, val) == Some(
            Cfg {
                layer: if val == "overlay"@ {
                    LayerChoice::Overlay
                } else if val == "top"@ {
                    LayerChoice::Top
                } else {
                    c.layer
                },
                ..c
            },
        ),
{
    reveal_strlit("layer");
    reveal_strlit("overlay");
    reveal_strlit("top");
    assert("layer"@ =~= seq!['l', 'a', 'y', 'e', 'r']);
    assert("overlay"@ =~= seq!['o', 'v', 'e', 'r', 'l', 'a', 'y']);
    assert("top"@ =~= seq!['t', 'o', 'p']);
}

fn style_chars(v: &Vec<char>) -> (r: Option<Style>)
    ensures
        r == style_spec(v@),
{
    if eq_lit(v, &['s', 'i', 'n', 'g', 'l', 'e']) {
        Some(Style::Single)
    } else if eq_lit(v, &['r', 'o', 'u', 'n', 'd', 'e', 'd']) {
        Some(Style::Rounded)
    } else if eq_lit(v, &['h', 'e', 'a', 'v', 'y']) {
        Some(Style::Heavy)
    } else if eq_lit(v, &['d', 'o', 'u', 'b', 'l', 'e']) {
        Some(Style::Double)
    } else if eq_lit(v, &['a', 's', 'c', 'i', 'i']) {
        Some(Style::Ascii)
    } else {
        None
    }
}

fn anchor_chars(v: &Vec<char>) -> (r: Option<AnchorCorner>)
    ensures
        r == anchor_spec(v@),
{
    if eq_lit(v, &['t', 'o', 'p', '-', 'r', 'i', 'g', 'h', 't']) {
        Some(AnchorCorner::TopRight)
    } else if eq_lit(v, &['t', 'o', 'p', '-', 'l', 'e', 'f', 't']) {
        Some(AnchorCorner::TopLeft)
    } else if eq_lit(v, &['b', 'o', 't', 't', 'o', 'm', '-', 'r', 'i', 'g', 'h', 't']) {
        Some(AnchorCorner::BottomRight)
    } else if eq_lit(v, &['b', 'o', 't', 't', 'o', 'm', '-', 'l', 'e', 'f', 't']) {
        Some(AnchorCorner::BottomLeft)
    } else {
        None
    }
}

fn layer_chars(v: &Vec<char>) -> (r: Option<LayerChoice>)
    ensures
        r == layer_spec(v@),
{
    if eq_lit(v, &['t', 'o', 'p']) {
        Some(LayerChoice::Top)
    } else if eq_lit(v, &['o', 'v', 'e', 'r', 'l', 'a', 'y']) {
        Some(LayerChoice::Overlay)
    } else {
        None
    }
}

pub fn parse_style(s: &str) -> (r: Option<Style>)
    ensures
        r == style_spec(s@),
{
    style_chars(&chars_of(s))
}

pub fn parse_anchor(s: &str) -> (r: Option<AnchorCorner>)
    ensures
        r == anchor_spec(s@),
{
    anchor_chars(&chars_of(s))
}

/// The daemon's settings.
#[derive(Clone, PartialEq, Eq, Debug)]
pub struct Cfg {
    pub border_style: Style,
    pub critical_border_style: Style,
    pub font: String,
    pub background: Rgb,
    pub text: Rgb,
    pub border: Rgb,
    pub title: Rgb,
    pub warn: Rgb,
    pub urgent: Rgb,
    /// 0 = never expire.
    pub default_timeout_ms: u64,
    /// 0 = never expire.
    pub critical_timeout_ms: u64,
    /// Content columns inside the frame.
    pub max_width: usize,
    pub max_visible: usize,
    /// Body lines per popup.
    pub max_lines: usize,
    pub anchor: AnchorCorner,
    pub margin: i32,
    pub layer: LayerChoice,
}

pub open spec fn default_font() -> Seq<char> {
    "/usr/share/fonts/TTF/ShureTechMonoNerdFontMono-Regular.ttf"@
}

impl Cfg {
    pub fn new() -> (c: Cfg)
        ensures
            c.border_style == Style::Single,
            c.critical_border_style == Style::Double,
            c.font@ == default_font(),
            c.background == Rgb([0x17, 0x1a, 0x14]),
            c.text == Rgb([0x7b, 0x8c, 0x5a]),
            c.border == Rgb([0x39, 0x41, 0x2b]),
            c.title == Rgb([0xa4, 0xc9, 0x4b]),
            c.warn == Rgb([0xc7, 0xd1, 0x7a]),
            c.urgent == Rgb([0x8a, 0x3b, 0x2e]),
            c.default_timeout_ms == 3000,
            c.critical_timeout_ms == 0,
            c.max_width == 40,
            c.max_visible == 5,
            c.max_lines == 6,
            c.anchor == AnchorCorner::TopRight,
            c.margin == 8,
            c.layer == LayerChoice::Top,
    {
        Cfg {
            border_style: Style::Single,
            critical_border_style: Style::Double,
            font: String::from_str("/usr/share/fonts/TTF/ShureTechMonoNerdFontMono-Regular.ttf"),
            background: Rgb([0x17, 0x1a, 0x14]),
            text: Rgb([0x7b, 0x8c, 0x5a]),
            border: Rgb([0x39, 0x41, 0x2b]),
            title: Rgb([0xa4, 0xc9, 0x4b]),
            warn: Rgb([0xc7, 0xd1, 0x7a]),
            urgent: Rgb([0x8a, 0x3b, 0x2e]),
            default_timeout_ms: 3000,
            critical_timeout_ms: 0,
            max_width: 40,
            max_visible: 5,
            max_lines: 6,
            anchor: AnchorCorner::TopRight,
            margin: 8,
            layer: LayerChoice::Top,
        }
    }
}

/// The value a parse gives, or `cur` when it fails.
pub open spec fn or_keep<T>(p: Option<T>, cur: T) -> T {
    match p {
        Some(v) => v,
        None => cur,
    }
}

pub open spec fn or_keep_rgb(p: Option<[u8; 3]>, cur: Rgb) -> Rgb {
    match p {
        Some(v) => Rgb(v),
        None => cur,
    }
}

/// The settings after `key=val`: None for an unknown key; a bad value for
/// a known key keeps the previous setting.
pub open spec fn set_spec(c: Cfg, key: Seq<char>, val: Seq<char>) -> Option<Cfg> {
    if key == seq!['b', 'o', 'r', 'd', 'e', 'r', '-', 's', 't', 'y', 'l', 'e'] {
        Some(Cfg { border_style: or_keep(style_spec(val), c.border_style), ..c })
    } else if key == seq!['c', 'r', 'i', 't', 'i', 'c', 'a', 'l', '-', 'b', 'o', 'r', 'd', 'e', 'r', '-', 's', 't', 'y', 'l', 'e'] {
        Some(Cfg { critical_border_style: or_keep(style_spec(val), c.critical_border_style), ..c })
    } else if key == seq!['b', 'a', 'c', 'k', 'g', 'r', 'o', 'u', 'n', 'd', '-', 'c', 'o', 'l', 'o', 'r'] {
        Some(Cfg { background: or_keep_rgb(hex_spec(val), c.background), ..c })
    } else if key == seq!['t', 'e', 'x', 't', '-', 'c', 'o', 'l', 'o', 'r'] {
        Some(Cfg { text: or_keep_rgb(hex_spec(val), c.text), ..c })
    } else if key == seq!['b', 'o', 'r', 'd', 'e', 'r', '-', 'c', 'o', 'l', 'o', 'r'] {
        Some(Cfg { border: or_keep_rgb(hex_spec(val), c.border), ..c })
    } else if key == seq!['t', 'i', 't', 'l', 'e', '-', 'c', 'o', 'l', 'o', 'r'] {
        Some(Cfg { title: or_keep_rgb(hex_spec(val), c.title), ..c })
    } else if key == seq!['w', 'a', 'r', 'n', '-', 'c', 'o', 'l', 'o', 'r'] {
        Some(Cfg { warn: or_keep_rgb(hex_spec(val), c.warn), ..c })
    } else if key == seq!['u', 'r', 'g', 'e', 'n', 't', '-', 'c', 'o', 'l', 'o', 'r'] {
        Some(Cfg { urgent: or_keep_rgb(hex_spec(val), c.urgent), ..c })
    } else if key == seq!['d', 'e', 'f', 'a', 'u', 'l', 't', '-', 't', 'i', 'm', 'e', 'o', 'u', 't'] {
        Some(Cfg { default_timeout_ms: or_keep(parse_u64_spec(val), c.default_timeout_ms), ..c })
    } else if key == seq!['c', 'r', 'i', 't', 'i', 'c', 'a', 'l', '-', 't', 'i', 'm', 'e', 'o', 'u', 't'] {
        Some(Cfg { critical_timeout_ms: or_keep(parse_u64_spec(val), c.critical_timeout_ms), ..c })
    } else if key == seq!['m', 'a', 'x', '-', 'w', 'i', 'd', 't', 'h'] {
        Some(Cfg { max_width: or_keep(parse_usize_spec(val), c.max_width), ..c })
    } else if key == seq!['m', 'a', 'x', '-', 'v', 'i', 's', 'i', 'b', 'l', 'e'] {
        Some(Cfg { max_visible: or_keep(parse_usize_spec(val), c.max_visible), ..c })
    } else if key == seq!['m', 'a', 'x', '-', 'l', 'i', 'n', 'e', 's'] {
        Some(Cfg { max_lines: or_keep(parse_usize_spec(val), c.max_lines), ..c })
    } else if key == seq!['a', 'n', 'c', 'h', 'o', 'r'] {
        Some(Cfg { anchor: or_keep(anchor_spec(val), c.anchor), ..c })
    } else if key == seq!['m', 'a', 'r', 'g', 'i', 'n'] {
        Some(Cfg { margin: or_keep(parse_i32_spec(val), c.margin), ..c })
    } else if key == seq!['l', 'a', 'y', 'e', 'r'] {
        Some(Cfg { layer: or_keep(layer_spec(val), c.layer), ..c })
    } else {
        None
    }
}

pub open spec fn is_font_key(key: Seq<char>) -> bool {
    key == seq!['f', 'o', 'n', 't']
}

/// The two fractional settings (font size, background opacity): known keys
/// whose values are kept beside this record, not in it.
pub open spec fn is_fraction_key(key: Seq<char>) -> bool {
    ||| key == seq!['f', 'o', 'n', 't', '-', 'p', 'x']
    ||| key == seq!['b', 'a', 'c', 'k', 'g', 'r', 'o', 'u', 'n', 'd', '-', 'a', 'l', 'p', 'h', 'a']
}

/// `after` is `before` with `key=val` applied, and `known` says whether the
/// key is one of the settings.
pub open spec fn set_done(before: Cfg, after: Cfg, key: Seq<char>, val: Seq<char>, known: bool) -> bool {
    if is_font_key(key) {
        known && after == (Cfg { font: after.font, ..before }) && after.font@ == val
    } else if is_fraction_key(key) {
        known && after == before
    } else {
        match set_spec(before, key, val) {
            Some(c) => known && after == c,
            None => !known && after == before,
        }
    }
}

impl Cfg {
    /// Apply one `key=value`. Returns false for an unknown key; a bad value
    /// for a known key keeps the previous setting. `font` takes the value
    /// verbatim.
    pub fn set(&mut self, key: &str, val: &str) -> (known: bool)
        ensures
            set_done(*old(self), *final(self), key@, val@, known),
    {
        let k = chars_of(key);
        let v = chars_of(val);
        self.set_chars(&k, &v)
    }

    /// `set` over the characters of the key and the value.
    pub fn set_chars(&mut self, k: &Vec<char>, v: &Vec<char>) -> (known: bool)
        ensures
            set_done(*old(self), *final(self), k@, v@, known),
    {
        if eq_lit(k, &['f', 'o', 'n', 't']) {
            self.font = string_of(v);
            return true;
        }
        if eq_lit(k, &['f', 'o', 'n', 't', '-', 'p', 'x']) || eq_lit(k, &['b', 'a', 'c', 'k', 'g', 'r', 'o', 'u', 'n', 'd', '-', 'a', 'l', 'p', 'h', 'a']) {
            return true;
        }
        if eq_lit(k, &['b', 'o', 'r', 'd', 'e', 'r', '-', 's', 't', 'y', 'l', 'e']) {
            if let Some(x) = style_chars(v) {
                self.border_style = x;
            }
        } else if eq_lit(k, &['c', 'r', 'i', 't', 'i', 'c', 'a', 'l', '-', 'b', 'o', 'r', 'd', 'e', 'r', '-', 's', 't', 'y', 'l', 'e']) {
            if let Some(x) = style_chars(v) {
                self.critical_border_style = x;
            }
        } else if eq_lit(k, &['b', 'a', 'c', 'k', 'g', 'r', 'o', 'u', 'n', 'd', '-', 'c', 'o', 'l', 'o', 'r']) {
            if let Some(x) = hex_chars(v) {
                self.background = Rgb(x);
            }
        } else if eq_lit(k, &['t', 'e', 'x', 't', '-', 'c', 'o', 'l', 'o', 'r']) {
            if let Some(x) = hex_chars(v) {
                self.text = Rgb(x);
            }
        } else if eq_lit(k, &['b', 'o', 'r', 'd', 'e', 'r', '-', 'c', 'o', 'l', 'o', 'r']) {
            if let Some(x) = hex_chars(v) {
                self.border = Rgb(x);
            }
        } else if eq_lit(k, &['t', 'i', 't', 'l', 'e', '-', 'c', 'o', 'l', 'o', 'r']) {
            if let Some(x) = hex_chars(v) {
                self.title = Rgb(x);
            }
        } else if eq_lit(k, &['w', 'a', 'r', 'n', '-', 'c', 'o', 'l', 'o', 'r']) {
            if let Some(x) = hex_chars(v) {
                self.warn = Rgb(x);
            }
        } else if eq_lit(k, &['u', 'r', 'g', 'e', 'n', 't', '-', 'c', 'o', 'l', 'o', 'r']) {
            if let Some(x) = hex_chars(v) {
                self.urgent = Rgb(x);
            }
        } else if eq_lit(k, &['d', 'e', 'f', 'a', 'u', 'l', 't', '-', 't', 'i', 'm', 'e', 'o', 'u', 't']) {
            if let Some(x) = parse_u64(v) {
                self.default_timeout_ms = x;
            }
        } else if eq_lit(k, &['c', 'r', 'i', 't', 'i', 'c', 'a', 'l', '-', 't', 'i', 'm', 'e', 'o', 'u', 't']) {
            if let Some(x) = parse_u64(v) {
                self.critical_timeout_ms = x;
            }
        } else if eq_lit(k, &['m', 'a', 'x', '-', 'w', 'i', 'd', 't', 'h']) {
            if let Some(x) = parse_usize(v) {
                self.max_width = x;
            }
        } else if eq_lit(k, &['m', 'a', 'x', '-', 'v', 'i', 's', 'i', 'b', 'l', 'e']) {
            if let Some(x) = parse_usize(v) {
                self.max_visible = x;
            }
        } else if eq_lit(k, &['m', 'a', 'x', '-', 'l', 'i', 'n', 'e', 's']) {
            if let Some(x) = parse_usize(v) {
                self.max_lines = x;
            }
        } else if eq_lit(k, &['a', 'n', 'c', 'h', 'o', 'r']) {
            if let Some(x) = anchor_chars(v) {
                self.anchor = x;
            }
        } else if eq_lit(k, &['m', 'a', 'r', 'g', 'i', 'n']) {
            if let Some(x) = parse_i32(v) {
                self.margin = x;
            }
        } else if eq_lit(k, &['l', 'a', 'y', 'e', 'r']) {
            if let Some(x) = layer_chars(v) {
                self.layer = x;
            }
        } else {
            return false;
        }
        true
    }

    /// Bring the numeric settings into their accepted ranges.
    pub fn clamp(&mut self)
        ensures
            final(self).max_width == clamp_spec(old(self).max_width as int, 10, 120),
            final(self).max_visible == clamp_spec(old(self).max_visible as int, 1, 20),
            final(self).max_lines == clamp_spec(old(self).max_lines as int, 1, 40),
            final(self).margin == clamp_spec(old(self).margin as int, 0, 200),
            *final(self) == (Cfg {
                max_width: final(self).max_width,
                max_visible: final(self).max_visible,
                max_lines: final(self).max_lines,
                margin: final(self).margin,
                ..*old(self)
            }),
    {
        self.max_width = clamp_usize(self.max_width, 10, 120);
        self.max_visible = clamp_usize(self.max_visible, 1, 20);
        self.max_lines = clamp_usize(self.max_lines, 1, 40);
        self.margin = if self.margin < 0 {
            0
        } else if self.margin > 200 {
            200
        } else {
            self.margin
        };
    }
}

pub open spec fn clamp_spec(x: int, lo: int, hi: int) -> int {
    if x < lo {
        lo
    } else if x > hi {
        hi
    } else {
        x
    }
}

pub fn clamp_usize(x: usize, lo: usize, hi: usize) -> (r: usize)
    requires
        lo <= hi,
    ensures
        r == clamp_spec(x as int, lo as int, hi as int),
{
    if x < lo {
        lo
    } else if x > hi {
        hi
    } else {
        x
    }
}

/// Index of the first `#` that starts a comment: at the start of the line
/// or right after whitespace; the length of `s` if there is none.
pub open spec fn comment_at(s: Seq<char>, i: int) -> int
    decreases s.len() - i,
{
    if i >= s.len() {
        s.len() as int
    } else if s[i] == '#' && (i == 0 || is_ws(s[i - 1])) {
        i
    } else {
        comment_at(s, i + 1)
    }
}

/// Cut `raw` at the first `#` that starts the line or follows whitespace:
/// `key=value   # note` loses the note, `key=#a4c94b` keeps its colour.
pub fn strip_comment(raw: &str) -> (r: &str)
    ensures
        r@ == raw@.take(comment_at(raw@, 0)),
{
    let v = chars_of(raw);
    let i = comment_index(&v);
    proof {
        lemma_comment_bounds(v@, 0);
    }
    raw.substring_char(0, i)
}

fn comment_index(v: &Vec<char>) -> (i: usize)
    ensures
        i == comment_at(v@, 0),
{
    let mut i: usize = 0;
    while i < v.len()
        invariant
            i <= v.len(),
            comment_at(v@, 0) == comment_at(v@, i as int),
        decreases v.len() - i,
    {
        if v[i] == '#' && (i == 0 || is_whitespace(v[i - 1])) {
            return i;
        }
        i += 1;
    }
    i
}

proof fn lemma_comment_bounds(s: Seq<char>, i: int)
    requires
        0 <= i <= s.len(),
    ensures
        i <= comment_at(s, i) <= s.len(),
    decreases s.len() - i,
{
    if i < s.len() && !(s[i] == '#' && (i == 0 || is_ws(s[i - 1]))) {
        lemma_comment_bounds(s, i + 1);
    }
}

/// Index of the first `=` at or after `i`.
pub open spec fn first_eq(s: Seq<char>, i: int) -> Option<int>
    decreases s.len() - i,
{
    if i >= s.len() {
        None
    } else if s[i] == '=' {
        Some(i)
    } else {
        first_eq(s, i + 1)
    }
}

/// What a line of the configuration file holds once its comment and the
/// surrounding whitespace are gone.
pub open spec fn config_line(raw: Seq<char>) -> Seq<char> {
    trim(raw.take(comment_at(raw, 0)))
}

/// What became of one line of the configuration file.
#[derive(PartialEq, Eq, Debug)]
pub enum LineOutcome {
    /// Nothing but a comment or whitespace.
    Blank,
    /// No `=` in the line.
    NoEquals,
    /// The key (trimmed) is not a setting.
    UnknownKey(String),
    Applied,
}

/// The characters of `v` from `a` up to `b`.
pub fn chars_between(v: &Vec<char>, a: usize, b: usize) -> (r: Vec<char>)
    requires
        a <= b <= v@.len(),
    ensures
        r@ == v@.subrange(a as int, b as int),
{
    let mut r: Vec<char> = Vec::new();
    for i in a..b
        invariant
            a <= b <= v@.len(),
            r@ == v@.subrange(a as int, i as int),
    {
        r.push(v[i]);
    }
    r
}

/// Index of the first `=` in `v`.
pub fn find_eq(v: &Vec<char>) -> (r: Option<usize>)
    ensures
        match r {
            Some(k) => first_eq(v@, 0) == Some(k as int),
            None => first_eq(v@, 0) is None,
        },
{
    let mut i: usize = 0;
    while i < v.len()
        invariant
            i <= v.len(),
            first_eq(v@, 0) == first_eq(v@, i as int),
        decreases v.len() - i,
    {
        if v[i] == '=' {
            return Some(i);
        }
        i += 1;
    }
    None
}

pub proof fn lemma_first_eq_bounds(s: Seq<char>, i: int)
    requires
        0 <= i,
    ensures
        match first_eq(s, i) {
            Some(k) => i <= k < s.len(),
            None => true,
        },
    decreases s.len() - i,
{
    if i < s.len() && s[i] != '=' {
        lemma_first_eq_bounds(s, i + 1);
    }
}

impl Cfg {
    /// Apply one line of the configuration file: the comment is cut, the
    /// line trimmed, split at its first `=`, and key and value (each
    /// trimmed) go to `set`.
    pub fn apply_line(&mut self, raw: &str) -> (r: LineOutcome)
        ensures
            ({
                let line = config_line(raw@);
                if line.len() == 0 {
                    r == LineOutcome::Blank && *final(self) == *old(self)
                } else {
                    match first_eq(line, 0) {
                        None => r == LineOutcome::NoEquals && *final(self) == *old(self),
                        Some(k) => {
                            let key = trim(line.take(k));
                            let val = trim(line.skip(k + 1));
                            &&& set_done(*old(self), *final(self), key, val, r == LineOutcome::Applied)
                            &&& r != LineOutcome::Applied ==> (r matches LineOutcome::UnknownKey(name) && name@ == key)
                        },
                    }
                }
            }),
    {
        let stripped = chars_of(strip_comment(raw));
        let line = trim_chars(&stripped);
        if line.len() == 0 {
            return LineOutcome::Blank;
        }
        proof {
            lemma_first_eq_bounds(line@, 0);
        }
        match find_eq(&line) {
            None => LineOutcome::NoEquals,
            Some(k) => {
                let key = trim_chars(&chars_between(&line, 0, k));
                let val = trim_chars(&chars_between(&line, k + 1, line.len()));
                proof {
                    assert(line@.subrange(0, k as int) =~= line@.take(k as int));
                    assert(line@.subrange(k + 1, line@.len() as int) =~= line@.skip(k + 1));
                }
                if self.set_chars(&key, &val) {
                    LineOutcome::Applied
                } else {
                    LineOutcome::UnknownKey(string_of(&key))
                }
            },
        }
    }
}

/// The trimmed key and value of a configuration line, split at its first
/// `=` once the comment is cut; None for a blank line or one without `=`.
pub fn key_value(raw: &str) -> (r: Option<(String, String)>)
    ensures
        ({
            let line = config_line(raw@);
            match r {
                None => line.len() == 0 || first_eq(line, 0) is None,
                Some((key, val)) => line.len() > 0 && (first_eq(line, 0) matches Some(k) && key@ == trim(
                    line.take(k),
                ) && val@ == trim(line.skip(k + 1))),
            }
        }),
{
    let stripped = chars_of(strip_comment(raw));
    let line = trim_chars(&stripped);
    if line.len() == 0 {
        return None;
    }
    proof {
        lemma_first_eq_bounds(line@, 0);
    }
    match find_eq(&line) {
        None => None,
        Some(k) => {
            let key = trim_chars(&chars_between(&line, 0, k));
            let val = trim_chars(&chars_between(&line, k + 1, line.len()));
            proof {
                assert(line@.subrange(0, k as int) =~= line@.take(k as int));
                assert(line@.subrange(k + 1, line@.len() as int) =~= line@.skip(k + 1));
            }
            Some((string_of(&key), string_of(&val)))
        },
    }
}

/// `on`/`off` for a do-not-disturb state.
pub fn onoff(b: bool) -> (r: &'static str)
    ensures
        b ==> r@ == seq!['o', 'n'],
        !b ==> r@ == seq!['o', 'f', 'f'],
{
    proof {
        reveal_strlit("on");
        reveal_strlit("off");
    }
    if b {
        "on"
    } else {
        "off"
    }
}

/// What the command-line argument at an index asks for.
pub enum ArgStep {
    /// No arguments left.
    End,
    /// `--help` or `-h`: print the usage and stop.
    Help,
    /// `--config FILE`, read before the flags: skip it and its value.
    Config,
    /// `--key value`.
    Pair { key: String, val: String },
    /// A flag with nothing after it.
    Missing(String),
    /// Something that is not a flag.
    Unexpected(String),
}

/// Whether an argument is a `--flag`.
pub open spec fn is_flag(a: Seq<char>) -> bool {
    a.len() >= 2 && a[0] == '-' && a[1] == '-'
}

/// Read the argument at `i` of `args` (the program name left out); a
/// `--key` takes the next argument as its value.
pub fn arg_step(args: &Vec<String>, i: usize) -> (r: ArgStep)
    ensures
        ({
            let a = args@.map_values(|s: String| s@);
            if i >= a.len() {
                r is End
            } else if a[i as int] == "--help"@ || a[i as int] == "-h"@ {
                r is Help
            } else if a[i as int] == "--config"@ {
                r is Config
            } else if !is_flag(a[i as int]) {
                r matches ArgStep::Unexpected(s) && s@ == a[i as int]
            } else if i + 1 >= a.len() {
                r matches ArgStep::Missing(f) && f@ == a[i as int]
            } else {
                r matches ArgStep::Pair { key, val } && key@ == a[i as int].skip(2) && val@ == a[i + 1]
            }
        }),
{
    proof {
        reveal_strlit("--help");
        reveal_strlit("-h");
        reveal_strlit("--config");
    }
    if i >= args.len() {
        return ArgStep::End;
    }
    let v = chars_of(args[i].as_str());
    assert(v@ == args@.map_values(|s: String| s@)[i as int]);
    let help = ['-', '-', 'h', 'e', 'l', 'p'];
    let short = ['-', 'h'];
    let config = ['-', '-', 'c', 'o', 'n', 'f', 'i', 'g'];
    assert(help@ =~= "--help"@);
    assert(short@ =~= "-h"@);
    assert(config@ =~= "--config"@);
    if eq_lit(&v, &help) || eq_lit(&v, &short) {
        return ArgStep::Help;
    }
    if eq_lit(&v, &config) {
        return ArgStep::Config;
    }
    if !(v.len() >= 2 && v[0] == '-' && v[1] == '-') {
        return ArgStep::Unexpected(string_of(&v));
    }
    if i + 1 >= args.len() {
        return ArgStep::Missing(string_of(&v));
    }
    let key = string_of(&tail_from(&v, 2));
    let w = chars_of(args[i + 1].as_str());
    assert(w@ == args@.map_values(|s: String| s@)[i + 1]);
    ArgStep::Pair { key, val: string_of(&w) }
}

} // verus!
