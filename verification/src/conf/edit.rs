//! Committing a typed value to the selected field of the theme. The
//! theme's fractional settings (wallpaper tick, fade, density and glider
//! interval, popup opacity, animation slowdown) are parsed by the tool
//! itself; this module holds and edits everything else.
use vstd::prelude::*;
use crate::chars::{chars_of, eq_lit, string_of, trim, trim_chars};
use crate::conf::model::{normalize_hex, normalize_spec, step_index, str_views, ANCHORS, GLYPH_MODES, N_CATS, STYLES};
use crate::conf::presets::NAMES;
use crate::conf::theme::{follows, Cursor, Font, Idle, Meta, Palette, Screen};
use crate::num::{decimal, parse_u32, parse_u32_spec, push_decimal};

verus! {

/// The theme's settings other than the fractional ones.
pub struct ThemeText {
    pub meta: Meta,
    pub palette: Palette,
    /// Wallpaper frames per second.
    pub wall_fps: u32,
    pub wall_glyph_mode: String,
    pub wall_char: String,
    pub wall_mature: String,
    pub wall_newborn: String,
    pub note_border_style: String,
    pub note_critical_border_style: String,
    pub note_position: String,
    pub idle: Idle,
    pub cursor: Cursor,
    pub font: Font,
    pub lifelock: Screen,
    pub lifegreet: Screen,
}

/// What committing a value did.
#[derive(Debug, PartialEq, Eq)]
pub enum Committed {
    /// The value was applied (or kept, if it did not parse).
    Applied,
    /// The field holds a fractional value, parsed by the caller.
    Fractional,
    /// The field takes no typed value.
    Ignored,
}

/// `s.parse::<u32>()` or the current value, clamped to `lo..=hi`.
pub open spec fn num_or(s: Seq<char>, cur: u32, lo: u32, hi: u32) -> u32 {
    let v = match parse_u32_spec(s, 10) {
        Some(v) => v,
        None => cur,
    };
    if v < lo {
        lo
    } else if v > hi {
        hi
    } else {
        v
    }
}

pub open spec fn hex_into(s: Seq<char>, old: String, new: String) -> bool {
    new@ == normalize_spec(s, old@)
}

/// A screen's colours after a typed value for field `i`: the screen is
/// unlinked from the palette and the colour (`mature`, `newborn`,
/// `accent`, `urgent`, else `text`) normalised.
pub open spec fn screen_after(a: Screen, b: Screen, i: int, s: Seq<char>) -> bool {
    &&& !b.link
    &&& if i == 1 {
        hex_into(s, a.mature, b.mature) && b == (Screen { link: false, mature: b.mature, ..a })
    } else if i == 2 {
        hex_into(s, a.newborn, b.newborn) && b == (Screen { link: false, newborn: b.newborn, ..a })
    } else if i == 3 {
        hex_into(s, a.accent, b.accent) && b == (Screen { link: false, accent: b.accent, ..a })
    } else if i == 4 {
        hex_into(s, a.urgent, b.urgent) && b == (Screen { link: false, urgent: b.urgent, ..a })
    } else {
        hex_into(s, a.text, b.text) && b == (Screen { link: false, text: b.text, ..a })
    }
}

/// A palette after a typed value for role `i` (`bg`, `surface`, `border`,
/// `text`, `accent`, `warn`, else `urgent`).
pub open spec fn palette_after(a: Palette, b: Palette, i: int, s: Seq<char>) -> bool {
    if i == 0 {
        hex_into(s, a.bg, b.bg) && b == (Palette { bg: b.bg, ..a })
    } else if i == 1 {
        hex_into(s, a.surface, b.surface) && b == (Palette { surface: b.surface, ..a })
    } else if i == 2 {
        hex_into(s, a.border, b.border) && b == (Palette { border: b.border, ..a })
    } else if i == 3 {
        hex_into(s, a.text, b.text) && b == (Palette { text: b.text, ..a })
    } else if i == 4 {
        hex_into(s, a.accent, b.accent) && b == (Palette { accent: b.accent, ..a })
    } else if i == 5 {
        hex_into(s, a.warn, b.warn) && b == (Palette { warn: b.warn, ..a })
    } else {
        hex_into(s, a.urgent, b.urgent) && b == (Palette { urgent: b.urgent, ..a })
    }
}

/// Fields holding a fractional value: wallpaper tick, fade, density and
/// glider interval, popup opacity, animation slowdown.
pub open spec fn is_fractional(cat: int, field: int) -> bool {
    (cat == 2 && (field == 0 || field == 2 || field == 3 || field == 8)) || (cat == 3 && field == 2) || (cat
        == 7 && field == 0)
}

/// The theme after committing the trimmed text `s` to field `field` of
/// category `cat`, apart from the preset name.
pub open spec fn edit_spec(a: ThemeText, b: ThemeText, cat: int, field: int, s: Seq<char>) -> bool {
    if cat == 1 {
        palette_after(a.palette, b.palette, field, s) && b == (ThemeText { palette: b.palette, meta: b.meta, ..a })
    } else if cat == 2 && field == 5 {
        (if s.len() == 0 { b.wall_char == a.wall_char } else { b.wall_char@ == s }) && b == (ThemeText {
            wall_char: b.wall_char,
            ..a
        })
    } else if cat == 2 && field == 6 {
        hex_into(s, a.wall_mature, b.wall_mature) && b == (ThemeText { wall_mature: b.wall_mature, meta: b.meta, ..a })
    } else if cat == 2 && field == 7 {
        hex_into(s, a.wall_newborn, b.wall_newborn) && b == (ThemeText {
            wall_newborn: b.wall_newborn,
            meta: b.meta,
            ..a
        })
    } else if cat == 2 && field == 1 {
        b == (ThemeText { wall_fps: num_or(s, a.wall_fps, 1, 240), ..a })
    } else if cat == 4 {
        screen_after(a.lifelock, b.lifelock, field, s) && b == (ThemeText { lifelock: b.lifelock, ..a })
    } else if cat == 5 {
        screen_after(a.lifegreet, b.lifegreet, field, s) && b == (ThemeText { lifegreet: b.lifegreet, ..a })
    } else if cat == 6 && field == 0 {
        b == (ThemeText { idle: Idle { lock_minutes: num_or(s, a.idle.lock_minutes, 1, u32::MAX), ..a.idle }, ..a })
    } else if cat == 6 && field == 1 {
        b == (ThemeText {
            idle: Idle { screen_off_minutes: num_or(s, a.idle.screen_off_minutes, 1, u32::MAX), ..a.idle },
            ..a
        })
    } else if cat == 8 && field == 0 {
        b.cursor.theme@ == s && b == (ThemeText { cursor: Cursor { theme: b.cursor.theme, ..a.cursor }, ..a })
    } else if cat == 8 && field == 1 {
        b == (ThemeText { cursor: Cursor { size: num_or(s, a.cursor.size, 8, 128), ..a.cursor }, ..a })
    } else if cat == 9 && field == 0 {
        b.font.family@ == s && b == (ThemeText { font: Font { family: b.font.family, ..a.font }, ..a })
    } else if cat == 9 && field == 1 {
        b == (ThemeText { font: Font { size: num_or(s, a.font.size, 6, 48), ..a.font }, ..a })
    } else {
        b == a
    }
}

/// Colour edits to the palette or the wallpaper tints mark the theme as
/// hand-tuned.
pub open spec fn touches_palette(cat: int, field: int) -> bool {
    cat == 1 || (cat == 2 && (field == 6 || field == 7))
}

pub open spec fn outcome_spec(cat: int, field: int) -> Committed {
    if is_fractional(cat, field) {
        Committed::Fractional
    } else if cat == 1 || (cat == 2 && (field == 1 || field == 5 || field == 6 || field == 7)) || cat == 4
        || cat == 5 || ((cat == 6 || cat == 8 || cat == 9) && field <= 1) {
        Committed::Applied
    } else {
        Committed::Ignored
    }
}

fn num_field(s: &Vec<char>, cur: u32, lo: u32, hi: u32) -> (r: u32)
    requires
        lo <= hi,
    ensures
        r == num_or(s@, cur, lo, hi),
{
    let v = match parse_u32(s) {
        Some(v) => v,
        None => cur,
    };
    if v < lo {
        lo
    } else if v > hi {
        hi
    } else {
        v
    }
}

fn hex_field(s: &String, slot: &mut String)
    ensures
        hex_into(s@, *old(slot), *final(slot)),
{
    let n = normalize_hex(s.as_str(), slot.as_str());
    *slot = n;
}

fn edit_screen(sc: &mut Screen, i: usize, s: &String)
    ensures
        screen_after(*old(sc), *final(sc), i as int, s@),
{
    sc.link = false;
    if i == 1 {
        hex_field(s, &mut sc.mature);
    } else if i == 2 {
        hex_field(s, &mut sc.newborn);
    } else if i == 3 {
        hex_field(s, &mut sc.accent);
    } else if i == 4 {
        hex_field(s, &mut sc.urgent);
    } else {
        hex_field(s, &mut sc.text);
    }
}

fn edit_palette(p: &mut Palette, i: usize, s: &String)
    ensures
        palette_after(*old(p), *final(p), i as int, s@),
{
    if i == 0 {
        hex_field(s, &mut p.bg);
    } else if i == 1 {
        hex_field(s, &mut p.surface);
    } else if i == 2 {
        hex_field(s, &mut p.border);
    } else if i == 3 {
        hex_field(s, &mut p.text);
    } else if i == 4 {
        hex_field(s, &mut p.accent);
    } else if i == 5 {
        hex_field(s, &mut p.warn);
    } else {
        hex_field(s, &mut p.urgent);
    }
}

impl ThemeText {
    /// Commit typed text to field `field` of category `cat`: colours are
    /// normalised (a bad one keeps the old value), numbers parsed and
    /// clamped (a bad one keeps the old value), text taken as trimmed.
    /// Editing a lock or login screen colour unlinks that screen from the
    /// palette; editing the palette or the wallpaper tints makes the preset
    /// `custom`.
    pub fn set_text(&mut self, cat: usize, field: usize, text: &str) -> (r: Committed)
        ensures
            r == outcome_spec(cat as int, field as int),
            edit_spec(*old(self), *final(self), cat as int, field as int, trim(text@)),
            touches_palette(cat as int, field as int) ==> final(self).meta.active_preset@ == "custom"@
                && final(self).meta.schema_version == old(self).meta.schema_version,
            !touches_palette(cat as int, field as int) ==> final(self).meta == old(self).meta,
    {
        let tv = trim_chars(&chars_of(text));
        let s = string_of(&tv);
        let mut touched = false;
        let r = if cat == 1 {
            edit_palette(&mut self.palette, field, &s);
            touched = true;
            Committed::Applied
        } else if cat == 2 && field == 5 {
            if tv.len() > 0 {
                self.wall_char = s;
            }
            Committed::Applied
        } else if cat == 2 && field == 6 {
            hex_field(&s, &mut self.wall_mature);
            touched = true;
            Committed::Applied
        } else if cat == 2 && field == 7 {
            hex_field(&s, &mut self.wall_newborn);
            touched = true;
            Committed::Applied
        } else if cat == 2 && field == 1 {
            self.wall_fps = num_field(&tv, self.wall_fps, 1, 240);
            Committed::Applied
        } else if cat == 2 && (field == 0 || field == 2 || field == 3 || field == 8) {
            Committed::Fractional
        } else if cat == 3 && field == 2 {
            Committed::Fractional
        } else if cat == 4 {
            edit_screen(&mut self.lifelock, field, &s);
            Committed::Applied
        } else if cat == 5 {
            edit_screen(&mut self.lifegreet, field, &s);
            Committed::Applied
        } else if cat == 6 && field == 0 {
            self.idle.lock_minutes = num_field(&tv, self.idle.lock_minutes, 1, u32::MAX);
            Committed::Applied
        } else if cat == 6 && field == 1 {
            self.idle.screen_off_minutes = num_field(&tv, self.idle.screen_off_minutes, 1, u32::MAX);
            Committed::Applied
        } else if cat == 7 && field == 0 {
            Committed::Fractional
        } else if cat == 8 && field == 0 {
            self.cursor.theme = s;
            Committed::Applied
        } else if cat == 8 && field == 1 {
            self.cursor.size = num_field(&tv, self.cursor.size, 8, 128);
            Committed::Applied
        } else if cat == 9 && field == 0 {
            self.font.family = s;
            Committed::Applied
        } else if cat == 9 && field == 1 {
            self.font.size = num_field(&tv, self.font.size, 6, 48);
            Committed::Applied
        } else {
            Committed::Ignored
        };
        if touched {
            self.meta.active_preset = String::from_str("custom");
        }
        r
    }
}

/// What stepping a field with the arrow keys did.
#[derive(Debug, PartialEq, Eq)]
pub enum Nudged {
    /// The field was stepped, cycled or toggled.
    Applied,
    /// The field is the preset: apply the preset at this index of `NAMES`.
    Preset(usize),
    /// The field holds a fractional value, stepped by the caller.
    Fractional,
    /// Colours and free text are not stepped.
    Ignored,
}

/// The first position of `v` among `opts`.
pub open spec fn first_index(opts: Seq<Seq<char>>, v: Seq<char>) -> Option<int>
    decreases opts.len(),
{
    if opts.len() == 0 {
        None
    } else {
        match first_index(opts.drop_last(), v) {
            Some(k) => Some(k),
            None => if opts.last() == v {
                Some(opts.len() - 1)
            } else {
                None
            },
        }
    }
}

proof fn lemma_first_index(opts: Seq<Seq<char>>, v: Seq<char>)
    ensures
        match first_index(opts, v) {
            Some(k) => 0 <= k < opts.len() && opts[k] == v && forall|j: int| 0 <= j < k ==> opts[j] != v,
            None => forall|j: int| 0 <= j < opts.len() ==> opts[j] != v,
        },
    decreases opts.len(),
{
    if opts.len() > 0 {
        lemma_first_index(opts.drop_last(), v);
        assert forall|j: int| 0 <= j < opts.len() - 1 implies opts[j] == opts.drop_last()[j] by {}
    }
}

/// The option `dir` steps from `v` in the ring `opts` (from the first
/// option when `v` is none of them).
pub open spec fn cycled(opts: Seq<Seq<char>>, v: Seq<char>, dir: int) -> Seq<char> {
    let i = match first_index(opts, v) {
        Some(k) => k,
        None => 0,
    };
    opts[(i + dir) % (opts.len() as int)]
}

/// The preset `dir` steps from `active` (the first preset when `active`
/// is none of them, e.g. `custom`).
pub open spec fn preset_step(active: Seq<char>, dir: int) -> int {
    match first_index(str_views(NAMES@), active) {
        Some(i) => (i + dir) % (NAMES@.len() as int),
        None => 0,
    }
}

/// An integer field stepped by `delta` and clamped to `lo..=hi`; a step
/// leaving the `u32` range keeps the current value (clamped).
pub open spec fn stepped(cur: u32, delta: int, lo: u32, hi: u32) -> u32 {
    let v: int = if 0 <= cur + delta <= u32::MAX {
        cur + delta
    } else {
        cur as int
    };
    (if v < lo {
        lo as int
    } else if v > hi {
        hi as int
    } else {
        v
    }) as u32
}

/// Which fields step how, and what a step does to the theme.
pub open spec fn nudge_spec(a: ThemeText, b: ThemeText, cat: int, field: int, dir: int, r: Nudged) -> bool {
    if cat == 0 {
        r == Nudged::Preset(preset_step(a.meta.active_preset@, dir) as usize) && b == a
    } else if cat == 2 && field == 1 {
        r == Nudged::Applied && b == ThemeText { wall_fps: stepped(a.wall_fps, dir * 5, 1, 240), ..a }
    } else if cat == 2 && field == 4 {
        r == Nudged::Applied && b.wall_glyph_mode@ == cycled(str_views(GLYPH_MODES@), a.wall_glyph_mode@, dir)
            && b == ThemeText { wall_glyph_mode: b.wall_glyph_mode, ..a }
    } else if (cat == 2 && (field == 0 || field == 2 || field == 3 || field == 8)) || (cat == 3 && field == 2) || cat
        == 7 {
        r == Nudged::Fractional && b == a
    } else if cat == 3 && field == 0 {
        r == Nudged::Applied && b.note_border_style@ == cycled(str_views(STYLES@), a.note_border_style@, dir)
            && b == ThemeText { note_border_style: b.note_border_style, ..a }
    } else if cat == 3 && field == 1 {
        r == Nudged::Applied && b.note_critical_border_style@ == cycled(
            str_views(STYLES@),
            a.note_critical_border_style@,
            dir,
        ) && b == ThemeText { note_critical_border_style: b.note_critical_border_style, ..a }
    } else if cat == 3 && field == 3 {
        r == Nudged::Applied && b.note_position@ == cycled(str_views(ANCHORS@), a.note_position@, dir)
            && b == ThemeText { note_position: b.note_position, ..a }
    } else if cat == 4 && field == 0 {
        r == Nudged::Applied && b == ThemeText { lifelock: Screen { link: !a.lifelock.link, ..a.lifelock }, ..a }
    } else if cat == 5 && field == 0 {
        r == Nudged::Applied && b == ThemeText { lifegreet: Screen { link: !a.lifegreet.link, ..a.lifegreet }, ..a }
    } else if cat == 6 && field == 0 {
        r == Nudged::Applied && b == ThemeText {
            idle: Idle { lock_minutes: stepped(a.idle.lock_minutes, dir, 1, u32::MAX), ..a.idle },
            ..a
        }
    } else if cat == 6 && field == 1 {
        r == Nudged::Applied && b == ThemeText {
            idle: Idle { screen_off_minutes: stepped(a.idle.screen_off_minutes, dir, 1, u32::MAX), ..a.idle },
            ..a
        }
    } else if cat == 8 && field == 1 {
        r == Nudged::Applied && b == ThemeText { cursor: Cursor { size: stepped(a.cursor.size, dir * 2, 8, 128), ..a.cursor }, ..a }
    } else if cat == 9 && field == 1 {
        r == Nudged::Applied && b == ThemeText { font: Font { size: stepped(a.font.size, dir, 6, 48), ..a.font }, ..a }
    } else if (cat == 3 && field > 3) || (cat == 6 && field > 1) || ((cat == 8 || cat == 9) && field > 1) {
        r == Nudged::Applied && b == a
    } else {
        r == Nudged::Ignored && b == a
    }
}

/// The first position of `v` among `opts`.
fn find_str(opts: &[&'static str], v: &String) -> (r: Option<usize>)
    ensures
        match r {
            Some(k) => first_index(str_views(opts@), v@) == Some(k as int),
            None => first_index(str_views(opts@), v@) is None,
        },
{
    let ghost sv = str_views(opts@);
    proof {
        lemma_first_index(sv, v@);
    }
    let vc = chars_of(v.as_str());
    let n = opts.len();
    let mut i: usize = 0;
    while i < n
        invariant
            n == opts@.len(),
            sv == str_views(opts@),
            vc@ == v@,
            i <= n,
            forall|j: int| 0 <= j < i ==> sv[j] != v@,
            match first_index(sv, v@) {
                Some(k) => 0 <= k < sv.len() && sv[k] == v@ && forall|j: int| 0 <= j < k ==> sv[j] != v@,
                None => forall|j: int| 0 <= j < sv.len() ==> sv[j] != v@,
            },
        decreases n - i,
    {
        let oc = chars_of(opts[i]);
        assert(sv[i as int] == opts@[i as int]@);
        if eq_lit(&vc, oc.as_slice()) {
            return Some(i);
        }
        i = i + 1;
    }
    None
}

/// The option `dir` steps from `v` in the ring `opts`.
fn cycle_option(opts: &[&'static str], v: &String, dir: i32) -> (r: String)
    requires
        0 < opts@.len() <= u32::MAX,
    ensures
        r@ == cycled(str_views(opts@), v@, dir as int),
{
    proof {
        lemma_first_index(str_views(opts@), v@);
    }
    let i = match find_str(opts, v) {
        Some(k) => k,
        None => 0,
    };
    let j = step_index(i, dir, opts.len());
    String::from_str(opts[j])
}

/// `cur` stepped by `dir` times `step` and clamped to `lo..=hi`.
fn step_u32(cur: u32, dir: i32, step: u32, lo: u32, hi: u32) -> (r: u32)
    requires
        step <= 5,
        lo <= hi,
    ensures
        r == stepped(cur, dir * step, lo, hi),
{
    let d: i64 = dir as i64;
    let st: i64 = step as i64;
    assert(-0x1_0000_0000_0000 < d * st < 0x1_0000_0000_0000) by (nonlinear_arith)
        requires
            -0x8000_0000 <= d < 0x8000_0000,
            0 <= st <= 5,
    ;
    let v: i64 = cur as i64 + d * st;
    let w: u32 = if 0 <= v && v <= u32::MAX as i64 {
        v as u32
    } else {
        cur
    };
    if w < lo {
        lo
    } else if w > hi {
        hi
    } else {
        w
    }
}

impl ThemeText {
    /// Step field `field` of category `cat` by `dir` (+1 / -1): presets
    /// and value lists cycle, links toggle, whole numbers step and clamp.
    pub fn nudge(&mut self, cat: usize, field: usize, dir: i32) -> (r: Nudged)
        requires
            cat < N_CATS,
        ensures
            nudge_spec(*old(self), *final(self), cat as int, field as int, dir as int, r),
    {
        if cat == 0 {
            let ghost sv = str_views(NAMES@);
            proof {
                lemma_first_index(sv, self.meta.active_preset@);
            }
            let next = match find_str(&NAMES, &self.meta.active_preset) {
                Some(i) => step_index(i, dir, NAMES.len()),
                None => 0,
            };
            Nudged::Preset(next)
        } else if cat == 2 && field == 1 {
            self.wall_fps = step_u32(self.wall_fps, dir, 5, 1, 240);
            Nudged::Applied
        } else if cat == 2 && field == 4 {
            self.wall_glyph_mode = cycle_option(&GLYPH_MODES, &self.wall_glyph_mode, dir);
            Nudged::Applied
        } else if (cat == 2 && (field == 0 || field == 2 || field == 3 || field == 8)) || (cat == 3 && field == 2) || cat
            == 7 {
            Nudged::Fractional
        } else if cat == 3 && field == 0 {
            self.note_border_style = cycle_option(&STYLES, &self.note_border_style, dir);
            Nudged::Applied
        } else if cat == 3 && field == 1 {
            self.note_critical_border_style = cycle_option(&STYLES, &self.note_critical_border_style, dir);
            Nudged::Applied
        } else if cat == 3 && field == 3 {
            self.note_position = cycle_option(&ANCHORS, &self.note_position, dir);
            Nudged::Applied
        } else if cat == 4 && field == 0 {
            self.lifelock.link = !self.lifelock.link;
            Nudged::Applied
        } else if cat == 5 && field == 0 {
            self.lifegreet.link = !self.lifegreet.link;
            Nudged::Applied
        } else if cat == 6 && field == 0 {
            self.idle.lock_minutes = step_u32(self.idle.lock_minutes, dir, 1, 1, u32::MAX);
            Nudged::Applied
        } else if cat == 6 && field == 1 {
            self.idle.screen_off_minutes = step_u32(self.idle.screen_off_minutes, dir, 1, 1, u32::MAX);
            Nudged::Applied
        } else if cat == 8 && field == 1 {
            self.cursor.size = step_u32(self.cursor.size, dir, 2, 8, 128);
            Nudged::Applied
        } else if cat == 9 && field == 1 {
            self.font.size = step_u32(self.font.size, dir, 1, 6, 48);
            Nudged::Applied
        } else if (cat == 3 && field > 3) || (cat == 6 && field > 1) || ((cat == 8 || cat == 9) && field > 1) {
            Nudged::Applied
        } else {
            Nudged::Ignored
        }
    }

    /// Linked lock and login screens mirror the palette and wallpaper
    /// tints; unlinked ones keep their own colours.
    pub fn sync_linked(&mut self)
        ensures
            final(self).lifelock.link == old(self).lifelock.link,
            final(self).lifegreet.link == old(self).lifegreet.link,
            old(self).lifelock.link ==> follows(
                final(self).lifelock,
                old(self).palette,
                old(self).wall_mature@,
                old(self).wall_newborn@,
            ),
            !old(self).lifelock.link ==> final(self).lifelock == old(self).lifelock,
            old(self).lifegreet.link ==> follows(
                final(self).lifegreet,
                old(self).palette,
                old(self).wall_mature@,
                old(self).wall_newborn@,
            ),
            !old(self).lifegreet.link ==> final(self).lifegreet == old(self).lifegreet,
            *final(self) == (ThemeText { lifelock: final(self).lifelock, lifegreet: final(self).lifegreet, ..*old(self) }),
    {
        self.lifelock.follow(&self.palette, &self.wall_mature, &self.wall_newborn);
        self.lifegreet.follow(&self.palette, &self.wall_mature, &self.wall_newborn);
    }

    /// Take a preset's palette and wallpaper tints under its name; linked
    /// screens follow.
    pub fn apply_preset(&mut self, name: &str, palette: Palette, mature: String, newborn: String)
        ensures
            final(self).palette == palette,
            final(self).wall_mature == mature,
            final(self).wall_newborn == newborn,
            final(self).meta.active_preset@ == name@,
            final(self).meta.schema_version == old(self).meta.schema_version,
            final(self).lifelock.link == old(self).lifelock.link,
            final(self).lifegreet.link == old(self).lifegreet.link,
            old(self).lifelock.link ==> follows(final(self).lifelock, palette, mature@, newborn@),
            !old(self).lifelock.link ==> final(self).lifelock == old(self).lifelock,
            old(self).lifegreet.link ==> follows(final(self).lifegreet, palette, mature@, newborn@),
            !old(self).lifegreet.link ==> final(self).lifegreet == old(self).lifegreet,
            *final(self) == (ThemeText {
                meta: final(self).meta,
                palette: final(self).palette,
                wall_mature: final(self).wall_mature,
                wall_newborn: final(self).wall_newborn,
                lifelock: final(self).lifelock,
                lifegreet: final(self).lifegreet,
                ..*old(self)
            }),
    {
        self.palette = palette;
        self.wall_mature = mature;
        self.wall_newborn = newborn;
        self.meta.active_preset = String::from_str(name);
        self.sync_linked();
    }
}

/// A field's value as the editor shows it.
#[derive(Debug, PartialEq, Eq)]
pub enum Shown {
    Text(String),
    /// A fractional value, formatted by the caller.
    Fraction,
}

/// `n` in decimal.
pub open spec fn dec(n: u32) -> Seq<char> {
    decimal(n as nat)
}

/// The text shown for field `field` of category `cat` (None for the
/// fractional fields, empty for a field past the category's last).
pub open spec fn value_spec(t: ThemeText, cat: int, field: int) -> Option<Seq<char>> {
    if is_fractional(cat, field) {
        None
    } else {
        Some(
            if cat == 0 {
                t.meta.active_preset@
            } else if cat == 1 {
                if field == 0 {
                    t.palette.bg@
                } else if field == 1 {
                    t.palette.surface@
                } else if field == 2 {
                    t.palette.border@
                } else if field == 3 {
                    t.palette.text@
                } else if field == 4 {
                    t.palette.accent@
                } else if field == 5 {
                    t.palette.warn@
                } else if field == 6 {
                    t.palette.urgent@
                } else {
                    Seq::empty()
                }
            } else if cat == 2 {
                if field == 1 {
                    dec(t.wall_fps)
                } else if field == 4 {
                    t.wall_glyph_mode@
                } else if field == 5 {
                    t.wall_char@
                } else if field == 6 {
                    t.wall_mature@
                } else if field == 7 {
                    t.wall_newborn@
                } else {
                    Seq::empty()
                }
            } else if cat == 3 {
                if field == 0 {
                    t.note_border_style@
                } else if field == 1 {
                    t.note_critical_border_style@
                } else if field == 3 {
                    t.note_position@
                } else {
                    Seq::empty()
                }
            } else if cat == 4 || cat == 5 {
                let sc = if cat == 4 {
                    t.lifelock
                } else {
                    t.lifegreet
                };
                if field == 0 {
                    if sc.link {
                        "true"@
                    } else {
                        "false"@
                    }
                } else if field == 1 {
                    sc.mature@
                } else if field == 2 {
                    sc.newborn@
                } else if field == 3 {
                    sc.accent@
                } else if field == 4 {
                    sc.urgent@
                } else if field == 5 {
                    sc.text@
                } else {
                    Seq::empty()
                }
            } else if cat == 6 {
                if field == 0 {
                    dec(t.idle.lock_minutes)
                } else if field == 1 {
                    dec(t.idle.screen_off_minutes)
                } else {
                    Seq::empty()
                }
            } else if cat == 8 {
                if field == 0 {
                    t.cursor.theme@
                } else if field == 1 {
                    dec(t.cursor.size)
                } else {
                    Seq::empty()
                }
            } else if cat == 9 {
                if field == 0 {
                    t.font.family@
                } else if field == 1 {
                    dec(t.font.size)
                } else {
                    Seq::empty()
                }
            } else {
                Seq::empty()
            },
        )
    }
}

fn dec_string(n: u32) -> (s: String)
    ensures
        s@ == dec(n),
{
    let mut v: Vec<char> = Vec::new();
    push_decimal(&mut v, n as u64);
    assert(v@ =~= dec(n));
    string_of(&v)
}

fn screen_value(sc: &Screen, field: usize) -> (s: String)
    ensures
        s@ == (if field == 0 {
            if sc.link {
                "true"@
            } else {
                "false"@
            }
        } else if field == 1 {
            sc.mature@
        } else if field == 2 {
            sc.newborn@
        } else if field == 3 {
            sc.accent@
        } else if field == 4 {
            sc.urgent@
        } else if field == 5 {
            sc.text@
        } else {
            Seq::empty()
        }),
{
    if field == 0 {
        if sc.link {
            String::from_str("true")
        } else {
            String::from_str("false")
        }
    } else if field == 1 {
        sc.mature.clone()
    } else if field == 2 {
        sc.newborn.clone()
    } else if field == 3 {
        sc.accent.clone()
    } else if field == 4 {
        sc.urgent.clone()
    } else if field == 5 {
        sc.text.clone()
    } else {
        String::new()
    }
}

impl ThemeText {
    /// The text shown for field `field` of category `cat`: colours and
    /// names as stored, whole numbers in decimal, links as true/false;
    /// fractional fields are formatted by the caller.
    pub fn value(&self, cat: usize, field: usize) -> (r: Shown)
        ensures
            match value_spec(*self, cat as int, field as int) {
                None => r == Shown::Fraction,
                Some(v) => r matches Shown::Text(s) && s@ == v,
            },
    {
        if (cat == 2 && (field == 0 || field == 2 || field == 3 || field == 8)) || (cat == 3 && field == 2) || (cat == 7
            && field == 0) {
            return Shown::Fraction;
        }
        let s = if cat == 0 {
            self.meta.active_preset.clone()
        } else if cat == 1 {
            if field == 0 {
                self.palette.bg.clone()
            } else if field == 1 {
                self.palette.surface.clone()
            } else if field == 2 {
                self.palette.border.clone()
            } else if field == 3 {
                self.palette.text.clone()
            } else if field == 4 {
                self.palette.accent.clone()
            } else if field == 5 {
                self.palette.warn.clone()
            } else if field == 6 {
                self.palette.urgent.clone()
            } else {
                String::new()
            }
        } else if cat == 2 {
            if field == 1 {
                dec_string(self.wall_fps)
            } else if field == 4 {
                self.wall_glyph_mode.clone()
            } else if field == 5 {
                self.wall_char.clone()
            } else if field == 6 {
                self.wall_mature.clone()
            } else if field == 7 {
                self.wall_newborn.clone()
            } else {
                String::new()
            }
        } else if cat == 3 {
            if field == 0 {
                self.note_border_style.clone()
            } else if field == 1 {
                self.note_critical_border_style.clone()
            } else if field == 3 {
                self.note_position.clone()
            } else {
                String::new()
            }
        } else if cat == 4 {
            screen_value(&self.lifelock, field)
        } else if cat == 5 {
            screen_value(&self.lifegreet, field)
        } else if cat == 6 {
            if field == 0 {
                dec_string(self.idle.lock_minutes)
            } else if field == 1 {
                dec_string(self.idle.screen_off_minutes)
            } else {
                String::new()
            }
        } else if cat == 8 {
            if field == 0 {
                self.cursor.theme.clone()
            } else if field == 1 {
                dec_string(self.cursor.size)
            } else {
                String::new()
            }
        } else if cat == 9 {
            if field == 0 {
                self.font.family.clone()
            } else if field == 1 {
                dec_string(self.font.size)
            } else {
                String::new()
            }
        } else {
            String::new()
        };
        Shown::Text(s)
    }
}

} // verus!
