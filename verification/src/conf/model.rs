//! The editing model's plain parts shared by the terminal and graphical
//! front-ends: the categories and their field labels, the value lists, the
//! category/field cursor, and hex normalisation of typed colours.
use vstd::prelude::*;
use crate::chars::{ascii_lowercase, chars_of, lower_all, string_of, trim, trim_chars};
use crate::lock::colour::{leading_hashes, skip_hashes};

verus! {

pub const CATS: [&'static str; 10] = [
    "Presets",
    "Palette",
    "Lifewall",
    "Lifenote",
    "Lifelock",
    "Lifegreet",
    "Idle",
    "Animations",
    "Cursor",
    "Font",
];

/// Number of categories.
pub const N_CATS: usize = 10;

pub const STYLES: [&'static str; 5] = ["single", "rounded", "heavy", "double", "ascii"];

pub const ANCHORS: [&'static str; 4] = ["top-right", "top-left", "bottom-right", "bottom-left"];

/// `ascii` draws random printable ASCII per cell, `kana` random half-width
/// katakana; `custom` uses the configured characters.
pub const GLYPH_MODES: [&'static str; 3] = ["ascii", "custom", "kana"];

/// Which pane the cursor moves in.
#[derive(Clone, Copy, Debug, PartialEq, Eq, Structural)]
pub enum Focus {
    Cats,
    Fields,
}

/// The labels of each category's fields, in order.
pub open spec fn labels_spec(cat: int) -> Seq<Seq<char>> {
    if cat == 0 {
        seq!["preset"@]
    } else if cat == 1 {
        seq!["bg"@, "surface"@, "border"@, "text"@, "accent"@, "warn"@, "urgent"@]
    } else if cat == 2 {
        seq![
            "tick"@,
            "fps"@,
            "fade"@,
            "density"@,
            "glyph_mode"@,
            "char"@,
            "mature"@,
            "newborn"@,
            "glider_interval"@,
        ]
    } else if cat == 3 {
        seq!["border_style"@, "critical_border_style"@, "opacity"@, "position"@]
    } else if cat == 4 || cat == 5 {
        seq!["link"@, "mature"@, "newborn"@, "accent"@, "urgent"@, "text"@]
    } else if cat == 6 {
        seq!["lock_minutes"@, "screen_off_minutes"@]
    } else if cat == 7 {
        seq!["slowdown"@]
    } else if cat == 8 {
        seq!["theme"@, "size"@]
    } else {
        seq!["family"@, "size"@]
    }
}

pub open spec fn str_views(v: Seq<&str>) -> Seq<Seq<char>> {
    v.map_values(|s: &str| s@)
}

/// Field labels of category `cat` (the order indexes the fields).
pub fn field_labels(cat: usize) -> (r: Vec<&'static str>)
    requires
        cat < N_CATS,
    ensures
        str_views(r@) == labels_spec(cat as int),
{
    let r: Vec<&'static str> = if cat == 0 {
        vec!["preset"]
    } else if cat == 1 {
        vec!["bg", "surface", "border", "text", "accent", "warn", "urgent"]
    } else if cat == 2 {
        vec!["tick", "fps", "fade", "density", "glyph_mode", "char", "mature", "newborn", "glider_interval"]
    } else if cat == 3 {
        vec!["border_style", "critical_border_style", "opacity", "position"]
    } else if cat == 4 || cat == 5 {
        vec!["link", "mature", "newborn", "accent", "urgent", "text"]
    } else if cat == 6 {
        vec!["lock_minutes", "screen_off_minutes"]
    } else if cat == 7 {
        vec!["slowdown"]
    } else if cat == 8 {
        vec!["theme", "size"]
    } else {
        vec!["family", "size"]
    };
    assert(str_views(r@) =~= labels_spec(cat as int));
    r
}

pub open spec fn is_hex_digit(c: char) -> bool {
    ('0' <= c && c <= '9') || ('a' <= c && c <= 'f') || ('A' <= c && c <= 'F')
}

/// `s` trimmed and without its leading `#`s.
pub open spec fn hex_body(s: Seq<char>) -> Seq<char> {
    let t = trim(s);
    t.skip(leading_hashes(t) as int)
}

/// A typed colour: six hex digits (after trimming and dropping leading
/// `#`s) become `#rrggbb` in lower case; anything else keeps `old`.
pub open spec fn normalize_spec(s: Seq<char>, old: Seq<char>) -> Seq<char> {
    let b = hex_body(s);
    if b.len() == 6 && forall|k: int| 0 <= k < 6 ==> is_hex_digit(#[trigger] b[k]) {
        seq!['#'] + lower_all(b)
    } else {
        old
    }
}

/// Accept `#rrggbb`, `rrggbb` or a partial; keep the old value if it does
/// not parse.
pub fn normalize_hex(s: &str, old: &str) -> (r: String)
    ensures
        r@ == normalize_spec(s@, old@),
{
    let b = skip_hashes(&trim_chars(&chars_of(s)));
    if b.len() != 6 {
        return String::from_str(old);
    }
    for k in 0..6
        invariant
            b@ == hex_body(s@),
            b@.len() == 6,
            forall|j: int| 0 <= j < k ==> is_hex_digit(#[trigger] b@[j]),
    {
        let c = b[k];
        if !(('0' <= c && c <= '9') || ('a' <= c && c <= 'f') || ('A' <= c && c <= 'F')) {
            assert(hex_body(s@) == b@);
            assert(!is_hex_digit(hex_body(s@)[k as int]));
            return String::from_str(old);
        }
    }
    let l = ascii_lowercase(&b);
    let mut v: Vec<char> = Vec::new();
    v.push('#');
    for i in 0..6
        invariant
            l@.len() == 6,
            v@ == seq!['#'] + l@.take(i as int),
    {
        v.push(l[i]);
        proof {
            assert(seq!['#'] + l@.take(i + 1) =~= (seq!['#'] + l@.take(i as int)).push(l@[i as int]));
        }
    }
    proof {
        assert(l@.take(6) =~= l@);
    }
    string_of(&v)
}

/// The cursor of the editor: a category, a field in it, and the pane that
/// moves.
#[derive(Clone, Copy, Debug, PartialEq, Eq, Structural)]
pub struct Selection {
    pub cat: usize,
    pub field: usize,
    pub focus: Focus,
}

pub open spec fn n_fields(cat: int) -> int {
    labels_spec(cat).len() as int
}

impl Selection {
    pub open spec fn wf(self) -> bool {
        self.cat < N_CATS && self.field < n_fields(self.cat as int)
    }

    /// The first field of the first category, categories focused.
    pub fn new() -> (s: Selection)
        ensures
            s.wf(),
            s.cat == 0 && s.field == 0 && s.focus == Focus::Cats,
    {
        Selection { cat: 0, field: 0, focus: Focus::Cats }
    }

    /// Fields in the current category.
    pub fn n_fields(&self) -> (n: usize)
        requires
            self.wf(),
        ensures
            n == n_fields(self.cat as int),
    {
        field_labels(self.cat).len()
    }

    /// Down: the next category (from its first field), or the next field,
    /// wrapping around.
    pub fn move_down(&mut self)
        requires
            old(self).wf(),
        ensures
            final(self).wf(),
            final(self).focus == old(self).focus,
            old(self).focus == Focus::Cats ==> final(self).cat == (old(self).cat + 1) % (N_CATS as int)
                && final(self).field == 0,
            old(self).focus == Focus::Fields ==> final(self).cat == old(self).cat && final(self).field
                == (old(self).field + 1) % n_fields(old(self).cat as int),
    {
        match self.focus {
            Focus::Cats => {
                self.cat = (self.cat + 1) % N_CATS;
                self.field = 0;
            },
            Focus::Fields => {
                let n = self.n_fields();
                self.field = (self.field + 1) % n;
            },
        }
    }

    /// Up: the previous category (from its first field), or the previous
    /// field, wrapping around.
    pub fn move_up(&mut self)
        requires
            old(self).wf(),
        ensures
            final(self).wf(),
            final(self).focus == old(self).focus,
            old(self).focus == Focus::Cats ==> final(self).cat == (old(self).cat + N_CATS - 1) % (
            N_CATS as int) && final(self).field == 0,
            old(self).focus == Focus::Fields ==> final(self).cat == old(self).cat && final(self).field
                == (old(self).field + n_fields(old(self).cat as int) - 1) % n_fields(old(self).cat as int),
    {
        match self.focus {
            Focus::Cats => {
                self.cat = (self.cat + N_CATS - 1) % N_CATS;
                self.field = 0;
            },
            Focus::Fields => {
                let n = self.n_fields();
                self.field = (self.field + n - 1) % n;
            },
        }
    }

    pub fn toggle_focus(&mut self)
        requires
            old(self).wf(),
        ensures
            final(self).wf(),
            final(self).cat == old(self).cat,
            final(self).field == old(self).field,
            final(self).focus == (if old(self).focus == Focus::Cats {
                Focus::Fields
            } else {
                Focus::Cats
            }),
    {
        self.focus = if self.focus == Focus::Cats {
            Focus::Fields
        } else {
            Focus::Cats
        };
    }
}

/// Every category has at least one field, so the field cursor always has
/// somewhere to go.
pub proof fn every_category_has_fields(cat: int)
    requires
        0 <= cat < N_CATS,
    ensures
        n_fields(cat) >= 1,
{
}

/// Step `dir` places from position `i` in a ring of `n` values, wrapping
/// both ways (`(i + dir).rem_euclid(n)`).
pub fn step_index(i: usize, dir: i32, n: usize) -> (r: usize)
    requires
        0 < n <= u32::MAX,
        i < n,
    ensures
        r == (i as int + dir as int) % (n as int),
        r < n,
{
    let nn = n as u64;
    if dir >= 0 {
        ((i as u64 + dir as u64) % nn) as usize
    } else {
        let d: i64 = dir as i64;
        let back: u64 = ((-d) as u64) % nn;
        let r = ((i as u64 + nn - back) % nn) as usize;
        proof {
            let m = n as int;
            let x = -(dir as int);
            vstd::arithmetic::div_mod::lemma_fundamental_div_mod(x, m);
            let q = x / m;
            assert(i as int + dir as int == m * (-q - 1) + (i as int + m - back as int)) by (nonlinear_arith)
                requires
                    x == m * q + back as int,
                    x == -(dir as int),
            ;
            vstd::arithmetic::div_mod::lemma_mod_multiples_vanish(-q - 1, i as int + m - back as int, m);
        }
        r
    }
}

} // verus!
