//! The theme's plain sections (palette, lock/login screen colours, idle
//! timeouts, cursor, font) and the hex helpers every generator uses. The
//! sections holding fractional settings (wallpaper timing, popup opacity,
//! animation speed) are kept by the tool itself.
use vstd::prelude::*;
use crate::chars::{ascii_lowercase, chars_of, is_ws, lower, lower_all, string_of, trim, trim_chars, trim_end, trim_start};
use crate::lock::colour::{leading_hashes, skip_hashes};
use crate::num::{all_digits, digit, digit_value, digits_value};

verus! {

/// A Game-of-Life screen's five colours (lock screen, greeter). When
/// `link` is set they mirror the palette and the wallpaper tints.
#[derive(Clone, Debug, PartialEq, Eq)]
pub struct Screen {
    pub link: bool,
    pub mature: String,
    pub newborn: String,
    pub accent: String,
    pub urgent: String,
    pub text: String,
}

impl Default for Screen {
    fn default() -> (s: Screen)
        ensures
            s.link,
            s.mature@ == "#66744c"@,
            s.newborn@ == "#87a540"@,
            s.accent@ == "#a4c94b"@,
            s.urgent@ == "#8a3b2e"@,
            s.text@ == "#7b8c5a"@,
    {
        Screen {
            link: true,
            mature: String::from_str("#66744c"),
            newborn: String::from_str("#87a540"),
            accent: String::from_str("#a4c94b"),
            urgent: String::from_str("#8a3b2e"),
            text: String::from_str("#7b8c5a"),
        }
    }
}

#[derive(Clone, Debug, PartialEq, Eq)]
pub struct Meta {
    pub schema_version: u32,
    /// A preset's name, or `custom` for a hand-tuned palette.
    pub active_preset: String,
}

/// The seven role colours, each `#rrggbb`.
#[derive(Clone, Debug, PartialEq, Eq)]
pub struct Palette {
    pub bg: String,
    pub surface: String,
    pub border: String,
    pub text: String,
    pub accent: String,
    pub warn: String,
    pub urgent: String,
}

#[derive(Clone, Copy, Debug, PartialEq, Eq)]
pub struct Idle {
    pub lock_minutes: u32,
    pub screen_off_minutes: u32,
}

#[derive(Clone, Debug, PartialEq, Eq)]
pub struct Cursor {
    pub theme: String,
    pub size: u32,
}

#[derive(Clone, Debug, PartialEq, Eq)]
pub struct Font {
    pub family: String,
    pub size: u32,
}

/// What a linked screen shows: the palette's accent, urgent and text with
/// the wallpaper's mature and newborn tints.
pub open spec fn follows(s: Screen, p: Palette, mature: Seq<char>, newborn: Seq<char>) -> bool {
    &&& s.mature@ == mature
    &&& s.newborn@ == newborn
    &&& s.accent@ == p.accent@
    &&& s.urgent@ == p.urgent@
    &&& s.text@ == p.text@
}

impl Screen {
    /// Mirror the palette and wallpaper tints when linked; an unlinked
    /// screen keeps the user's own colours.
    pub fn follow(&mut self, p: &Palette, mature: &String, newborn: &String)
        ensures
            final(self).link == old(self).link,
            old(self).link ==> follows(*final(self), *p, mature@, newborn@),
            !old(self).link ==> *final(self) == *old(self),
    {
        if self.link {
            self.mature = mature.clone();
            self.newborn = newborn.clone();
            self.accent = p.accent.clone();
            self.urgent = p.urgent.clone();
            self.text = p.text.clone();
        }
    }
}

/// `hex` trimmed, without its leading `#`s, lower-cased.
pub open spec fn bare_spec(hex: Seq<char>) -> Seq<char> {
    let t = trim(hex);
    lower_all(t.skip(leading_hashes(t) as int))
}

/// `#rrggbb` or `rrggbb` to `rrggbb`, lower case. A malformed value is
/// passed through the same way, so it shows rather than vanishes.
pub fn bare(hex: &str) -> (r: String)
    ensures
        r@ == bare_spec(hex@),
{
    string_of(&ascii_lowercase(&skip_hashes(&trim_chars(&chars_of(hex)))))
}

/// `rrggbb` or `#rrggbb` to `#rrggbb`.
pub fn hash(hex: &str) -> (r: String)
    ensures
        r@ == seq!['#'] + bare_spec(hex@),
{
    let mut v: Vec<char> = Vec::new();
    v.push('#');
    let b = ascii_lowercase(&skip_hashes(&trim_chars(&chars_of(hex))));
    for i in 0..b.len()
        invariant
            v@ == seq!['#'] + b@.take(i as int),
    {
        v.push(b[i]);
        proof {
            assert(seq!['#'] + b@.take(i + 1) =~= (seq!['#'] + b@.take(i as int)).push(b@[i as int]));
        }
    }
    proof {
        assert(b@.take(b@.len() as int) =~= b@);
    }
    string_of(&v)
}

/// Sixteen to the `k`.
pub open spec fn pow16(k: nat) -> nat
    decreases k,
{
    if k == 0 {
        1
    } else {
        pow16((k - 1) as nat) * 16
    }
}

proof fn lemma_pow16_mono(a: nat, b: nat)
    requires
        a <= b,
    ensures
        pow16(a) <= pow16(b),
    decreases b,
{
    if a < b {
        lemma_pow16_mono(a, (b - 1) as nat);
    }
}

/// The colour `hex` spells: six hex digits once trimmed and stripped of
/// leading `#`s (any case), read as `rrggbb`; None for anything else.
pub open spec fn colour_spec(hex: Seq<char>) -> Option<(u8, u8, u8)> {
    let b = bare_spec(hex);
    if b.len() == 6 && all_digits(b, 16) {
        let v = digits_value(b, 16);
        Some(((v / 65536) as u8, (v / 256 % 256) as u8, (v % 256) as u8))
    } else {
        None
    }
}

proof fn lemma_trim_end_last(s: Seq<char>)
    ensures
        trim_end(s).len() > 0 ==> !is_ws(trim_end(s).last()),
    decreases s.len(),
{
    if s.len() > 0 && is_ws(s.last()) {
        lemma_trim_end_last(s.drop_last());
    }
}

proof fn lemma_hashes_stop(s: Seq<char>)
    ensures
        leading_hashes(s) <= s.len(),
        leading_hashes(s) < s.len() ==> s[leading_hashes(s) as int] != '#',
    decreases s.len(),
{
    if s.len() > 0 && s[0] == '#' {
        lemma_hashes_stop(s.drop_first());
    }
}

proof fn lemma_lower(c: char)
    ensures
        lower(lower(c)) == lower(c),
        lower(c) == '#' <==> c == '#',
        is_ws(lower(c)) <==> is_ws(c),
{
    if 'A' <= c && c <= 'Z' {
        assert(((c as u32 + 32) as char) as u32 == c as u32 + 32);
    }
}

/// `hash` is idempotent: a value already in `#rrggbb` form (as `hash`
/// gives it) comes back unchanged.
pub proof fn hash_is_idempotent(hex: Seq<char>)
    ensures
        seq!['#'] + bare_spec(seq!['#'] + bare_spec(hex)) == seq!['#'] + bare_spec(hex),
{
    let t = trim(hex);
    let n = leading_hashes(t);
    lemma_hashes_stop(t);
    let u = t.skip(n as int);
    let b = lower_all(u);
    let x = seq!['#'] + b;
    assert(trim_start(x) == x);
    if b.len() > 0 {
        lemma_trim_end_last(trim_start(hex));
        assert(u.last() == t.last());
        lemma_lower(u.last());
        assert(x.last() == b.last());
        assert(!is_ws(x.last()));
    }
    assert(trim_end(x) == x);
    assert(trim(x) == x);
    if b.len() > 0 {
        lemma_lower(u[0]);
        assert(b[0] != '#');
    }
    assert(x.drop_first() =~= b);
    assert(leading_hashes(b) == 0);
    assert(leading_hashes(x) == 1 + leading_hashes(x.drop_first()));
    assert(leading_hashes(x) == 1);
    assert(x.skip(1) =~= b);
    assert forall|k: int| 0 <= k < b.len() implies lower(b[k]) == b[k] by {
        lemma_lower(u[k]);
    }
    assert(lower_all(b) =~= b);
}

/// A colour written `rrggbb` or `#rrggbb` (hex digits, any case) comes out
/// of `hash` as `#` and the six digits lower-cased.
pub proof fn hash_lowercases_colours(d: Seq<char>, with_hash: bool)
    requires
        d.len() == 6,
        all_digits(d, 16),
    ensures
        seq!['#'] + bare_spec(if with_hash {
            seq!['#'] + d
        } else {
            d
        }) == seq!['#'] + lower_all(d),
{
    let x = if with_hash {
        seq!['#'] + d
    } else {
        d
    };
    assert(digit_value(d[0], 16) is Some);
    assert(digit_value(d[5], 16) is Some);
    assert(x.last() == d[5]);
    assert(trim_start(x) == x);
    assert(trim_end(x) == x);
    if with_hash {
        assert(x.drop_first() =~= d);
        assert(d[0] != '#');
        assert(leading_hashes(d) == 0);
        assert(leading_hashes(x) == 1 + leading_hashes(x.drop_first()));
        assert(leading_hashes(x) == 1);
        assert(x.skip(1) =~= d);
    } else {
        assert(leading_hashes(x) == 0);
        assert(x.skip(0) =~= d);
    }
}

/// The colour `hex` spells; None if malformed.
pub fn rgb(hex: &str) -> (r: Option<(u8, u8, u8)>)
    ensures
        r == colour_spec(hex@),
{
    let b = ascii_lowercase(&skip_hashes(&trim_chars(&chars_of(hex))));
    if b.len() != 6 {
        return None;
    }
    let mut v: u32 = 0;
    assert(b@.take(0) =~= Seq::<char>::empty());
    for i in 0..6
        invariant
            b@ == bare_spec(hex@),
            b@.len() == 6,
            v == digits_value(b@.take(i as int), 16),
            v < pow16(i as nat),
            forall|k: int| 0 <= k < i ==> (#[trigger] digit_value(b@[k], 16)) is Some,
    {
        match digit(b[i], 16) {
            None => {
                assert(digit_value(b@[i as int], 16) is None);
                return None;
            },
            Some(d) => {
                proof {
                    lemma_pow16_mono((i + 1) as nat, 6);
                    reveal_with_fuel(pow16, 7);
                    assert(pow16(6) == 16777216);
                    assert(pow16((i + 1) as nat) == pow16(i as nat) * 16);
                    assert(v * 16 + d < pow16((i + 1) as nat)) by (nonlinear_arith)
                        requires
                            v < pow16(i as nat),
                            d < 16,
                            pow16((i + 1) as nat) == pow16(i as nat) * 16,
                    ;
                    assert(b@.take(i + 1).drop_last() =~= b@.take(i as int));
                }
                v = v * 16 + d;
            },
        }
    }
    proof {
        assert(b@.take(6) =~= b@);
        reveal_with_fuel(pow16, 7);
        assert(all_digits(b@, 16));
    }
    Some(((v / 65536) as u8, (v / 256 % 256) as u8, (v % 256) as u8))
}

} // verus!
