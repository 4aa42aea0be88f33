//! Command builders shared by the compositor config generator and the live
//! respawn paths: the wallpaper's glyph set and the idle daemon's argv.
use vstd::prelude::*;
use crate::chars::{chars_of, eq_lit, extend_chars, is_control, is_ctrl, string_of};
use crate::conf::theme::Idle;
use crate::num::{decimal, push_decimal};
use crate::note::text::char_from_u32;

verus! {

/// Half-width katakana, U+FF66 to U+FF9D: one terminal column each, so the
/// Game-of-Life cell grid stays aligned.
pub open spec fn kana_spec() -> Seq<char> {
    Seq::new(56, |i: int| ((0xFF66 + i) as u32) as char)
}

pub fn kana_charset() -> (s: String)
    ensures
        s@ == kana_spec(),
{
    let mut v: Vec<char> = Vec::new();
    let mut c: char = '\u{FF66}';
    let mut i: u32 = 0;
    while i < 56
        invariant
            i <= 56,
            i < 56 ==> (c as u32) == 0xFF66 + i,
            v@ == Seq::new(i as nat, |k: int| ((0xFF66 + k) as u32) as char),
        decreases 56 - i,
    {
        v.push(c);
        proof {
            assert(v@ =~= Seq::new((i + 1) as nat, |k: int| ((0xFF66 + k) as u32) as char));
        }
        i += 1;
        if i < 56 {
            c = next_kana(c);
        }
    }
    string_of(&v)
}

fn next_kana(c: char) -> (d: char)
    requires
        0xFF66 <= (c as u32) < 0xFF9D,
    ensures
        (d as u32) == (c as u32) + 1,
{
    match char_from_u32(c as u32 + 1) {
        Some(d) => d,
        None => c,
    }
}

/// Characters that could break out of the quoted shell argument and the
/// quoted config string the glyphs sit in.
pub open spec fn unsafe_glyph(c: char) -> bool {
    is_ctrl(c) || c == '\'' || c == '"' || c == '\\'
}

pub open spec fn keep_glyphs(s: Seq<char>) -> Seq<char>
    decreases s.len(),
{
    if s.len() == 0 {
        s
    } else if unsafe_glyph(s.last()) {
        keep_glyphs(s.drop_last())
    } else {
        keep_glyphs(s.drop_last()).push(s.last())
    }
}

/// The glyphs with quotes, backslashes and control characters dropped; `#`
/// when nothing is left.
pub open spec fn sanitize_spec(s: Seq<char>) -> Seq<char> {
    if keep_glyphs(s).len() == 0 {
        seq!['#']
    } else {
        keep_glyphs(s)
    }
}

pub fn sanitize_glyphs(s: &str) -> (r: String)
    ensures
        r@ == sanitize_spec(s@),
{
    let v = chars_of(s);
    let mut out: Vec<char> = Vec::new();
    for i in 0..v.len()
        invariant
            v@ == s@,
            out@ == keep_glyphs(v@.take(i as int)),
    {
        let c = v[i];
        proof {
            assert(v@.take(i + 1).drop_last() =~= v@.take(i as int));
        }
        if !(is_control(c) || c == '\'' || c == '"' || c == '\\') {
            out.push(c);
        }
    }
    proof {
        assert(v@.take(v@.len() as int) =~= v@);
    }
    if out.len() == 0 {
        out.push('#');
    }
    string_of(&out)
}

/// The swayidle argv: lock after the idle lock timeout, monitors off after
/// the screen-off timeout (seconds), thaw on resume, lock before sleep.
pub open spec fn swayidle_spec(lock_secs: nat, off_secs: nat) -> Seq<Seq<char>> {
    let lifelock = "systemd-cat -t lifelock ~/.local/bin/lifelock -f"@;
    seq![
        "swayidle"@,
        "-w"@,
        "timeout"@,
        decimal(lock_secs),
        lifelock,
        "timeout"@,
        decimal(off_secs),
        "niri msg action power-off-monitors; ~/.local/bin/lifebg-toggle.sh dpms-pause"@,
        "resume"@,
        "~/.local/bin/lifebg-toggle.sh dpms-resume"@,
        "lock"@,
        lifelock,
        "before-sleep"@,
        lifelock,
    ]
}

pub open spec fn string_views(v: Seq<String>) -> Seq<Seq<char>> {
    v.map_values(|s: String| s@)
}

fn decimal_string(n: u32) -> (s: String)
    ensures
        s@ == decimal(n as nat),
{
    let mut v: Vec<char> = Vec::new();
    push_decimal(&mut v, n as u64);
    assert(v@ =~= decimal(n as nat));
    string_of(&v)
}

pub fn swayidle_argv(idle: &Idle) -> (argv: Vec<String>)
    requires
        idle.lock_minutes * 60 <= u32::MAX,
        idle.screen_off_minutes * 60 <= u32::MAX,
    ensures
        string_views(argv@) == swayidle_spec(
            (idle.lock_minutes * 60) as nat,
            (idle.screen_off_minutes * 60) as nat,
        ),
{
    let lock = decimal_string(idle.lock_minutes * 60);
    let off = decimal_string(idle.screen_off_minutes * 60);
    let lifelock = String::from_str("systemd-cat -t lifelock ~/.local/bin/lifelock -f");
    let argv = vec![
        String::from_str("swayidle"),
        String::from_str("-w"),
        String::from_str("timeout"),
        lock,
        lifelock.clone(),
        String::from_str("timeout"),
        off,
        String::from_str("niri msg action power-off-monitors; ~/.local/bin/lifebg-toggle.sh dpms-pause"),
        String::from_str("resume"),
        String::from_str("~/.local/bin/lifebg-toggle.sh dpms-resume"),
        String::from_str("lock"),
        lifelock.clone(),
        String::from_str("before-sleep"),
        lifelock,
    ];
    assert(string_views(argv@) =~= swayidle_spec(
        (idle.lock_minutes * 60) as nat,
        (idle.screen_off_minutes * 60) as nat,
    ));
    argv
}

/// Printable ASCII without the space, `!` to `~`.
pub open spec fn ascii_spec() -> Seq<char> {
    Seq::new(94, |i: int| ((0x21 + i) as u32) as char)
}

pub fn ascii_charset() -> (s: String)
    ensures
        s@ == ascii_spec(),
{
    let mut v: Vec<char> = Vec::new();
    let mut i: u32 = 0;
    while i < 94
        invariant
            i <= 94,
            v@ == Seq::new(i as nat, |k: int| ((0x21 + k) as u32) as char),
        decreases 94 - i,
    {
        match char_from_u32(0x21 + i) {
            Some(c) => {
                v.push(c);
            },
            None => {},
        }
        proof {
            assert(v@ =~= Seq::new((i + 1) as nat, |k: int| ((0x21 + k) as u32) as char));
        }
        i += 1;
    }
    string_of(&v)
}

/// The characters the wallpaper picks from in `mode`: random printable
/// ASCII in `ascii` mode and random half-width katakana in `kana` mode,
/// both ignoring the configured characters; those characters otherwise.
pub open spec fn glyph_source(mode: Seq<char>, chars: Seq<char>) -> Seq<char> {
    if mode == "ascii"@ {
        ascii_spec()
    } else if mode == "kana"@ {
        kana_spec()
    } else {
        chars
    }
}

/// In the `ascii` and `kana` modes the configured characters make no
/// difference to what the wallpaper draws.
pub proof fn generated_modes_ignore_chars(mode: Seq<char>, c1: Seq<char>, c2: Seq<char>)
    requires
        mode == "ascii"@ || mode == "kana"@,
    ensures
        glyph_source(mode, c1) == glyph_source(mode, c2),
{
}

/// The glyphs the wallpaper draws, made safe for the shell and KDL layers.
pub fn wall_glyphs(glyph_mode: &str, chars: &str) -> (r: String)
    ensures
        r@ == sanitize_spec(glyph_source(glyph_mode@, chars@)),
{
    let kana = ['k', 'a', 'n', 'a'];
    let ascii = ['a', 's', 'c', 'i', 'i'];
    assert(kana@ =~= "kana"@) by {
        reveal_strlit("kana");
    }
    assert(ascii@ =~= "ascii"@) by {
        reveal_strlit("ascii");
    }
    let mode = chars_of(glyph_mode);
    let raw = if eq_lit(&mode, &ascii) {
        ascii_charset()
    } else if eq_lit(&mode, &kana) {
        kana_charset()
    } else {
        String::from_str(chars)
    };
    sanitize_glyphs(raw.as_str())
}

} // verus!
