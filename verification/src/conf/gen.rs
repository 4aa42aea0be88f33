//! What a generator run reports, and the bodies of the compositor config's
//! fenced regions that carry no fractional setting: cursor, idle timeouts,
//! focus border, tab indicator and drop hint, each following the theme.
use vstd::prelude::*;
use crate::chars::{chars_of, extend_chars, string_of};
use crate::conf::cmd::{string_views, swayidle_argv, swayidle_spec};
use crate::conf::theme::{bare_spec, hash, Cursor, Idle, Palette};
use crate::num::{decimal, push_decimal};

verus! {

/// Files written and notes for the user (failures, manual follow-ups).
#[derive(Default)]
pub struct Report {
    pub written: Vec<String>,
    pub notes: Vec<String>,
}

/// `#rrggbb` as `hash` writes it.
pub open spec fn hashed(hex: Seq<char>) -> Seq<char> {
    seq!['#'] + bare_spec(hex)
}

fn push_lit(v: &mut Vec<char>, lit: &str)
    ensures
        final(v)@ == old(v)@ + lit@,
{
    extend_chars(v, &chars_of(lit));
}

fn push_string(v: &mut Vec<char>, s: &String)
    ensures
        final(v)@ == old(v)@ + s@,
{
    extend_chars(v, &chars_of(s.as_str()));
}

pub open spec fn cursor_spec(c: Cursor) -> Seq<char> {
    "cursor {\n    xcursor-theme \""@ + c.theme@ + "\"\n    xcursor-size "@ + decimal(c.size as nat)
        + "\n}"@
}

pub fn gen_cursor(c: &Cursor) -> (s: String)
    ensures
        s@ == cursor_spec(*c),
{
    let mut v: Vec<char> = Vec::new();
    push_lit(&mut v, "cursor {\n    xcursor-theme \"");
    push_string(&mut v, &c.theme);
    push_lit(&mut v, "\"\n    xcursor-size ");
    push_decimal(&mut v, c.size as u64);
    push_lit(&mut v, "\n}");
    assert(v@ =~= cursor_spec(*c));
    string_of(&v)
}

/// `"a" "b" …`: each word quoted, joined by spaces.
pub open spec fn quoted_words(ws: Seq<Seq<char>>) -> Seq<char>
    decreases ws.len(),
{
    if ws.len() == 0 {
        Seq::empty()
    } else if ws.len() == 1 {
        seq!['"'] + ws[0] + seq!['"']
    } else {
        quoted_words(ws.drop_last()) + seq![' ', '"'] + ws.last() + seq!['"']
    }
}

pub open spec fn idle_spec(i: Idle) -> Seq<char> {
    "spawn-at-startup "@ + quoted_words(
        swayidle_spec((i.lock_minutes * 60) as nat, (i.screen_off_minutes * 60) as nat),
    )
}

pub fn gen_idle(i: &Idle) -> (s: String)
    requires
        i.lock_minutes * 60 <= u32::MAX,
        i.screen_off_minutes * 60 <= u32::MAX,
    ensures
        s@ == idle_spec(*i),
{
    let argv = swayidle_argv(i);
    let ghost ws = string_views(argv@);
    let mut v: Vec<char> = Vec::new();
    push_lit(&mut v, "spawn-at-startup ");
    let ghost head = v@;
    for k in 0..argv.len()
        invariant
            ws == string_views(argv@),
            v@ == head + quoted_words(ws.take(k as int)),
    {
        proof {
            assert(ws.take(k + 1).drop_last() =~= ws.take(k as int));
        }
        if k > 0 {
            v.push(' ');
        }
        v.push('"');
        push_string(&mut v, &argv[k]);
        v.push('"');
        proof {
            if k == 0 {
                assert(quoted_words(ws.take(1)) =~= seq!['"'] + ws[0] + seq!['"']);
            }
            assert(v@ =~= head + quoted_words(ws.take(k + 1)));
        }
    }
    proof {
        assert(ws.take(argv@.len() as int) =~= ws);
    }
    string_of(&v)
}

pub open spec fn border_spec(p: Palette) -> Seq<char> {
    "    border {\n        width 2\n        active-color \""@ + hashed(p.accent@)
        + "\"\n        inactive-color \""@ + hashed(p.border@) + "\"\n        urgent-color \""@
        + hashed(p.urgent@) + "\"\n    }"@
}

/// The focused-window border follows the palette.
pub fn gen_border(p: &Palette) -> (s: String)
    ensures
        s@ == border_spec(*p),
{
    let mut v: Vec<char> = Vec::new();
    push_lit(&mut v, "    border {\n        width 2\n        active-color \"");
    push_string(&mut v, &hash(p.accent.as_str()));
    push_lit(&mut v, "\"\n        inactive-color \"");
    push_string(&mut v, &hash(p.border.as_str()));
    push_lit(&mut v, "\"\n        urgent-color \"");
    push_string(&mut v, &hash(p.urgent.as_str()));
    push_lit(&mut v, "\"\n    }");
    assert(v@ =~= border_spec(*p));
    string_of(&v)
}

pub open spec fn tab_indicator_spec(p: Palette) -> Seq<char> {
    "    tab-indicator {\n        hide-when-single-tab\n        active-color \""@ + hashed(p.accent@)
        + "\"\n        inactive-color \""@ + hashed(p.border@) + "\"\n        urgent-color \""@
        + hashed(p.urgent@) + "\"\n    }"@
}

/// The tab strip follows the palette.
pub fn gen_tab_indicator(p: &Palette) -> (s: String)
    ensures
        s@ == tab_indicator_spec(*p),
{
    let mut v: Vec<char> = Vec::new();
    push_lit(&mut v, "    tab-indicator {\n        hide-when-single-tab\n        active-color \"");
    push_string(&mut v, &hash(p.accent.as_str()));
    push_lit(&mut v, "\"\n        inactive-color \"");
    push_string(&mut v, &hash(p.border.as_str()));
    push_lit(&mut v, "\"\n        urgent-color \"");
    push_string(&mut v, &hash(p.urgent.as_str()));
    push_lit(&mut v, "\"\n    }");
    assert(v@ =~= tab_indicator_spec(*p));
    string_of(&v)
}

/// In the tab strip the active tab is drawn in the palette's accent, the
/// inactive tabs in its border colour and urgent tabs in its urgent colour,
/// each as `#` and the colour's bare lower-case digits, one setting per line.
pub proof fn tab_indicator_colour_roles(p: Palette)
    ensures
        tab_indicator_spec(p) == "    tab-indicator {\n"@ + "        hide-when-single-tab\n"@
            + "        active-color \"#"@ + bare_spec(p.accent@) + "\"\n"@
            + "        inactive-color \"#"@ + bare_spec(p.border@) + "\"\n"@
            + "        urgent-color \"#"@ + bare_spec(p.urgent@) + "\"\n"@ + "    }"@,
{
    reveal_strlit("    tab-indicator {\n        hide-when-single-tab\n        active-color \"");
    reveal_strlit("\"\n        inactive-color \"");
    reveal_strlit("\"\n        urgent-color \"");
    reveal_strlit("\"\n    }");
    reveal_strlit("    tab-indicator {\n");
    reveal_strlit("        hide-when-single-tab\n");
    reveal_strlit("        active-color \"#");
    reveal_strlit("\"\n");
    reveal_strlit("        inactive-color \"#");
    reveal_strlit("        urgent-color \"#");
    reveal_strlit("    }");
    assert(tab_indicator_spec(p) =~= "    tab-indicator {\n"@ + "        hide-when-single-tab\n"@
        + "        active-color \"#"@ + bare_spec(p.accent@) + "\"\n"@
        + "        inactive-color \"#"@ + bare_spec(p.border@) + "\"\n"@
        + "        urgent-color \"#"@ + bare_spec(p.urgent@) + "\"\n"@ + "    }"@);
}

/// The focused-window border is two pixels wide; the focused window's
/// border takes the accent, other windows the border colour, urgent windows
/// the urgent colour.
pub proof fn border_colour_roles(p: Palette)
    ensures
        border_spec(p) == "    border {\n"@ + "        width 2\n"@
            + "        active-color \"#"@ + bare_spec(p.accent@) + "\"\n"@
            + "        inactive-color \"#"@ + bare_spec(p.border@) + "\"\n"@
            + "        urgent-color \"#"@ + bare_spec(p.urgent@) + "\"\n"@ + "    }"@,
{
    reveal_strlit("    border {\n        width 2\n        active-color \"");
    reveal_strlit("\"\n        inactive-color \"");
    reveal_strlit("\"\n        urgent-color \"");
    reveal_strlit("\"\n    }");
    reveal_strlit("    border {\n");
    reveal_strlit("        width 2\n");
    reveal_strlit("        active-color \"#");
    reveal_strlit("\"\n");
    reveal_strlit("        inactive-color \"#");
    reveal_strlit("        urgent-color \"#");
    reveal_strlit("    }");
    assert(border_spec(p) =~= "    border {\n"@ + "        width 2\n"@
        + "        active-color \"#"@ + bare_spec(p.accent@) + "\"\n"@
        + "        inactive-color \"#"@ + bare_spec(p.border@) + "\"\n"@
        + "        urgent-color \"#"@ + bare_spec(p.urgent@) + "\"\n"@ + "    }"@);
}

pub open spec fn insert_hint_spec(p: Palette) -> Seq<char> {
    "    insert-hint {\n        color \""@ + hashed(p.accent@) + "80\"\n    }"@
}

/// The drop-target hint: the accent at alpha 0x80.
pub fn gen_insert_hint(p: &Palette) -> (s: String)
    ensures
        s@ == insert_hint_spec(*p),
{
    let mut v: Vec<char> = Vec::new();
    push_lit(&mut v, "    insert-hint {\n        color \"");
    push_string(&mut v, &hash(p.accent.as_str()));
    push_lit(&mut v, "80\"\n    }");
    assert(v@ =~= insert_hint_spec(*p));
    string_of(&v)
}

/// The drop-target hint is the accent, `#` and its bare digits, followed by
/// the alpha `80`.
pub proof fn insert_hint_is_half_accent(p: Palette)
    ensures
        insert_hint_spec(p) == "    insert-hint {\n"@ + "        color \"#"@ + bare_spec(p.accent@)
            + seq!['8', '0', '"', '\n'] + "    }"@,
{
    reveal_strlit("    insert-hint {\n        color \"");
    reveal_strlit("80\"\n    }");
    reveal_strlit("    insert-hint {\n");
    reveal_strlit("        color \"#");
    reveal_strlit("    }");
    assert(insert_hint_spec(p) =~= "    insert-hint {\n"@ + "        color \"#"@ + bare_spec(p.accent@)
        + seq!['8', '0', '"', '\n'] + "    }"@);
}

} // verus!
