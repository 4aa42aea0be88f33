//! The settings window's picture as a list of drawing steps: the sidebar
//! of categories, the selected category's fields with their values (and a
//! swatch beside each colour), the status line and the Save button. The
//! window draws the steps in order with its font; this module decides
//! what goes where, in which colour.
use vstd::prelude::*;
use crate::conf::gui::{row_y, sat_sub, save_btn_rect, sidebar_w, SIDEBAR_CELLS};
use crate::conf::keys::{field_kind, kind_spec, typed, Command, FieldKind};
use crate::conf::model::{labels_spec, Focus, Selection, CATS, N_CATS};
use crate::conf::theme::{colour_spec, rgb, Palette};
use crate::chars::{chars_of, extend_chars, string_of};

verus! {

pub type Rgb3 = (u8, u8, u8);

/// One drawing step.
pub enum DrawOp {
    /// An opaque rectangle.
    Fill { x: usize, y: usize, w: usize, h: usize, color: Rgb3 },
    /// A line of text, one cell per character, blended over what is there.
    Text { x: usize, y: usize, text: String, color: Rgb3 },
}

/// A drawing step with its text as characters.
pub enum Drawn {
    Fill(int, int, int, int, Rgb3),
    Text(int, int, Seq<char>, Rgb3),
}

impl View for DrawOp {
    type V = Drawn;

    open spec fn view(&self) -> Drawn {
        match self {
            DrawOp::Fill { x, y, w, h, color } => Drawn::Fill(*x as int, *y as int, *w as int, *h as int, *color),
            DrawOp::Text { x, y, text, color } => Drawn::Text(*x as int, *y as int, text@, *color),
        }
    }
}

pub open spec fn drawn(ops: Seq<DrawOp>) -> Seq<Drawn> {
    ops.map_values(|o: DrawOp| o@)
}

/// The colour `hex` spells, if it is well formed.
pub open spec fn colour_of(hex: Seq<char>) -> Option<Rgb3> {
    colour_spec(hex)
}

pub open spec fn ink(hex: Seq<char>, dflt: Rgb3) -> Rgb3 {
    match colour_of(hex) {
        Some(c) => c,
        None => dflt,
    }
}

/// The window's colours, from the palette (each with a fallback).
#[derive(Clone, Copy)]
pub struct Inks {
    pub bg: Rgb3,
    pub surface: Rgb3,
    pub border: Rgb3,
    pub text: Rgb3,
    pub accent: Rgb3,
    pub warn: Rgb3,
}

pub open spec fn inks_spec(p: Palette) -> Inks {
    Inks {
        bg: ink(p.bg@, (18, 20, 18)),
        surface: ink(p.surface@, (23, 26, 20)),
        border: ink(p.border@, (57, 65, 43)),
        text: ink(p.text@, (123, 140, 90)),
        accent: ink(p.accent@, (164, 201, 75)),
        warn: ink(p.warn@, (199, 209, 122)),
    }
}

fn ink_or(hex: &String, dflt: Rgb3) -> (c: Rgb3)
    ensures
        c == ink(hex@, dflt),
{
    match rgb(hex.as_str()) {
        Some(c) => c,
        None => dflt,
    }
}

pub fn inks(p: &Palette) -> (k: Inks)
    ensures
        k == inks_spec(*p),
{
    Inks {
        bg: ink_or(&p.bg, (18, 20, 18)),
        surface: ink_or(&p.surface, (23, 26, 20)),
        border: ink_or(&p.border, (57, 65, 43)),
        text: ink_or(&p.text, (123, 140, 90)),
        accent: ink_or(&p.accent, (164, 201, 75)),
        warn: ink_or(&p.warn, (199, 209, 122)),
    }
}

/// Where things go for `cw`×`ch` cells: margin, sidebar width, the left
/// edge of the field list, and the column of the values.
pub open spec fn side_of(cw: int, ch: int) -> int {
    ch + SIDEBAR_CELLS * cw
}

pub open spec fn fields_x(cw: int, ch: int) -> int {
    side_of(cw, ch) + 2 * cw
}

pub open spec fn values_x(cw: int, ch: int) -> int {
    fields_x(cw, ch) + 24 * cw
}

pub open spec fn row_of(ch: int, i: int) -> int {
    2 * ch + i * (ch + 4)
}

/// A category row of the sidebar: the selected one on a highlight bar
/// (accent while the sidebar has the cursor, else the border colour).
pub open spec fn cat_ops(sel: Selection, k: Inks, cw: int, ch: int, i: int) -> Seq<Drawn> {
    let y = row_of(ch, i);
    if i == sel.cat {
        seq![
            Drawn::Fill(ch - 4, sat_sub(y, 2), side_of(cw, ch) - ch - 2, ch + 3, if sel.focus == Focus::Cats {
                k.accent
            } else {
                k.border
            }),
            Drawn::Text(ch, y, CATS@[i]@, k.bg),
        ]
    } else {
        seq![Drawn::Text(ch, y, CATS@[i]@, k.text)]
    }
}

pub open spec fn cat_rows(sel: Selection, k: Inks, cw: int, ch: int, n: int) -> Seq<Drawn>
    decreases n,
{
    if n <= 0 {
        Seq::empty()
    } else {
        cat_rows(sel, k, cw, ch, n - 1) + cat_ops(sel, k, cw, ch, n - 1)
    }
}

/// The text in the value column of field `i`: the typed text and a caret
/// while it is being edited, else its value.
pub open spec fn shown_value(sel: Selection, values: Seq<Seq<char>>, editing: Option<Seq<char>>, i: int) -> Seq<char> {
    let here = sel.focus == Focus::Fields && i == sel.field;
    match editing {
        Some(e) if here => e.push('_'),
        _ => values[i],
    }
}

/// A field row: the selected field (while the fields have the cursor) on
/// a border-coloured bar, its label, its value (accent when selected), and
/// for a colour field whose value is well formed, a swatch after the value.
pub open spec fn field_ops(
    sel: Selection,
    k: Inks,
    values: Seq<Seq<char>>,
    editing: Option<Seq<char>>,
    w: int,
    cw: int,
    ch: int,
    i: int,
) -> Seq<Drawn> {
    let y = row_of(ch, i);
    let fx = fields_x(cw, ch);
    let vx = values_x(cw, ch);
    let here = sel.focus == Focus::Fields && i == sel.field;
    let shown = shown_value(sel, values, editing, i);
    let bar = if here {
        seq![Drawn::Fill(fx - 4, sat_sub(y, 2), w - fx, ch + 3, k.border)]
    } else {
        Seq::empty()
    };
    let swatch = if kind_spec(sel.cat as int, i) == FieldKind::Hex {
        match colour_of(values[i]) {
            Some(c) => seq![Drawn::Fill(vx + shown.len() * cw + cw, y, ch, ch, c)],
            None => Seq::empty(),
        }
    } else {
        Seq::empty()
    };
    bar + seq![
        Drawn::Text(fx, y, labels_spec(sel.cat as int)[i], k.text),
        Drawn::Text(vx, y, shown, if here {
            k.accent
        } else {
            k.text
        }),
    ] + swatch
}

pub open spec fn field_rows(
    sel: Selection,
    k: Inks,
    values: Seq<Seq<char>>,
    editing: Option<Seq<char>>,
    w: int,
    cw: int,
    ch: int,
    n: int,
) -> Seq<Drawn>
    decreases n,
{
    if n <= 0 {
        Seq::empty()
    } else {
        field_rows(sel, k, values, editing, w, cw, ch, n - 1) + field_ops(sel, k, values, editing, w, cw, ch, n - 1)
    }
}

/// The status line (with an unsaved marker while there are unsaved
/// changes, in the warning colour) and the Save button (lit while there
/// are unsaved changes, outlined otherwise).
pub open spec fn footer_ops(k: Inks, dirty: bool, status: Seq<char>, w: int, h: int, cw: int, ch: int) -> Seq<Drawn> {
    let line = if dirty {
        status + "   ● unsaved"@
    } else {
        status
    };
    let bw = 8 * cw;
    let bh = ch + 8;
    let bx = sat_sub(w, bw + cw);
    let by = sat_sub(h, bh + 4);
    let (btn_bg, btn_fg) = if dirty {
        (k.accent, k.bg)
    } else {
        (k.surface, k.text)
    };
    let outline = if dirty {
        Seq::empty()
    } else {
        seq![
            Drawn::Fill(bx, by, bw, 1, k.border),
            Drawn::Fill(bx, by + bh - 1, bw, 1, k.border),
            Drawn::Fill(bx, by, 1, bh, k.border),
            Drawn::Fill(bx + bw - 1, by, 1, bh, k.border),
        ]
    };
    seq![
        Drawn::Text(ch, sat_sub(h, ch + 4), line, if dirty {
            k.warn
        } else {
            k.text
        }),
        Drawn::Fill(bx, by, bw, bh, btn_bg),
    ] + outline + seq![Drawn::Text(bx + sat_sub(bw, 4 * cw) / 2, by + sat_sub(bh, ch) / 2, "Save"@, btn_fg)]
}

/// The whole picture, in drawing order.
pub open spec fn scene_spec(
    sel: Selection,
    k: Inks,
    values: Seq<Seq<char>>,
    editing: Option<Seq<char>>,
    dirty: bool,
    status: Seq<char>,
    w: int,
    h: int,
    cw: int,
    ch: int,
) -> Seq<Drawn> {
    let side = side_of(cw, ch);
    seq![
        Drawn::Fill(0, 0, w, h, k.bg),
        Drawn::Fill(0, 0, side, h, k.surface),
        Drawn::Fill(side, 0, 1, h, k.border),
        Drawn::Text(ch, ch - ch / 2, "lifeconf"@, k.accent),
    ] + cat_rows(sel, k, cw, ch, N_CATS as int) + seq![
        Drawn::Text(fields_x(cw, ch), ch - ch / 2, CATS@[sel.cat as int]@, k.accent),
    ] + field_rows(sel, k, values, editing, w, cw, ch, labels_spec(sel.cat as int).len() as int) + footer_ops(
        k,
        dirty,
        status,
        w,
        h,
        cw,
        ch,
    )
}

/// The window's sizes keep every position in range.
pub open spec fn scene_fits(
    values: Seq<Seq<char>>,
    editing: Option<Seq<char>>,
    w: int,
    cw: int,
    ch: int,
) -> bool {
    &&& ch >= 4
    &&& SIDEBAR_CELLS * cw >= 2
    &&& w >= fields_x(cw, ch)
    &&& row_of(ch, N_CATS as int) + ch <= usize::MAX
    &&& ch + 12 <= usize::MAX
    &&& 9 * cw <= usize::MAX
    &&& forall|i: int| 0 <= i < values.len() ==> values_x(cw, ch) + (#[trigger] values[i].len() + 2) * cw + ch <= usize::MAX
    &&& (editing matches Some(e) ==> values_x(cw, ch) + (e.len() + 3) * cw + ch <= usize::MAX)
}

/// Append the drawing steps of field row `i`.
fn push_field_row(
    ops: &mut Vec<DrawOp>,
    sel: &Selection,
    k: &Inks,
    values: &Vec<String>,
    editing: Option<&String>,
    i: usize,
    w: usize,
    cw: usize,
    ch: usize,
    fx: usize,
    vx: usize,
)
    requires
        sel.wf(),
        i < values@.len(),
        values@.len() == labels_spec(sel.cat as int).len(),
        fx == fields_x(cw as int, ch as int),
        vx == values_x(cw as int, ch as int),
        scene_fits(
            values@.map_values(|s: String| s@),
            match editing {
                Some(e) => Some(e@),
                None => None,
            },
            w as int,
            cw as int,
            ch as int,
        ),
    ensures
        drawn(final(ops)@) == drawn(old(ops)@) + field_ops(
            *sel,
            *k,
            values@.map_values(|s: String| s@),
            match editing {
                Some(e) => Some(e@),
                None => None,
            },
            w as int,
            cw as int,
            ch as int,
            i as int,
        ),
{
    let ghost vs = values@.map_values(|s: String| s@);
    let ghost ed = match editing {
        Some(e) => Some(e@),
        None => None,
    };
    proof {
        crate::conf::model::every_category_has_fields(sel.cat as int);
        assert(labels_spec(sel.cat as int).len() <= 9);
        assert(row_of(ch as int, i as int) <= row_of(ch as int, N_CATS as int)) by (nonlinear_arith)
            requires
                i < N_CATS,
                ch >= 0,
        ;
    }
        let y = row_y(ch, i);
        let ghost before = drawn(ops@);
        let here = match sel.focus {
            Focus::Fields => i == sel.field,
            Focus::Cats => false,
        };
        if here {
            let y2 = if y >= 2 {
                y - 2
            } else {
                0
            };
            ops.push(DrawOp::Fill { x: fx - 4, y: y2, w: w - fx, h: ch + 3, color: k.border });
        }
        let labels = crate::conf::model::field_labels(sel.cat);
        assert(labels@[i as int]@ == labels_spec(sel.cat as int)[i as int]);
        ops.push(DrawOp::Text { x: fx, y, text: String::from_str(labels[i]), color: k.text });
        let shown: String = match editing {
            Some(e) => if here {
                let mut v = chars_of(e.as_str());
                v.push('_');
                string_of(&v)
            } else {
                values[i].clone()
            },
            None => values[i].clone(),
        };
        assert(shown@ == shown_value(*sel, vs, ed, i as int));
        let vcol = if here {
            k.accent
        } else {
            k.text
        };
        let slen = chars_of(shown.as_str()).len();
        ops.push(DrawOp::Text { x: vx, y, text: shown, color: vcol });
        match field_kind(sel.cat, i) {
            FieldKind::Hex => match rgb(values[i].as_str()) {
                Some(c) => {
                    proof {
                        assert(vs[i as int] == values@[i as int]@);
                        let bound = values_x(cw as int, ch as int) + (slen + 2) * cw;
                        if here && ed is Some {
                            let e = ed->0;
                            assert(slen == e.len() + 1);
                            assert(values_x(cw as int, ch as int) + (e.len() + 3) * cw + ch <= usize::MAX);
                        } else {
                            assert(slen == vs[i as int].len());
                            assert(values_x(cw as int, ch as int) + (vs[i as int].len() + 2) * cw + ch <= usize::MAX);
                        }
                        assert(bound <= usize::MAX);
                        assert(slen * cw + cw <= (slen + 2) * cw) by (nonlinear_arith)
                            requires
                                cw >= 0,
                        ;
                    }
                    ops.push(DrawOp::Fill { x: vx + slen * cw + cw, y, w: ch, h: ch, color: c });
                },
                None => {},
            },
            _ => {},
        }
    proof {
        assert(drawn(ops@) =~= before + field_ops(*sel, *k, vs, ed, w as int, cw as int, ch as int, i as int));
    }
}

/// The drawing steps for the window `w`×`h` with `cw`×`ch` cells, the
/// cursor at `sel`, the palette's colours, the shown value of each field of
/// the selected category, the text being typed (if any), whether there are
/// unsaved changes, and the status line.
pub fn scene(
    sel: &Selection,
    p: &Palette,
    values: &Vec<String>,
    editing: Option<&String>,
    dirty: bool,
    status: &String,
    w: usize,
    h: usize,
    cw: usize,
    ch: usize,
) -> (ops: Vec<DrawOp>)
    requires
        sel.wf(),
        values@.len() == labels_spec(sel.cat as int).len(),
        scene_fits(
            values@.map_values(|s: String| s@),
            match editing {
                Some(e) => Some(e@),
                None => None,
            },
            w as int,
            cw as int,
            ch as int,
        ),
    ensures
        drawn(ops@) == scene_spec(
            *sel,
            inks_spec(*p),
            values@.map_values(|s: String| s@),
            match editing {
                Some(e) => Some(e@),
                None => None,
            },
            dirty,
            status@,
            w as int,
            h as int,
            cw as int,
            ch as int,
        ),
{
    let k = inks(p);
    let ghost vs = values@.map_values(|s: String| s@);
    let ghost ed = match editing {
        Some(e) => Some(e@),
        None => None,
    };
    proof {
        assert(row_of(ch as int, N_CATS as int) <= usize::MAX);
    }
    let side = sidebar_w(cw, ch);
    let mut ops: Vec<DrawOp> = Vec::new();
    ops.push(DrawOp::Fill { x: 0, y: 0, w, h, color: k.bg });
    ops.push(DrawOp::Fill { x: 0, y: 0, w: side, h, color: k.surface });
    ops.push(DrawOp::Fill { x: side, y: 0, w: 1, h, color: k.border });
    ops.push(DrawOp::Text { x: ch, y: ch - ch / 2, text: String::from_str("lifeconf"), color: k.accent });
    let ghost head = drawn(ops@);
    proof {
        assert(head =~= seq![
            Drawn::Fill(0, 0, w as int, h as int, k.bg),
            Drawn::Fill(0, 0, side as int, h as int, k.surface),
            Drawn::Fill(side as int, 0, 1, h as int, k.border),
            Drawn::Text(ch as int, ch - ch / 2, "lifeconf"@, k.accent),
        ]);
    }
    for i in 0..N_CATS
        invariant
            sel.wf(),
            k == inks_spec(*p),
            side == side_of(cw as int, ch as int),
            ch >= 4,
            side >= ch + 2,
            row_of(ch as int, N_CATS as int) + ch <= usize::MAX,
            drawn(ops@) == head + cat_rows(*sel, k, cw as int, ch as int, i as int),
    {
        proof {
            assert(row_of(ch as int, i as int) <= row_of(ch as int, N_CATS as int)) by (nonlinear_arith)
                requires
                    i < N_CATS,
                    ch >= 0,
            ;
        }
        let y = row_y(ch, i);
        let ghost before = drawn(ops@);
        if i == sel.cat {
            let bar = match sel.focus {
                Focus::Cats => k.accent,
                Focus::Fields => k.border,
            };
            let y2 = if y >= 2 {
                y - 2
            } else {
                0
            };
            ops.push(DrawOp::Fill { x: ch - 4, y: y2, w: side - ch - 2, h: ch + 3, color: bar });
            ops.push(DrawOp::Text { x: ch, y, text: String::from_str(CATS[i]), color: k.bg });
        } else {
            ops.push(DrawOp::Text { x: ch, y, text: String::from_str(CATS[i]), color: k.text });
        }
        proof {
            assert(drawn(ops@) =~= before + cat_ops(*sel, k, cw as int, ch as int, i as int));
        }
    }
    let fx = side + 2 * cw;
    ops.push(DrawOp::Text { x: fx, y: ch - ch / 2, text: String::from_str(CATS[sel.cat]), color: k.accent });
    let ghost mid = drawn(ops@);
    proof {
        crate::conf::model::every_category_has_fields(sel.cat as int);
        assert(values_x(cw as int, ch as int) + (vs[0].len() + 2) * cw + ch <= usize::MAX);
        assert((vs[0].len() + 2) * cw >= 0) by (nonlinear_arith)
            requires
                cw >= 0,
        ;
    }
    let vx = fx + 24 * cw;
    let n = values.len();
    for i in 0..n
        invariant
            sel.wf(),
            k == inks_spec(*p),
            n == values@.len(),
            n == labels_spec(sel.cat as int).len(),
            vs == values@.map_values(|s: String| s@),
            ed == (match editing {
                Some(e) => Some(e@),
                None => None,
            }),
            fx == fields_x(cw as int, ch as int),
            vx == values_x(cw as int, ch as int),
            scene_fits(vs, ed, w as int, cw as int, ch as int),
            drawn(ops@) == mid + field_rows(*sel, k, vs, ed, w as int, cw as int, ch as int, i as int),
    {
        push_field_row(&mut ops, sel, &k, values, editing, i, w, cw, ch, fx, vx);
    }
    let ghost body = drawn(ops@);
    let line = if dirty {
        let mut v = chars_of(status.as_str());
        extend_chars(&mut v, &chars_of("   ● unsaved"));
        string_of(&v)
    } else {
        status.clone()
    };
    let sy = if h >= ch + 4 {
        h - (ch + 4)
    } else {
        0
    };
    ops.push(DrawOp::Text { x: ch, y: sy, text: line, color: if dirty {
        k.warn
    } else {
        k.text
    } });
    let (bx, by, bw, bh) = save_btn_rect(w, h, cw, ch);
    let (btn_bg, btn_fg) = if dirty {
        (k.accent, k.bg)
    } else {
        (k.surface, k.text)
    };
    ops.push(DrawOp::Fill { x: bx, y: by, w: bw, h: bh, color: btn_bg });
    if !dirty {
        ops.push(DrawOp::Fill { x: bx, y: by, w: bw, h: 1, color: k.border });
        ops.push(DrawOp::Fill { x: bx, y: by + bh - 1, w: bw, h: 1, color: k.border });
        ops.push(DrawOp::Fill { x: bx, y: by, w: 1, h: bh, color: k.border });
        ops.push(DrawOp::Fill { x: bx + bw - 1, y: by, w: 1, h: bh, color: k.border });
    }
    let lw = if bw >= 4 * cw {
        bw - 4 * cw
    } else {
        0
    };
    let lh = if bh >= ch {
        bh - ch
    } else {
        0
    };
    ops.push(DrawOp::Text { x: bx + lw / 2, y: by + lh / 2, text: String::from_str("Save"), color: btn_fg });
    proof {
        assert(drawn(ops@) =~= body + footer_ops(k, dirty, status@, w as int, h as int, cw as int, ch as int));
    }
    ops
}

/// What a click in the window lands on.
#[derive(Clone, Copy, Debug, PartialEq, Eq, Structural)]
pub enum ClickTarget {
    Save,
    Category(usize),
    Field(usize),
    Nothing,
}

/// A click at height `y` hits list row `i` (a little above the row to
/// just below it).
pub open spec fn row_hit(y: int, ch: int, i: int) -> bool {
    row_of(ch, i) - 2 <= y < row_of(ch, i) + ch + 1
}

/// The first of the first `n` rows the click hits.
pub open spec fn first_row_hit(y: int, ch: int, n: int) -> Option<int>
    decreases n,
{
    if n <= 0 {
        None
    } else {
        match first_row_hit(y, ch, n - 1) {
            Some(i) => Some(i),
            None => if row_hit(y, ch, n - 1) {
                Some(n - 1)
            } else {
                None
            },
        }
    }
}

pub open spec fn click_spec(x: int, y: int, w: int, h: int, cw: int, ch: int, n_fields: int) -> ClickTarget {
    let bw = 8 * cw;
    let bh = ch + 8;
    let bx = sat_sub(w, bw + cw);
    let by = sat_sub(h, bh + 4);
    if bx <= x < bx + bw && by <= y < by + bh {
        ClickTarget::Save
    } else if x < side_of(cw, ch) {
        match first_row_hit(y, ch, N_CATS as int) {
            Some(i) => ClickTarget::Category(i as usize),
            None => ClickTarget::Nothing,
        }
    } else {
        match first_row_hit(y, ch, n_fields) {
            Some(i) => ClickTarget::Field(i as usize),
            None => ClickTarget::Nothing,
        }
    }
}

proof fn lemma_first_row_hit(y: int, ch: int, n: int)
    ensures
        match first_row_hit(y, ch, n) {
            Some(i) => 0 <= i < n && row_hit(y, ch, i) && forall|j: int| 0 <= j < i ==> !row_hit(y, ch, j),
            None => forall|j: int| 0 <= j < n ==> !row_hit(y, ch, j),
        },
    decreases n,
{
    if n > 0 {
        lemma_first_row_hit(y, ch, n - 1);
    }
}

/// The first of the first `n` list rows a click at height `y` hits.
fn find_row(y: i64, ch: usize, n: usize) -> (r: Option<usize>)
    requires
        row_of(ch as int, n as int) + ch + 1 <= i64::MAX,
    ensures
        match r {
            Some(i) => first_row_hit(y as int, ch as int, n as int) == Some(i as int),
            None => first_row_hit(y as int, ch as int, n as int) is None,
        },
{
    proof {
        lemma_first_row_hit(y as int, ch as int, n as int);
    }
    let mut i: usize = 0;
    while i < n
        invariant
            i <= n,
            row_of(ch as int, n as int) + ch + 1 <= i64::MAX,
            forall|j: int| 0 <= j < i ==> !row_hit(y as int, ch as int, j),
            match first_row_hit(y as int, ch as int, n as int) {
                Some(k) => 0 <= k < n && row_hit(y as int, ch as int, k) && forall|j: int|
                    0 <= j < k ==> !row_hit(y as int, ch as int, j),
                None => forall|j: int| 0 <= j < n ==> !row_hit(y as int, ch as int, j),
            },
        decreases n - i,
    {
        proof {
            assert(row_of(ch as int, i as int) <= row_of(ch as int, n as int)) by (nonlinear_arith)
                requires
                    i < n,
                    ch >= 0,
            ;
        }
        proof {
            assert(i <= row_of(ch as int, n as int)) by (nonlinear_arith)
                requires
                    i < n,
                    ch >= 0,
                    row_of(ch as int, n as int) == 2 * ch + n * (ch + 4),
            ;
        }
        let c: i64 = ch as i64;
        let k: i64 = i as i64;
        proof {
            assert(0 <= k * (c + 4) <= row_of(ch as int, n as int)) by (nonlinear_arith)
                requires
                    0 <= k < n,
                    c >= 0,
                    c == ch,
                    row_of(ch as int, n as int) == 2 * ch + n * (ch + 4),
            ;
        }
        let ry: i64 = 2 * c + k * (c + 4);
        assert(ry as int == row_of(ch as int, i as int));
        if y >= ry - 2 && y < ry + c + 1 {
            proof {
                assert(row_hit(y as int, ch as int, i as int));
                match first_row_hit(y as int, ch as int, n as int) {
                    Some(k) => {
                        if k < i {
                            assert(!row_hit(y as int, ch as int, k));
                        }
                    },
                    None => {},
                }
            }
            return Some(i);
        }
        i = i + 1;
    }
    None
}

/// What a click at (`x`, `y`) (pixel coordinates rounded down) lands on
/// in a `w`×`h` window with `cw`×`ch` cells and `n_fields` fields listed:
/// the Save button, a category row in the sidebar, a field row, or
/// nothing.
pub fn click_target(x: i64, y: i64, w: usize, h: usize, cw: usize, ch: usize, n_fields: usize) -> (t: ClickTarget)
    requires
        w <= i64::MAX,
        h <= i64::MAX,
        9 * cw + ch + 12 <= i64::MAX,
        9 * cw + ch + 12 <= usize::MAX,
        side_of(cw as int, ch as int) <= i64::MAX,
        row_of(ch as int, N_CATS as int) + ch + 1 <= i64::MAX,
        row_of(ch as int, n_fields as int) + ch + 1 <= i64::MAX,
    ensures
        t == click_spec(x as int, y as int, w as int, h as int, cw as int, ch as int, n_fields as int),
{
    let (bx, by, bw, bh) = save_btn_rect(w, h, cw, ch);
    if x >= bx as i64 && x < (bx + bw) as i64 && y >= by as i64 && y < (by + bh) as i64 {
        return ClickTarget::Save;
    }
    let side: i64 = ch as i64 + 16 * (cw as i64);
    if x < side {
        match find_row(y, ch, N_CATS) {
            Some(i) => ClickTarget::Category(i),
            None => ClickTarget::Nothing,
        }
    } else {
        match find_row(y, ch, n_fields) {
            Some(i) => ClickTarget::Field(i),
            None => ClickTarget::Nothing,
        }
    }
}

/// Where the cursor goes for a click, and what follows: a category row
/// selects its category (sidebar focused); a field row selects the field
/// and edits or steps it as Enter would; the button saves.
pub open spec fn click_outcome(sel: Selection, t: ClickTarget) -> (Selection, Command) {
    match t {
        ClickTarget::Save => (sel, Command::Save),
        ClickTarget::Category(i) => (Selection { cat: i, field: 0, focus: Focus::Cats }, Command::Nothing),
        ClickTarget::Field(i) => (
            Selection { field: i, focus: Focus::Fields, ..sel },
            if typed(kind_spec(sel.cat as int, i as int)) {
                Command::BeginEdit
            } else {
                Command::Nudge(1i32)
            },
        ),
        ClickTarget::Nothing => (sel, Command::Nothing),
    }
}

impl Selection {
    /// Move the cursor for a click and say what follows it.
    pub fn click(&mut self, t: ClickTarget) -> (c: Command)
        requires
            old(self).cat < N_CATS,
        ensures
            (*final(self), c) == click_outcome(*old(self), t),
    {
        match t {
            ClickTarget::Save => Command::Save,
            ClickTarget::Category(i) => {
                self.cat = i;
                self.field = 0;
                self.focus = Focus::Cats;
                Command::Nothing
            },
            ClickTarget::Field(i) => {
                self.field = i;
                self.focus = Focus::Fields;
                match field_kind(self.cat, i) {
                    FieldKind::Hex | FieldKind::Text | FieldKind::Fraction | FieldKind::Whole(_) => Command::BeginEdit,
                    _ => Command::Nudge(1),
                }
            },
            ClickTarget::Nothing => Command::Nothing,
        }
    }
}

} // verus!
