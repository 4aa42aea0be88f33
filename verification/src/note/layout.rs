//! Frame composition: one notification's content becomes a grid of styled
//! characters, framed with box-drawing glyphs and the app name in the top
//! border.
use vstd::prelude::*;
use crate::chars::{chars_of, trim, trim_chars};

verus! {

#[derive(Clone, Copy, PartialEq, Eq, Debug, Structural)]
pub enum Style {
    Single,
    Rounded,
    Heavy,
    Double,
    Ascii,
}

/// What a cell is part of; resolved to a colour per urgency at render time.
#[derive(Clone, Copy, PartialEq, Eq, Debug, Structural)]
pub enum Role {
    Border,
    Title,
    Summary,
    Body,
}

/// The six glyphs of a frame: corners, horizontal and vertical rules.
#[derive(Clone, Copy, PartialEq, Eq, Debug, Structural)]
pub struct BorderSet {
    pub tl: char,
    pub tr: char,
    pub bl: char,
    pub br: char,
    pub h: char,
    pub v: char,
}

pub open spec fn border_spec(style: Style) -> BorderSet {
    match style {
        Style::Single => BorderSet { tl: '┌', tr: '┐', bl: '└', br: '┘', h: '─', v: '│' },
        Style::Rounded => BorderSet { tl: '╭', tr: '╮', bl: '╰', br: '╯', h: '─', v: '│' },
        Style::Heavy => BorderSet { tl: '┏', tr: '┓', bl: '┗', br: '┛', h: '━', v: '┃' },
        Style::Double => BorderSet { tl: '╔', tr: '╗', bl: '╚', br: '╝', h: '═', v: '║' },
        Style::Ascii => BorderSet { tl: '+', tr: '+', bl: '+', br: '+', h: '-', v: '|' },
    }
}

pub fn border_set(style: Style) -> (b: BorderSet)
    ensures
        b == border_spec(style),
{
    match style {
        Style::Single => BorderSet { tl: '┌', tr: '┐', bl: '└', br: '┘', h: '─', v: '│' },
        Style::Rounded => BorderSet { tl: '╭', tr: '╮', bl: '╰', br: '╯', h: '─', v: '│' },
        Style::Heavy => BorderSet { tl: '┏', tr: '┓', bl: '┗', br: '┛', h: '━', v: '┃' },
        Style::Double => BorderSet { tl: '╔', tr: '╗', bl: '╚', br: '╝', h: '═', v: '║' },
        Style::Ascii => BorderSet { tl: '+', tr: '+', bl: '+', br: '+', h: '-', v: '|' },
    }
}

pub type Cell = (char, Role);

pub type Grid = Vec<Vec<Cell>>;

/// `n` copies of `x`.
pub open spec fn rep(x: Cell, n: int) -> Seq<Cell> {
    Seq::new(n as nat, |i: int| x)
}

/// The characters of `t`, each tagged with `role`.
pub open spec fn tagged(t: Seq<char>, role: Role) -> Seq<Cell> {
    t.map_values(|c: char| (c, role))
}

/// The longest line, in characters (0 if there are none).
pub open spec fn longest(ls: Seq<Seq<char>>) -> nat
    decreases ls.len(),
{
    if ls.len() == 0 {
        0
    } else {
        let m = longest(ls.drop_last());
        if ls.last().len() > m {
            ls.last().len()
        } else {
            m
        }
    }
}

pub open spec fn str_views(ls: Seq<String>) -> Seq<Seq<char>> {
    ls.map_values(|l: String| l@)
}

pub open spec fn sat_sub(a: int, b: int) -> int {
    if a >= b {
        a - b
    } else {
        0
    }
}

pub open spec fn max2(a: int, b: int) -> int {
    if a >= b {
        a
    } else {
        b
    }
}

pub open spec fn min2(a: int, b: int) -> int {
    if a <= b {
        a
    } else {
        b
    }
}

/// Columns between the padding of the frame: the longest line, at least the
/// title's room, at most `max_width` (or the title's room if larger).
pub open spec fn inner_width(app: Seq<char>, lines: Seq<Seq<char>>, max_width: int) -> int {
    let want = min2(trim(app).len() as int, sat_sub(max_width, 2));
    let lo = want + 2;
    let hi = max2(max_width, lo);
    let m = longest(lines) as int;
    if m < lo {
        lo
    } else if m > hi {
        hi
    } else {
        m
    }
}

/// The title as the top border shows it: the trimmed app name, cut with an
/// ellipsis when it does not fit.
pub open spec fn shown_title(app: Seq<char>, inner: int) -> Seq<char> {
    let t = trim(app);
    if t.len() > sat_sub(inner, 2) {
        let k = max2(sat_sub(inner, 2), 1);
        t.take(k).update(k - 1, '…')
    } else {
        t
    }
}

pub open spec fn top_row(b: BorderSet, title: Seq<char>, width: int) -> Seq<Cell> {
    if title.len() == 0 {
        seq![(b.tl, Role::Border)] + rep((b.h, Role::Border), width - 2) + seq![
            (b.tr, Role::Border),
        ]
    } else {
        seq![(b.tl, Role::Border), (b.h, Role::Border), (' ', Role::Border)] + tagged(
            title,
            Role::Title,
        ) + seq![(' ', Role::Border)] + rep((b.h, Role::Border), width - 1 - (4 + title.len()))
            + seq![(b.tr, Role::Border)]
    }
}

pub open spec fn content_row(b: BorderSet, text: Seq<char>, role: Role, inner: int) -> Seq<Cell> {
    seq![(b.v, Role::Border), (' ', Role::Border)] + tagged(text, role) + rep(
        (' ', role),
        inner - text.len(),
    ) + seq![(' ', Role::Border), (b.v, Role::Border)]
}

pub open spec fn bottom_row(b: BorderSet, width: int) -> Seq<Cell> {
    seq![(b.bl, Role::Border)] + rep((b.h, Role::Border), width - 2) + seq![(b.br, Role::Border)]
}

pub open spec fn content_rows(b: BorderSet, ls: Seq<Seq<char>>, role: Role, inner: int) -> Seq<
    Seq<Cell>,
> {
    ls.map_values(|l: Seq<char>| content_row(b, l, role, inner))
}

/// The rows `compose` produces, top border to bottom border.
pub open spec fn compose_spec(
    app: Seq<char>,
    summary: Seq<Seq<char>>,
    body: Seq<Seq<char>>,
    style: Style,
    max_width: int,
) -> Seq<Seq<Cell>> {
    let b = border_spec(style);
    let inner = inner_width(app, summary + body, max_width);
    let width = inner + 4;
    let spacer = if body.len() > 0 && summary.len() > 0 {
        seq![content_row(b, Seq::empty(), Role::Body, inner)]
    } else {
        Seq::empty()
    };
    seq![top_row(b, shown_title(app, inner), width)] + content_rows(b, summary, Role::Summary, inner)
        + spacer + content_rows(b, body, Role::Body, inner) + seq![bottom_row(b, width)]
}

/// Each frame style's glyphs: corners clockwise from the top left, then
/// the horizontal and vertical rules.
pub proof fn frame_style_glyphs(style: Style)
    ensures
        ({
            let b = border_spec(style);
            let g = (b.tl, b.tr, b.br, b.bl, b.h, b.v);
            match style {
                Style::Single => g == ('┌', '┐', '┘', '└', '─', '│'),
                Style::Rounded => g == ('╭', '╮', '╯', '╰', '─', '│'),
                Style::Heavy => g == ('┏', '┓', '┛', '┗', '━', '┃'),
                Style::Double => g == ('╔', '╗', '╝', '╚', '═', '║'),
                Style::Ascii => g == ('+', '+', '+', '+', '-', '|'),
            }
        }),
{
}

/// A double frame is drawn in double lines throughout: `╔` and `╗` close
/// the top border, every row between begins and ends with `║`, and the
/// bottom border is `╚`, a rule of `═` and `╝`.
pub proof fn double_frames_use_double_lines(
    app: Seq<char>,
    summary: Seq<Seq<char>>,
    body: Seq<Seq<char>>,
    max_width: int,
)
    requires
        max_width >= 0,
    ensures
        ({
            let g = compose_spec(app, summary, body, Style::Double, max_width);
            let n = g.len() as int;
            &&& n >= 2
            &&& g[0][0].0 == '╔'
            &&& g[0][g[0].len() - 1].0 == '╗'
            &&& g[n - 1][0].0 == '╚'
            &&& g[n - 1][g[n - 1].len() - 1].0 == '╝'
            &&& forall|k: int| 0 < k < g[n - 1].len() - 1 ==> #[trigger] g[n - 1][k].0 == '═'
            &&& forall|r: int| 0 < r < n - 1 ==> (#[trigger] g[r])[0].0 == '║' && g[r][g[r].len() - 1].0 == '║'
        }),
{
    let b = border_spec(Style::Double);
    let inner = inner_width(app, summary + body, max_width);
    let width = inner + 4;
    assert(inner >= 2);
    let spacer = if body.len() > 0 && summary.len() > 0 {
        seq![content_row(b, Seq::empty(), Role::Body, inner)]
    } else {
        Seq::empty()
    };
    let top = top_row(b, shown_title(app, inner), width);
    let mid = content_rows(b, summary, Role::Summary, inner) + spacer + content_rows(b, body, Role::Body, inner);
    let g = compose_spec(app, summary, body, Style::Double, max_width);
    assert(g =~= seq![top] + mid + seq![bottom_row(b, width)]);
    let n = g.len() as int;
    assert(g[0] == top);
    assert(g[n - 1] == bottom_row(b, width));
    assert(top[0].0 == '╔');
    assert(top[top.len() - 1].0 == '╗');
    let bot = bottom_row(b, width);
    assert(bot[0].0 == '╚');
    assert(bot[bot.len() - 1].0 == '╝');
    assert forall|k: int| 0 < k < bot.len() - 1 implies #[trigger] bot[k].0 == '═' by {
        assert(bot[k] == rep((b.h, Role::Border), width - 2)[k - 1]);
    }
    assert forall|r: int| 0 < r < n - 1 implies (#[trigger] g[r])[0].0 == '║' && g[r][g[r].len() - 1].0 == '║' by {
        assert(g[r] == mid[r - 1]);
        let ls = summary.len() as int;
        let sp = spacer.len() as int;
        let row = if r - 1 < ls {
            content_row(b, summary[r - 1], Role::Summary, inner)
        } else if r - 1 < ls + sp {
            content_row(b, Seq::empty(), Role::Body, inner)
        } else {
            content_row(b, body[r - 1 - ls - sp], Role::Body, inner)
        };
        assert(mid[r - 1] == row);
    }
}

pub open spec fn grid_view(g: Seq<Vec<Cell>>) -> Seq<Seq<Cell>> {
    g.map_values(|r: Vec<Cell>| r@)
}

proof fn lemma_longest_bound(ls: Seq<Seq<char>>)
    ensures
        forall|k: int| 0 <= k < ls.len() ==> (#[trigger] ls[k]).len() <= longest(ls),
        ls.len() > 0 ==> exists|k: int| 0 <= k < ls.len() && ls[k].len() == longest(ls),
        ls.len() == 0 ==> longest(ls) == 0,
    decreases ls.len(),
{
    if ls.len() > 0 {
        lemma_longest_bound(ls.drop_last());
        assert forall|k: int| 0 <= k < ls.len() implies (#[trigger] ls[k]).len() <= longest(ls) by {
            if k < ls.len() - 1 {
                assert(ls[k] == ls.drop_last()[k]);
            }
        }
        if ls.last().len() <= longest(ls.drop_last()) && ls.len() > 1 {
            let k = choose|k: int|
                0 <= k < ls.drop_last().len() && ls.drop_last()[k].len() == longest(ls.drop_last());
            assert(ls[k] == ls.drop_last()[k]);
        }
    }
}

fn push_rep(row: &mut Vec<Cell>, x: Cell, n: usize)
    ensures
        final(row)@ == old(row)@ + rep(x, n as int),
{
    let ghost start = row@;
    for k in 0..n
        invariant
            row@ == start + rep(x, k as int),
    {
        row.push(x);
        assert(rep(x, k + 1) == rep(x, k as int).push(x));
        assert(start + rep(x, k + 1) == (start + rep(x, k as int)).push(x));
    }
}

fn push_tagged(row: &mut Vec<Cell>, t: &Vec<char>, role: Role)
    ensures
        final(row)@ == old(row)@ + tagged(t@, role),
{
    let ghost start = row@;
    for k in 0..t.len()
        invariant
            row@ == start + tagged(t@.take(k as int), role),
    {
        row.push((t[k], role));
        assert(tagged(t@.take(k + 1), role) =~= tagged(t@.take(k as int), role).push((t@[k as int], role)));
        assert(start + tagged(t@.take(k + 1), role) == (start + tagged(t@.take(k as int), role)).push((t@[k as int], role)));
    }
    assert(t@.take(t.len() as int) == t@);
}

fn make_content_row(b: BorderSet, text: &Vec<char>, role: Role, inner: usize) -> (row: Vec<Cell>)
    requires
        text.len() <= inner,
    ensures
        row@ == content_row(b, text@, role, inner as int),
{
    let mut row: Vec<Cell> = Vec::new();
    row.push((b.v, Role::Border));
    row.push((' ', Role::Border));
    push_tagged(&mut row, text, role);
    push_rep(&mut row, (' ', role), inner - text.len());
    row.push((' ', Role::Border));
    row.push((b.v, Role::Border));
    assert(row@ =~= content_row(b, text@, role, inner as int));
    row
}

fn push_content_rows(
    grid: &mut Grid,
    b: BorderSet,
    lines: &[String],
    role: Role,
    inner: usize,
)
    requires
        forall|k: int| 0 <= k < lines@.len() ==> (#[trigger] lines@[k])@.len() <= inner,
    ensures
        grid_view(final(grid)@) == grid_view(old(grid)@) + content_rows(
            b,
            str_views(lines@),
            role,
            inner as int,
        ),
{
    let ghost start = grid_view(grid@);
    let ghost lv = str_views(lines@);
    for k in 0..lines.len()
        invariant
            lv == str_views(lines@),
            forall|t: int| 0 <= t < lines@.len() ==> (#[trigger] lines@[t])@.len() <= inner,
            grid_view(grid@) == start + content_rows(b, lv.take(k as int), role, inner as int),
    {
        let text = chars_of(lines[k].as_str());
        assert(text@ == lines@[k as int]@);
        let row = make_content_row(b, &text, role, inner);
        let ghost before = grid_view(grid@);
        grid.push(row);
        assert(grid_view(grid@) =~= before.push(content_row(b, lv[k as int], role, inner as int)));
        assert(content_rows(b, lv.take(k + 1), role, inner as int) =~= content_rows(
            b,
            lv.take(k as int),
            role,
            inner as int,
        ).push(content_row(b, lv[k as int], role, inner as int)));
    }
    assert(lv.take(lines.len() as int) == lv);
}

fn longest_line(a: &[String], b: &[String]) -> (m: usize)
    ensures
        m == longest(str_views(a@) + str_views(b@)),
{
    let ghost all = str_views(a@) + str_views(b@);
    let mut m: usize = 0;
    for i in 0..a.len()
        invariant
            all == str_views(a@) + str_views(b@),
            m == longest(all.take(i as int)),
    {
        let l = chars_of(a[i].as_str()).len();
        assert(l == all[i as int].len());
        assert(all.take(i + 1).drop_last() == all.take(i as int));
        if l > m {
            m = l;
        }
    }
    let na = a.len();
    for j in 0..b.len()
        invariant
            na == a@.len(),
            all == str_views(a@) + str_views(b@),
            m == longest(all.take(na + j)),
    {
        let l = chars_of(b[j].as_str()).len();
        assert(l == all[na + j].len());
        assert(all.take(na + j + 1).drop_last() == all.take(na + j));
        if l > m {
            m = l;
        }
    }
    assert(all.take(na + b@.len()) == all);
    m
}

proof fn lemma_rows_width(
    app: Seq<char>,
    summary: Seq<Seq<char>>,
    body: Seq<Seq<char>>,
    style: Style,
    max_width: int,
)
    requires
        forall|k: int| 0 <= k < summary.len() ==> (#[trigger] summary[k]).len() <= inner_width(app, summary + body, max_width),
        forall|k: int| 0 <= k < body.len() ==> (#[trigger] body[k]).len() <= inner_width(app, summary + body, max_width),
        shown_title(app, inner_width(app, summary + body, max_width)).len() <= sat_sub(inner_width(app, summary + body, max_width), 2) || shown_title(app, inner_width(app, summary + body, max_width)).len() == 1,
        inner_width(app, summary + body, max_width) >= 2,
    ensures
        ({
            let spec = compose_spec(app, summary, body, style, max_width);
            let inner = inner_width(app, summary + body, max_width);
            &&& spec.len() == 2 + summary.len() + body.len() + (if summary.len() > 0 && body.len() > 0 { 1int } else { 0 })
            &&& forall|k: int| 0 <= k < spec.len() ==> (#[trigger] spec[k]).len() == inner + 4
        }),
{
    let spec = compose_spec(app, summary, body, style, max_width);
    let inner = inner_width(app, summary + body, max_width);
    let b = border_spec(style);
    let ns = summary.len() as int;
    let sp: int = if summary.len() > 0 && body.len() > 0 {
        1
    } else {
        0
    };
    assert forall|k: int| 0 <= k < spec.len() implies (#[trigger] spec[k]).len() == inner + 4 by {
        if k == 0 {
        } else if k <= ns {
            assert(spec[k] == content_row(b, summary[k - 1], Role::Summary, inner));
        } else if k <= ns + sp {
            assert(spec[k] == content_row(b, Seq::empty(), Role::Body, inner));
        } else if k < spec.len() - 1 {
            assert(spec[k] == content_row(b, body[k - 1 - ns - sp], Role::Body, inner));
        } else {
            assert(spec[k] == bottom_row(b, inner + 4));
        }
    }
}

/// The frame's inner width and the title as it will be shown.
fn fit_title(app: &str, content_max: usize, max_width: usize) -> (r: (usize, Vec<char>))
    requires
        content_max <= max2(max_width as int, 2),
    ensures
        r.0 == ({
            let want = min2(trim(app@).len() as int, sat_sub(max_width as int, 2));
            let lo = want + 2;
            let hi = max2(max_width as int, lo);
            if content_max < lo { lo } else if content_max > hi { hi } else { content_max as int }
        }),
        r.1@ == shown_title(app@, r.0 as int),
        2 <= r.0 <= max2(max_width as int, 2),
        r.1@.len() <= sat_sub(r.0 as int, 2) || r.1@.len() == 1,
{
    let app_chars = chars_of(app);
    let mut title = trim_chars(&app_chars);
    let room = if max_width >= 2 {
        max_width - 2
    } else {
        0
    };
    let want = if title.len() <= room {
        title.len()
    } else {
        room
    };
    let lo = want + 2;
    let hi = if max_width >= lo {
        max_width
    } else {
        lo
    };
    let inner = if content_max < lo {
        lo
    } else if content_max > hi {
        hi
    } else {
        content_max
    };
    let inner_room = if inner >= 2 {
        inner - 2
    } else {
        0
    };
    if title.len() > inner_room {
        let k = if inner_room >= 1 {
            inner_room
        } else {
            1
        };
        title.truncate(k);
        title.set(k - 1, '…');
    }
    (inner, title)
}

proof fn lemma_longest_le(summary: Seq<String>, body: Seq<String>, bound: int)
    requires
        forall|k: int| 0 <= k < summary.len() ==> (#[trigger] summary[k])@.len() <= bound,
        forall|k: int| 0 <= k < body.len() ==> (#[trigger] body[k])@.len() <= bound,
        bound >= 0,
    ensures
        longest(str_views(summary) + str_views(body)) <= bound,
{
    let lines = str_views(summary) + str_views(body);
    lemma_longest_bound(lines);
    if lines.len() > 0 {
        let k = choose|k: int| 0 <= k < lines.len() && lines[k].len() == longest(lines);
        if k < summary.len() {
            assert(lines[k] == summary[k]@);
        } else {
            assert(lines[k] == body[k - summary.len()]@);
        }
    }
}

proof fn lemma_each_within(summary: Seq<String>, body: Seq<String>, bound: int)
    requires
        longest(str_views(summary) + str_views(body)) <= bound,
    ensures
        forall|k: int| 0 <= k < summary.len() ==> (#[trigger] summary[k])@.len() <= bound,
        forall|k: int| 0 <= k < body.len() ==> (#[trigger] body[k])@.len() <= bound,
        forall|k: int| 0 <= k < str_views(summary).len() ==> (#[trigger] str_views(summary)[k]).len() <= bound,
        forall|k: int| 0 <= k < str_views(body).len() ==> (#[trigger] str_views(body)[k]).len() <= bound,
{
    let lines = str_views(summary) + str_views(body);
    lemma_longest_bound(lines);
    assert forall|k: int| 0 <= k < summary.len() implies (#[trigger] summary[k])@.len() <= bound by {
        assert(lines[k] == summary[k]@);
    }
    assert forall|k: int| 0 <= k < body.len() implies (#[trigger] body[k])@.len() <= bound by {
        assert(lines[summary.len() + k] == body[k]@);
    }
}

fn make_top(b: BorderSet, title: &Vec<char>, width: usize) -> (top: Vec<Cell>)
    requires
        width >= 4,
        title@.len() == 0 || title@.len() + 5 <= width,
    ensures
        top@ == top_row(b, title@, width as int),
{
    let mut top: Vec<Cell> = Vec::new();
    top.push((b.tl, Role::Border));
    if title.len() == 0 {
        push_rep(&mut top, (b.h, Role::Border), width - 2);
    } else {
        top.push((b.h, Role::Border));
        top.push((' ', Role::Border));
        push_tagged(&mut top, title, Role::Title);
        top.push((' ', Role::Border));
        let used = 4 + title.len();
        push_rep(&mut top, (b.h, Role::Border), width - 1 - used);
    }
    top.push((b.tr, Role::Border));
    assert(top@ =~= top_row(b, title@, width as int));
    top
}

fn make_bottom(b: BorderSet, width: usize) -> (bottom: Vec<Cell>)
    requires
        width >= 2,
    ensures
        bottom@ == bottom_row(b, width as int),
{
    let mut bottom: Vec<Cell> = Vec::new();
    bottom.push((b.bl, Role::Border));
    push_rep(&mut bottom, (b.h, Role::Border), width - 2);
    bottom.push((b.br, Role::Border));
    assert(bottom@ =~= bottom_row(b, width as int));
    bottom
}

/// Compose one notification's frame. `summary`/`body` lines are already
/// wrapped to at most `max_width` columns; the frame hugs the longest line,
/// so every row is `inner + 4` cells wide (border, pad, text, pad, border).
/// The top border embeds the app name: `┌─ firefox ──────┐`.
pub fn compose(app: &str, summary: &[String], body: &[String], style: Style, max_width: usize) -> (g:
    Grid)
    requires
        inner_width(app@, str_views(summary@) + str_views(body@), max_width as int) <= usize::MAX - 4,
        forall|k: int|
            0 <= k < summary@.len() ==> (#[trigger] summary@[k])@.len() <= max2(max_width as int, 2),
        forall|k: int| 0 <= k < body@.len() ==> (#[trigger] body@[k])@.len() <= max2(max_width as int, 2),
    ensures
        grid_view(g@) == compose_spec(app@, str_views(summary@), str_views(body@), style, max_width as int),
        g@.len() == 2 + summary@.len() + body@.len() + (if summary@.len() > 0 && body@.len() > 0 { 1int } else { 0 }),
        forall|k: int| 0 <= k < g@.len() ==> (#[trigger] g@[k])@.len() == inner_width(
            app@,
            str_views(summary@) + str_views(body@),
            max_width as int,
        ) + 4,
        inner_width(app@, str_views(summary@) + str_views(body@), max_width as int) <= max2(
            max_width as int,
            2,
        ),
{
    let b = border_set(style);
    let ghost lines = str_views(summary@) + str_views(body@);
    let content_max = longest_line(summary, body);
    proof {
        lemma_longest_le(summary@, body@, max2(max_width as int, 2));
    }
    let (inner, title) = fit_title(app, content_max, max_width);
    assert(inner == inner_width(app@, lines, max_width as int));
    proof {
        lemma_each_within(summary@, body@, inner as int);
    }
    let width = inner + 4;
    let mut grid: Grid = Vec::new();
    let top = make_top(b, &title, width);
    grid.push(top);
    assert(grid_view(grid@) =~= seq![top_row(b, title@, width as int)]);
    push_content_rows(&mut grid, b, summary, Role::Summary, inner);
    if body.len() > 0 && summary.len() > 0 {
        let empty: Vec<char> = Vec::new();
        let spacer = make_content_row(b, &empty, Role::Body, inner);
        let ghost before = grid_view(grid@);
        grid.push(spacer);
        assert(grid_view(grid@) =~= before + seq![
            content_row(b, Seq::empty(), Role::Body, inner as int),
        ]);
    }
    push_content_rows(&mut grid, b, body, Role::Body, inner);
    let bottom = make_bottom(b, width);
    let ghost before = grid_view(grid@);
    grid.push(bottom);
    assert(grid_view(grid@) =~= before.push(bottom_row(b, width as int)));
    proof {
        let spec = compose_spec(app@, str_views(summary@), str_views(body@), style, max_width as int);
        assert(grid_view(grid@) =~= spec);
        lemma_rows_width(app@, str_views(summary@), str_views(body@), style, max_width as int);
        assert forall|k: int| 0 <= k < grid@.len() implies (#[trigger] grid@[k])@.len() == inner
            + 4 by {
            assert(grid@[k]@ == spec[k]);
        }
    }
    grid
}

} // verus!
