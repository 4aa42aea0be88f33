//! Glyph cells of the notification frame: a rasterised glyph placed into a
//! cell-sized coverage bitmap at its metrics, and the connection guard that
//! stretches box-drawing strokes to the cell edges so frame lines join.
use vstd::prelude::*;
use vstd::arithmetic::div_mod::{lemma_fundamental_div_mod, lemma_fundamental_div_mod_converse};

verus! {

/// U+2500 to U+257F, the box-drawing block.
pub open spec fn is_box_spec(c: char) -> bool {
    0x2500 <= (c as u32) <= 0x257f
}

pub fn is_box_drawing(c: char) -> (r: bool)
    ensures
        r == is_box_spec(c),
{
    '\u{2500}' <= c && c <= '\u{257F}'
}

/// Coverage at (`x`, `y`) of a `w`-wide bitmap.
pub open spec fn at(c: Seq<u8>, w: int, x: int, y: int) -> u8 {
    c[y * w + x]
}

pub open spec fn row_used(c: Seq<u8>, w: int, y: int) -> bool {
    exists|x: int| 0 <= x < w && #[trigger] at(c, w, x, y) != 0
}

pub open spec fn col_used(c: Seq<u8>, w: int, h: int, x: int) -> bool {
    exists|y: int| 0 <= y < h && #[trigger] at(c, w, x, y) != 0
}

/// First covered row at or below `y`.
pub open spec fn first_row(c: Seq<u8>, w: int, h: int, y: int) -> Option<int>
    decreases h - y,
{
    if y >= h {
        None
    } else if row_used(c, w, y) {
        Some(y)
    } else {
        first_row(c, w, h, y + 1)
    }
}

/// Last covered row above `j`.
pub open spec fn last_row(c: Seq<u8>, w: int, j: int) -> Option<int>
    decreases j,
{
    if j <= 0 {
        None
    } else if row_used(c, w, j - 1) {
        Some(j - 1)
    } else {
        last_row(c, w, j - 1)
    }
}

/// First covered column at or right of `x`.
pub open spec fn first_col(c: Seq<u8>, w: int, h: int, x: int) -> Option<int>
    decreases w - x,
{
    if x >= w {
        None
    } else if col_used(c, w, h, x) {
        Some(x)
    } else {
        first_col(c, w, h, x + 1)
    }
}

/// Last covered column left of `j`.
pub open spec fn last_col(c: Seq<u8>, w: int, h: int, j: int) -> Option<int>
    decreases j,
{
    if j <= 0 {
        None
    } else if col_used(c, w, h, j - 1) {
        Some(j - 1)
    } else {
        last_col(c, w, h, j - 1)
    }
}

/// Strokes stopping this close to an edge are stretched to it.
pub const GUARD: usize = 2;

pub open spec fn grid(w: int, h: int, f: spec_fn(int, int) -> u8) -> Seq<u8> {
    Seq::new((w * h) as nat, |i: int| f(i % w, i / w))
}

/// Rows above the first covered one copy it, when the gap is 1 or 2 rows.
pub open spec fn top_pass(c: Seq<u8>, w: int, h: int) -> Seq<u8> {
    match first_row(c, w, h, 0) {
        Some(t) if 1 <= t <= GUARD => grid(w, h, |x: int, y: int| remapped(c, w, true, 0, t, t, x, y)),
        _ => c,
    }
}

/// Rows below the last covered one copy it, when the gap is 1 or 2 rows.
pub open spec fn bottom_pass(c: Seq<u8>, w: int, h: int) -> Seq<u8> {
    match last_row(c, w, h) {
        Some(b) if 1 <= h - 1 - b <= GUARD => grid(w, h, |x: int, y: int| remapped(c, w, true, b + 1, h, b, x, y)),
        _ => c,
    }
}

/// Columns left of the first covered one copy it, when the gap is 1 or 2.
pub open spec fn left_pass(c: Seq<u8>, w: int, h: int) -> Seq<u8> {
    match first_col(c, w, h, 0) {
        Some(l) if 1 <= l <= GUARD => grid(w, h, |x: int, y: int| remapped(c, w, false, 0, l, l, x, y)),
        _ => c,
    }
}

/// Columns right of the last covered one copy it, when the gap is 1 or 2.
pub open spec fn right_pass(c: Seq<u8>, w: int, h: int) -> Seq<u8> {
    match last_col(c, w, h, w) {
        Some(r) if 1 <= w - 1 - r <= GUARD => grid(w, h, |x: int, y: int| remapped(c, w, false, r + 1, w, r, x, y)),
        _ => c,
    }
}

/// The connection guard: top, bottom, left, then right.
pub open spec fn connect_spec(c: Seq<u8>, w: int, h: int) -> Seq<u8> {
    right_pass(left_pass(bottom_pass(top_pass(c, w, h), w, h), w, h), w, h)
}

proof fn lemma_cell(w: int, h: int, x: int, y: int)
    requires
        0 <= x < w,
        0 <= y < h,
    ensures
        0 <= y * w + x < w * h,
        (y * w + x) % w == x,
        (y * w + x) / w == y,
{
    assert(0 <= y * w + x < w * h) by (nonlinear_arith)
        requires
            0 <= x < w,
            0 <= y < h,
    ;
    lemma_fundamental_div_mod_converse(y * w + x, w, y, x);
}

/// Two `w`×`h` bitmaps agreeing at every cell are equal.
proof fn lemma_grid_ext(a: Seq<u8>, b: Seq<u8>, w: int, h: int)
    requires
        0 < w,
        0 <= h,
        a.len() == w * h,
        b.len() == w * h,
        forall|x: int, y: int| 0 <= x < w && 0 <= y < h ==> #[trigger] at(a, w, x, y) == at(b, w, x, y),
    ensures
        a == b,
{
    assert forall|i: int| 0 <= i < a.len() implies a[i] == b[i] by {
        lemma_fundamental_div_mod(i, w);
        let y = i / w;
        let x = i % w;
        assert(0 <= y < h) by (nonlinear_arith)
            requires
                i == w * y + x,
                0 <= x < w,
                0 <= i < w * h,
                0 < w,
        ;
        assert(i == y * w + x) by (nonlinear_arith)
            requires
                i == w * y + x,
        ;
        assert(at(a, w, x, y) == at(b, w, x, y));
    }
    assert(a =~= b);
}

proof fn lemma_grid_at(w: int, h: int, f: spec_fn(int, int) -> u8, x: int, y: int)
    requires
        0 <= x < w,
        0 <= y < h,
    ensures
        at(grid(w, h, f), w, x, y) == f(x, y),
        grid(w, h, f).len() == w * h,
{
    lemma_cell(w, h, x, y);
    assert(0 <= w * h) by (nonlinear_arith)
        requires
            0 <= x < w,
            0 <= y < h,
    ;
}

fn row_has_ink(c: &Vec<u8>, w: usize, h: usize, y: usize) -> (r: bool)
    requires
        c@.len() == w * h,
        y < h,
    ensures
        r == row_used(c@, w as int, y as int),
{
    let n = c.len();
    for x in 0..w
        invariant
            n == c@.len(),
            c@.len() == w * h,
            y < h,
            forall|k: int| 0 <= k < x ==> #[trigger] at(c@, w as int, k, y as int) == 0,
    {
        proof {
            lemma_cell(w as int, h as int, x as int, y as int);
        }
        if c[y * w + x] != 0 {
            assert(at(c@, w as int, x as int, y as int) != 0);
            return true;
        }
    }
    false
}

fn col_has_ink(c: &Vec<u8>, w: usize, h: usize, x: usize) -> (r: bool)
    requires
        c@.len() == w * h,
        x < w,
    ensures
        r == col_used(c@, w as int, h as int, x as int),
{
    let n = c.len();
    for y in 0..h
        invariant
            n == c@.len(),
            c@.len() == w * h,
            x < w,
            forall|k: int| 0 <= k < y ==> #[trigger] at(c@, w as int, x as int, k) == 0,
    {
        proof {
            lemma_cell(w as int, h as int, x as int, y as int);
        }
        if c[y * w + x] != 0 {
            assert(at(c@, w as int, x as int, y as int) != 0);
            return true;
        }
    }
    false
}

fn find_first_row(c: &Vec<u8>, w: usize, h: usize) -> (r: Option<usize>)
    requires
        c@.len() == w * h,
    ensures
        match r {
            Some(t) => first_row(c@, w as int, h as int, 0) == Some(t as int) && t < h,
            None => first_row(c@, w as int, h as int, 0) is None,
        },
{
    let mut y: usize = 0;
    while y < h
        invariant
            c@.len() == w * h,
            y <= h,
            first_row(c@, w as int, h as int, 0) == first_row(c@, w as int, h as int, y as int),
        decreases h - y,
    {
        if row_has_ink(c, w, h, y) {
            return Some(y);
        }
        y += 1;
    }
    None
}

fn find_last_row(c: &Vec<u8>, w: usize, h: usize) -> (r: Option<usize>)
    requires
        c@.len() == w * h,
    ensures
        match r {
            Some(b) => last_row(c@, w as int, h as int) == Some(b as int) && b < h,
            None => last_row(c@, w as int, h as int) is None,
        },
{
    let mut j: usize = h;
    while j > 0
        invariant
            c@.len() == w * h,
            j <= h,
            last_row(c@, w as int, h as int) == last_row(c@, w as int, j as int),
        decreases j,
    {
        if row_has_ink(c, w, h, j - 1) {
            return Some(j - 1);
        }
        j -= 1;
    }
    None
}

fn find_first_col(c: &Vec<u8>, w: usize, h: usize) -> (r: Option<usize>)
    requires
        c@.len() == w * h,
    ensures
        match r {
            Some(l) => first_col(c@, w as int, h as int, 0) == Some(l as int) && l < w,
            None => first_col(c@, w as int, h as int, 0) is None,
        },
{
    let mut x: usize = 0;
    while x < w
        invariant
            c@.len() == w * h,
            x <= w,
            first_col(c@, w as int, h as int, 0) == first_col(c@, w as int, h as int, x as int),
        decreases w - x,
    {
        if col_has_ink(c, w, h, x) {
            return Some(x);
        }
        x += 1;
    }
    None
}

fn find_last_col(c: &Vec<u8>, w: usize, h: usize) -> (r: Option<usize>)
    requires
        c@.len() == w * h,
    ensures
        match r {
            Some(b) => last_col(c@, w as int, h as int, w as int) == Some(b as int) && b < w,
            None => last_col(c@, w as int, h as int, w as int) is None,
        },
{
    let mut j: usize = w;
    while j > 0
        invariant
            c@.len() == w * h,
            j <= w,
            last_col(c@, w as int, h as int, w as int) == last_col(c@, w as int, h as int, j as int),
        decreases j,
    {
        if col_has_ink(c, w, h, j - 1) {
            return Some(j - 1);
        }
        j -= 1;
    }
    None
}

/// The value cell (`x`, `y`) takes when rows `lo..hi` (or, with `rows`
/// false, columns `lo..hi`) are replaced by row (column) `from`.
pub open spec fn remapped(c: Seq<u8>, w: int, rows: bool, lo: int, hi: int, from: int, x: int, y: int) -> u8 {
    if rows {
        if lo <= y < hi {
            at(c, w, x, from)
        } else {
            at(c, w, x, y)
        }
    } else {
        if lo <= x < hi {
            at(c, w, from, y)
        } else {
            at(c, w, x, y)
        }
    }
}

/// Rebuild the bitmap with rows (or columns) `lo..hi` copied from `from`.
fn remap(c: &Vec<u8>, w: usize, h: usize, rows: bool, lo: usize, hi: usize, from: usize) -> (r: Vec<u8>)
    requires
        c@.len() == w * h,
        rows ==> from < h,
        !rows ==> from < w,
    ensures
        r@.len() == w * h,
        forall|x: int, y: int|
            0 <= x < w && 0 <= y < h ==> #[trigger] at(r@, w as int, x, y) == remapped(
                c@,
                w as int,
                rows,
                lo as int,
                hi as int,
                from as int,
                x,
                y,
            ),
{
    let mut r: Vec<u8> = Vec::new();
    let n = c.len();
    for y in 0..h
        invariant
            n == c@.len(),
            c@.len() == w * h,
            rows ==> from < h,
            !rows ==> from < w,
            r@.len() == y * w,
            forall|xx: int, yy: int|
                0 <= xx < w && 0 <= yy < y ==> #[trigger] at(r@, w as int, xx, yy) == remapped(
                    c@,
                    w as int,
                    rows,
                    lo as int,
                    hi as int,
                    from as int,
                    xx,
                    yy,
                ),
    {
        for x in 0..w
            invariant
                n == c@.len(),
                c@.len() == w * h,
                rows ==> from < h,
                !rows ==> from < w,
                y < h,
                r@.len() == y * w + x,
                forall|xx: int, yy: int|
                    0 <= xx < w && 0 <= yy < h && (yy < y || (yy == y && xx < x)) ==> #[trigger] at(
                        r@,
                        w as int,
                        xx,
                        yy,
                    ) == remapped(c@, w as int, rows, lo as int, hi as int, from as int, xx, yy),
        {
            let (sx, sy) = if rows {
                if lo <= y && y < hi {
                    (x, from)
                } else {
                    (x, y)
                }
            } else {
                if lo <= x && x < hi {
                    (from, y)
                } else {
                    (x, y)
                }
            };
            proof {
                lemma_cell(w as int, h as int, sx as int, sy as int);
            }
            let v = c[sy * w + sx];
            assert(v == at(c@, w as int, sx as int, sy as int));
            assert(v == remapped(c@, w as int, rows, lo as int, hi as int, from as int, x as int, y as int));
            let ghost before = r@;
            r.push(v);
            proof {
                lemma_cell(w as int, h as int, x as int, y as int);
                assert(r@[y * w + x] == v);
                assert forall|xx: int, yy: int|
                    0 <= xx < w && 0 <= yy < h && (yy < y || (yy == y && xx < x + 1)) implies #[trigger] at(
                    r@,
                    w as int,
                    xx,
                    yy,
                ) == remapped(c@, w as int, rows, lo as int, hi as int, from as int, xx, yy) by {
                    lemma_cell(w as int, h as int, xx, yy);
                    if !(yy == y && xx == x) {
                        assert(yy * w + xx < y * w + x) by (nonlinear_arith)
                            requires
                                0 <= xx < w,
                                (yy < y || (yy == y && xx < x)),
                        ;
                        assert(r@[yy * w + xx] == before[yy * w + xx]);
                        assert(at(before, w as int, xx, yy) == remapped(c@, w as int, rows, lo as int, hi as int, from as int, xx, yy));
                    }
                }
            }
        }
        assert((y + 1) * w == y * w + w) by (nonlinear_arith);
    }
    proof {
        assert(r@.len() == w * h) by (nonlinear_arith)
            requires
                r@.len() == h * w,
        ;
    }
    r
}

proof fn lemma_pass(c: Seq<u8>, r: Seq<u8>, pass: Seq<u8>, w: int, h: int, rows: bool, lo: int, hi: int, from: int)
    requires
        0 < w,
        0 <= h,
        c.len() == w * h,
        r.len() == w * h,
        forall|x: int, y: int| 0 <= x < w && 0 <= y < h ==> #[trigger] at(r, w, x, y) == remapped(c, w, rows, lo, hi, from, x, y),
        pass == grid(w, h, |x: int, y: int| remapped(c, w, rows, lo, hi, from, x, y)),
    ensures
        r == pass,
{
    let f = |x: int, y: int| remapped(c, w, rows, lo, hi, from, x, y);
    assert(0 <= w * h) by (nonlinear_arith)
        requires
            0 < w,
            0 <= h,
    ;
    assert forall|x: int, y: int| 0 <= x < w && 0 <= y < h implies #[trigger] at(r, w, x, y) == at(pass, w, x, y) by {
        lemma_grid_at(w, h, f, x, y);
    }
    lemma_grid_ext(r, pass, w, h);
}

/// Stretch box-drawing strokes that stop one or two pixels short of a cell
/// edge out to it, so strokes of neighbouring cells join: top, bottom,
/// left, then right.
pub fn connect_to_edges(cov: &mut Vec<u8>, w: usize, h: usize)
    requires
        old(cov)@.len() == w * h,
    ensures
        final(cov)@ == connect_spec(old(cov)@, w as int, h as int),
{
    if w == 0 {
        proof {
            assert(old(cov)@.len() == 0);
            assert(first_col(old(cov)@, 0, h as int, 0) is None);
            assert(last_col(old(cov)@, 0, h as int, 0) is None);
            lemma_no_rows_when_empty(old(cov)@, h as int);
        }
        return;
    }
    let ghost c0 = cov@;
    match find_first_row(cov, w, h) {
        Some(t) => {
            if 1 <= t && t <= GUARD {
                let r = remap(cov, w, h, true, 0, t, t);
                proof {
                    lemma_pass(c0, r@, top_pass(c0, w as int, h as int), w as int, h as int, true, 0, t as int, t as int);
                }
                *cov = r;
            }
        },
        None => {},
    }
    let ghost c1 = cov@;
    assert(c1 == top_pass(c0, w as int, h as int));
    match find_last_row(cov, w, h) {
        Some(b) => {
            if 1 <= h - 1 - b && h - 1 - b <= GUARD {
                let r = remap(cov, w, h, true, b + 1, h, b);
                proof {
                    lemma_pass(c1, r@, bottom_pass(c1, w as int, h as int), w as int, h as int, true, b + 1, h as int, b as int);
                }
                *cov = r;
            }
        },
        None => {},
    }
    let ghost c2 = cov@;
    assert(c2 == bottom_pass(c1, w as int, h as int));
    match find_first_col(cov, w, h) {
        Some(l) => {
            if 1 <= l && l <= GUARD {
                let r = remap(cov, w, h, false, 0, l, l);
                proof {
                    lemma_pass(c2, r@, left_pass(c2, w as int, h as int), w as int, h as int, false, 0, l as int, l as int);
                }
                *cov = r;
            }
        },
        None => {},
    }
    let ghost c3 = cov@;
    assert(c3 == left_pass(c2, w as int, h as int));
    match find_last_col(cov, w, h) {
        Some(rt) => {
            if 1 <= w - 1 - rt && w - 1 - rt <= GUARD {
                let r = remap(cov, w, h, false, rt + 1, w, rt);
                proof {
                    lemma_pass(c3, r@, right_pass(c3, w as int, h as int), w as int, h as int, false, rt + 1, w as int, rt as int);
                }
                *cov = r;
            }
        },
        None => {},
    }
}

proof fn lemma_no_rows_when_empty(c: Seq<u8>, h: int)
    requires
        c.len() == 0,
    ensures
        top_pass(c, 0, h) == c,
        bottom_pass(c, 0, h) == c,
{
    lemma_first_row_empty(c, h, 0);
    lemma_last_row_empty(c, h);
}

proof fn lemma_first_row_empty(c: Seq<u8>, h: int, y: int)
    ensures
        first_row(c, 0, h, y) is None,
    decreases h - y,
{
    if y < h {
        assert(!row_used(c, 0, y));
        lemma_first_row_empty(c, h, y + 1);
    }
}

proof fn lemma_last_row_empty(c: Seq<u8>, j: int)
    ensures
        last_row(c, 0, j) is None,
    decreases j,
{
    if j > 0 {
        assert(!row_used(c, 0, j - 1));
        lemma_last_row_empty(c, j - 1);
    }
}

/// A rasterised glyph: `gw`×`gh` coverage with its left edge at `xmin` and
/// its bottom edge `ymin` above the baseline.
pub struct Bitmap {
    pub gw: usize,
    pub gh: usize,
    pub xmin: i32,
    pub ymin: i32,
    pub cov: Vec<u8>,
}

/// Coverage at cell pixel (`x`, `y`) of a glyph drawn with its baseline
/// `ascent` pixels below the cell top; pixels outside the glyph are 0.
pub open spec fn placed(b: Bitmap, ascent: int, x: int, y: int) -> u8 {
    let y_top = ascent - (b.ymin + b.gh);
    let ry = y - y_top;
    let rx = x - b.xmin;
    if 0 <= ry < b.gh && 0 <= rx < b.gw {
        b.cov@[ry * b.gw + rx]
    } else {
        0
    }
}

/// The cell-sized (`cw`×`ch`) coverage of a glyph placed at its metrics.
pub fn place_glyph(b: &Bitmap, ascent: i32, cw: usize, ch: usize) -> (r: Vec<u8>)
    requires
        b.gh * b.gw <= b.cov@.len(),
        b.gh <= i32::MAX,
        b.gw <= i32::MAX,
        i32::MIN <= b.ymin + b.gh <= i32::MAX,
        i32::MIN <= ascent - (b.ymin + b.gh) <= i32::MAX,
        i32::MIN <= ascent - b.ymin <= i32::MAX,
        i32::MIN <= b.xmin + b.gw <= i32::MAX,
        cw * ch <= usize::MAX,
    ensures
        r@.len() == cw * ch,
        forall|x: int, y: int| 0 <= x < cw && 0 <= y < ch ==> #[trigger] at(r@, cw as int, x, y) == placed(*b, ascent as int, x, y),
{
    let y_top: i128 = ascent as i128 - (b.ymin as i128 + b.gh as i128);
    assert(b.gw * b.gh == b.gh * b.gw) by (nonlinear_arith);
    let mut r: Vec<u8> = Vec::new();
    let n = b.cov.len();
    assert(r@.len() == 0 * cw) by (nonlinear_arith)
        requires
            r@.len() == 0,
    ;
    for y in 0..ch
        invariant
            n == b.cov@.len(),
            b.gh * b.gw <= b.cov@.len(),
            b.gw * b.gh == b.gh * b.gw,
            y_top == ascent - (b.ymin + b.gh),
            b.gh <= i32::MAX,
            b.gw <= i32::MAX,
            r@.len() == y * cw,
            forall|xx: int, yy: int| 0 <= xx < cw && 0 <= yy < y ==> #[trigger] at(r@, cw as int, xx, yy) == placed(*b, ascent as int, xx, yy),
    {
        for x in 0..cw
            invariant
                n == b.cov@.len(),
                b.gh * b.gw <= b.cov@.len(),
                b.gw * b.gh == b.gh * b.gw,
                y_top == ascent - (b.ymin + b.gh),
                b.gh <= i32::MAX,
                b.gw <= i32::MAX,
                y < ch,
                r@.len() == y * cw + x,
                forall|xx: int, yy: int|
                    0 <= xx < cw && 0 <= yy < ch && (yy < y || (yy == y && xx < x)) ==> #[trigger] at(r@, cw as int, xx, yy)
                        == placed(*b, ascent as int, xx, yy),
        {
            let ry: i128 = y as i128 - y_top;
            let rx: i128 = x as i128 - b.xmin as i128;
            let v: u8 = if 0 <= ry && ry < b.gh as i128 && 0 <= rx && rx < b.gw as i128 {
                let ryu = ry as usize;
                let rxu = rx as usize;
                proof {
                    lemma_cell(b.gw as int, b.gh as int, rxu as int, ryu as int);
                }
                b.cov[ryu * b.gw + rxu]
            } else {
                0
            };
            assert(v == placed(*b, ascent as int, x as int, y as int));
            let ghost before = r@;
            r.push(v);
            proof {
                assert forall|xx: int, yy: int|
                    0 <= xx < cw && 0 <= yy < ch && (yy < y || (yy == y && xx < x + 1)) implies #[trigger] at(
                    r@,
                    cw as int,
                    xx,
                    yy,
                ) == placed(*b, ascent as int, xx, yy) by {
                    if yy == y && xx == x {
                        assert(r@[y * cw + x] == v);
                    } else {
                        assert(yy * cw + xx < y * cw + x) by (nonlinear_arith)
                            requires
                                0 <= xx < cw,
                                (yy < y || (yy == y && xx < x)),
                        ;
                        assert(0 <= yy * cw + xx) by (nonlinear_arith)
                            requires
                                0 <= xx < cw,
                                0 <= yy,
                        ;
                        assert(r@[yy * cw + xx] == before[yy * cw + xx]);
                        assert(at(before, cw as int, xx, yy) == placed(*b, ascent as int, xx, yy));
                    }
                }
            }
        }
        assert((y + 1) * cw == y * cw + cw) by (nonlinear_arith);
    }
    assert(r@.len() == cw * ch) by (nonlinear_arith)
        requires
            r@.len() == ch * cw,
    ;
    r
}

/// The cell-sized coverage of character `c`: the glyph placed at its
/// metrics, with the connection guard applied to box-drawing characters.
pub fn cell_coverage(c: char, b: &Bitmap, ascent: i32, cw: usize, ch: usize) -> (r: Vec<u8>)
    requires
        b.gh * b.gw <= b.cov@.len(),
        b.gh <= i32::MAX,
        b.gw <= i32::MAX,
        i32::MIN <= b.ymin + b.gh <= i32::MAX,
        i32::MIN <= ascent - (b.ymin + b.gh) <= i32::MAX,
        i32::MIN <= ascent - b.ymin <= i32::MAX,
        i32::MIN <= b.xmin + b.gw <= i32::MAX,
        cw * ch <= usize::MAX,
    ensures
        r@.len() == cw * ch,
        !is_box_spec(c) ==> forall|x: int, y: int|
            0 <= x < cw && 0 <= y < ch ==> #[trigger] at(r@, cw as int, x, y) == placed(*b, ascent as int, x, y),
        is_box_spec(c) ==> exists|p: Seq<u8>|
            p.len() == cw * ch && (forall|x: int, y: int|
                0 <= x < cw && 0 <= y < ch ==> #[trigger] at(p, cw as int, x, y) == placed(*b, ascent as int, x, y))
                && r@ == connect_spec(p, cw as int, ch as int),
{
    let mut r = place_glyph(b, ascent, cw, ch);
    if is_box_drawing(c) {
        let ghost p = r@;
        connect_to_edges(&mut r, cw, ch);
        assert(r@ == connect_spec(p, cw as int, ch as int));
    }
    r
}

} // verus!
