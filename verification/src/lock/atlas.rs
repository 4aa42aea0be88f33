//! Glyph bitmaps for the lock screen and the greeter: a shade block
//! rasterised by the font is stretched to fill a whole cell, and a line of
//! text is assembled from its characters' rasterised glyphs into one
//! coverage run.
use vstd::prelude::*;
use crate::lock::frame::TextRun;

verus! {

/// The coverage at cell pixel (`cx`, `cy`) of a `w`×`h` bitmap stretched
/// (nearest pixel) over a `cw`×`ch` cell.
pub open spec fn stretched(cov: Seq<u8>, w: int, h: int, cw: int, ch: int, cx: int, cy: int) -> u8 {
    let sx = cx * w / cw;
    let sy = cy * h / ch;
    let sx1 = if sx < w - 1 {
        sx
    } else {
        w - 1
    };
    let sy1 = if sy < h - 1 {
        sy
    } else {
        h - 1
    };
    cov[sy1 * w + sx1]
}

/// Stretch a `w`×`h` coverage bitmap over a `cw`×`ch` cell; an empty
/// bitmap gives an empty (all zero) cell.
pub fn stretch_to_cell(cov: &[u8], w: usize, h: usize, cw: usize, ch: usize) -> (out: Vec<u8>)
    requires
        w * h <= cov@.len(),
        cw * ch <= usize::MAX,
        cw * w <= usize::MAX,
        ch * h <= usize::MAX,
    ensures
        out@.len() == cw * ch,
        forall|cx: int, cy: int|
            0 <= cx < cw && 0 <= cy < ch ==> #[trigger] out@[cy * cw + cx] == if w == 0 || h == 0 {
                0u8
            } else {
                stretched(cov@, w as int, h as int, cw as int, ch as int, cx, cy)
            },
{
    let n = cw * ch;
    let mut out: Vec<u8> = Vec::new();
    if w == 0 || h == 0 {
        for i in 0..n
            invariant
                out@.len() == i,
                forall|k: int| 0 <= k < i ==> out@[k] == 0u8,
        {
            out.push(0);
        }
        proof {
            assert forall|cx: int, cy: int| 0 <= cx < cw && 0 <= cy < ch implies #[trigger] out@[cy * cw + cx] == 0u8 by {
                assert(0 <= cy * cw + cx < cw * ch) by (nonlinear_arith)
                    requires
                        0 <= cx < cw,
                        0 <= cy < ch,
                ;
            }
        }
        return out;
    }
    let clen = cov.len();
    assert(0 * cw == 0);
    for cy in 0..ch
        invariant
            w > 0,
            h > 0,
            w * h <= cov@.len(),
            clen == cov@.len(),
            n == cw * ch,
            cw * w <= usize::MAX,
            ch * h <= usize::MAX,
            out@.len() == cy * cw,
            forall|x: int, y: int|
                0 <= x < cw && 0 <= y < cy ==> #[trigger] out@[y * cw + x] == stretched(
                    cov@,
                    w as int,
                    h as int,
                    cw as int,
                    ch as int,
                    x,
                    y,
                ),
    {
        proof {
            assert(cy * h <= ch * h) by (nonlinear_arith)
                requires
                    cy < ch,
            ;
        }
        let sy0 = cy * h / ch;
        let sy = if sy0 < h - 1 {
            sy0
        } else {
            h - 1
        };
        proof {
            assert(sy * w + w <= w * h) by (nonlinear_arith)
                requires
                    sy < h,
                    w > 0,
            ;
        }
        for cx in 0..cw
            invariant
                w > 0,
                h > 0,
                w * h <= cov@.len(),
                clen == cov@.len(),
                cw * w <= usize::MAX,
                cy < ch,
                sy < h,
                sy * w + w <= w * h,
                sy as int == (if (cy * h) as int / (ch as int) < h - 1 {
                    (cy * h) as int / (ch as int)
                } else {
                    h - 1
                }),
                out@.len() == cy * cw + cx,
                forall|x: int, y: int|
                    0 <= x < cw && 0 <= y < cy ==> #[trigger] out@[y * cw + x] == stretched(
                        cov@,
                        w as int,
                        h as int,
                        cw as int,
                        ch as int,
                        x,
                        y,
                    ),
                forall|x: int|
                    0 <= x < cx ==> #[trigger] out@[cy * cw + x] == stretched(
                        cov@,
                        w as int,
                        h as int,
                        cw as int,
                        ch as int,
                        x,
                        cy as int,
                    ),
        {
            proof {
                assert(cx * w <= cw * w) by (nonlinear_arith)
                    requires
                        cx < cw,
                ;
            }
            let sx0 = cx * w / cw;
            let sx = if sx0 < w - 1 {
                sx0
            } else {
                w - 1
            };
            let ghost before = out@;
            out.push(cov[sy * w + sx]);
            proof {
                assert forall|x: int, y: int| 0 <= x < cw && 0 <= y < cy implies #[trigger] out@[y * cw + x] == stretched(
                    cov@,
                    w as int,
                    h as int,
                    cw as int,
                    ch as int,
                    x,
                    y,
                ) by {
                    assert(y * cw + x < cy * cw) by (nonlinear_arith)
                        requires
                            0 <= x < cw,
                            0 <= y < cy,
                    ;
                    assert(out@[y * cw + x] == before[y * cw + x]);
                }
                assert forall|x: int| 0 <= x < cx + 1 implies #[trigger] out@[cy * cw + x] == stretched(
                    cov@,
                    w as int,
                    h as int,
                    cw as int,
                    ch as int,
                    x,
                    cy as int,
                ) by {
                    if x < cx {
                        assert(out@[cy * cw + x] == before[cy * cw + x]);
                    }
                }
            }
        }
        proof {
            assert((cy + 1) * cw == cy * cw + cw) by (nonlinear_arith);
            assert forall|x: int, y: int| 0 <= x < cw && 0 <= y < cy + 1 implies #[trigger] out@[y * cw + x] == stretched(
                cov@,
                w as int,
                h as int,
                cw as int,
                ch as int,
                x,
                y,
            ) by {
                if y == cy {
                    assert(out@[cy * cw + x] == stretched(cov@, w as int, h as int, cw as int, ch as int, x, cy as int));
                }
            }
        }
    }
    assert(ch * cw == cw * ch) by (nonlinear_arith);
    out
}

/// One character's rasterised glyph: a `width`×`height` coverage bitmap
/// (row-major), its left offset from the pen and its bottom offset from
/// the baseline, and how far the pen then advances (whole pixels).
pub struct GlyphImage {
    pub xmin: i32,
    pub ymin: i32,
    pub width: usize,
    pub height: usize,
    pub advance: i32,
    pub cov: Vec<u8>,
}

pub open spec fn min_i(a: int, b: int) -> int {
    if a <= b {
        a
    } else {
        b
    }
}

pub open spec fn max_i(a: int, b: int) -> int {
    if a >= b {
        a
    } else {
        b
    }
}

/// The pen position before glyph `k`.
pub open spec fn pen(gs: Seq<GlyphImage>, k: int) -> int
    decreases k,
{
    if k <= 0 {
        0
    } else {
        pen(gs, k - 1) + gs[k - 1].advance
    }
}

/// The left edge of glyph `k`.
pub open spec fn left_of(gs: Seq<GlyphImage>, k: int) -> int {
    pen(gs, k) + gs[k].xmin
}

/// The top edge of glyph `k`, in rows below the baseline.
pub open spec fn top_edge(gs: Seq<GlyphImage>, k: int) -> int {
    -(gs[k].ymin + gs[k].height)
}

/// The highest top edge of the first `k` glyphs.
pub open spec fn run_top(gs: Seq<GlyphImage>, k: int) -> int
    decreases k,
{
    if k <= 0 {
        i32::MAX as int
    } else {
        min_i(run_top(gs, k - 1), top_edge(gs, k - 1))
    }
}

/// The lowest bottom edge of the first `k` glyphs.
pub open spec fn run_bottom(gs: Seq<GlyphImage>, k: int) -> int
    decreases k,
{
    if k <= 0 {
        i32::MIN as int
    } else {
        max_i(run_bottom(gs, k - 1), top_edge(gs, k - 1) + gs[k - 1].height)
    }
}

/// The leftmost left edge of the first `k` glyphs (`k` at least 1).
pub open spec fn run_left(gs: Seq<GlyphImage>, k: int) -> int
    decreases k,
{
    if k <= 1 {
        left_of(gs, 0)
    } else {
        min_i(run_left(gs, k - 1), left_of(gs, k - 1))
    }
}

pub open spec fn run_width(gs: Seq<GlyphImage>) -> int {
    max_i(pen(gs, gs.len() as int) - run_left(gs, gs.len() as int), 1)
}

pub open spec fn run_height(gs: Seq<GlyphImage>) -> int {
    max_i(run_bottom(gs, gs.len() as int) - run_top(gs, gs.len() as int), 1)
}

/// The coverage that a `gw`×`gh` bitmap laid with its top-left corner at
/// (`gx`, `gy`) puts at pixel (`x`, `y`); nothing outside it.
pub open spec fn covers(cov: Seq<u8>, gw: int, gh: int, gx: int, gy: int, x: int, y: int) -> int {
    if gx <= x < gx + gw && gy <= y < gy + gh {
        cov[(y - gy) * gw + (x - gx)] as int
    } else {
        0
    }
}

/// As `covers`, counting only the bitmap's first `lim` pixels in row-major
/// order.
pub open spec fn covers_upto(cov: Seq<u8>, gw: int, gh: int, gx: int, gy: int, x: int, y: int, lim: int) -> int {
    if gx <= x < gx + gw && gy <= y < gy + gh && (y - gy) * gw + (x - gx) < lim {
        cov[(y - gy) * gw + (x - gx)] as int
    } else {
        0
    }
}

/// What glyph `k` covers at run pixel (`x`, `y`).
pub open spec fn glyph_at(gs: Seq<GlyphImage>, k: int, x: int, y: int) -> int {
    let n = gs.len() as int;
    covers(
        gs[k].cov@,
        gs[k].width as int,
        gs[k].height as int,
        left_of(gs, k) - run_left(gs, n),
        top_edge(gs, k) - run_top(gs, n),
        x,
        y,
    )
}

/// The run's coverage at (`x`, `y`): the strongest of the first `k`
/// glyphs there.
pub open spec fn run_at(gs: Seq<GlyphImage>, k: int, x: int, y: int) -> int
    decreases k,
{
    if k <= 0 {
        0
    } else {
        max_i(run_at(gs, k - 1, x, y), glyph_at(gs, k - 1, x, y))
    }
}

pub open spec fn in_i32(v: int) -> bool {
    i32::MIN <= v <= i32::MAX
}

/// Every intermediate position of the run fits in 32 bits, each bitmap
/// holds its pixels, and the run's bitmap fits in memory.
pub open spec fn run_fits(gs: Seq<GlyphImage>) -> bool {
    let n = gs.len() as int;
    &&& forall|k: int| 0 <= k <= n ==> in_i32(#[trigger] pen(gs, k))
    &&& forall|k: int|
        0 <= k < n ==> {
            &&& in_i32(#[trigger] left_of(gs, k))
            &&& gs[k].height <= i32::MAX
            &&& in_i32(gs[k].ymin + gs[k].height)
            &&& in_i32(top_edge(gs, k))
            &&& in_i32(top_edge(gs, k) + gs[k].height)
            &&& gs[k].width * gs[k].height <= gs[k].cov@.len()
        }
    &&& n > 0 ==> in_i32(pen(gs, n) - run_left(gs, n))
    &&& n > 0 ==> in_i32(run_bottom(gs, n) - run_top(gs, n))
    &&& n > 0 ==> run_width(gs) * run_height(gs) <= usize::MAX
    &&& n > 0 ==> forall|k: int| 0 <= k < n ==> left_of(gs, k) - run_left(gs, n) + #[trigger] gs[k].width <= usize::MAX
}

proof fn lemma_bounds(gs: Seq<GlyphImage>, k: int)
    requires
        0 <= k < gs.len(),
    ensures
        run_left(gs, gs.len() as int) <= left_of(gs, k),
        run_top(gs, gs.len() as int) <= top_edge(gs, k),
        top_edge(gs, k) + gs[k].height <= run_bottom(gs, gs.len() as int),
{
    lemma_bounds_upto(gs, k, gs.len() as int);
}

proof fn lemma_bounds_upto(gs: Seq<GlyphImage>, k: int, m: int)
    requires
        0 <= k < m,
    ensures
        run_left(gs, m) <= left_of(gs, k),
        run_top(gs, m) <= top_edge(gs, k),
        top_edge(gs, k) + gs[k].height <= run_bottom(gs, m),
    decreases m,
{
    if m - 1 > k {
        lemma_bounds_upto(gs, k, m - 1);
    }
}

proof fn lemma_flat_unique(a: int, b: int, c: int, d: int, w: int)
    requires
        0 <= a,
        0 <= c,
        0 <= b < w,
        0 <= d < w,
        a * w + b == c * w + d,
    ensures
        a == c,
        b == d,
{
    if a < c {
        assert(a * w + b < c * w + d) by (nonlinear_arith)
            requires
                a < c,
                0 <= b < w,
                0 <= d,
        ;
    } else if c < a {
        assert(c * w + d < a * w + b) by (nonlinear_arith)
            requires
                c < a,
                0 <= d < w,
                0 <= b,
        ;
    }
}

proof fn lemma_flat_bound(x: int, y: int, w: int, h: int)
    requires
        0 <= x < w,
        0 <= y < h,
    ensures
        0 <= y * w + x < w * h,
        0 <= y * w + x < h * w,
{
    assert(0 <= y * w + x < w * h) by (nonlinear_arith)
        requires
            0 <= x < w,
            0 <= y < h,
    ;
    assert(w * h == h * w) by (nonlinear_arith);
}

/// Lay a `gw`×`gh` coverage bitmap onto a `width`×`height` one with its
/// top-left corner at (`gx`, `gy`), each pixel keeping the stronger of the
/// two coverages; what falls outside is dropped.
fn blit_glyph(out: &mut Vec<u8>, width: usize, height: usize, src: &Vec<u8>, gw: usize, gh: usize, gx: usize, gy: usize)
    requires
        old(out)@.len() == width * height,
        gw * gh <= src@.len(),
        gx + gw <= usize::MAX,
        gy + gh <= usize::MAX,
    ensures
        final(out)@.len() == width * height,
        forall|x: int, y: int|
            0 <= x < width && 0 <= y < height ==> #[trigger] final(out)@[y * width + x] as int == max_i(
                old(out)@[y * width + x] as int,
                covers(src@, gw as int, gh as int, gx as int, gy as int, x, y),
            ),
{
    let ghost orig = out@;
    let slen = src.len();
    let olen = out.len();
    assert(0 * gw == 0);
    for ry in 0..gh
        invariant
            orig.len() == width * height,
            out@.len() == width * height,
            gw * gh <= src@.len(),
            slen == src@.len(),
            olen == width * height,
            gx + gw <= usize::MAX,
            gy + gh <= usize::MAX,
            forall|x: int, y: int|
                0 <= x < width && 0 <= y < height ==> #[trigger] out@[y * width + x] as int == max_i(
                    orig[y * width + x] as int,
                    covers_upto(src@, gw as int, gh as int, gx as int, gy as int, x, y, ry * gw),
                ),
    {
        for rx in 0..gw
            invariant
                orig.len() == width * height,
                out@.len() == width * height,
                gw * gh <= src@.len(),
                slen == src@.len(),
                olen == width * height,
                gx + gw <= usize::MAX,
                gy + gh <= usize::MAX,
                ry < gh,
                forall|x: int, y: int|
                    0 <= x < width && 0 <= y < height ==> #[trigger] out@[y * width + x] as int == max_i(
                        orig[y * width + x] as int,
                        covers_upto(src@, gw as int, gh as int, gx as int, gy as int, x, y, ry * gw + rx),
                    ),
        {
            proof {
                lemma_flat_bound(rx as int, ry as int, gw as int, gh as int);
            }
            let lim = ry * gw + rx;
            let c = src[lim];
            let px = gx + rx;
            let py = gy + ry;
            let ghost before = out@;
            if px < width && py < height {
                proof {
                    lemma_flat_bound(px as int, py as int, width as int, height as int);
                }
                let idx = py * width + px;
                let old_v = out[idx];
                let v = if old_v < c {
                    c
                } else {
                    old_v
                };
                out.set(idx, v);
            }
            proof {
                assert forall|x: int, y: int| 0 <= x < width && 0 <= y < height implies #[trigger] out@[y * width + x] as int
                    == max_i(
                    orig[y * width + x] as int,
                    covers_upto(src@, gw as int, gh as int, gx as int, gy as int, x, y, ry * gw + rx + 1),
                ) by {
                    lemma_flat_bound(x, y, width as int, height as int);
                    let ghost was = covers_upto(src@, gw as int, gh as int, gx as int, gy as int, x, y, ry * gw + rx);
                    assert(before[y * width + x] as int == max_i(orig[y * width + x] as int, was));
                    if x == px && y == py {
                        assert(covers_upto(src@, gw as int, gh as int, gx as int, gy as int, x, y, ry * gw + rx + 1) == c as int);
                        assert(was == 0);
                    } else {
                        if gx <= x < gx + gw && gy <= y < gy + gh && (y - gy) * gw + (x - gx) == ry * gw + rx {
                            lemma_flat_unique(y - gy, x - gx, ry as int, rx as int, gw as int);
                        }
                        if px < width && py < height {
                            if y * width + x == py * width + px {
                                lemma_flat_unique(y, x, py as int, px as int, width as int);
                            }
                        }
                    }
                }
            }
        }
        proof {
            assert(ry * gw + gw == (ry + 1) * gw) by (nonlinear_arith);
        }
    }
    proof {
        assert forall|x: int, y: int| 0 <= x < width && 0 <= y < height implies #[trigger] out@[y * width + x] as int
            == max_i(orig[y * width + x] as int, covers(src@, gw as int, gh as int, gx as int, gy as int, x, y)) by {
            if gx <= x < gx + gw && gy <= y < gy + gh {
                lemma_flat_bound(x - gx, y - gy, gw as int, gh as int);
            }
            assert(covers_upto(src@, gw as int, gh as int, gx as int, gy as int, x, y, gh * gw) == covers(
                src@,
                gw as int,
                gh as int,
                gx as int,
                gy as int,
                x,
                y,
            ));
        }
    }
}

/// Assemble a line of text from its characters' glyphs, pen advancing
/// glyph to glyph: the run spans from the leftmost glyph edge to the final
/// pen position and from the highest glyph top to the lowest bottom (at
/// least one pixel each way); where glyphs overlap the stronger coverage
/// wins. None for no glyphs.
pub fn compose_run(gs: &Vec<GlyphImage>) -> (r: Option<TextRun>)
    requires
        run_fits(gs@),
    ensures
        match r {
            None => gs@.len() == 0,
            Some(run) => {
                &&& gs@.len() > 0
                &&& run.width == run_width(gs@)
                &&& run.height == run_height(gs@)
                &&& run.cov@.len() == run.width * run.height
                &&& forall|x: int, y: int|
                    0 <= x < run.width && 0 <= y < run.height ==> #[trigger] run.cov@[y * run.width + x] as int
                        == run_at(gs@, gs@.len() as int, x, y)
            },
        },
{
    assert(gs@.skip(0) =~= gs@);
    compose_run_from(gs, 0)
}

/// `compose_run` of the glyphs from index `from` on.
pub fn compose_run_from(gs: &Vec<GlyphImage>, from: usize) -> (r: Option<TextRun>)
    requires
        from <= gs@.len(),
        run_fits(gs@.skip(from as int)),
    ensures
        ({
            let g = gs@.skip(from as int);
            match r {
                None => g.len() == 0,
                Some(run) => {
                    &&& g.len() > 0
                    &&& run.width == run_width(g)
                    &&& run.height == run_height(g)
                    &&& run.cov@.len() == run.width * run.height
                    &&& forall|x: int, y: int|
                        0 <= x < run.width && 0 <= y < run.height ==> #[trigger] run.cov@[y * run.width + x] as int
                            == run_at(g, g.len() as int, x, y)
                },
            }
        }),
{
    let glen = gs.len();
    let n = glen - from;
    if n == 0 {
        return None;
    }
    let ghost g = gs@.skip(from as int);
    let mut pen_x: i32 = 0;
    let mut top: i32 = i32::MAX;
    let mut bot: i32 = i32::MIN;
    let mut left: i32 = 0;
    for k in 0..n
        invariant
            n == g.len(),
            g == gs@.skip(from as int),
            from + n == glen,
            glen == gs@.len(),
            n > 0,
            run_fits(g),
            pen_x == pen(g, k as int),
            top == run_top(g, k as int),
            bot == run_bottom(g, k as int),
            k > 0 ==> left == run_left(g, k as int),
    {
        let gl = &gs[from + k];
        assert(g[k as int] == gs@[from + k]);
        proof {
            assert(in_i32(pen(g, k + 1)));
            assert(in_i32(left_of(g, k as int)));
        }
        let x0 = pen_x + gl.xmin;
        let h = gl.height as i32;
        let y_top = -(gl.ymin + h);
        if k == 0 || x0 < left {
            left = x0;
        }
        if y_top < top {
            top = y_top;
        }
        if y_top + h > bot {
            bot = y_top + h;
        }
        pen_x = pen_x + gl.advance;
    }
    let width: usize = if pen_x - left > 1 {
        (pen_x - left) as usize
    } else {
        1
    };
    let height: usize = if bot - top > 1 {
        (bot - top) as usize
    } else {
        1
    };
    let total = width * height;
    let mut cov: Vec<u8> = Vec::new();
    for i in 0..total
        invariant
            cov@.len() == i,
            forall|j: int| 0 <= j < i ==> cov@[j] == 0u8,
    {
        cov.push(0);
    }
    let ghost nn = n as int;
    let mut pen2: i32 = 0;
    proof {
        assert forall|x: int, y: int| 0 <= x < width && 0 <= y < height implies #[trigger] cov@[y * width + x] as int
            == run_at(g, 0, x, y) by {
            lemma_flat_bound(x, y, width as int, height as int);
        }
    }
    for k in 0..n
        invariant
            n == g.len(),
            g == gs@.skip(from as int),
            from + n == glen,
            glen == gs@.len(),
            nn == n,
            run_fits(g),
            width == run_width(g),
            height == run_height(g),
            left == run_left(g, nn),
            top == run_top(g, nn),
            bot == run_bottom(g, nn),
            pen_x == pen(g, nn),
            pen2 == pen(g, k as int),
            cov@.len() == width * height,
            forall|x: int, y: int|
                0 <= x < width && 0 <= y < height ==> #[trigger] cov@[y * width + x] as int == run_at(g, k as int, x, y),
    {
        let gl = &gs[from + k];
        assert(g[k as int] == gs@[from + k]);
        proof {
            lemma_bounds(g, k as int);
            assert(in_i32(left_of(g, k as int)));
            assert(in_i32(pen(g, k + 1)));
            assert(left_of(g, k as int) - run_left(g, nn) + g[k as int].width <= usize::MAX);
        }
        let gw = gl.width;
        let gh = gl.height;
        let gx_i: i64 = pen2 as i64 + gl.xmin as i64 - left as i64;
        let gy_i: i64 = -(gl.ymin as i64 + gh as i64) - top as i64;
        let gx = gx_i as usize;
        let gy = gy_i as usize;
        let ghost prev = cov@;
        blit_glyph(&mut cov, width, height, &gl.cov, gw, gh, gx, gy);
        proof {
            assert forall|x: int, y: int| 0 <= x < width && 0 <= y < height implies #[trigger] cov@[y * width + x] as int
                == run_at(g, k + 1, x, y) by {
                assert(prev[y * width + x] as int == run_at(g, k as int, x, y));
                assert(glyph_at(g, k as int, x, y) == covers(gl.cov@, gw as int, gh as int, gx as int, gy as int, x, y));
            }
        }
        pen2 = pen2 + gl.advance;
    }
    Some(TextRun { width, height, cov })
}

} // verus!
