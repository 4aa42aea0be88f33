//! Popups onto the notification surface: ARGB8888 with premultiplied
//! alpha throughout. The canvas starts transparent, each popup fills its
//! rectangle with the translucent panel colour and glyphs composite over it
//! as opaque ink.
use vstd::prelude::*;
use crate::note::cfg::{Cfg, Rgb};
use crate::note::layout::{grid_view, Cell, Grid, Role};
use crate::note::state::Urgency;
use crate::raster::{in_rect, paint_px, paint_rect, painted, pixel, px_byte, reach, rows_reached, Fill, Paint};

verus! {

/// Ink colours of one popup, by role.
#[derive(Clone, Copy, Debug, PartialEq, Eq)]
pub struct Palette {
    pub border: [u8; 3],
    pub title: [u8; 3],
    pub summary: [u8; 3],
    pub body: [u8; 3],
}

/// A critical popup turns frame and title urgent and its summary to the
/// warning colour; others use the border, title and text colours.
pub open spec fn palette_spec(cfg: Cfg, urgency: Urgency) -> Palette {
    match urgency {
        Urgency::Critical => Palette { border: cfg.urgent.0, title: cfg.urgent.0, summary: cfg.warn.0, body: cfg.text.0 },
        _ => Palette { border: cfg.border.0, title: cfg.title.0, summary: cfg.text.0, body: cfg.text.0 },
    }
}

pub fn palette(cfg: &Cfg, urgency: Urgency) -> (p: Palette)
    ensures
        p == palette_spec(*cfg, urgency),
{
    match urgency {
        Urgency::Critical => Palette {
            border: cfg.urgent.to_u8(),
            title: cfg.urgent.to_u8(),
            summary: cfg.warn.to_u8(),
            body: cfg.text.to_u8(),
        },
        _ => Palette {
            border: cfg.border.to_u8(),
            title: cfg.title.to_u8(),
            summary: cfg.text.to_u8(),
            body: cfg.text.to_u8(),
        },
    }
}

pub open spec fn role_ink(p: Palette, role: Role) -> [u8; 3] {
    match role {
        Role::Border => p.border,
        Role::Title => p.title,
        Role::Summary => p.summary,
        Role::Body => p.body,
    }
}

impl Palette {
    pub fn for_role(&self, role: Role) -> (ink: [u8; 3])
        ensures
            ink == role_ink(*self, role),
    {
        match role {
            Role::Border => self.border,
            Role::Title => self.title,
            Role::Summary => self.summary,
            Role::Body => self.body,
        }
    }
}

/// Pixel height of a popup: one cell per row.
pub fn popup_height(grid: &Grid, cell_h: usize) -> (h: usize)
    requires
        grid@.len() * cell_h <= usize::MAX,
    ensures
        h == grid@.len() * cell_h,
{
    grid.len() * cell_h
}

/// Pixel width of a popup: one cell per column of its first row.
pub fn popup_width(grid: &Grid, cell_w: usize) -> (w: usize)
    requires
        grid@.len() > 0 ==> grid@[0]@.len() * cell_w <= usize::MAX,
    ensures
        w == (if grid@.len() == 0 { 0 } else { grid@[0]@.len() * cell_w }),
{
    if grid.len() == 0 {
        0
    } else {
        grid[0].len() * cell_w
    }
}

/// Fill the rectangle with the panel's premultiplied bytes, clipped to the
/// canvas; only the rows it reaches need to be in `canvas`.
pub fn fill_rect(canvas: &mut [u8], width: usize, height: usize, x0: usize, y0: usize, w: usize, h: usize, bg: [u8; 4])
    requires
        width * reach(y0 as int, h as int, height as int) * 4 <= old(canvas)@.len(),
    ensures
        painted(
            old(canvas)@,
            final(canvas)@,
            width as int,
            reach(y0 as int, h as int, height as int),
            x0 as int,
            y0 as int,
            w as int,
            h as int,
            Fill::Solid { bytes: bg },
        ),
{
    let p = Paint::Solid { bytes: bg };
    let rows = rows_reached(y0, h, height);
    paint_rect(canvas, width, rows, x0, y0, w, h, &p);
}

/// Painting only the rows a rectangle reaches is painting it on the whole
/// canvas.
proof fn lemma_painted_reach(
    before: Seq<u8>,
    after: Seq<u8>,
    width: int,
    height: int,
    x0: int,
    y0: int,
    w: int,
    h: int,
    p: Fill,
)
    requires
        painted(before, after, width, reach(y0, h, height), x0, y0, w, h, p),
        width * height * 4 <= before.len(),
        0 <= width,
        0 <= height,
        0 <= y0,
        0 <= h,
    ensures
        painted(before, after, width, height, x0, y0, w, h, p),
{
    let r = reach(y0, h, height);
    assert(width * r * 4 <= width * height * 4) by (nonlinear_arith)
        requires
            0 <= width,
            r <= height,
    ;
    assert forall|x: int, y: int, k: int|
        0 <= x < width && 0 <= y < height && 0 <= k < 4 implies #[trigger] after[px_byte(width, x, y, k)]
        == if in_rect(x, y, x0, y0, w, h) {
        paint_px(p, x - x0, y - y0, pixel(before, width, x, y))[k]
    } else {
        before[px_byte(width, x, y, k)]
    } by {
        if y >= r {
            assert(px_byte(width, x, y, k) >= width * r * 4) by (nonlinear_arith)
                requires
                    y >= r,
                    0 <= x,
                    0 <= k,
                    0 <= width,
                    px_byte(width, x, y, k) == (y * width + x) * 4 + k,
            ;
            assert(px_byte(width, x, y, k) < width * height * 4) by (nonlinear_arith)
                requires
                    0 <= x < width,
                    0 <= y < height,
                    0 <= k < 4,
                    px_byte(width, x, y, k) == (y * width + x) * 4 + k,
            ;
            assert(!in_rect(x, y, x0, y0, w, h));
        }
    }
}

/// Composite a glyph cell as opaque ink over the premultiplied canvas.
pub fn blit_cell(
    canvas: &mut [u8],
    width: usize,
    height: usize,
    x0: usize,
    y0: usize,
    cw: usize,
    ch: usize,
    cov: &[u8],
    ink: [u8; 3],
)
    requires
        width * height * 4 <= old(canvas)@.len(),
        ch * cw <= cov@.len(),
    ensures
        painted(
            old(canvas)@,
            final(canvas)@,
            width as int,
            height as int,
            x0 as int,
            y0 as int,
            cw as int,
            ch as int,
            Fill::Premul { cov: cov@, stride: cw as int, ink },
        ),
{
    let p = Paint::Premul { cov, stride: cw, ink };
    paint_rect(canvas, width, height, x0, y0, cw, ch, &p);
}

/// The coverage bitmap of each character the popups use, rasterised by
/// the caller, each character listed once.
pub struct GlyphBook {
    pub chars: Vec<char>,
    pub covs: Vec<Vec<u8>>,
}

impl GlyphBook {
    /// Characters listed once, one bitmap each, every bitmap covering a
    /// cell of `n` pixels.
    pub open spec fn wf(&self, n: int) -> bool {
        &&& self.chars@.len() == self.covs@.len()
        &&& forall|i: int, j: int| 0 <= i < j < self.chars@.len() ==> self.chars@[i] != self.chars@[j]
        &&& forall|i: int| 0 <= i < self.covs@.len() ==> n <= (#[trigger] self.covs@[i])@.len()
    }

    pub open spec fn has(&self, c: char) -> bool {
        exists|k: int| 0 <= k < self.chars@.len() && self.chars@[k] == c
    }

    /// The bitmap listed for `c`.
    pub open spec fn cov(&self, c: char) -> Seq<u8> {
        self.covs@[choose|k: int| 0 <= k < self.chars@.len() && self.chars@[k] == c]@
    }

    /// Look up the bitmap of `c`.
    pub fn cell(&self, c: char) -> (r: &[u8])
        requires
            self.wf(0),
            self.has(c),
        ensures
            r@ == self.cov(c),
    {
        let n = self.chars.len();
        let mut i: usize = 0;
        while i < n
            invariant
                n == self.chars@.len(),
                i <= n,
                self.wf(0),
                self.has(c),
                forall|j: int| 0 <= j < i ==> self.chars@[j] != c,
            decreases n - i,
        {
            if self.chars[i] == c {
                proof {
                    let k = choose|k: int| 0 <= k < self.chars@.len() && self.chars@[k] == c;
                    assert(k == i);
                }
                return self.covs[i].as_slice();
            }
            i = i + 1;
        }
        proof {
            let k = choose|k: int| 0 <= k < self.chars@.len() && self.chars@[k] == c;
            assert(self.chars@[k] == c);
        }
        self.covs[0].as_slice()
    }
}

/// The grid cell (row, column) whose glyph pixel (`x`, `y`) shows, for a
/// popup at (`x0`, `y0`) with `cw`×`ch` cells; blank cells show none.
pub open spec fn inked_cell(g: Seq<Seq<Cell>>, x0: int, y0: int, cw: int, ch: int, x: int, y: int) -> Option<(int, int)> {
    if cw > 0 && ch > 0 && x >= x0 && y >= y0 {
        let c = (x - x0) / cw;
        let r = (y - y0) / ch;
        if r < g.len() && c < g[r].len() && g[r][c].0 != ' ' {
            Some((r, c))
        } else {
            None
        }
    } else {
        None
    }
}

/// The glyph paint of grid cell (`r`, `c`).
pub open spec fn cell_fill(g: Seq<Seq<Cell>>, r: int, c: int, book: GlyphBook, pal: Palette, cw: int) -> Fill {
    Fill::Premul { cov: book.cov(g[r][c].0), stride: cw, ink: role_ink(pal, g[r][c].1) }
}

/// The columns of a popup: the length of its first row.
pub open spec fn grid_cols(g: Seq<Seq<Cell>>) -> int {
    if g.len() == 0 {
        0
    } else {
        g[0].len() as int
    }
}

/// Pixel (`x`, `y`) once a popup is drawn over `old`: the panel colour
/// fills the popup's rectangle, and each non-blank cell composites its
/// glyph in its role's ink over that.
pub open spec fn popup_px(
    old: Seq<u8>,
    width: int,
    g: Seq<Seq<Cell>>,
    book: GlyphBook,
    pal: Palette,
    bg: [u8; 4],
    x0: int,
    y0: int,
    cw: int,
    ch: int,
    x: int,
    y: int,
) -> Seq<u8> {
    let base = if in_rect(x, y, x0, y0, grid_cols(g) * cw, g.len() * ch) {
        bg@
    } else {
        pixel(old, width, x, y)
    };
    match inked_cell(g, x0, y0, cw, ch, x, y) {
        Some((r, c)) => paint_px(cell_fill(g, r, c, book, pal, cw), x - x0 - c * cw, y - y0 - r * ch, base),
        None => base,
    }
}

/// Every non-blank character of the grid is in the book.
pub open spec fn book_covers(book: GlyphBook, g: Seq<Seq<Cell>>) -> bool {
    forall|r: int, c: int| 0 <= r < g.len() && 0 <= c < g[r].len() && g[r][c].0 != ' ' ==> book.has(#[trigger] g[r][c].0)
}

/// Draw one popup at (`x0`, `y0`): the translucent panel over its
/// rectangle, then every non-blank cell's glyph in its role's ink, all
/// clipped to the canvas.
pub fn draw_popup(
    canvas: &mut [u8],
    width: usize,
    height: usize,
    x0: usize,
    y0: usize,
    grid: &Grid,
    cw: usize,
    ch: usize,
    book: &GlyphBook,
    pal: &Palette,
    bg: [u8; 4],
)
    requires
        width * height * 4 <= old(canvas)@.len(),
        book.wf(ch * cw),
        book_covers(*book, grid_view(grid@)),
        y0 + grid@.len() * ch <= usize::MAX,
        forall|r: int| 0 <= r < grid@.len() ==> x0 + (#[trigger] grid@[r])@.len() * cw <= usize::MAX,
    ensures
        final(canvas)@.len() == old(canvas)@.len(),
        forall|x: int, y: int, k: int|
            0 <= x < width && 0 <= y < height && 0 <= k < 4 ==> #[trigger] final(canvas)@[px_byte(
                width as int,
                x,
                y,
                k,
            )] == popup_px(
                old(canvas)@,
                width as int,
                grid_view(grid@),
                *book,
                *pal,
                bg,
                x0 as int,
                y0 as int,
                cw as int,
                ch as int,
                x,
                y,
            )[k],
        forall|i: int| width * height * 4 <= i < old(canvas)@.len() ==> #[trigger] final(canvas)@[i] == old(canvas)@[i],
{
    let ghost g = grid_view(grid@);
    let ghost w = width as int;
    let ghost h = height as int;
    let rows = grid.len();
    let cols = if rows == 0 {
        0
    } else {
        grid[0].len()
    };
    proof {
        if rows > 0 {
            assert(x0 + grid@[0]@.len() * cw <= usize::MAX);
        }
        assert(cols * cw <= usize::MAX) by (nonlinear_arith)
            requires
                x0 + cols * cw <= usize::MAX || cols == 0,
                x0 >= 0,
        ;
        assert(rows * ch <= usize::MAX) by (nonlinear_arith)
            requires
                y0 + rows * ch <= usize::MAX,
                y0 >= 0,
        ;
        assert forall|x: int, y: int, k: int| 0 <= x < w && 0 <= y < h && 0 <= k < 4 implies 0 <= #[trigger] px_byte(
            w,
            x,
            y,
            k,
        ) < w * h * 4 by {
            assert((y * w + x) * 4 + k < w * h * 4) by (nonlinear_arith)
                requires
                    0 <= x < w,
                    0 <= y < h,
                    0 <= k < 4,
            ;
            assert(0 <= (y * w + x) * 4 + k) by (nonlinear_arith)
                requires
                    0 <= x,
                    0 <= y,
                    0 <= k,
                    0 <= w,
            ;
        }
    }
    let ghost before = canvas@;
    proof {
        assert(width * reach(y0 as int, (rows * ch) as int, height as int) * 4 <= width * height * 4) by (nonlinear_arith)
            requires
                reach(y0 as int, (rows * ch) as int, height as int) <= height,
        ;
    }
    fill_rect(canvas, width, height, x0, y0, cols * cw, rows * ch, bg);
    proof {
        lemma_painted_reach(
            before,
            canvas@,
            width as int,
            height as int,
            x0 as int,
            y0 as int,
            (cols * cw) as int,
            (rows * ch) as int,
            Fill::Solid { bytes: bg },
        );
    }
    let ghost filled = canvas@;
    for row in 0..rows
        invariant
            rows == grid@.len(),
            g == grid_view(grid@),
            w == width as int,
            h == height as int,
            width * height * 4 <= canvas@.len(),
            canvas@.len() == filled.len(),
            book.wf(ch * cw),
            book_covers(*book, g),
            y0 + rows * ch <= usize::MAX,
            forall|r: int| 0 <= r < grid@.len() ==> x0 + (#[trigger] grid@[r])@.len() * cw <= usize::MAX,
            forall|x: int, y: int, k: int|
                0 <= x < w && 0 <= y < h && 0 <= k < 4 ==> 0 <= #[trigger] px_byte(w, x, y, k) < w * h * 4,
            forall|x: int, y: int, k: int|
                0 <= x < width && 0 <= y < height && 0 <= k < 4 ==> #[trigger] canvas@[px_byte(w, x, y, k)]
                    == match inked_cell(g, x0 as int, y0 as int, cw as int, ch as int, x, y) {
                    Some((r, c)) => if r < row {
                        paint_px(
                            cell_fill(g, r, c, *book, *pal, cw as int),
                            x - x0 - c * cw,
                            y - y0 - r * ch,
                            pixel(filled, w, x, y),
                        )[k]
                    } else {
                        filled[px_byte(w, x, y, k)]
                    },
                    None => filled[px_byte(w, x, y, k)],
                },
            forall|i: int| width * height * 4 <= i < canvas@.len() ==> #[trigger] canvas@[i] == filled[i],
    {
        let cells = &grid[row];
        let n = cells.len();
        proof {
            assert(x0 + n * cw <= usize::MAX);
            assert(row * ch + ch <= rows * ch) by (nonlinear_arith)
                requires
                    row < rows,
            ;
        }
        let yc = y0 + row * ch;
        for col in 0..n
            invariant
                rows == grid@.len(),
                row < rows,
                g == grid_view(grid@),
                cells@ == g[row as int],
                n == cells@.len(),
                yc == y0 + row * ch,
                x0 + n * cw <= usize::MAX,
                w == width as int,
                h == height as int,
                width * height * 4 <= canvas@.len(),
                canvas@.len() == filled.len(),
                book.wf(ch * cw),
                book_covers(*book, g),
                forall|x: int, y: int, k: int|
                    0 <= x < w && 0 <= y < h && 0 <= k < 4 ==> 0 <= #[trigger] px_byte(w, x, y, k) < w * h * 4,
                forall|x: int, y: int, k: int|
                    0 <= x < width && 0 <= y < height && 0 <= k < 4 ==> #[trigger] canvas@[px_byte(w, x, y, k)]
                        == match inked_cell(g, x0 as int, y0 as int, cw as int, ch as int, x, y) {
                        Some((r, c)) => if r < row || (r == row && c < col) {
                            paint_px(
                                cell_fill(g, r, c, *book, *pal, cw as int),
                                x - x0 - c * cw,
                                y - y0 - r * ch,
                                pixel(filled, w, x, y),
                            )[k]
                        } else {
                            filled[px_byte(w, x, y, k)]
                        },
                        None => filled[px_byte(w, x, y, k)],
                    },
                forall|i: int| width * height * 4 <= i < canvas@.len() ==> #[trigger] canvas@[i] == filled[i],
        {
            let (chr, role) = cells[col];
            if chr != ' ' {
                proof {
                    assert(g[row as int][col as int] == (chr, role));
                    assert(book.has(g[row as int][col as int].0));
                    assert(col * cw + cw <= n * cw) by (nonlinear_arith)
                        requires
                            col < n,
                    ;
                }
                let ink = pal.for_role(role);
                let cov = book.cell(chr);
                let xc = x0 + col * cw;
                let ghost pre = canvas@;
                blit_cell(canvas, width, height, xc, yc, cw, ch, cov, ink);
                proof {
                    assert forall|x: int, y: int, k: int|
                        0 <= x < width && 0 <= y < height && 0 <= k < 4 implies #[trigger] canvas@[px_byte(w, x, y, k)]
                            == match inked_cell(g, x0 as int, y0 as int, cw as int, ch as int, x, y) {
                            Some((r, c)) => if r < row || (r == row && c < col + 1) {
                                paint_px(
                                    cell_fill(g, r, c, *book, *pal, cw as int),
                                    x - x0 - c * cw,
                                    y - y0 - r * ch,
                                    pixel(filled, w, x, y),
                                )[k]
                            } else {
                                filled[px_byte(w, x, y, k)]
                            },
                            None => filled[px_byte(w, x, y, k)],
                        } by {
                        if cw > 0 && ch > 0 && x >= x0 && y >= y0 {
                            crate::lock::scene::lemma_cell_of(x - x0, col as int, cw as int);
                            crate::lock::scene::lemma_cell_of(y - y0, row as int, ch as int);
                        }
                        if in_rect(x, y, xc as int, yc as int, cw as int, ch as int) {
                            assert(cw > 0 && ch > 0);
                            crate::lock::scene::lemma_cell_of(x - x0, col as int, cw as int);
                            crate::lock::scene::lemma_cell_of(y - y0, row as int, ch as int);
                            let pp = pixel(pre, w, x, y);
                            let pf = pixel(filled, w, x, y);
                            assert(0 <= px_byte(w, x, y, 0));
                            assert(px_byte(w, x, y, 3) < w * h * 4);
                            assert(pp =~= pf) by {
                                assert forall|j: int| 0 <= j < 4 implies pp[j] == pf[j] by {
                                    assert(pre[px_byte(w, x, y, j)] == filled[px_byte(w, x, y, j)]);
                                }
                            }
                        }
                    }
                }
            } else {
                proof {
                    assert forall|x: int, y: int, k: int|
                        0 <= x < width && 0 <= y < height && 0 <= k < 4 implies #[trigger] canvas@[px_byte(w, x, y, k)]
                            == match inked_cell(g, x0 as int, y0 as int, cw as int, ch as int, x, y) {
                            Some((r, c)) => if r < row || (r == row && c < col + 1) {
                                paint_px(
                                    cell_fill(g, r, c, *book, *pal, cw as int),
                                    x - x0 - c * cw,
                                    y - y0 - r * ch,
                                    pixel(filled, w, x, y),
                                )[k]
                            } else {
                                filled[px_byte(w, x, y, k)]
                            },
                            None => filled[px_byte(w, x, y, k)],
                        } by {
                        assert(g[row as int][col as int].0 == ' ');
                    }
                }
            }
        }
    }
    proof {
        assert forall|x: int, y: int, k: int|
            0 <= x < width && 0 <= y < height && 0 <= k < 4 implies #[trigger] canvas@[px_byte(w, x, y, k)] == popup_px(
                before,
                w,
                g,
                *book,
                *pal,
                bg,
                x0 as int,
                y0 as int,
                cw as int,
                ch as int,
                x,
                y,
            )[k] by {
            let base = if in_rect(x, y, x0 as int, y0 as int, grid_cols(g) * cw, g.len() * ch) {
                bg@
            } else {
                pixel(before, w, x, y)
            };
            let pf = pixel(filled, w, x, y);
            assert(0 <= px_byte(w, x, y, 0));
            assert(px_byte(w, x, y, 3) < w * h * 4);
            assert(pf =~= base) by {
                assert forall|j: int| 0 <= j < 4 implies pf[j] == base[j] by {
                    assert(filled[px_byte(w, x, y, j)] == base[j]);
                }
            }
            assert(filled[px_byte(w, x, y, k)] == base[k]);
        }
    }
}

} // verus!
