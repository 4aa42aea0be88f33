//! The cell grid of the lock screen and the greeter: each screen cell is
//! classified once (a cube-face cell or the ember backdrop), sampled per
//! frame into a shade glyph and a colour, and drawn as that glyph's
//! coverage over black.
use vstd::prelude::*;
use crate::lock::frame::blit_cell;
use crate::raster::{paint_px, pixel, px_byte, Fill};

verus! {

/// Shade-block density steps (░ ▒ ▓ █).
#[derive(Clone, Copy, Debug, PartialEq, Eq, Structural)]
pub enum Glyph {
    Light,
    Medium,
    Dark,
    Full,
}

pub open spec fn glyph_char(g: Glyph) -> char {
    match g {
        Glyph::Light => '\u{2591}',
        Glyph::Medium => '\u{2592}',
        Glyph::Dark => '\u{2593}',
        Glyph::Full => '\u{2588}',
    }
}

/// The next denser step; `Full` stays.
pub open spec fn bump_spec(g: Glyph) -> Glyph {
    match g {
        Glyph::Light => Glyph::Medium,
        Glyph::Medium => Glyph::Dark,
        _ => Glyph::Full,
    }
}

/// The density rank of a glyph, lightest first.
pub open spec fn rank(g: Glyph) -> int {
    match g {
        Glyph::Light => 0,
        Glyph::Medium => 1,
        Glyph::Dark => 2,
        Glyph::Full => 3,
    }
}

impl Glyph {
    /// The block character drawn for this step.
    pub fn ch(self) -> (c: char)
        ensures
            c == glyph_char(self),
    {
        match self {
            Glyph::Light => '\u{2591}',
            Glyph::Medium => '\u{2592}',
            Glyph::Dark => '\u{2593}',
            Glyph::Full => '\u{2588}',
        }
    }

    /// One step denser, saturating at `Full`.
    pub fn bump(self) -> (g: Glyph)
        ensures
            g == bump_spec(self),
    {
        match self {
            Glyph::Light => Glyph::Medium,
            Glyph::Medium => Glyph::Dark,
            _ => Glyph::Full,
        }
    }
}

/// Bumping never makes a glyph lighter, and it reaches `Full` within three
/// steps from any glyph.
pub proof fn bump_is_monotone(g: Glyph)
    ensures
        rank(bump_spec(g)) >= rank(g),
        rank(bump_spec(g)) <= 3,
        bump_spec(bump_spec(bump_spec(g))) == Glyph::Full,
        g != Glyph::Full ==> rank(bump_spec(g)) == rank(g) + 1,
{
}

/// What one grid cell renders as this frame.
#[derive(Clone, Copy, Debug, PartialEq)]
pub struct CellPaint {
    pub glyph: Glyph,
    pub color: [u8; 3],
}

/// Where a screen cell takes its look from: a cell of one of the three
/// cube faces (with its board position and 3×3 panel), or the backdrop.
#[derive(Clone, Copy, Debug, PartialEq, Eq, Structural)]
pub enum CellSource {
    Face { face: u8, bx: u16, by: u16, panel: u8 },
    Ember,
}

/// The coverage bitmap of each glyph, one cell (`cw`×`ch`) each.
pub struct GlyphCells {
    pub light: Vec<u8>,
    pub medium: Vec<u8>,
    pub dark: Vec<u8>,
    pub full: Vec<u8>,
}

impl GlyphCells {
    pub open spec fn cov(&self, g: Glyph) -> Seq<u8> {
        match g {
            Glyph::Light => self.light@,
            Glyph::Medium => self.medium@,
            Glyph::Dark => self.dark@,
            Glyph::Full => self.full@,
        }
    }

    /// Each bitmap covers a cell of `n` pixels.
    pub open spec fn fits(&self, n: int) -> bool {
        &&& n <= self.light@.len()
        &&& n <= self.medium@.len()
        &&& n <= self.dark@.len()
        &&& n <= self.full@.len()
    }

    /// The coverage bitmap of glyph `g`.
    pub fn cell(&self, g: Glyph) -> (r: &[u8])
        ensures
            r@ == self.cov(g),
    {
        match g {
            Glyph::Light => self.light.as_slice(),
            Glyph::Medium => self.medium.as_slice(),
            Glyph::Dark => self.dark.as_slice(),
            Glyph::Full => self.full.as_slice(),
        }
    }
}

pub open spec fn black() -> Seq<u8> {
    seq![0u8, 0u8, 0u8, 0u8]
}

/// The bytes of pixel (`x`, `y`) once the grid is drawn: the pixel belongs
/// to cell (`x / cw`, `y / ch`); a painted cell shows its glyph's
/// coverage of its colour over black, anything else stays black.
pub open spec fn grid_px(
    paints: Seq<Option<CellPaint>>,
    cells: GlyphCells,
    cols: int,
    rows: int,
    cw: int,
    ch: int,
    x: int,
    y: int,
) -> Seq<u8> {
    let col = x / cw;
    let row = y / ch;
    if col < cols && row < rows {
        match paints[row * cols + col] {
            Some(p) => paint_px(
                Fill::Cover { cov: cells.cov(p.glyph), stride: cw, color: p.color },
                x - col * cw,
                y - row * ch,
                black(),
            ),
            None => black(),
        }
    } else {
        black()
    }
}

/// A pixel lies in column `c` of `w`-wide cells exactly when `x / w == c`.
pub(crate) proof fn lemma_cell_of(x: int, c: int, w: int)
    requires
        w > 0,
        x >= 0,
        c >= 0,
    ensures
        (c * w <= x < c * w + w) <==> x / w == c,
{
    vstd::arithmetic::div_mod::lemma_fundamental_div_mod(x, w);
    let q = x / w;
    let r = x % w;
    assert(0 <= r < w);
    if c * w <= x && x < c * w + w {
        assert(q == c) by (nonlinear_arith)
            requires
                x == w * q + r,
                0 <= r < w,
                c * w <= x < c * w + w,
                w > 0,
        ;
    }
    if q == c {
        assert(c * w <= x < c * w + w) by (nonlinear_arith)
            requires
                x == w * q + r,
                0 <= r < w,
                q == c,
        ;
    }
}

/// Clear the canvas to black and draw every painted cell of a
/// `cols`×`rows` grid of `cw`×`ch` cells, row by row, clipped to the
/// canvas. `paints` holds the cells row-major.
pub fn draw_cells(
    canvas: &mut [u8],
    width: usize,
    height: usize,
    cols: usize,
    rows: usize,
    cw: usize,
    ch: usize,
    paints: &Vec<Option<CellPaint>>,
    cells: &GlyphCells,
)
    requires
        width * height * 4 <= old(canvas)@.len(),
        cw > 0,
        ch > 0,
        width + cw <= usize::MAX,
        height + ch <= usize::MAX,
        paints@.len() == rows * cols,
        cells.fits(ch * cw),
    ensures
        final(canvas)@.len() == old(canvas)@.len(),
        forall|x: int, y: int, k: int|
            0 <= x < width && 0 <= y < height && 0 <= k < 4 ==> #[trigger] final(canvas)@[px_byte(
                width as int,
                x,
                y,
                k,
            )] == grid_px(paints@, *cells, cols as int, rows as int, cw as int, ch as int, x, y)[k],
        forall|i: int| width * height * 4 <= i < final(canvas)@.len() ==> #[trigger] final(canvas)@[i] == 0,
{
    let n = canvas.len();
    let mut i: usize = 0;
    while i < n
        invariant
            n == canvas@.len(),
            i <= n,
            forall|j: int| 0 <= j < i ==> #[trigger] canvas@[j] == 0,
        decreases n - i,
    {
        canvas[i] = 0;
        i = i + 1;
    }
    let ghost w = width as int;
    let ghost h = height as int;
    proof {
        assert forall|x: int, y: int, k: int| 0 <= x < w && 0 <= y < h && 0 <= k < 4 implies 0 <= #[trigger] px_byte(
            w,
            x,
            y,
            k,
        ) < w * h * 4 by {
            assert((y * w + x) * 4 + k < w * h * 4) by (nonlinear_arith)
                requires
                    0 <= x < w,
                    0 <= y < h,
                    0 <= k < 4,
            ;
            assert(0 <= (y * w + x) * 4 + k) by (nonlinear_arith)
                requires
                    0 <= x,
                    0 <= y,
                    0 <= k,
                    0 <= w,
            ;
        }
    }
    let mut row: usize = 0;
    let mut y0: usize = 0;
    while row < rows && y0 < height
        invariant
            n == canvas@.len(),
            width * height * 4 <= n,
            cw > 0,
            ch > 0,
            width + cw <= usize::MAX,
            height + ch <= usize::MAX,
            paints@.len() == rows * cols,
            cells.fits(ch * cw),
            w == width as int,
            h == height as int,
            row <= rows,
            y0 == row * ch,
            forall|x: int, y: int, k: int|
                0 <= x < w && 0 <= y < h && 0 <= k < 4 ==> 0 <= #[trigger] px_byte(w, x, y, k) < w * h * 4,
            forall|x: int, y: int, k: int|
                0 <= x < width && 0 <= y < height && 0 <= k < 4 ==> #[trigger] canvas@[px_byte(
                    width as int,
                    x,
                    y,
                    k,
                )] == if y / (ch as int) < row {
                    grid_px(paints@, *cells, cols as int, rows as int, cw as int, ch as int, x, y)[k]
                } else {
                    0u8
                },
            forall|i: int| width * height * 4 <= i < n ==> #[trigger] canvas@[i] == 0,
        decreases rows - row,
    {
        let mut col: usize = 0;
        let mut x0: usize = 0;
        while col < cols && x0 < width
            invariant
                n == canvas@.len(),
                width * height * 4 <= n,
                cw > 0,
                ch > 0,
                width + cw <= usize::MAX,
                paints@.len() == rows * cols,
                cells.fits(ch * cw),
                w == width as int,
                h == height as int,
                row < rows,
                y0 == row * ch,
                y0 < height,
                col <= cols,
                x0 == col * cw,
                forall|x: int, y: int, k: int|
                    0 <= x < w && 0 <= y < h && 0 <= k < 4 ==> 0 <= #[trigger] px_byte(w, x, y, k) < w * h * 4,
                forall|x: int, y: int, k: int|
                    0 <= x < width && 0 <= y < height && 0 <= k < 4 ==> #[trigger] canvas@[px_byte(
                        width as int,
                        x,
                        y,
                        k,
                    )] == if y / (ch as int) < row || (y / (ch as int) == row && x / (cw as int) < col) {
                        grid_px(paints@, *cells, cols as int, rows as int, cw as int, ch as int, x, y)[k]
                    } else {
                        0u8
                    },
                forall|i: int| width * height * 4 <= i < n ==> #[trigger] canvas@[i] == 0,
            decreases cols - col,
        {
            let plen = paints.len();
            proof {
                assert(row * cols + col < rows * cols) by (nonlinear_arith)
                    requires
                        row < rows,
                        col < cols,
                ;
            }
            let idx = row * cols + col;
            match paints[idx] {
                Some(p) => {
                    let ghost before = canvas@;
                    let cov = cells.cell(p.glyph);
                    blit_cell(canvas, width, height, x0, y0, cw, ch, cov, p.color);
                    proof {
                        assert forall|x: int, y: int, k: int|
                            0 <= x < width && 0 <= y < height && 0 <= k < 4 implies #[trigger] canvas@[px_byte(
                                width as int,
                                x,
                                y,
                                k,
                            )] == if y / (ch as int) < row || (y / (ch as int) == row && x / (cw as int) < col
                                + 1) {
                                grid_px(paints@, *cells, cols as int, rows as int, cw as int, ch as int, x, y)[k]
                            } else {
                                0u8
                            } by {
                            lemma_cell_of(x, col as int, cw as int);
                            lemma_cell_of(y, row as int, ch as int);
                            if y / (ch as int) == row && x / (cw as int) == col {
                                let pb = pixel(before, width as int, x, y);
                                assert(0 <= px_byte(w, x, y, 0));
                                assert(px_byte(w, x, y, 3) < w * h * 4);
                                assert(pb =~= black()) by {
                                    assert forall|j: int| 0 <= j < 4 implies pb[j] == black()[j] by {
                                        assert(before[px_byte(width as int, x, y, j)] == 0u8);
                                    }
                                }
                            }
                        }
                    }
                },
                None => {
                    proof {
                        assert forall|x: int, y: int, k: int|
                            0 <= x < width && 0 <= y < height && 0 <= k < 4 implies #[trigger] canvas@[px_byte(
                                width as int,
                                x,
                                y,
                                k,
                            )] == if y / (ch as int) < row || (y / (ch as int) == row && x / (cw as int) < col
                                + 1) {
                                grid_px(paints@, *cells, cols as int, rows as int, cw as int, ch as int, x, y)[k]
                            } else {
                                0u8
                            } by {
                            lemma_cell_of(x, col as int, cw as int);
                        }
                    }
                },
            }
            col = col + 1;
            x0 = x0 + cw;
            proof {
                assert(x0 == col * cw) by (nonlinear_arith)
                    requires
                        x0 == (col - 1) * cw + cw,
                ;
            }
        }
        proof {
            assert forall|x: int, y: int, k: int|
                0 <= x < width && 0 <= y < height && 0 <= k < 4 implies #[trigger] canvas@[px_byte(
                    width as int,
                    x,
                    y,
                    k,
                )] == if y / (ch as int) < row + 1 {
                    grid_px(paints@, *cells, cols as int, rows as int, cw as int, ch as int, x, y)[k]
                } else {
                    0u8
                } by {
                if y / (ch as int) == row && x / (cw as int) >= col {
                    if col < cols {
                        lemma_cell_of(x, x / (cw as int), cw as int);
                        assert(x >= col * cw) by (nonlinear_arith)
                            requires
                                x / (cw as int) >= col,
                                (x / (cw as int)) * cw <= x,
                                cw > 0,
                        ;
                    }
                }
            }
        }
        row = row + 1;
        y0 = y0 + ch;
        proof {
            assert(y0 == row * ch) by (nonlinear_arith)
                requires
                    y0 == (row - 1) * ch + ch,
            ;
        }
    }
    proof {
        assert forall|x: int, y: int, k: int|
            0 <= x < width && 0 <= y < height && 0 <= k < 4 implies #[trigger] canvas@[px_byte(
                width as int,
                x,
                y,
                k,
            )] == grid_px(paints@, *cells, cols as int, rows as int, cw as int, ch as int, x, y)[k] by {
            if y / (ch as int) >= row {
                if row < rows {
                    lemma_cell_of(y, y / (ch as int), ch as int);
                    assert(y >= row * ch) by (nonlinear_arith)
                        requires
                            y / (ch as int) >= row,
                            (y / (ch as int)) * ch <= y,
                            ch > 0,
                    ;
                }
            }
        }
    }
}

} // verus!
