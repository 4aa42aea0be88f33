//! The settings window's layout and its ARGB drawing: one `u32` per pixel
//! (`0xAARRGGBB`), row-major.
use vstd::prelude::*;
use crate::raster::{reach, rows_reached};

verus! {

/// Width, in cells, of the category sidebar.
pub const SIDEBAR_CELLS: usize = 16;

/// The outer margin: one cell height.
pub fn margin(cell_h: usize) -> (m: usize)
    ensures
        m == cell_h,
{
    cell_h
}

pub fn sidebar_w(cell_w: usize, cell_h: usize) -> (w: usize)
    requires
        cell_h + SIDEBAR_CELLS * cell_w <= usize::MAX,
    ensures
        w == cell_h + SIDEBAR_CELLS * cell_w,
{
    margin(cell_h) + SIDEBAR_CELLS * cell_w
}

/// Top of row `i` of a list: below the margin and the heading, rows
/// `cell_h + 4` apart.
pub fn row_y(cell_h: usize, i: usize) -> (y: usize)
    requires
        2 * cell_h + i * (cell_h + 4) <= usize::MAX,
    ensures
        y == 2 * cell_h + i * (cell_h + 4),
{
    assert(i * (cell_h + 4) <= 2 * cell_h + i * (cell_h + 4));
    margin(cell_h) + cell_h + i * (cell_h + 4)
}

pub open spec fn sat_sub(a: int, b: int) -> int {
    if a >= b {
        a - b
    } else {
        0
    }
}

/// The Save button (x, y, w, h): eight cells wide, in the bottom-right
/// corner.
pub fn save_btn_rect(w: usize, h: usize, cell_w: usize, cell_h: usize) -> (r: (usize, usize, usize, usize))
    requires
        9 * cell_w <= usize::MAX,
        cell_h + 12 <= usize::MAX,
    ensures
        r == (
            sat_sub(w as int, 9 * cell_w) as usize,
            sat_sub(h as int, cell_h + 12) as usize,
            (8 * cell_w) as usize,
            (cell_h + 8) as usize,
        ),
{
    let bw = 8 * cell_w;
    let bh = cell_h + 8;
    (w.saturating_sub(bw + cell_w), h.saturating_sub(bh + 4), bw, bh)
}

/// An opaque pixel of colour `rgb`.
pub open spec fn argb(rgb: (u8, u8, u8)) -> u32 {
    (0xff00_0000u32 | ((rgb.0 as u32) << 16u32) | ((rgb.1 as u32) << 8u32) | (rgb.2 as u32)) as u32
}

fn opaque(rgb: (u8, u8, u8)) -> (c: u32)
    ensures
        c == argb(rgb),
{
    0xff00_0000 | ((rgb.0 as u32) << 16) | ((rgb.1 as u32) << 8) | rgb.2 as u32
}

/// `rgb` at coverage `a` composited over an existing pixel, opaque.
pub open spec fn blend_spec(dst: u32, rgb: (u8, u8, u8), a: u8) -> u32 {
    let inv = 255 - a;
    let r = (rgb.0 * a + ((dst >> 16u32) & 0xff) * inv) / 255;
    let g = (rgb.1 * a + ((dst >> 8u32) & 0xff) * inv) / 255;
    let b = (rgb.2 * a + (dst & 0xff) * inv) / 255;
    (0xff00_0000u32 | ((r as u32) << 16u32) | ((g as u32) << 8u32) | (b as u32)) as u32
}

fn mix_channel(ink: u8, a: u32, d: u32) -> (r: u32)
    requires
        a <= 255,
        d <= 255,
    ensures
        r == (ink * a + d * (255 - a)) / 255,
        r <= 255,
{
    assert(ink as u32 * a <= 255 * a && d * (255 - a) <= 255 * (255 - a)) by (nonlinear_arith)
        requires
            a <= 255,
            d <= 255,
            ink <= 255,
    ;
    assert((ink as u32 * a + d * (255 - a)) / 255 <= 255) by (nonlinear_arith)
        requires
            a <= 255,
            ink as u32 * a <= 255 * a,
            d * (255 - a) <= 255 * (255 - a),
    ;
    (ink as u32 * a + d * (255 - a)) / 255
}

/// Source-over composite of `rgb` at coverage `a` onto a pixel.
pub fn blend(dst: u32, rgb: (u8, u8, u8), a: u8) -> (c: u32)
    ensures
        c == blend_spec(dst, rgb, a),
{
    let a = a as u32;
    let dr = (dst >> 16) & 0xff;
    let dg = (dst >> 8) & 0xff;
    let db = dst & 0xff;
    assert(dr <= 255 && dg <= 255 && db <= 255) by (bit_vector)
        requires
            dr == (dst >> 16u32) & 0xff,
            dg == (dst >> 8u32) & 0xff,
            db == dst & 0xff,
    ;
    let r = mix_channel(rgb.0, a, dr);
    let g = mix_channel(rgb.1, a, dg);
    let b = mix_channel(rgb.2, a, db);
    0xff00_0000 | (r << 16) | (g << 8) | b
}

/// Pixel (`x`, `y`) is in the rectangle at (`x0`, `y0`) of `w`×`h`.
pub open spec fn in_box(x: int, y: int, x0: int, y0: int, w: int, h: int) -> bool {
    x0 <= x < x0 + w && y0 <= y < y0 + h
}

/// `after` is `before` with the pixels of the rectangle that lie on the
/// `stride`×`height` buffer replaced by `f(x - x0, y - y0, old pixel)`.
pub open spec fn repainted(
    before: Seq<u32>,
    after: Seq<u32>,
    stride: int,
    height: int,
    x0: int,
    y0: int,
    w: int,
    h: int,
    f: spec_fn(int, int, u32) -> u32,
) -> bool {
    &&& after.len() == before.len()
    &&& forall|x: int, y: int|
        0 <= x < stride && 0 <= y < height ==> #[trigger] after[y * stride + x] == if in_box(x, y, x0, y0, w, h) {
            f(x - x0, y - y0, before[y * stride + x])
        } else {
            before[y * stride + x]
        }
    &&& forall|i: int| stride * height <= i < before.len() ==> #[trigger] after[i] == before[i]
}

proof fn lemma_index(stride: int, height: int, x: int, y: int)
    requires
        0 <= x < stride,
        0 <= y < height,
    ensures
        0 <= y * stride,
        0 <= y * stride + x < stride * height,
{
    assert(0 <= y * stride && y * stride + x < stride * height) by (nonlinear_arith)
        requires
            0 <= x < stride,
            0 <= y < height,
    ;
}

proof fn lemma_index_injective(stride: int, x1: int, y1: int, x2: int, y2: int)
    requires
        0 <= x1 < stride,
        0 <= x2 < stride,
        0 <= y1,
        0 <= y2,
        y1 * stride + x1 == y2 * stride + x2,
    ensures
        x1 == x2 && y1 == y2,
{
    vstd::arithmetic::div_mod::lemma_fundamental_div_mod_converse(y1 * stride + x1, stride, y1, x1);
    vstd::arithmetic::div_mod::lemma_fundamental_div_mod_converse(y2 * stride + x2, stride, y2, x2);
}

/// Coverage of a glyph cell at (`dx`, `dy`).
pub open spec fn glyph_px(cov: Seq<u8>, cw: int, rgb: (u8, u8, u8)) -> spec_fn(int, int, u32) -> u32 {
    |dx: int, dy: int, old: u32| if cov[dy * cw + dx] == 0 {
        old
    } else {
        blend_spec(old, rgb, cov[dy * cw + dx])
    }
}

pub open spec fn solid_px(c: u32) -> spec_fn(int, int, u32) -> u32 {
    |dx: int, dy: int, old: u32| c
}

/// Fill a rectangle with an opaque colour, clipped to the buffer; only the
/// rows it reaches need to be in `buf`.
pub fn fill_rect(buf: &mut [u32], stride: usize, height: usize, x: usize, y: usize, w: usize, h: usize, rgb: (u8, u8, u8))
    requires
        stride * reach(y as int, h as int, height as int) <= old(buf)@.len(),
    ensures
        repainted(
            old(buf)@,
            final(buf)@,
            stride as int,
            reach(y as int, h as int, height as int),
            x as int,
            y as int,
            w as int,
            h as int,
            solid_px(argb(rgb)),
        ),
{
    let color = opaque(rgb);
    let rows = rows_reached(y, h, height);
    paint_u32(buf, stride, rows, x, y, w, h, color, &[], 0, rgb, true);
}

/// Blend a `cw`×`ch` glyph cell in `rgb` at (`x`, `y`), clipped to the
/// buffer; uncovered pixels are left alone, and only the rows the cell
/// reaches need to be in `buf`.
pub fn blit_glyph(
    buf: &mut [u32],
    stride: usize,
    height: usize,
    x: usize,
    y: usize,
    cov: &[u8],
    cw: usize,
    ch: usize,
    rgb: (u8, u8, u8),
)
    requires
        stride * reach(y as int, ch as int, height as int) <= old(buf)@.len(),
        ch * cw <= cov@.len(),
    ensures
        repainted(
            old(buf)@,
            final(buf)@,
            stride as int,
            reach(y as int, ch as int, height as int),
            x as int,
            y as int,
            cw as int,
            ch as int,
            glyph_px(cov@, cw as int, rgb),
        ),
{
    let rows = rows_reached(y, ch, height);
    paint_u32(buf, stride, rows, x, y, cw, ch, 0, cov, cw, rgb, false);
}

proof fn lemma_cov_at(dx: int, dy: int, cw: int, ch: int, len: int)
    requires
        0 <= dx < cw,
        0 <= dy < ch,
        ch * cw <= len,
    ensures
        0 <= dy * cw + dx < len,
{
    assert(0 <= dy * cw + dx < len) by (nonlinear_arith)
        requires
            0 <= dx < cw,
            0 <= dy < ch,
            ch * cw <= len,
    ;
}

/// The shared loop: solid `color` when `solid`, else the glyph `cov`.
fn paint_u32(
    buf: &mut [u32],
    stride: usize,
    height: usize,
    x0: usize,
    y0: usize,
    w: usize,
    h: usize,
    color: u32,
    cov: &[u8],
    cw: usize,
    rgb: (u8, u8, u8),
    solid: bool,
)
    requires
        stride * height <= old(buf)@.len(),
        !solid ==> w == cw && h * cw <= cov@.len(),
    ensures
        repainted(
            old(buf)@,
            final(buf)@,
            stride as int,
            height as int,
            x0 as int,
            y0 as int,
            w as int,
            h as int,
            if solid { solid_px(color) } else { glyph_px(cov@, cw as int, rgb) },
        ),
{
    let ghost before = buf@;
    let ghost f = if solid { solid_px(color) } else { glyph_px(cov@, cw as int, rgb) };
    let blen = buf.len();
    if x0 >= stride || y0 >= height {
        return;
    }
    let xe = if w <= stride - x0 {
        x0 + w
    } else {
        stride
    };
    let ye = if h <= height - y0 {
        y0 + h
    } else {
        height
    };
    let mut y = y0;
    while y < ye
        invariant
            blen == before.len(),
            stride * height <= before.len(),
            buf@.len() == before.len(),
            !solid ==> w == cw && h * cw <= cov@.len(),
            f == (if solid { solid_px(color) } else { glyph_px(cov@, cw as int, rgb) }),
            y0 <= y <= ye,
            ye <= height,
            ye <= y0 + h,
            x0 <= xe <= stride,
            xe <= x0 + w,
            xe == x0 + w || xe == stride,
            ye == y0 + h || ye == height,
            forall|x: int, yy: int|
                0 <= x < stride && 0 <= yy < height ==> #[trigger] buf@[yy * stride + x] == if x0 <= x < xe
                    && y0 <= yy < y {
                    f(x - x0, yy - y0, before[yy * stride + x])
                } else {
                    before[yy * stride + x]
                },
            forall|i: int| stride * height <= i < before.len() ==> #[trigger] buf@[i] == before[i],
        decreases ye - y,
    {
        let mut x = x0;
        while x < xe
            invariant
                blen == before.len(),
                stride * height <= before.len(),
                buf@.len() == before.len(),
                !solid ==> w == cw && h * cw <= cov@.len(),
                f == (if solid { solid_px(color) } else { glyph_px(cov@, cw as int, rgb) }),
                y0 <= y < ye,
                ye <= height,
                ye <= y0 + h,
                x0 <= x <= xe,
                xe <= stride,
                xe <= x0 + w,
                forall|xx: int, yy: int|
                    0 <= xx < stride && 0 <= yy < height ==> #[trigger] buf@[yy * stride + xx] == if (x0 <= xx
                        < xe && y0 <= yy < y) || (x0 <= xx < x && yy == y) {
                        f(xx - x0, yy - y0, before[yy * stride + xx])
                    } else {
                        before[yy * stride + xx]
                    },
                forall|i: int| stride * height <= i < before.len() ==> #[trigger] buf@[i] == before[i],
            decreases xe - x,
        {
            proof {
                lemma_index(stride as int, height as int, x as int, y as int);
            }
            let idx = y * stride + x;
            let old_px = buf[idx];
            assert(old_px == before[y * stride + x]);
            let new_px = if solid {
                color
            } else {
                proof {
                    lemma_cov_at((x - x0) as int, (y - y0) as int, cw as int, h as int, cov@.len() as int);
                }
                let _n = cov.len();
                let a = cov[(y - y0) * cw + (x - x0)];
                if a == 0 {
                    old_px
                } else {
                    blend(old_px, rgb, a)
                }
            };
            assert(new_px == f((x - x0) as int, (y - y0) as int, old_px));
            let ghost mid = buf@;
            buf[idx] = new_px;
            proof {
                assert forall|xx: int, yy: int|
                    0 <= xx < stride && 0 <= yy < height implies #[trigger] buf@[yy * stride + xx] == if (x0
                    <= xx < xe && y0 <= yy < y) || (x0 <= xx < x + 1 && yy == y) {
                    f(xx - x0, yy - y0, before[yy * stride + xx])
                } else {
                    before[yy * stride + xx]
                } by {
                    lemma_index(stride as int, height as int, xx, yy);
                    if !(xx == x && yy == y) {
                        if yy * stride + xx == idx {
                            lemma_index_injective(stride as int, xx, yy, x as int, y as int);
                        }
                        assert(buf@[yy * stride + xx] == mid[yy * stride + xx]);
                    }
                }
                assert forall|i: int| stride * height <= i < before.len() implies #[trigger] buf@[i] == before[i] by {
                    assert(buf@[i] == mid[i]);
                }
            }
            x += 1;
        }
        y += 1;
    }
}

} // verus!
