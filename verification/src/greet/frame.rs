//! The greeter's canvas drawing: the cell and text blits it shares with the
//! lock screen, the username box outline, and the typed name cut to fit
//! the box.
use vstd::prelude::*;
use crate::raster::{paint_rect, painted, px_byte, Fill, Paint};
pub use crate::lock::frame::{blit_cell, blit_text, TextRun};
use crate::lock::atlas::{compose_run_from, run_at, run_fits, run_height, run_width, GlyphImage};

verus! {

/// Pixel (`x`, `y`) lies on the `thick` outline of the box at (`x0`, `y0`)
/// of `w`×`h`, the box clipped to the canvas first.
pub open spec fn on_outline(x: int, y: int, x0: int, y0: int, x1: int, y1: int, thick: int) -> bool {
    &&& x0 <= x < x1
    &&& y0 <= y < y1
    &&& (y < y0 + thick || y >= y1 - thick || x < x0 + thick || x >= x1 - thick)
}

pub open spec fn min(a: int, b: int) -> int {
    if a <= b {
        a
    } else {
        b
    }
}

/// A hollow rectangle, `thick` pixels wide, in `color`, clipped to the
/// canvas.
pub fn draw_box_border(
    canvas: &mut [u8],
    width: usize,
    height: usize,
    x0: usize,
    y0: usize,
    w: usize,
    h: usize,
    thick: usize,
    color: [u8; 3],
)
    requires
        width * height * 4 <= old(canvas)@.len(),
        x0 + w <= usize::MAX,
        y0 + h <= usize::MAX,
        x0 + thick <= usize::MAX,
        y0 + thick <= usize::MAX,
    ensures
        final(canvas)@.len() == old(canvas)@.len(),
        forall|x: int, y: int, k: int|
            0 <= x < width && 0 <= y < height && 0 <= k < 4 ==> #[trigger] final(canvas)@[px_byte(
                width as int,
                x,
                y,
                k,
            )] == if on_outline(
                x,
                y,
                x0 as int,
                y0 as int,
                min(x0 + w, width as int),
                min(y0 + h, height as int),
                thick as int,
            ) {
                seq![color[2], color[1], color[0], 0xffu8][k]
            } else {
                old(canvas)@[px_byte(width as int, x, y, k)]
            },
        forall|i: int| width * height * 4 <= i < old(canvas)@.len() ==> #[trigger] final(canvas)@[i] == old(canvas)@[i],
{
    let x1 = if x0 + w < width {
        x0 + w
    } else {
        width
    };
    let y1 = if y0 + h < height {
        y0 + h
    } else {
        height
    };
    let bytes = [color[2], color[1], color[0], 0xff];
    let p = Paint::Solid { bytes };
    let ghost c0 = canvas@;
    if x1 <= x0 || y1 <= y0 {
        return;
    }
    let bw = x1 - x0;
    let bh = y1 - y0;
    let th = if thick < bh {
        thick
    } else {
        bh
    };
    let tw = if thick < bw {
        thick
    } else {
        bw
    };
    paint_rect(canvas, width, height, x0, y0, bw, th, &p);
    let ghost c1 = canvas@;
    let yb = y1 - th;
    paint_rect(canvas, width, height, x0, yb, bw, th, &p);
    let ghost c2 = canvas@;
    paint_rect(canvas, width, height, x0, y0, tw, bh, &p);
    let ghost c3 = canvas@;
    let xr = x1 - tw;
    paint_rect(canvas, width, height, xr, y0, tw, bh, &p);
    proof {
        assert(bytes@ =~= seq![color[2], color[1], color[0], 0xffu8]);
        assert forall|x: int, y: int, k: int|
            0 <= x < width && 0 <= y < height && 0 <= k < 4 implies #[trigger] canvas@[px_byte(
            width as int,
            x,
            y,
            k,
        )] == if on_outline(
            x,
            y,
            x0 as int,
            y0 as int,
            min(x0 + w, width as int),
            min(y0 + h, height as int),
            thick as int,
        ) {
            seq![color[2], color[1], color[0], 0xffu8][k]
        } else {
            c0[px_byte(width as int, x, y, k)]
        } by {
            assert(c1[px_byte(width as int, x, y, k)] == c1[px_byte(width as int, x, y, k)]);
            assert(c2[px_byte(width as int, x, y, k)] == c2[px_byte(width as int, x, y, k)]);
            assert(c3[px_byte(width as int, x, y, k)] == c3[px_byte(width as int, x, y, k)]);
        }
    }
}

/// The text in the username box, glyph by glyph (the name and then the
/// caret), cut from the front until its run is at most `inner_w` pixels
/// wide or only the last glyph is left: the number of glyphs cut and the
/// run of the rest. None for no glyphs.
pub fn fit_tail(gs: &Vec<GlyphImage>, inner_w: usize) -> (r: Option<(usize, TextRun)>)
    requires
        forall|k: int| 0 <= k <= gs@.len() ==> run_fits(#[trigger] gs@.skip(k)),
    ensures
        match r {
            None => gs@.len() == 0,
            Some((k, run)) => {
                let g = gs@.skip(k as int);
                &&& k < gs@.len()
                &&& k + 1 == gs@.len() || run_width(g) <= inner_w
                &&& forall|j: int| 0 <= j < k ==> run_width(#[trigger] gs@.skip(j)) > inner_w
                &&& run.width == run_width(g)
                &&& run.height == run_height(g)
                &&& run.cov@.len() == run.width * run.height
                &&& forall|x: int, y: int|
                    0 <= x < run.width && 0 <= y < run.height ==> #[trigger] run.cov@[y * run.width + x] as int
                        == run_at(g, g.len() as int, x, y)
            },
        },
{
    let n = gs.len();
    if n == 0 {
        return None;
    }
    let mut k: usize = 0;
    let first = compose_run_from(gs, 0);
    let mut run = match first {
        Some(run) => run,
        None => {
            return None;
        },
    };
    while run.width > inner_w && k + 1 < n
        invariant
            n == gs@.len(),
            k < n,
            forall|k2: int| 0 <= k2 <= gs@.len() ==> run_fits(#[trigger] gs@.skip(k2)),
            forall|j: int| 0 <= j < k ==> run_width(#[trigger] gs@.skip(j)) > inner_w,
            run.width == run_width(gs@.skip(k as int)),
            run.height == run_height(gs@.skip(k as int)),
            run.cov@.len() == run.width * run.height,
            forall|x: int, y: int|
                0 <= x < run.width && 0 <= y < run.height ==> #[trigger] run.cov@[y * run.width + x] as int == run_at(
                    gs@.skip(k as int),
                    gs@.skip(k as int).len() as int,
                    x,
                    y,
                ),
        decreases n - k,
    {
        k = k + 1;
        match compose_run_from(gs, k) {
            Some(next) => {
                run = next;
            },
            None => {
                return None;
            },
        }
    }
    Some((k, run))
}

} // verus!
