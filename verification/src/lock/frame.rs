//! Cells and text onto the opaque XRGB8888 canvas of the lock screen and
//! the greeter: a cell's coverage is alpha over black (cells never
//! overlap), text is blended over whatever is behind it.
use vstd::prelude::*;
use crate::raster::{paint_rect, painted, Fill, Paint};

verus! {

/// A rasterised line of text: `width`×`height` coverage bytes, row-major.
pub struct TextRun {
    pub width: usize,
    pub height: usize,
    pub cov: Vec<u8>,
}

/// Draw one `cw`×`ch` cell at (`x0`, `y0`) in `color`, clipped to the
/// canvas; uncovered pixels are left alone.
pub fn blit_cell(
    canvas: &mut [u8],
    width: usize,
    height: usize,
    x0: usize,
    y0: usize,
    cw: usize,
    ch: usize,
    cov: &[u8],
    color: [u8; 3],
)
    requires
        width * height * 4 <= old(canvas)@.len(),
        ch * cw <= cov@.len(),
    ensures
        painted(
            old(canvas)@,
            final(canvas)@,
            width as int,
            height as int,
            x0 as int,
            y0 as int,
            cw as int,
            ch as int,
            Fill::Cover { cov: cov@, stride: cw as int, color },
        ),
{
    let p = Paint::Cover { cov, stride: cw, color };
    paint_rect(canvas, width, height, x0, y0, cw, ch, &p);
}

/// Blend a text run at (`x0`, `y0`) in `color` over the canvas.
pub fn blit_text(canvas: &mut [u8], width: usize, height: usize, x0: usize, y0: usize, run: &TextRun, color: [u8; 3])
    requires
        width * height * 4 <= old(canvas)@.len(),
        run.height * run.width <= run.cov@.len(),
    ensures
        painted(
            old(canvas)@,
            final(canvas)@,
            width as int,
            height as int,
            x0 as int,
            y0 as int,
            run.width as int,
            run.height as int,
            Fill::Blend { cov: run.cov@, stride: run.width as int, color },
        ),
{
    let p = Paint::Blend { cov: run.cov.as_slice(), stride: run.width, color };
    paint_rect(canvas, width, height, x0, y0, run.width, run.height, &p);
}

} // verus!
