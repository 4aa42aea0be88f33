//! Carrying out the settings window's drawing steps on its ARGB canvas:
//! rectangles are filled opaque, text is blended one glyph cell per
//! character (a space only moves the pen), in order.
use vstd::prelude::*;
use crate::chars::chars_of;
use crate::conf::gui::{argb, blit_glyph, fill_rect, glyph_px, in_box, repainted, solid_px};
use crate::raster::reach;
use crate::conf::scene::{drawn, DrawOp, Drawn, Rgb3};
use crate::note::frame::GlyphBook;

verus! {

/// `before` with the rectangle at (`x0`, `y0`) of `w`×`h`, clipped to the
/// `stride`×`height` buffer, repainted by `f` (given the offset into the
/// rectangle and the old pixel).
pub open spec fn repaint(
    before: Seq<u32>,
    stride: int,
    height: int,
    x0: int,
    y0: int,
    w: int,
    h: int,
    f: spec_fn(int, int, u32) -> u32,
) -> Seq<u32> {
    Seq::new(
        before.len(),
        |i: int|
            if 0 <= i < stride * height && in_box(i % stride, i / stride, x0, y0, w, h) {
                f(i % stride - x0, i / stride - y0, before[i])
            } else {
                before[i]
            },
    )
}

proof fn lemma_repaint(
    before: Seq<u32>,
    after: Seq<u32>,
    stride: int,
    height: int,
    x0: int,
    y0: int,
    w: int,
    h: int,
    f: spec_fn(int, int, u32) -> u32,
)
    requires
        repainted(before, after, stride, height, x0, y0, w, h, f),
        0 <= stride,
        0 <= height,
    ensures
        after == repaint(before, stride, height, x0, y0, w, h, f),
{
    let r = repaint(before, stride, height, x0, y0, w, h, f);
    assert forall|i: int| 0 <= i < after.len() implies after[i] == r[i] by {
        if 0 <= i < stride * height {
            assert(stride > 0) by (nonlinear_arith)
                requires
                    0 <= i < stride * height,
                    0 <= height,
            ;
            let x = i % stride;
            let y = i / stride;
            vstd::arithmetic::div_mod::lemma_fundamental_div_mod(i, stride);
            assert(0 <= x < stride);
            assert(0 <= y < height) by (nonlinear_arith)
                requires
                    i == stride * y + x,
                    0 <= x < stride,
                    0 <= i < stride * height,
            ;
            assert(y * stride + x == i) by (nonlinear_arith)
                requires
                    i == stride * y + x,
            ;
            assert(after[y * stride + x] == if in_box(x, y, x0, y0, w, h) {
                f(x - x0, y - y0, before[y * stride + x])
            } else {
                before[y * stride + x]
            });
        }
    }
    assert(after =~= r);
}

/// Repainting only the rows a rectangle reaches is repainting it on the
/// whole buffer.
proof fn lemma_repaint_reach(
    b: Seq<u32>,
    stride: int,
    height: int,
    x0: int,
    y0: int,
    w: int,
    h: int,
    f: spec_fn(int, int, u32) -> u32,
)
    requires
        0 <= stride,
        0 <= height,
        0 <= y0,
        0 <= h,
    ensures
        repaint(b, stride, reach(y0, h, height), x0, y0, w, h, f) == repaint(b, stride, height, x0, y0, w, h, f),
{
    let r = reach(y0, h, height);
    let lhs = repaint(b, stride, r, x0, y0, w, h, f);
    let rhs = repaint(b, stride, height, x0, y0, w, h, f);
    assert(stride * r <= stride * height) by (nonlinear_arith)
        requires
            0 <= stride,
            r <= height,
    ;
    assert forall|i: int| 0 <= i < b.len() implies lhs[i] == rhs[i] by {
        if 0 <= i < stride * height && !(i < stride * r) {
            assert(stride > 0) by (nonlinear_arith)
                requires
                    0 <= i < stride * height,
                    0 <= height,
            ;
            vstd::arithmetic::div_mod::lemma_fundamental_div_mod(i, stride);
            let row = i / stride;
            let col = i % stride;
            assert(row >= r) by (nonlinear_arith)
                requires
                    i == stride * row + col,
                    0 <= col < stride,
                    i >= stride * r,
            ;
            assert(row < height) by (nonlinear_arith)
                requires
                    i == stride * row + col,
                    0 <= col,
                    i < stride * height,
                    stride > 0,
            ;
            assert(!in_box(col, row, x0, y0, w, h));
        }
    }
    assert(lhs =~= rhs);
}

/// Every character of `text` but the spaces has a glyph in `book`.
pub open spec fn text_in_book(book: GlyphBook, text: Seq<char>) -> bool {
    forall|i: int| 0 <= i < text.len() && text[i] != ' ' ==> book.has(#[trigger] text[i])
}

/// The buffer once `text` is drawn from (`x`, `y`): each character but a
/// space blends its `cw`×`ch` glyph cell in `rgb`, and the pen moves one
/// cell on.
pub open spec fn text_painted(
    buf: Seq<u32>,
    stride: int,
    height: int,
    x: int,
    y: int,
    text: Seq<char>,
    book: GlyphBook,
    cw: int,
    ch: int,
    rgb: Rgb3,
) -> Seq<u32>
    decreases text.len(),
{
    if text.len() == 0 {
        buf
    } else {
        let b1 = if text[0] == ' ' {
            buf
        } else {
            repaint(buf, stride, height, x, y, cw, ch, glyph_px(book.cov(text[0]), cw, rgb))
        };
        text_painted(b1, stride, height, x + cw, y, text.drop_first(), book, cw, ch, rgb)
    }
}

/// Draw `text` from (`x0`, `y0`) in `rgb`, clipped to the buffer; gives
/// the pen position after the last character.
pub fn draw_str(
    buf: &mut [u32],
    stride: usize,
    height: usize,
    x0: usize,
    y0: usize,
    text: &str,
    book: &GlyphBook,
    cw: usize,
    ch: usize,
    rgb: Rgb3,
) -> (x: usize)
    requires
        stride * height <= old(buf)@.len(),
        book.wf(ch * cw),
        text_in_book(*book, text@),
        x0 + text@.len() * cw <= usize::MAX,
    ensures
        x == x0 + text@.len() * cw,
        final(buf)@.len() == old(buf)@.len(),
        final(buf)@ == text_painted(
            old(buf)@,
            stride as int,
            height as int,
            x0 as int,
            y0 as int,
            text@,
            *book,
            cw as int,
            ch as int,
            rgb,
        ),
{
    let cs = chars_of(text);
    let ghost t = text@;
    let ghost target = text_painted(
        buf@,
        stride as int,
        height as int,
        x0 as int,
        y0 as int,
        t,
        *book,
        cw as int,
        ch as int,
        rgb,
    );
    let ghost len0 = buf@.len();
    let mut x = x0;
    assert(t.skip(0) =~= t);
    assert(0 * cw == 0);
    for i in 0..cs.len()
        invariant
            cs@ == t,
            t == text@,
            buf@.len() == len0,
            stride * height <= buf@.len(),
            book.wf(ch * cw),
            text_in_book(*book, t),
            x0 + t.len() * cw <= usize::MAX,
            x == x0 + i * cw,
            text_painted(
                buf@,
                stride as int,
                height as int,
                x as int,
                y0 as int,
                t.skip(i as int),
                *book,
                cw as int,
                ch as int,
                rgb,
            ) == target,
    {
        let c = cs[i];
        proof {
            assert(t.skip(i as int)[0] == c);
            assert(t.skip(i as int).drop_first() =~= t.skip(i + 1));
            assert((i + 1) * cw <= t.len() * cw) by (nonlinear_arith)
                requires
                    i + 1 <= t.len(),
            ;
            assert(x + cw == x0 + (i + 1) * cw) by (nonlinear_arith)
                requires
                    x == x0 + i * cw,
            ;
        }
        if c != ' ' {
            assert(book.has(t[i as int]));
            let cov = book.cell(c);
            let ghost b0 = buf@;
            proof {
                assert(stride * reach(y0 as int, ch as int, height as int) <= stride * height) by (nonlinear_arith)
                    requires
                        reach(y0 as int, ch as int, height as int) <= height,
                ;
            }
            blit_glyph(buf, stride, height, x, y0, cov, cw, ch, rgb);
            proof {
                lemma_repaint(
                    b0,
                    buf@,
                    stride as int,
                    reach(y0 as int, ch as int, height as int),
                    x as int,
                    y0 as int,
                    cw as int,
                    ch as int,
                    glyph_px(cov@, cw as int, rgb),
                );
                lemma_repaint_reach(b0, stride as int, height as int, x as int, y0 as int, cw as int, ch as int, glyph_px(cov@, cw as int, rgb));
            }
        }
        x = x + cw;
    }
    proof {
        assert(t.skip(t.len() as int) =~= Seq::<char>::empty());
    }
    x
}

/// The buffer once the drawing steps are carried out in order.
pub open spec fn ops_painted(
    buf: Seq<u32>,
    stride: int,
    height: int,
    ops: Seq<Drawn>,
    book: GlyphBook,
    cw: int,
    ch: int,
) -> Seq<u32>
    decreases ops.len(),
{
    if ops.len() == 0 {
        buf
    } else {
        let b1 = match ops[0] {
            Drawn::Fill(x, y, w, h, c) => repaint(buf, stride, height, x, y, w, h, solid_px(argb(c))),
            Drawn::Text(x, y, t, c) => text_painted(buf, stride, height, x, y, t, book, cw, ch, c),
        };
        ops_painted(b1, stride, height, ops.drop_first(), book, cw, ch)
    }
}

/// Each text step has its glyphs in `book` and its pen stays addressable.
pub open spec fn ops_drawable(ops: Seq<Drawn>, book: GlyphBook, cw: int) -> bool {
    forall|i: int|
        0 <= i < ops.len() ==> match #[trigger] ops[i] {
            Drawn::Text(x, y, t, c) => text_in_book(book, t) && x + t.len() * cw <= usize::MAX,
            Drawn::Fill(..) => true,
        }
}

/// Carry out the drawing steps in order on the `stride`×`height` canvas.
pub fn paint_ops(buf: &mut [u32], stride: usize, height: usize, ops: &Vec<DrawOp>, book: &GlyphBook, cw: usize, ch: usize)
    requires
        stride * height <= old(buf)@.len(),
        book.wf(ch * cw),
        ops_drawable(drawn(ops@), *book, cw as int),
    ensures
        final(buf)@ == ops_painted(
            old(buf)@,
            stride as int,
            height as int,
            drawn(ops@),
            *book,
            cw as int,
            ch as int,
        ),
{
    let ghost d = drawn(ops@);
    let ghost target = ops_painted(buf@, stride as int, height as int, d, *book, cw as int, ch as int);
    assert(d.skip(0) =~= d);
    for i in 0..ops.len()
        invariant
            d == drawn(ops@),
            stride * height <= buf@.len(),
            book.wf(ch * cw),
            ops_drawable(d, *book, cw as int),
            ops_painted(buf@, stride as int, height as int, d.skip(i as int), *book, cw as int, ch as int) == target,
    {
        proof {
            assert(d.skip(i as int)[0] == d[i as int]);
            assert(d.skip(i as int).drop_first() =~= d.skip(i + 1));
            assert(d[i as int] == ops@[i as int]@);
        }
        match &ops[i] {
            DrawOp::Fill { x, y, w, h, color } => {
                let ghost b0 = buf@;
                proof {
                    assert(stride * reach(*y as int, *h as int, height as int) <= stride * height) by (nonlinear_arith)
                        requires
                            reach(*y as int, *h as int, height as int) <= height,
                    ;
                }
                fill_rect(buf, stride, height, *x, *y, *w, *h, *color);
                proof {
                    lemma_repaint(
                        b0,
                        buf@,
                        stride as int,
                        reach(*y as int, *h as int, height as int),
                        *x as int,
                        *y as int,
                        *w as int,
                        *h as int,
                        solid_px(argb(*color)),
                    );
                    lemma_repaint_reach(b0, stride as int, height as int, *x as int, *y as int, *w as int, *h as int, solid_px(argb(*color)));
                }
            },
            DrawOp::Text { x, y, text, color } => {
                let s = text.as_str();
                draw_str(buf, stride, height, *x, *y, s, book, cw, ch, *color);
            },
        }
    }
    proof {
        assert(d.skip(d.len() as int) =~= Seq::<Drawn>::empty());
    }
}

} // verus!
