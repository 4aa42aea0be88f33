//! Pixel compositing shared by the renderers. A canvas is row-major
//! 32-bit pixels stored as little-endian bytes `[B, G, R, A]` (or `X` in
//! place of `A` on opaque surfaces). Glyphs arrive as coverage bitmaps, one
//! byte per pixel.
use vstd::prelude::*;

verus! {

/// The rows a rectangle from row `y`, `h` tall, reaches on a buffer of
/// `height` rows: up to its bottom or the buffer's, none if it starts
/// below the buffer.
pub open spec fn reach(y: int, h: int, height: int) -> int {
    if y >= height {
        0
    } else if y + h < height {
        y + h
    } else {
        height
    }
}

pub fn rows_reached(y: usize, h: usize, height: usize) -> (r: usize)
    ensures
        r == reach(y as int, h as int, height as int),
{
    if y >= height {
        0
    } else if h < height - y {
        y + h
    } else {
        height
    }
}

/// Byte `k` of pixel (`x`, `y`) on a canvas `width` pixels wide.
pub open spec fn px_byte(width: int, x: int, y: int, k: int) -> int {
    (y * width + x) * 4 + k
}

/// How a rectangle is painted.
pub enum Paint<'a> {
    /// Coverage as alpha over black, written opaque (cells never overlap,
    /// so a cell's pixels are its own).
    Cover { cov: &'a [u8], stride: usize, color: [u8; 3] },
    /// Coverage blended over what is already there, written opaque.
    Blend { cov: &'a [u8], stride: usize, color: [u8; 3] },
    /// Coverage composited as opaque ink over premultiplied ARGB.
    Premul { cov: &'a [u8], stride: usize, ink: [u8; 3] },
    /// The same four bytes everywhere.
    Solid { bytes: [u8; 4] },
}

/// What a paint does, with its coverage as a sequence.
pub enum Fill {
    Cover { cov: Seq<u8>, stride: int, color: [u8; 3] },
    Blend { cov: Seq<u8>, stride: int, color: [u8; 3] },
    Premul { cov: Seq<u8>, stride: int, ink: [u8; 3] },
    Solid { bytes: [u8; 4] },
}

impl<'a> View for Paint<'a> {
    type V = Fill;

    open spec fn view(&self) -> Fill {
        match *self {
            Paint::Cover { cov, stride, color } => Fill::Cover { cov: cov@, stride: stride as int, color },
            Paint::Blend { cov, stride, color } => Fill::Blend { cov: cov@, stride: stride as int, color },
            Paint::Premul { cov, stride, ink } => Fill::Premul { cov: cov@, stride: stride as int, ink },
            Paint::Solid { bytes } => Fill::Solid { bytes },
        }
    }
}

pub open spec fn mix(ink: u8, c: int, old: u8) -> u8 {
    ((ink * c + old * (255 - c)) / 255) as u8
}

/// The bytes of a pixel at (`dx`, `dy`) inside the painted rectangle, given
/// its old bytes `o`. Zero coverage leaves a pixel as it was.
pub open spec fn paint_px(p: Fill, dx: int, dy: int, o: Seq<u8>) -> Seq<u8> {
    match p {
        Fill::Cover { cov, stride, color } => {
            let c = cov[dy * stride + dx] as int;
            if c == 0 {
                o
            } else {
                seq![(color[2] * c / 255) as u8, (color[1] * c / 255) as u8, (color[0] * c / 255) as u8, 0xffu8]
            }
        },
        Fill::Blend { cov, stride, color } => {
            let c = cov[dy * stride + dx] as int;
            if c == 0 {
                o
            } else {
                seq![mix(color[2], c, o[0]), mix(color[1], c, o[1]), mix(color[0], c, o[2]), 0xffu8]
            }
        },
        Fill::Premul { cov, stride, ink } => {
            let c = cov[dy * stride + dx] as int;
            if c == 0 {
                o
            } else {
                seq![mix(ink[2], c, o[0]), mix(ink[1], c, o[1]), mix(ink[0], c, o[2]), (c + o[3] * (255 - c) / 255) as u8]
            }
        },
        Fill::Solid { bytes } => bytes@,
    }
}

/// The coverage a paint reads covers the `w`×`h` rectangle.
pub open spec fn paint_fits(p: Fill, w: int, h: int) -> bool {
    match p {
        Fill::Cover { cov, stride, .. } => w <= stride && h * stride <= cov.len(),
        Fill::Blend { cov, stride, .. } => w <= stride && h * stride <= cov.len(),
        Fill::Premul { cov, stride, .. } => w <= stride && h * stride <= cov.len(),
        Fill::Solid { .. } => true,
    }
}

/// The four bytes of pixel (`x`, `y`).
pub open spec fn pixel(c: Seq<u8>, width: int, x: int, y: int) -> Seq<u8> {
    c.subrange(px_byte(width, x, y, 0), px_byte(width, x, y, 4))
}

/// Pixel (`x`, `y`) lies in the rectangle at (`x0`, `y0`) of `w`×`h`.
pub open spec fn in_rect(x: int, y: int, x0: int, y0: int, w: int, h: int) -> bool {
    x0 <= x < x0 + w && y0 <= y < y0 + h
}

/// `after` is `before` with the rectangle painted: inside it (and on the
/// canvas) each pixel is `paint_px` of its old bytes, every other byte is
/// untouched.
pub open spec fn painted(
    before: Seq<u8>,
    after: Seq<u8>,
    width: int,
    height: int,
    x0: int,
    y0: int,
    w: int,
    h: int,
    p: Fill,
) -> bool {
    &&& after.len() == before.len()
    &&& forall|x: int, y: int, k: int|
        0 <= x < width && 0 <= y < height && 0 <= k < 4 ==> #[trigger] after[px_byte(width, x, y, k)]
            == if in_rect(x, y, x0, y0, w, h) {
            paint_px(p, x - x0, y - y0, pixel(before, width, x, y))[k]
        } else {
            before[px_byte(width, x, y, k)]
        }
    &&& forall|i: int| width * height * 4 <= i < before.len() ==> #[trigger] after[i] == before[i]
}

proof fn lemma_px_byte(width: int, height: int, x: int, y: int, k: int)
    requires
        0 <= x < width,
        0 <= y < height,
        0 <= k < 4,
    ensures
        0 <= px_byte(width, x, y, k) < width * height * 4,
        px_byte(width, x, y, k) == px_byte(width, x, y, 0) + k,
        0 <= y * width,
        y * width + x < width * height,
        (y * width + x) * 4 + 3 < width * height * 4,
{
    assert(0 <= y * width && y * width + x < width * height && 0 <= (y * width + x) * 4 + k
        < width * height * 4 && (y * width + x) * 4 + 3 < width * height * 4) by (nonlinear_arith)
        requires
            0 <= x < width,
            0 <= y < height,
            0 <= k < 4,
    ;
}

/// `(ink * c + old * (255 - c)) / 255`: coverage `c` of ink over old.
fn mix_byte(ink: u8, c: u32, old: u8) -> (r: u8)
    requires
        c <= 255,
    ensures
        r == mix(ink, c as int, old),
{
    assert(ink as u32 * c <= 255 * c && old as u32 * (255 - c) <= 255 * (255 - c)) by (nonlinear_arith)
        requires
            c <= 255,
            ink <= 255,
            old <= 255,
    ;
    assert((ink as u32 * c + old as u32 * (255 - c)) / 255 <= 255) by (nonlinear_arith)
        requires
            c <= 255,
            ink as u32 * c <= 255 * c,
            old as u32 * (255 - c) <= 255 * (255 - c),
    ;
    ((ink as u32 * c + old as u32 * (255 - c)) / 255) as u8
}

/// `ink * c / 255`.
fn scale_byte(ink: u8, c: u32) -> (r: u8)
    requires
        c <= 255,
    ensures
        r == (ink * c / 255) as u8,
{
    assert(ink as u32 * c <= 255 * 255) by (nonlinear_arith)
        requires
            c <= 255,
            ink <= 255,
    ;
    ((ink as u32 * c) / 255) as u8
}

/// Distinct pixels, or distinct bytes of one pixel, never share an index.
proof fn lemma_px_byte_injective(width: int, x1: int, y1: int, k1: int, x2: int, y2: int, k2: int)
    requires
        0 <= x1 < width,
        0 <= x2 < width,
        0 <= y1,
        0 <= y2,
        0 <= k1 < 4,
        0 <= k2 < 4,
        px_byte(width, x1, y1, k1) == px_byte(width, x2, y2, k2),
    ensures
        x1 == x2 && y1 == y2 && k1 == k2,
{
    let i = px_byte(width, x1, y1, k1);
    vstd::arithmetic::div_mod::lemma_fundamental_div_mod_converse(i, 4, y1 * width + x1, k1);
    vstd::arithmetic::div_mod::lemma_fundamental_div_mod_converse(i, 4, y2 * width + x2, k2);
    vstd::arithmetic::div_mod::lemma_fundamental_div_mod_converse(y1 * width + x1, width, y1, x1);
    vstd::arithmetic::div_mod::lemma_fundamental_div_mod_converse(y2 * width + x2, width, y2, x2);
}

/// The new bytes of one pixel.
fn paint_pixel(p: &Paint, dx: usize, dy: usize, o: [u8; 4]) -> (r: [u8; 4])
    requires
        paint_fits(p@, dx + 1, dy + 1),
    ensures
        r@ == paint_px(p@, dx as int, dy as int, o@),
{
    proof {
        match p@ {
            Fill::Cover { cov, stride, .. } => lemma_cov_index(dx as int, dy as int, stride, cov.len() as int),
            Fill::Blend { cov, stride, .. } => lemma_cov_index(dx as int, dy as int, stride, cov.len() as int),
            Fill::Premul { cov, stride, .. } => lemma_cov_index(dx as int, dy as int, stride, cov.len() as int),
            Fill::Solid { .. } => {},
        }
    }
    match p {
        Paint::Cover { cov, stride, color } => {
            let _n = cov.len();
            let c = cov[dy * *stride + dx] as u32;
            if c == 0 {
                return o;
            }
            let r = [scale_byte(color[2], c), scale_byte(color[1], c), scale_byte(color[0], c), 0xff];
            assert(r@ =~= paint_px(p@, dx as int, dy as int, o@));
            r
        },
        Paint::Blend { cov, stride, color } => {
            let _n = cov.len();
            let c = cov[dy * *stride + dx] as u32;
            if c == 0 {
                return o;
            }
            let r = [mix_byte(color[2], c, o[0]), mix_byte(color[1], c, o[1]), mix_byte(color[0], c, o[2]), 0xff];
            assert(r@ =~= paint_px(p@, dx as int, dy as int, o@));
            r
        },
        Paint::Premul { cov, stride, ink } => {
            let _n = cov.len();
            let c = cov[dy * *stride + dx] as u32;
            if c == 0 {
                return o;
            }
            let inv = 255 - c;
            assert(o[3] as u32 * inv <= 255 * inv) by (nonlinear_arith)
                requires
                    inv <= 255,
                    o[3] <= 255,
            ;
            assert(c + o[3] as u32 * inv / 255 <= 255) by (nonlinear_arith)
                requires
                    inv == 255 - c,
                    c <= 255,
                    o[3] as u32 * inv <= 255 * inv,
            ;
            let r = [mix_byte(ink[2], c, o[0]), mix_byte(ink[1], c, o[1]), mix_byte(ink[0], c, o[2]), (c + o[3] as u32 * inv / 255) as u8];
            assert(r@ =~= paint_px(p@, dx as int, dy as int, o@));
            r
        },
        Paint::Solid { bytes } => *bytes,
    }
}

proof fn lemma_cov_index(dx: int, dy: int, stride: int, len: int)
    requires
        0 <= dx,
        0 <= dy,
        dx + 1 <= stride,
        (dy + 1) * stride <= len,
    ensures
        0 <= dy * stride + dx < len,
{
    assert(0 <= dy * stride + dx < len) by (nonlinear_arith)
        requires
            0 <= dx,
            0 <= dy,
            dx + 1 <= stride,
            (dy + 1) * stride <= len,
    ;
}

proof fn lemma_fits_smaller(p: Fill, w: int, h: int, w2: int, h2: int)
    requires
        paint_fits(p, w, h),
        0 <= w2 <= w,
        0 <= h2 <= h,
    ensures
        paint_fits(p, w2, h2),
{
    match p {
        Fill::Solid { .. } => {},
        Fill::Cover { stride, .. } => {
            assert(h2 * stride <= h * stride) by (nonlinear_arith)
                requires
                    0 <= h2 <= h,
                    0 <= stride,
            ;
        },
        Fill::Blend { stride, .. } => {
            assert(h2 * stride <= h * stride) by (nonlinear_arith)
                requires
                    0 <= h2 <= h,
                    0 <= stride,
            ;
        },
        Fill::Premul { stride, .. } => {
            assert(h2 * stride <= h * stride) by (nonlinear_arith)
                requires
                    0 <= h2 <= h,
                    0 <= stride,
            ;
        },
    }
}

/// Paint the `w`×`h` rectangle at (`x0`, `y0`), clipped to the canvas.
pub fn paint_rect(
    canvas: &mut [u8],
    width: usize,
    height: usize,
    x0: usize,
    y0: usize,
    w: usize,
    h: usize,
    p: &Paint,
)
    requires
        width * height * 4 <= old(canvas)@.len(),
        paint_fits(p@, w as int, h as int),
    ensures
        painted(old(canvas)@, final(canvas)@, width as int, height as int, x0 as int, y0 as int, w as int, h as int, p@),
{
    let ghost before = canvas@;
    let clen = canvas.len();
    if x0 >= width || y0 >= height {
        return;
    }
    let xe: usize = if w <= width - x0 {
        x0 + w
    } else {
        width
    };
    let ye: usize = if h <= height - y0 {
        y0 + h
    } else {
        height
    };
    let mut y = y0;
    while y < ye
        invariant
            clen == before.len(),
            width * height * 4 <= before.len(),
            canvas@.len() == before.len(),
            paint_fits(p@, w as int, h as int),
            y0 <= y <= ye,
            ye <= height,
            ye <= y0 + h,
            x0 <= xe <= width,
            xe <= x0 + w,
            xe == x0 + w || xe == width,
            ye == y0 + h || ye == height,
            forall|x: int, yy: int, k: int|
                0 <= x < width && 0 <= yy < height && 0 <= k < 4 ==> #[trigger] canvas@[px_byte(
                    width as int,
                    x,
                    yy,
                    k,
                )] == if x0 <= x < xe && y0 <= yy < y {
                    paint_px(p@, x - x0, yy - y0, pixel(before, width as int, x, yy))[k]
                } else {
                    before[px_byte(width as int, x, yy, k)]
                },
            forall|i: int| width * height * 4 <= i < before.len() ==> #[trigger] canvas@[i] == before[i],
        decreases ye - y,
    {
        let mut x = x0;
        while x < xe
            invariant
                clen == before.len(),
                width * height * 4 <= before.len(),
                canvas@.len() == before.len(),
                paint_fits(p@, w as int, h as int),
                y0 <= y < ye,
                ye <= height,
                ye <= y0 + h,
                x0 <= x <= xe,
                xe <= width,
                xe <= x0 + w,
                xe == x0 + w || xe == width,
                ye == y0 + h || ye == height,
                forall|xx: int, yy: int, k: int|
                    0 <= xx < width && 0 <= yy < height && 0 <= k < 4 ==> #[trigger] canvas@[px_byte(
                        width as int,
                        xx,
                        yy,
                        k,
                    )] == if (x0 <= xx < xe && y0 <= yy < y) || (x0 <= xx < x && yy == y) {
                        paint_px(p@, xx - x0, yy - y0, pixel(before, width as int, xx, yy))[k]
                    } else {
                        before[px_byte(width as int, xx, yy, k)]
                    },
                forall|i: int| width * height * 4 <= i < before.len() ==> #[trigger] canvas@[i] == before[i],
            decreases xe - x,
        {
            proof {
                lemma_px_byte(width as int, height as int, x as int, y as int, 3);
                lemma_px_byte(width as int, height as int, x as int, y as int, 0);
            }
            let o = (y * width + x) * 4;
            proof {
                lemma_fits_smaller(p@, w as int, h as int, (x - x0 + 1) as int, (y - y0 + 1) as int);
                assert forall|k: int| 0 <= k < 4 implies #[trigger] canvas@[o + k] == before[o + k] by {
                    lemma_px_byte(width as int, height as int, x as int, y as int, k);
                    assert(canvas@[px_byte(width as int, x as int, y as int, k)] == before[px_byte(
                        width as int,
                        x as int,
                        y as int,
                        k,
                    )]);
                }
            }
            let old4 = [canvas[o], canvas[o + 1], canvas[o + 2], canvas[o + 3]];
            proof {
                assert(old4@ =~= pixel(before, width as int, x as int, y as int));
            }
            let new4 = paint_pixel(p, x - x0, y - y0, old4);
            let ghost mid = canvas@;
            canvas[o] = new4[0];
            canvas[o + 1] = new4[1];
            canvas[o + 2] = new4[2];
            canvas[o + 3] = new4[3];
            proof {
                assert forall|xx: int, yy: int, k: int|
                    0 <= xx < width && 0 <= yy < height && 0 <= k < 4 implies #[trigger] canvas@[px_byte(
                    width as int,
                    xx,
                    yy,
                    k,
                )] == if (x0 <= xx < xe && y0 <= yy < y) || (x0 <= xx < x + 1 && yy == y) {
                    paint_px(p@, xx - x0, yy - y0, pixel(before, width as int, xx, yy))[k]
                } else {
                    before[px_byte(width as int, xx, yy, k)]
                } by {
                    lemma_px_byte(width as int, height as int, xx, yy, k);
                    if xx == x && yy == y {
                        assert(px_byte(width as int, xx, yy, k) == o + k);
                    } else {
                        if px_byte(width as int, xx, yy, k) >= o && px_byte(width as int, xx, yy, k) < o + 4 {
                            let kk = px_byte(width as int, xx, yy, k) - o;
                            lemma_px_byte_injective(width as int, xx, yy, k, x as int, y as int, kk);
                        }
                        assert(canvas@[px_byte(width as int, xx, yy, k)] == mid[px_byte(width as int, xx, yy, k)]);
                    }
                }
                assert forall|i: int| width * height * 4 <= i < before.len() implies #[trigger] canvas@[i] == before[i] by {
                    assert(canvas@[i] == mid[i]);
                }
            }
            x += 1;
        }
        y += 1;
    }
    proof {
        assert forall|x: int, yy: int, k: int|
            0 <= x < width && 0 <= yy < height && 0 <= k < 4 implies #[trigger] canvas@[px_byte(
            width as int,
            x,
            yy,
            k,
        )] == if in_rect(x, yy, x0 as int, y0 as int, w as int, h as int) {
            paint_px(p@, x - x0, yy - y0, pixel(before, width as int, x, yy))[k]
        } else {
            before[px_byte(width as int, x, yy, k)]
        } by {}
    }
}

} // verus!
