//! Compositing into a premultiplied BGRA canvas, and showing the result.
//!
//! A canvas is a flat run of bytes, four to a pixel, row by row. Every shape
//! is composited "over" it with an opacity of 0 to 255 per pixel.

use vstd::prelude::*;
use vstd::arithmetic::div_mod::{lemma_fundamental_div_mod, lemma_fundamental_div_mod_converse};
use crate::pixels::Pixels;

verus! {

// ---------------------------------------------------------------- one pixel

/// One color channel, `src` with opacity `a` over `bg`, rounded to nearest.
pub open spec fn blend_channel(src: u8, bg: u8, a: u8) -> u8 {
    ((src * a + bg * (255 - a) + 127) / 255) as u8
}

/// The alpha channel after something of opacity `a` was put over `bg`.
pub open spec fn blend_alpha(bg: u8, a: u8) -> u8 {
    ((a * 255 + bg * (255 - a)) / 255) as u8
}

/// Byte `c` of a BGRA pixel after the color `rgb` was put over it.
pub open spec fn blend_byte(bg: u8, c: int, rgb: Seq<u8>, a: u8) -> u8 {
    if c == 3 {
        blend_alpha(bg, a)
    } else {
        blend_channel(rgb[2 - c], bg, a)
    }
}

proof fn blend_bounds(s: int, b: int, a: int)
    requires
        0 <= s <= 255,
        0 <= b <= 255,
        0 <= a <= 255,
    ensures
        0 <= s * a <= 255 * a,
        0 <= b * (255 - a) <= 255 * (255 - a),
        0 <= s * a + b * (255 - a) <= 65025,
{
    assert(0 <= s * a <= 255 * a) by (nonlinear_arith)
        requires
            0 <= s <= 255,
            0 <= a,
    ;
    assert(0 <= b * (255 - a) <= 255 * (255 - a)) by (nonlinear_arith)
        requires
            0 <= b <= 255,
            a <= 255,
    ;
}

/// At its ends, blending keeps the background or takes the source.
proof fn blend_ends(s: u8, b: u8)
    ensures
        blend_channel(s, b, 0) == b,
        blend_channel(s, b, 255) == s,
        blend_alpha(b, 0) == b,
        blend_alpha(b, 255) == 255,
{
    assert((s * 255 + 127) / 255 == s as int);
    assert((b * 255 + 127) / 255 == b as int);
    assert(s * 255 + b * (255 - 255) + 127 == s * 255 + 127);
    assert(s * 0 + b * (255 - 0) + 127 == b * 255 + 127);
}

/// Composites a source color over one premultiplied BGRA pixel of the canvas.
/// `rgb` is the straight source color and `a` its opacity.
pub fn blend_over(dst: &mut [u8], di: usize, rgb: [u8; 3], a: u8)
    requires
        di + 4 <= old(dst)@.len(),
    ensures
        final(dst)@ == Seq::new(
            old(dst)@.len(),
            |i: int|
                if di <= i < di + 4 {
                    blend_byte(old(dst)@[i], i - di, rgb@, a)
                } else {
                    old(dst)@[i]
                },
        ),
{
    let ghost before = dst@;
    let ghost after = Seq::new(
        before.len(),
        |i: int|
            if di <= i < di + 4 {
                blend_byte(before[i], i - di, rgb@, a)
            } else {
                before[i]
            },
    );
    proof {
        blend_ends(rgb@[2], before[di as int]);
        blend_ends(rgb@[1], before[di + 1]);
        blend_ends(rgb@[0], before[di + 2]);
        blend_ends(0, before[di + 3]);
    }
    if a == 0 {
        assert(dst@ =~= after);
        return;
    }
    if a == 255 {
        dst[di] = rgb[2];
        dst[di + 1] = rgb[1];
        dst[di + 2] = rgb[0];
        dst[di + 3] = 255;
        assert(dst@ =~= after);
        return;
    }
    let w: u32 = a as u32;
    let inv: u32 = 255 - w;
    proof {
        blend_bounds(rgb@[2] as int, before[di + 0] as int, a as int);
        blend_bounds(rgb@[1] as int, before[di + 1] as int, a as int);
        blend_bounds(rgb@[0] as int, before[di + 2] as int, a as int);
        blend_bounds(255, before[di + 3] as int, a as int);
    }
    let b: u8 = ((rgb[2] as u32 * w + dst[di] as u32 * inv + 127) / 255) as u8;
    let g: u8 = ((rgb[1] as u32 * w + dst[di + 1] as u32 * inv + 127) / 255) as u8;
    let r: u8 = ((rgb[0] as u32 * w + dst[di + 2] as u32 * inv + 127) / 255) as u8;
    let o: u8 = ((w * 255 + dst[di + 3] as u32 * inv) / 255) as u8;
    dst[di] = b;
    dst[di + 1] = g;
    dst[di + 2] = r;
    dst[di + 3] = o;
    assert(dst@ =~= after);
}

/// Nothing of zero opacity leaves a trace, and an opaque color replaces what
/// it covers.
pub proof fn transparent_keeps_and_opaque_replaces(bg: u8, c: int, rgb: Seq<u8>)
    requires
        0 <= c < 4,
    ensures
        blend_byte(bg, c, rgb, 0) == bg,
        c < 3 ==> blend_byte(bg, c, rgb, 255) == rgb[2 - c],
        c == 3 ==> blend_byte(bg, c, rgb, 255) == 255,
{
    blend_ends(rgb[2 - c], bg);
}

/// On a transparent canvas a color comes out premultiplied: its alpha is the
/// opacity, and no channel exceeds it.
pub proof fn fresh_pixels_are_premultiplied(c: int, rgb: Seq<u8>, a: u8)
    requires
        0 <= c < 4,
    ensures
        blend_byte(0, 3, rgb, a) == a,
        blend_byte(0, c, rgb, a) <= a,
        c < 3 && rgb[2 - c] == 255 ==> blend_byte(0, c, rgb, a) == a,
{
    if c < 3 {
        blend_bounds(rgb[2 - c] as int, 0, a as int);
    }
}

/// What is opaque stays opaque, whatever is put over it.
pub proof fn opaque_pixels_stay_opaque(rgb: Seq<u8>, a: u8)
    ensures
        blend_byte(255, 3, rgb, a) == 255,
{
    assert(a * 255 + 255 * (255 - a) == 65025);
}

// ---------------------------------------------------------------- a patch

/// What is put over a rectangle of the canvas.
#[derive(Clone, Copy)]
pub enum Source<'a> {
    /// One opaque color.
    Solid { rgb: [u8; 3] },
    /// One color, with an opacity for each pixel.
    Mask { rgb: [u8; 3], alpha: &'a [u8] },
    /// An RGBA image, with an opacity for each pixel that takes the place of
    /// the image's own.
    Image { rgba: &'a [u8], alpha: &'a [u8] },
}

impl<'a> Source<'a> {
    /// The straight color of pixel `k`.
    pub open spec fn color(self, k: int) -> Seq<u8> {
        match self {
            Source::Solid { rgb } => rgb@,
            Source::Mask { rgb, .. } => rgb@,
            Source::Image { rgba, .. } => seq![rgba@[4 * k], rgba@[4 * k + 1], rgba@[4 * k + 2]],
        }
    }

    /// The opacity of pixel `k`.
    pub open spec fn opacity(self, k: int) -> u8 {
        match self {
            Source::Solid { .. } => 255,
            Source::Mask { alpha, .. } => alpha@[k],
            Source::Image { alpha, .. } => alpha@[k],
        }
    }

    /// There is something to read for each of `n` pixels.
    pub open spec fn covers(self, n: int) -> bool {
        match self {
            Source::Solid { .. } => true,
            Source::Mask { alpha, .. } => alpha@.len() >= n,
            Source::Image { rgba, alpha } => alpha@.len() >= n && rgba@.len() >= 4 * n,
        }
    }
}

/// The canvas column and row of byte `i`.
pub open spec fn column(i: int, w: int) -> int {
    (i / 4) % w
}

pub open spec fn row(i: int, w: int) -> int {
    (i / 4) / w
}

/// The canvas has its `w` by `h` pixels, and their bytes can be counted.
pub open spec fn canvas_fits(len: nat, w: i32, h: i32) -> bool {
    w > 0 && h > 0 ==> 4 * (w * h) <= i32::MAX && 4 * (w * h) <= len
}

/// A rectangle of the canvas: its corner and its sides.
#[derive(Clone, Copy)]
pub struct Area {
    pub x: i32,
    pub y: i32,
    pub w: i32,
    pub h: i32,
}

impl Area {
    pub open spec fn has(self, x: int, y: int) -> bool {
        self.x <= x < self.x + self.w && self.y <= y < self.y + self.h
    }

    /// The number of the pixel at a canvas position, counted in the area.
    pub open spec fn index(self, x: int, y: int) -> int {
        (y - self.y) * self.w + (x - self.x)
    }

    /// The number of its pixels.
    pub open spec fn count(self) -> int {
        if self.w > 0 && self.h > 0 {
            self.w * self.h
        } else {
            0
        }
    }
}

/// Byte `i` of a canvas after `src` was put over `area`.
pub open spec fn composed_byte(
    before: Seq<u8>,
    i: int,
    w: i32,
    h: i32,
    area: Area,
    src: Source,
) -> u8 {
    let x = column(i, w as int);
    let y = row(i, w as int);
    if w > 0 && h > 0 && i < 4 * (w * h) && area.has(x, y) {
        let k = area.index(x, y);
        blend_byte(before[i], i % 4, src.color(k), src.opacity(k))
    } else {
        before[i]
    }
}

/// A canvas after `src` was put over `area`; what lies beyond the canvas is
/// cut off.
pub open spec fn composed(before: Seq<u8>, w: i32, h: i32, area: Area, src: Source) -> Seq<u8> {
    Seq::new(before.len(), |i: int| composed_byte(before, i, w, h, area, src))
}

proof fn position_bound(x: int, y: int, w: int, h: int)
    requires
        0 <= x < w,
        0 <= y < h,
    ensures
        0 <= y * w,
        y * w + x < w * h,
{
    assert(0 <= y * w) by (nonlinear_arith)
        requires
            0 <= y,
            0 <= w,
    ;
    assert(y * w + w <= w * h) by (nonlinear_arith)
        requires
            y + 1 <= h,
            0 <= w,
    ;
}

fn source_color(src: Source, k: usize) -> (c: [u8; 3])
    requires
        src.covers(k + 1),
    ensures
        c@ == src.color(k as int),
{
    match src {
        Source::Solid { rgb } => rgb,
        Source::Mask { rgb, .. } => rgb,
        Source::Image { rgba, .. } => {
            let n: usize = rgba.len();
            assert(4 * k + 4 <= n);
            let c: [u8; 3] = [rgba[4 * k], rgba[4 * k + 1], rgba[4 * k + 2]];
            assert(c@ =~= src.color(k as int));
            c
        },
    }
}

fn source_opacity(src: Source, k: usize) -> (a: u8)
    requires
        src.covers(k + 1),
    ensures
        a == src.opacity(k as int),
{
    match src {
        Source::Solid { .. } => 255,
        Source::Mask { alpha, .. } => alpha[k],
        Source::Image { alpha, .. } => alpha[k],
    }
}

/// Whether the walk over the canvas has passed byte `i` when it stands at
/// column `x` of row `y`.
spec fn passed(i: int, w: int, x: int, y: int) -> bool {
    row(i, w) < y || (row(i, w) == y && column(i, w) < x)
}

/// The bytes of the pixel at column `x` of row `y`.
proof fn pixel_bytes(i: int, w: int, x: int, y: int)
    requires
        0 <= i,
        0 <= x < w,
        0 <= y,
    ensures
        column(i, w) == x && row(i, w) == y <==> i / 4 == y * w + x,
{
    if i / 4 == y * w + x {
        lemma_fundamental_div_mod_converse(i / 4, w, y, x);
    } else if column(i, w) == x && row(i, w) == y {
        lemma_fundamental_div_mod(i / 4, w);
        assert(w * y == y * w) by (nonlinear_arith);
    }
}

proof fn column_row_bounds(i: int, w: int)
    requires
        0 <= i,
        0 < w,
    ensures
        0 <= column(i, w) < w,
        0 <= row(i, w),
{
    assert(0 <= (i / 4) / w) by (nonlinear_arith)
        requires
            0 <= i,
            0 < w,
    ;
}

proof fn row_below(i: int, w: int, h: int)
    requires
        0 <= i < 4 * (w * h),
        0 < w,
    ensures
        row(i, w) < h,
{
    let p = i / 4;
    assert(p < w * h);
    lemma_fundamental_div_mod(p, w);
    assert(p / w < h) by (nonlinear_arith)
        requires
            p < w * h,
            p == w * (p / w) + p % w,
            0 <= p % w,
            0 < w,
    ;
}

/// Puts `src` over a rectangle of the canvas, cut off at the canvas's edges.
pub fn compose(dst: &mut [u8], dst_w: i32, dst_h: i32, area: Area, src: Source)
    requires
        canvas_fits(old(dst)@.len(), dst_w, dst_h),
        src.covers(area.count()),
    ensures
        final(dst)@ == composed(old(dst)@, dst_w, dst_h, area, src),
{
    let ghost before = dst@;
    let x_end: i64 = area.x as i64 + area.w as i64;
    let y_end: i64 = area.y as i64 + area.h as i64;
    let xa: i32 = if area.x > 0 {
        area.x
    } else {
        0
    };
    let ya: i32 = if area.y > 0 {
        area.y
    } else {
        0
    };
    let xb: i64 = if x_end < dst_w as i64 {
        x_end
    } else {
        dst_w as i64
    };
    let yb: i64 = if y_end < dst_h as i64 {
        y_end
    } else {
        dst_h as i64
    };
    if xa as i64 >= xb || ya as i64 >= yb {
        proof {
            if dst_w > 0 {
                assert forall|i: int| 0 <= i < before.len() implies composed_byte(
                    before,
                    i,
                    dst_w,
                    dst_h,
                    area,
                    src,
                ) == before[i] by {
                    column_row_bounds(i, dst_w as int);
                    if dst_h > 0 && i < 4 * (dst_w * dst_h) {
                        row_below(i, dst_w as int, dst_h as int);
                    }
                }
            }
            assert(dst@ =~= composed(before, dst_w, dst_h, area, src));
        }
        return;
    }
    let ghost w = dst_w as int;
    let mut y: i32 = ya;
    proof {
        assert forall|i: int| 0 <= i < before.len() && passed(i, w, xa as int, ya as int) implies (
        #[trigger] before[i]) == composed_byte(before, i, dst_w, dst_h, area, src) by {
            column_row_bounds(i, w);
        }
    }
    while (y as i64) < yb
        invariant
            w == dst_w,
            0 < dst_w,
            0 < dst_h,
            canvas_fits(before.len(), dst_w, dst_h),
            src.covers(area.count()),
            xa == (if area.x > 0 {
                area.x
            } else {
                0
            }),
            ya == (if area.y > 0 {
                area.y
            } else {
                0
            }),
            xb == (if area.x + area.w < dst_w {
                area.x + area.w
            } else {
                dst_w as int
            }),
            yb == (if area.y + area.h < dst_h {
                area.y + area.h
            } else {
                dst_h as int
            }),
            xa < xb,
            ya <= y <= yb,
            dst@.len() == before.len(),
            forall|i: int|
                0 <= i < before.len() ==> #[trigger] dst@[i] == (if passed(
                    i,
                    w,
                    xa as int,
                    y as int,
                ) {
                    composed_byte(before, i, dst_w, dst_h, area, src)
                } else {
                    before[i]
                }),
        decreases yb - y,
    {
        let mut x: i32 = xa;
        while (x as i64) < xb
            invariant
                w == dst_w,
                0 < dst_w,
                0 < dst_h,
                canvas_fits(before.len(), dst_w, dst_h),
                src.covers(area.count()),
                0 <= xa <= x <= xb <= dst_w,
                area.x <= xa,
                xb <= area.x + area.w,
                0 <= y < dst_h,
                area.y <= y < area.y + area.h,
                dst@.len() == before.len(),
                forall|i: int|
                    0 <= i < before.len() ==> #[trigger] dst@[i] == (if passed(
                        i,
                        w,
                        x as int,
                        y as int,
                    ) {
                        composed_byte(before, i, dst_w, dst_h, area, src)
                    } else {
                        before[i]
                    }),
            decreases xb - x,
        {
            let ghost at = dst@;
            proof {
                position_bound(x as int, y as int, w, dst_h as int);
                position_bound(
                    x - area.x,
                    y - area.y,
                    area.w as int,
                    area.h as int,
                );
            }
            let lx: i64 = x as i64 - area.x as i64;
            let ly: i64 = y as i64 - area.y as i64;
            assert(area.w * area.h <= i32::MAX * i32::MAX) by (nonlinear_arith)
                requires
                    0 < area.w <= i32::MAX,
                    0 < area.h <= i32::MAX,
            ;
            let k: usize = (ly * area.w as i64 + lx) as usize;
            proof {
                // Only a source without a table can have more pixels than
                // can be counted, and it is the same everywhere.
                let n = area.index(x as int, y as int);
                match src {
                    Source::Solid { .. } => {},
                    Source::Mask { alpha, .. } => {
                        assert(n < alpha@.len() == alpha.len());
                    },
                    Source::Image { alpha, .. } => {
                        assert(n < alpha@.len() == alpha.len());
                    },
                }
                assert(src.color(k as int) == src.color(n));
                assert(src.opacity(k as int) == src.opacity(n));
            }
            let p: usize = (y as i64 * dst_w as i64 + x as i64) as usize;
            let di: usize = p * 4;
            blend_over(dst, di, source_color(src, k), source_opacity(src, k));
            proof {
                assert forall|i: int| 0 <= i < before.len() implies #[trigger] dst@[i] == (
                if passed(i, w, x + 1, y as int) {
                    composed_byte(before, i, dst_w, dst_h, area, src)
                } else {
                    before[i]
                }) by {
                    pixel_bytes(i, w, x as int, y as int);
                    assert(at[i] == (if passed(i, w, x as int, y as int) {
                        composed_byte(before, i, dst_w, dst_h, area, src)
                    } else {
                        before[i]
                    }));
                    if di <= i < di + 4 {
                        assert(i / 4 == p && i % 4 == i - di);
                    } else {
                        assert(i / 4 != p);
                    }
                }
            }
            x = x + 1;
        }
        proof {
            assert forall|i: int| 0 <= i < before.len() implies #[trigger] dst@[i] == (if passed(
                i,
                w,
                xa as int,
                y + 1,
            ) {
                composed_byte(before, i, dst_w, dst_h, area, src)
            } else {
                before[i]
            }) by {
                column_row_bounds(i, w);
            }
        }
        y = y + 1;
    }
    proof {
        assert forall|i: int| 0 <= i < before.len() implies #[trigger] dst@[i] == composed_byte(
            before,
            i,
            dst_w,
            dst_h,
            area,
            src,
        ) by {
            column_row_bounds(i, w);
            if i < 4 * (dst_w * dst_h) {
                row_below(i, w, dst_h as int);
            }
        }
        assert(dst@ =~= composed(before, dst_w, dst_h, area, src));
    }
}

// ---------------------------------------------------------------- shapes

/// Fills a rectangle with an opaque color, given in BGR order.
pub fn draw_rect(
    dst: &mut [u8],
    dst_w: i32,
    dst_h: i32,
    x0: i32,
    y0: i32,
    w: i32,
    h: i32,
    color_bgr: [u8; 3],
)
    requires
        canvas_fits(old(dst)@.len(), dst_w, dst_h),
    ensures
        final(dst)@ == rect_drawn(
            old(dst)@,
            dst_w,
            dst_h,
            Area { x: x0, y: y0, w, h },
            color_bgr@,
        ),
{
    let rgb: [u8; 3] = [color_bgr[2], color_bgr[1], color_bgr[0]];
    let area: Area = Area { x: x0, y: y0, w, h };
    let src: Source = Source::Solid { rgb };
    let ghost before = dst@;
    compose(dst, dst_w, dst_h, area, src);
    proof {
        let after = rect_drawn(before, dst_w, dst_h, area, color_bgr@);
        assert forall|i: int| 0 <= i < before.len() implies composed_byte(
            before,
            i,
            dst_w,
            dst_h,
            area,
            src,
        ) == after[i] by {
            transparent_keeps_and_opaque_replaces(before[i], i % 4, rgb@);
        }
        assert(dst@ =~= after);
    }
}

/// Byte `c` of an opaque pixel of a color in BGR order.
pub open spec fn ink(bgr: Seq<u8>, c: int) -> u8 {
    if c == 3 {
        255
    } else {
        bgr[c]
    }
}

/// Whether byte `i` belongs to a pixel of the canvas that lies in `area`.
pub open spec fn lies_in(i: int, w: i32, h: i32, area: Area) -> bool {
    w > 0 && h > 0 && i < 4 * (w * h) && area.has(column(i, w as int), row(i, w as int))
}

/// A canvas after a rectangle was filled.
pub open spec fn rect_drawn(before: Seq<u8>, w: i32, h: i32, area: Area, bgr: Seq<u8>) -> Seq<
    u8,
> {
    Seq::new(
        before.len(),
        |i: int|
            if lies_in(i, w, h, area) {
                ink(bgr, i % 4)
            } else {
                before[i]
            },
    )
}

/// Puts an image over the canvas with its corner at (x0, y0). `alpha` holds
/// the opacity of each of its pixels, with the rounding of its corners and its
/// dimming worked in.
pub fn blit_rounded(
    dst: &mut [u8],
    dst_w: i32,
    dst_h: i32,
    src: &Pixels,
    alpha: &[u8],
    x0: i32,
    y0: i32,
)
    requires
        canvas_fits(old(dst)@.len(), dst_w, dst_h),
        src.wf(),
        src.width <= i32::MAX,
        src.height <= i32::MAX,
        alpha@.len() >= src.width * src.height,
    ensures
        final(dst)@ == image_drawn(old(dst)@, dst_w, dst_h, *src, alpha@, x0, y0),
{
    let area: Area = Area { x: x0, y: y0, w: src.width as i32, h: src.height as i32 };
    let source: Source = Source::Image { rgba: src.data.as_slice(), alpha };
    let ghost before = dst@;
    compose(dst, dst_w, dst_h, area, source);
    assert(dst@ =~= image_drawn(before, dst_w, dst_h, *src, alpha@, x0, y0));
}

/// A canvas after an image was put over it.
pub open spec fn image_drawn(
    before: Seq<u8>,
    w: i32,
    h: i32,
    src: Pixels,
    alpha: Seq<u8>,
    x0: i32,
    y0: i32,
) -> Seq<u8> {
    let area = Area { x: x0, y: y0, w: src.width as i32, h: src.height as i32 };
    Seq::new(
        before.len(),
        |i: int|
            if lies_in(i, w, h, area) {
                let k = area.index(column(i, w as int), row(i, w as int));
                let rgb = seq![src.data@[4 * k], src.data@[4 * k + 1], src.data@[4 * k + 2]];
                blend_byte(before[i], i % 4, rgb, alpha[k])
            } else {
                before[i]
            },
    )
}

/// A canvas after one color was put over an area, with an opacity for each of
/// the area's pixels.
pub open spec fn mask_drawn(
    before: Seq<u8>,
    w: i32,
    h: i32,
    area: Area,
    rgb: Seq<u8>,
    alpha: Seq<u8>,
) -> Seq<u8> {
    Seq::new(
        before.len(),
        |i: int|
            if lies_in(i, w, h, area) {
                blend_byte(
                    before[i],
                    i % 4,
                    rgb,
                    alpha[area.index(column(i, w as int), row(i, w as int))],
                )
            } else {
                before[i]
            },
    )
}

/// Puts one color over an area, with an opacity for each of its pixels.
pub fn fill_mask(
    dst: &mut [u8],
    dst_w: i32,
    dst_h: i32,
    area: Area,
    rgb: [u8; 3],
    alpha: &[u8],
)
    requires
        canvas_fits(old(dst)@.len(), dst_w, dst_h),
        alpha@.len() >= area.count(),
    ensures
        final(dst)@ == mask_drawn(old(dst)@, dst_w, dst_h, area, rgb@, alpha@),
{
    let ghost before = dst@;
    compose(dst, dst_w, dst_h, area, Source::Mask { rgb, alpha });
    assert(dst@ =~= mask_drawn(before, dst_w, dst_h, area, rgb@, alpha@));
}

/// The box of a ring of `width` pixels around a `size` by `size` box.
pub open spec fn ring_area(x0: i32, y0: i32, size: i32, width: i32) -> Area {
    Area {
        x: (x0 - width) as i32,
        y: (y0 - width) as i32,
        w: (size + 2 * width) as i32,
        h: (size + 2 * width) as i32,
    }
}

/// Draws the selection ring, an outline of `width` pixels around the `size` by
/// `size` box at (x0, y0), over what is already there. `alpha` holds the
/// opacity of each pixel of the ring's own box. A ring without a width is not
/// drawn.
pub fn draw_ring(
    dst: &mut [u8],
    dst_w: i32,
    dst_h: i32,
    x0: i32,
    y0: i32,
    size: i32,
    width: i32,
    rgb: [u8; 3],
    alpha: &[u8],
)
    requires
        canvas_fits(old(dst)@.len(), dst_w, dst_h),
        width > 0 ==> {
            &&& i32::MIN <= x0 - width
            &&& i32::MIN <= y0 - width
            &&& 2 * width <= i32::MAX
            &&& size + 2 * width <= i32::MAX
            &&& alpha@.len() >= ring_area(x0, y0, size, width).count()
        },
    ensures
        final(dst)@ == (if width > 0 {
            mask_drawn(old(dst)@, dst_w, dst_h, ring_area(x0, y0, size, width), rgb@, alpha@)
        } else {
            old(dst)@
        }),
{
    if width <= 0 {
        return;
    }
    let side: i32 = size + 2 * width;
    let area: Area = Area { x: x0 - width, y: y0 - width, w: side, h: side };
    fill_mask(dst, dst_w, dst_h, area, rgb, alpha);
}

// ---------------------------------------------------------------- showing

/// A buffer after finished content was copied to its front.
pub open spec fn copied(canvas: Seq<u8>, content: Seq<u8>) -> Seq<u8> {
    content + canvas.skip(content.len() as int)
}

/// Copies the content into a buffer, which may be longer.
pub fn present(canvas: &mut [u8], content: &[u8])
    requires
        content@.len() <= old(canvas)@.len(),
    ensures
        final(canvas)@ == copied(old(canvas)@, content@),
{
    let ghost before = canvas@;
    let n: usize = content.len();
    let mut i: usize = 0;
    while i < n
        invariant
            i <= n,
            n == content@.len(),
            n <= before.len(),
            canvas@.len() == before.len(),
            forall|k: int|
                0 <= k < before.len() ==> #[trigger] canvas@[k] == (if k < i {
                    content@[k]
                } else {
                    before[k]
                }),
        decreases n - i,
    {
        canvas[i] = content[i];
        i = i + 1;
    }
    assert(canvas@ =~= copied(before, content@));
}

/// The content column or row that each column or row of a buffer shows;
/// `None` where it lies outside.
pub open spec fn positions_in(m: Seq<Option<u32>>, n: int) -> bool {
    forall|k: int| 0 <= k < m.len() ==> (#[trigger] m[k] matches Some(p) ==> p < n)
}

/// Byte `c` of a pixel of the content, faded; a pixel whose opacity fades
/// away shows nothing.
pub open spec fn faded(content: Seq<u8>, pixel: int, c: int, fade: Seq<u8>) -> u8 {
    if fade[content[4 * pixel + 3] as int] == 0 {
        0
    } else {
        fade[content[4 * pixel + c] as int]
    }
}

/// Byte `i` of a buffer that shows the content with its columns and rows
/// looked up in `xs` and `ys` and its bytes in `fade`.
pub open spec fn transformed_byte(
    before: Seq<u8>,
    i: int,
    w: int,
    h: int,
    content: Seq<u8>,
    xs: Seq<Option<u32>>,
    ys: Seq<Option<u32>>,
    fade: Seq<u8>,
) -> u8 {
    if i < 4 * (w * h) {
        match (xs[column(i, w)], ys[row(i, w)]) {
            (Some(sx), Some(sy)) => faded(content, sy * w + sx, i % 4, fade),
            _ => 0,
        }
    } else if i < 4 * (before.len() as int / 4) {
        0
    } else {
        before[i]
    }
}

/// Shows the content scaled and faded: every pixel of the buffer is cleared,
/// and then those that show one of the content's get its bytes.
pub fn present_transformed(
    canvas: &mut [u8],
    content: &[u8],
    w: u32,
    h: u32,
    xs: &[Option<u32>],
    ys: &[Option<u32>],
    fade: &[u8],
)
    requires
        w > 0,
        h > 0,
        4 * (w * h) <= old(canvas)@.len(),
        4 * (w * h) <= content@.len(),
        xs@.len() == w,
        ys@.len() == h,
        positions_in(xs@, w as int),
        positions_in(ys@, h as int),
        fade@.len() == 256,
    ensures
        final(canvas)@ == Seq::new(
            old(canvas)@.len(),
            |i: int|
                transformed_byte(
                    old(canvas)@,
                    i,
                    w as int,
                    h as int,
                    content@,
                    xs@,
                    ys@,
                    fade@,
                ),
        ),
{
    let ghost before = canvas@;
    let len: usize = canvas.len();
    let whole: usize = (len / 4) * 4;
    let mut i: usize = 0;
    while i < whole
        invariant
            i <= whole == 4 * (before.len() as int / 4),
            canvas@.len() == before.len(),
            whole <= before.len(),
            forall|k: int|
                0 <= k < before.len() ==> #[trigger] canvas@[k] == (if k < i {
                    0
                } else {
                    before[k]
                }),
        decreases whole - i,
    {
        canvas[i] = 0;
        i = i + 1;
    }
    let ghost cleared = canvas@;
    let mut y: u32 = 0;
    assert(forall|k: int| 0 <= k < before.len() ==> !passed(k, w as int, 0, 0)) by {
        assert forall|k: int| 0 <= k < before.len() implies !passed(k, w as int, 0, 0) by {
            column_row_bounds(k, w as int);
        }
    }
    while y < h
        invariant
            0 < w,
            0 <= y <= h,
            4 * (w * h) <= before.len(),
            4 * (w * h) <= content@.len(),
            xs@.len() == w,
            ys@.len() == h,
            positions_in(xs@, w as int),
            positions_in(ys@, h as int),
            fade@.len() == 256,
            canvas@.len() == before.len() == cleared.len(),
            forall|k: int|
                0 <= k < before.len() ==> #[trigger] cleared[k] == (if k < 4 * (before.len() as int
                    / 4) {
                    0
                } else {
                    before[k]
                }),
            forall|k: int|
                0 <= k < before.len() ==> #[trigger] canvas@[k] == (if k < 4 * (w * h) && passed(
                    k,
                    w as int,
                    0,
                    y as int,
                ) {
                    transformed_byte(
                        before,
                        k,
                        w as int,
                        h as int,
                        content@,
                        xs@,
                        ys@,
                        fade@,
                    )
                } else {
                    cleared[k]
                }),
        decreases h - y,
    {
        let mut x: u32 = 0;
        while x < w
            invariant
                0 <= x <= w,
                0 <= y < h,
                4 * (w * h) <= before.len(),
                4 * (w * h) <= content@.len(),
                xs@.len() == w,
                ys@.len() == h,
                positions_in(xs@, w as int),
                positions_in(ys@, h as int),
                fade@.len() == 256,
                canvas@.len() == before.len() == cleared.len(),
                forall|k: int|
                    0 <= k < before.len() ==> #[trigger] cleared[k] == (if k < 4 * (
                    before.len() as int / 4) {
                        0
                    } else {
                        before[k]
                    }),
                forall|k: int|
                    0 <= k < before.len() ==> #[trigger] canvas@[k] == (if k < 4 * (w * h)
                        && passed(k, w as int, x as int, y as int) {
                        transformed_byte(
                            before,
                            k,
                            w as int,
                            h as int,
                            content@,
                            xs@,
                            ys@,
                            fade@,
                        )
                    } else {
                        cleared[k]
                    }),
            decreases w - x,
        {
            let ghost at = canvas@;
            let total: usize = canvas.len();
            proof {
                position_bound(x as int, y as int, w as int, h as int);
            }
            let p: usize = y as usize * w as usize + x as usize;
            if let Some(sx) = xs[x as usize] {
                if let Some(sy) = ys[y as usize] {
                    proof {
                        position_bound(sx as int, sy as int, w as int, h as int);
                    }
                    let s: usize = sy as usize * w as usize + sx as usize;
                    let a: u8 = fade[content[4 * s + 3] as usize];
                    if a != 0 {
                        canvas[4 * p] = fade[content[4 * s] as usize];
                        canvas[4 * p + 1] = fade[content[4 * s + 1] as usize];
                        canvas[4 * p + 2] = fade[content[4 * s + 2] as usize];
                        canvas[4 * p + 3] = a;
                    }
                }
            }
            proof {
                assert forall|k: int| 0 <= k < before.len() implies #[trigger] canvas@[k] == (if k
                    < 4 * (w * h) && passed(k, w as int, x + 1, y as int) {
                    transformed_byte(before, k, w as int, h as int, content@, xs@, ys@, fade@)
                } else {
                    cleared[k]
                }) by {
                    pixel_bytes(k, w as int, x as int, y as int);
                    assert(at[k] == (if k < 4 * (w * h) && passed(
                        k,
                        w as int,
                        x as int,
                        y as int,
                    ) {
                        transformed_byte(before, k, w as int, h as int, content@, xs@, ys@, fade@)
                    } else {
                        cleared[k]
                    }));
                    if 4 * p <= k < 4 * p + 4 {
                        assert(k / 4 == p);
                        assert(k % 4 == k - 4 * p);
                    } else {
                        assert(k / 4 != p);
                    }
                }
            }
            x = x + 1;
        }
        proof {
            assert forall|k: int| 0 <= k < before.len() implies #[trigger] canvas@[k] == (if k < 4
                * (w * h) && passed(k, w as int, 0, y + 1) {
                transformed_byte(before, k, w as int, h as int, content@, xs@, ys@, fade@)
            } else {
                cleared[k]
            }) by {
                column_row_bounds(k, w as int);
            }
        }
        y = y + 1;
    }
    proof {
        assert forall|k: int| 0 <= k < before.len() implies #[trigger] canvas@[k]
            == transformed_byte(before, k, w as int, h as int, content@, xs@, ys@, fade@) by {
            column_row_bounds(k, w as int);
            if k < 4 * (w * h) {
                row_below(k, w as int, h as int);
            }
        }
        assert(canvas@ =~= Seq::new(
            before.len(),
            |k: int|
                transformed_byte(before, k, w as int, h as int, content@, xs@, ys@, fade@),
        ));
    }
}

/// Shown without scaling or fading, the transformed content is the content.
pub proof fn plain_transform_is_a_copy(
    before: Seq<u8>,
    i: int,
    w: int,
    h: int,
    content: Seq<u8>,
    xs: Seq<Option<u32>>,
    ys: Seq<Option<u32>>,
    fade: Seq<u8>,
)
    requires
        0 < w <= u32::MAX,
        0 < h <= u32::MAX,
        0 <= i < 4 * (w * h),
        content.len() == 4 * (w * h),
        content.len() <= before.len(),
        xs == Seq::new(w as nat, |x: int| Some(x as u32)),
        ys == Seq::new(h as nat, |y: int| Some(y as u32)),
        fade == Seq::new(256, |v: int| v as u8),
        content[4 * (i / 4) + 3] > 0 || content[i] == 0,
    ensures
        transformed_byte(before, i, w, h, content, xs, ys, fade) == copied(before, content)[i],
{
    column_row_bounds(i, w);
    row_below(i, w, h);
    lemma_fundamental_div_mod(i / 4, w);
    assert(w * row(i, w) == row(i, w) * w) by (nonlinear_arith);
}

// ---------------------------------------------------------------- laws

/// Blending is the mean of color and background by the opacity, to the nearest
/// step; what it makes opaque adds up to no more than it should.
pub proof fn blending_is_a_weighted_mean(src: u8, bg: u8, a: u8)
    ensures
        -127 <= 255 * blend_channel(src, bg, a) - (src * a + bg * (255 - a)) <= 127,
        0 <= (255 * a + bg * (255 - a)) - 255 * blend_alpha(bg, a) < 255,
        blend_alpha(bg, a) >= a,
{
    blend_bounds(src as int, bg as int, a as int);
    blend_bounds(255, bg as int, a as int);
}

/// A pixel has blue, green, red and its opacity, in this order.
pub proof fn pixels_are_bgra(bg: u8, rgb: Seq<u8>, a: u8)
    ensures
        blend_byte(bg, 0, rgb, a) == blend_channel(rgb[2], bg, a),
        blend_byte(bg, 1, rgb, a) == blend_channel(rgb[1], bg, a),
        blend_byte(bg, 2, rgb, a) == blend_channel(rgb[0], bg, a),
        blend_byte(bg, 3, rgb, a) == blend_alpha(bg, a),
{
}

/// The column and row of a byte of the pixel at (x, y) of a canvas.
pub(crate) proof fn pixel_position(w: int, x: int, y: int, c: int)
    requires
        0 <= x < w,
        0 <= y,
        0 <= c < 4,
    ensures
        column(4 * (y * w + x) + c, w) == x,
        row(4 * (y * w + x) + c, w) == y,
        (4 * (y * w + x) + c) % 4 == c,
        0 <= 4 * (y * w + x) + c,
{
    let p = y * w + x;
    assert(0 <= y * w) by (nonlinear_arith)
        requires
            0 <= y,
            0 <= w,
    ;
    assert((4 * p + c) / 4 == p);
    lemma_fundamental_div_mod_converse(p, w, y, x);
}

/// The pixel lies on the canvas.
pub(crate) proof fn pixel_is_on_canvas(w: int, h: int, x: int, y: int, c: int)
    requires
        0 <= x < w,
        0 <= y < h,
        0 <= c < 4,
    ensures
        4 * (y * w + x) + c < 4 * (w * h),
{
    assert(y * w + w <= w * h) by (nonlinear_arith)
        requires
            y + 1 <= h,
            0 <= w,
    ;
}

/// What is put on a canvas lands where it is put: the pixel at (x, y) gets the
/// color and opacity of the place that it has in the area, counted from the
/// area's corner and row by row, and a pixel outside the area is left as it was.
pub proof fn patches_land_where_they_are_put(
    before: Seq<u8>,
    w: i32,
    h: i32,
    area: Area,
    src: Source,
    bgr: Seq<u8>,
    x: int,
    y: int,
    c: int,
)
    requires
        0 <= x < w,
        0 <= y < h,
        0 <= c < 4,
        before.len() >= 4 * (w * h),
    ensures
        ({
            let i = 4 * (y * w + x) + c;
            let inside = area.x <= x < area.x + area.w && area.y <= y < area.y + area.h;
            let k = (y - area.y) * area.w + (x - area.x);
            &&& inside ==> composed(before, w, h, area, src)[i] == blend_byte(
                before[i],
                c,
                src.color(k),
                src.opacity(k),
            )
            &&& !inside ==> composed(before, w, h, area, src)[i] == before[i]
            &&& rect_drawn(before, w, h, area, bgr)[i] == (if !inside {
                before[i]
            } else if c == 3 {
                255
            } else {
                bgr[c]
            })
        }),
        composed(before, w, h, area, src).len() == before.len(),
        rect_drawn(before, w, h, area, bgr).len() == before.len(),
{
    pixel_position(w as int, x, y, c);
    pixel_is_on_canvas(w as int, h as int, x, y, c);
}

/// The same of an image, whose bytes are red, green, blue and its own opacity,
/// which is not used, and of a color with an opacity for each place.
pub proof fn images_land_where_they_are_put(
    before: Seq<u8>,
    w: i32,
    h: i32,
    src: Pixels,
    alpha: Seq<u8>,
    x0: i32,
    y0: i32,
    rgb: Seq<u8>,
    x: int,
    y: int,
    c: int,
)
    requires
        0 <= x < w,
        0 <= y < h,
        0 <= c < 4,
        src.width <= i32::MAX,
        src.height <= i32::MAX,
        before.len() >= 4 * (w * h),
    ensures
        ({
            let i = 4 * (y * w + x) + c;
            let inside = x0 <= x < x0 + src.width && y0 <= y < y0 + src.height;
            let k = (y - y0) * src.width + (x - x0);
            let area = Area { x: x0, y: y0, w: src.width as i32, h: src.height as i32 };
            &&& image_drawn(before, w, h, src, alpha, x0, y0)[i] == (if inside {
                blend_byte(
                    before[i],
                    c,
                    seq![src.data@[4 * k], src.data@[4 * k + 1], src.data@[4 * k + 2]],
                    alpha[k],
                )
            } else {
                before[i]
            })
            &&& mask_drawn(before, w, h, area, rgb, alpha)[i] == (if inside {
                blend_byte(before[i], c, rgb, alpha[k])
            } else {
                before[i]
            })
        }),
{
    pixel_position(w as int, x, y, c);
    pixel_is_on_canvas(w as int, h as int, x, y, c);
}

/// A ring's box is wider than the square it goes around by its width on every
/// side.
pub proof fn rings_go_around(x0: i32, y0: i32, size: i32, width: i32)
    requires
        i32::MIN <= x0 - width <= i32::MAX,
        i32::MIN <= y0 - width <= i32::MAX,
        0 <= size + 2 * width <= i32::MAX,
    ensures
        ({
            let a = ring_area(x0, y0, size, width);
            &&& x0 - a.x == width && y0 - a.y == width
            &&& a.x + a.w == x0 + size + width
            &&& a.y + a.h == y0 + size + width
        }),
{
}

/// Finished content is copied to the front of a buffer, and what the buffer
/// holds behind it stays.
pub proof fn content_is_copied_to_the_front(canvas: Seq<u8>, content: Seq<u8>, i: int)
    requires
        content.len() <= canvas.len(),
        0 <= i < canvas.len(),
    ensures
        copied(canvas, content).len() == canvas.len(),
        i < content.len() ==> copied(canvas, content)[i] == content[i],
        i >= content.len() ==> copied(canvas, content)[i] == canvas[i],
{
}

/// Shown scaled and faded, a pixel gets the bytes of the content's pixel that
/// its column and row are looked up as, each faded; where that pixel's opacity
/// fades away, or lies outside the content, nothing is shown.
pub proof fn pixels_are_looked_up_and_faded(
    before: Seq<u8>,
    w: int,
    h: int,
    content: Seq<u8>,
    xs: Seq<Option<u32>>,
    ys: Seq<Option<u32>>,
    fade: Seq<u8>,
    x: int,
    y: int,
    c: int,
)
    requires
        0 <= x < w,
        0 <= y < h,
        0 <= c < 4,
    ensures
        ({
            let i = 4 * (y * w + x) + c;
            let shown = transformed_byte(before, i, w, h, content, xs, ys, fade);
            &&& xs[x] is None || ys[y] is None ==> shown == 0
            &&& xs[x] is Some && ys[y] is Some ==> {
                let p = 4 * (ys[y]->0 * w + xs[x]->0);
                shown == (if fade[content[p + 3] as int] == 0 {
                    0
                } else {
                    fade[content[p + c] as int]
                })
            }
        }),
{
    pixel_position(w, x, y, c);
    pixel_is_on_canvas(w, h, x, y, c);
}

/// What a buffer holds beyond the shown pixels is cleared, as far as it makes
/// whole pixels.
pub proof fn the_rest_of_a_buffer_is_cleared(
    before: Seq<u8>,
    w: int,
    h: int,
    content: Seq<u8>,
    xs: Seq<Option<u32>>,
    ys: Seq<Option<u32>>,
    fade: Seq<u8>,
    i: int,
)
    requires
        4 * (w * h) <= i < before.len(),
    ensures
        i < before.len() - before.len() % 4 ==> transformed_byte(
            before,
            i,
            w,
            h,
            content,
            xs,
            ys,
            fade,
        ) == 0,
        i >= before.len() - before.len() % 4 ==> transformed_byte(
            before,
            i,
            w,
            h,
            content,
            xs,
            ys,
            fade,
        ) == before[i],
{
}

} // verus!
