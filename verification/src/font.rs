//! Lettering from a table of 5 by 7 bitmap glyphs.

use vstd::prelude::*;
use vstd::arithmetic::div_mod::{lemma_fundamental_div_mod, lemma_fundamental_div_mod_converse};
use crate::canvas::{canvas_fits, column, draw_rect, ink, rect_drawn, row, Area};
use crate::text::chars_of;

verus! {

pub const GLYPH_WIDTH: i32 = 5;

pub const GLYPH_HEIGHT: i32 = 7;

/// One glyph: seven rows from the top, the leftmost pixel in bit 4.
pub struct Glyph {
    pub ch: char,
    pub rows: [u8; 7],
}

/// A table of glyphs, for upper-case letters and what else can be typed.
pub struct Font {
    pub glyphs: Vec<Glyph>,
}

pub open spec fn ascii_upper(c: char) -> char {
    if 'a' <= c <= 'z' {
        (c as u8 - 32) as u8 as char
    } else {
        c
    }
}

fn to_ascii_upper(c: char) -> (r: char)
    ensures
        r == ascii_upper(c),
{
    if 'a' <= c && c <= 'z' {
        (c as u8 - 32) as char
    } else {
        c
    }
}

/// The rows of the first entry for `c`.
pub open spec fn entry(g: Seq<Glyph>, c: char) -> Option<Seq<u8>>
    decreases g.len(),
{
    if g.len() == 0 {
        None
    } else if g[0].ch == c {
        Some(g[0].rows@)
    } else {
        entry(g.drop_first(), c)
    }
}

impl Font {
    /// The rows a character is drawn with: letters are folded to upper case,
    /// and what has no glyph has no rows.
    pub open spec fn rows(self, c: char) -> Option<Seq<u8>> {
        entry(self.glyphs@, ascii_upper(c))
    }

    pub fn glyph(&self, c: char) -> (r: Option<[u8; 7]>)
        ensures
            match r {
                Some(rows) => self.rows(c) == Some(rows@),
                None => self.rows(c) is None,
            },
    {
        let u: char = to_ascii_upper(c);
        let mut i: usize = 0;
        assert(self.glyphs@.skip(0) =~= self.glyphs@);
        while i < self.glyphs.len()
            invariant
                i <= self.glyphs@.len(),
                u == ascii_upper(c),
                entry(self.glyphs@.skip(i as int), u) == self.rows(c),
            decreases self.glyphs@.len() - i,
        {
            if self.glyphs[i].ch == u {
                return Some(self.glyphs[i].rows);
            }
            assert(self.glyphs@.skip(i as int).drop_first() =~= self.glyphs@.skip(i + 1));
            i = i + 1;
        }
        None
    }

    /// Whether a character can be typed into the search box: it can be drawn.
    pub fn is_searchable(&self, c: char) -> (r: bool)
        ensures
            r == self.rows(c) is Some,
    {
        self.glyph(c).is_some()
    }

    /// Whether the glyph of `c` has ink at a row and column.
    pub open spec fn has_ink(self, c: char, r: int, col: int) -> bool {
        match self.rows(c) {
            Some(rows) => bit_set(rows[r], col),
            None => false,
        }
    }

    /// Whether the lettering of `text` from (x0, y0) on, each glyph pixel a
    /// block of `scale` by `scale`, covers the position (x, y). Each letter
    /// takes six blocks in width.
    pub open spec fn covers(
        self,
        text: Seq<char>,
        x0: int,
        y0: int,
        scale: int,
        x: int,
        y: int,
    ) -> bool {
        let letter = (x - x0) / (6 * scale);
        let col = ((x - x0) % (6 * scale)) / scale;
        let r = (y - y0) / scale;
        &&& scale > 0
        &&& x0 <= x
        &&& y0 <= y < y0 + 7 * scale
        &&& letter < text.len()
        &&& col < 5
        &&& self.has_ink(text[letter], r, col)
    }
}

pub open spec fn bit_set(bits: u8, col: int) -> bool {
    bits & (1u8 << ((4 - col) as u8)) != 0
}

/// A canvas after a text was lettered on it.
pub open spec fn text_drawn(
    before: Seq<u8>,
    w: i32,
    h: i32,
    font: Font,
    text: Seq<char>,
    x0: int,
    y0: int,
    scale: int,
    bgr: Seq<u8>,
) -> Seq<u8> {
    Seq::new(
        before.len(),
        |i: int|
            if on_canvas(i, w, h) && font.covers(
                text,
                x0,
                y0,
                scale,
                column(i, w as int),
                row(i, w as int),
            ) {
                ink(bgr, i % 4)
            } else {
                before[i]
            },
    )
}

pub open spec fn on_canvas(i: int, w: i32, h: i32) -> bool {
    w > 0 && h > 0 && i < 4 * (w * h)
}

/// A piece of lettering: the canvas, the font, the text, its corner, the size
/// of its blocks, and its color.
struct Lettering {
    w: i32,
    h: i32,
    font: Font,
    text: Seq<char>,
    x0: int,
    y0: int,
    scale: int,
    bgr: Seq<u8>,
}

impl Lettering {
    /// The position of byte `i` relative to the text's corner.
    spec fn dx(self, i: int) -> int {
        column(i, self.w as int) - self.x0
    }

    spec fn dy(self, i: int) -> int {
        row(i, self.w as int) - self.y0
    }

    spec fn covers(self, i: int) -> bool {
        on_canvas(i, self.w, self.h) && self.font.covers(
            self.text,
            self.x0,
            self.y0,
            self.scale,
            column(i, self.w as int),
            row(i, self.w as int),
        )
    }

    /// Whether byte `i` belongs to a block before column `col` of row `r` of
    /// letter `k`.
    spec fn earlier(self, i: int, k: int, r: int, col: int) -> bool {
        let letter = self.dx(i) / (6 * self.scale);
        let c = (self.dx(i) % (6 * self.scale)) / self.scale;
        let s = self.dy(i) / self.scale;
        letter < k || (letter == k && (s < r || (s == r && c < col)))
    }

    /// The canvas when the blocks before that one have been drawn.
    spec fn drawn(self, before: Seq<u8>, at: Seq<u8>, k: int, r: int, col: int) -> bool {
        &&& at.len() == before.len()
        &&& forall|i: int|
            0 <= i < before.len() ==> #[trigger] at[i] == (if self.covers(i) && self.earlier(
                i,
                k,
                r,
                col,
            ) {
                ink(self.bgr, i % 4)
            } else {
                before[i]
            })
    }

    /// Nothing comes before the first block.
    proof fn starts(self, before: Seq<u8>)
        requires
            self.scale > 0,
        ensures
            self.drawn(before, before, 0, 0, 0),
    {
        assert forall|i: int| 0 <= i < before.len() && self.covers(i) implies !self.earlier(
            i,
            0,
            0,
            0,
        ) by {
            position_bounds(self.dx(i), self.dy(i), self.scale);
        }
    }

    /// Past the last column of a row comes the next row.
    proof fn next_row(self, before: Seq<u8>, at: Seq<u8>, k: int, r: int)
        requires
            self.scale > 0,
            self.drawn(before, at, k, r, 5),
        ensures
            self.drawn(before, at, k, r + 1, 0),
    {
        assert forall|i: int| 0 <= i < before.len() && self.covers(i) implies self.earlier(
            i,
            k,
            r,
            5,
        ) == self.earlier(i, k, r + 1, 0) by {
            position_bounds(self.dx(i), self.dy(i), self.scale);
        }
    }

    /// Past the last row of a letter comes the next letter. A letter without a
    /// glyph has nothing to draw.
    proof fn next_letter(self, before: Seq<u8>, at: Seq<u8>, k: int)
        requires
            self.scale > 0,
            self.drawn(before, at, k, 7, 0) || (self.font.rows(self.text[k]) is None && self.drawn(
                before,
                at,
                k,
                0,
                0,
            )),
        ensures
            self.drawn(before, at, k + 1, 0, 0),
    {
        assert forall|i: int| 0 <= i < before.len() && self.covers(i) implies self.earlier(
            i,
            k,
            7,
            0,
        ) == self.earlier(i, k + 1, 0, 0) && (self.font.rows(self.text[k]) is None
            ==> self.earlier(i, k, 0, 0) == self.earlier(i, k + 1, 0, 0)) by {
            position_bounds(self.dx(i), self.dy(i), self.scale);
        }
    }

    /// Filling a block, or leaving one without ink alone, draws it.
    proof fn next_column(
        self,
        before: Seq<u8>,
        at: Seq<u8>,
        after: Seq<u8>,
        k: int,
        r: int,
        col: int,
        area: Area,
    )
        requires
            self.scale > 0,
            0 <= k < self.text.len(),
            0 <= r < 7,
            0 <= col < 5,
            self.drawn(before, at, k, r, col),
            area.x == self.x0 + k * (6 * self.scale) + col * self.scale,
            area.y == self.y0 + r * self.scale,
            area.w == self.scale,
            area.h == self.scale,
            after == (if self.font.has_ink(self.text[k], r, col) {
                rect_drawn(at, self.w, self.h, area, self.bgr)
            } else {
                at
            }),
        ensures
            self.drawn(before, after, k, r, col + 1),
    {
        assert(0 <= k * (6 * self.scale)) by (nonlinear_arith)
            requires
                0 <= k,
                self.scale > 0,
        ;
        assert(0 <= r * self.scale && r * self.scale + self.scale <= 7 * self.scale)
            by (nonlinear_arith)
            requires
                0 <= r < 7,
                self.scale > 0,
        ;
        assert(0 <= col * self.scale) by (nonlinear_arith)
            requires
                0 <= col,
                self.scale > 0,
        ;
        assert forall|i: int| 0 <= i < before.len() implies #[trigger] after[i] == (
        if self.covers(i) && self.earlier(i, k, r, col + 1) {
            ink(self.bgr, i % 4)
        } else {
            before[i]
        }) by {
            block_positions(self.dx(i), self.dy(i), self.scale, k, r, col);
            assert(at[i] == (if self.covers(i) && self.earlier(i, k, r, col) {
                ink(self.bgr, i % 4)
            } else {
                before[i]
            }));
        }
    }
}

/// A block holds exactly the positions that name it.
proof fn block_positions(dx: int, dy: int, scale: int, k: int, r: int, col: int)
    requires
        scale > 0,
        0 <= k,
        0 <= r,
        0 <= col < 6,
    ensures
        ({
            &&& k * (6 * scale) + col * scale <= dx < k * (6 * scale) + col * scale + scale
            &&& r * scale <= dy < r * scale + scale
        }) <==> dx / (6 * scale) == k && (dx % (6 * scale)) / scale == col && dy / scale == r,
{
    let adv = 6 * scale;
    let m = dx % adv;
    lemma_fundamental_div_mod(dx, adv);
    lemma_fundamental_div_mod(m, scale);
    lemma_fundamental_div_mod(dy, scale);
    assert(adv * (dx / adv) == (dx / adv) * adv) by (nonlinear_arith);
    assert(scale * (m / scale) == (m / scale) * scale) by (nonlinear_arith);
    assert(scale * (dy / scale) == (dy / scale) * scale) by (nonlinear_arith);
    if k * adv + col * scale <= dx < k * adv + col * scale + scale && r * scale <= dy < r * scale
        + scale {
        let t = dx - k * adv;
        assert(0 <= col * scale && col * scale + scale <= adv) by (nonlinear_arith)
            requires
                0 <= col < 6,
                scale > 0,
                adv == 6 * scale,
        ;
        lemma_fundamental_div_mod_converse(dx, adv, k, t);
        lemma_fundamental_div_mod_converse(t, scale, col, t - col * scale);
        lemma_fundamental_div_mod_converse(dy, scale, r, dy - r * scale);
    }
}

/// The letter, column and row of a position in the lettering.
proof fn position_bounds(dx: int, dy: int, scale: int)
    requires
        scale > 0,
        0 <= dx,
        0 <= dy < 7 * scale,
    ensures
        0 <= dy / scale < 7,
        0 <= dx / (6 * scale),
        0 <= (dx % (6 * scale)) / scale < 6,
{
    let adv = 6 * scale;
    lemma_fundamental_div_mod(dy, scale);
    lemma_fundamental_div_mod(dx, adv);
    let m = dx % adv;
    lemma_fundamental_div_mod(m, scale);
    assert(0 <= dy / scale < 7) by (nonlinear_arith)
        requires
            dy == scale * (dy / scale) + dy % scale,
            0 <= dy % scale < scale,
            0 <= dy < 7 * scale,
    ;
    assert(0 <= dx / adv) by (nonlinear_arith)
        requires
            0 <= dx,
            adv > 0,
    ;
    assert(0 <= m / scale < 6) by (nonlinear_arith)
        requires
            m == scale * (m / scale) + m % scale,
            0 <= m % scale < scale,
            0 <= m < 6 * scale,
    ;
}

/// The way to a position in range stays in range.
proof fn steps_stay_in_range(x0: int, step: int, k: int, n: int)
    requires
        0 <= k < n,
        i32::MIN <= x0 <= i32::MAX,
        i32::MIN <= x0 + n * step <= i32::MAX,
    ensures
        i32::MIN <= x0 + k * step <= i32::MAX,
        i32::MIN <= x0 + (k + 1) * step <= i32::MAX,
        x0 + k * step + step == x0 + (k + 1) * step,
{
    if step >= 0 {
        assert(0 <= k * step <= (k + 1) * step <= n * step) by (nonlinear_arith)
            requires
                0 <= k < n,
                step >= 0,
        ;
    } else {
        assert(n * step <= (k + 1) * step <= k * step <= 0) by (nonlinear_arith)
            requires
                0 <= k < n,
                step < 0,
        ;
    }
    assert((k + 1) * step == k * step + step) by (nonlinear_arith);
}

/// Letters `text` left to right starting at (x0, y0), each glyph pixel drawn
/// as a `scale` by `scale` block; a character without a glyph leaves a gap.
/// Returns the x position right after the last character, for placing a
/// cursor.
pub fn draw_text(
    dst: &mut [u8],
    dst_w: i32,
    dst_h: i32,
    font: &Font,
    text: &str,
    x0: i32,
    y0: i32,
    scale: i32,
    color_bgr: [u8; 3],
) -> (x_end: i32)
    requires
        canvas_fits(old(dst)@.len(), dst_w, dst_h),
        i32::MIN <= 6 * scale <= i32::MAX,
        i32::MIN <= x0 + text@.len() * (6 * scale) <= i32::MAX,
        i32::MIN <= y0 + 7 * scale <= i32::MAX,
    ensures
        x_end == x0 + text@.len() * (6 * scale),
        final(dst)@ == text_drawn(
            old(dst)@,
            dst_w,
            dst_h,
            *font,
            text@,
            x0 as int,
            y0 as int,
            scale as int,
            color_bgr@,
        ),
{
    let v: Vec<char> = chars_of(text);
    let ghost before = dst@;
    let ghost job = Lettering {
        w: dst_w,
        h: dst_h,
        font: *font,
        text: text@,
        x0: x0 as int,
        y0: y0 as int,
        scale: scale as int,
        bgr: color_bgr@,
    };
    let advance: i32 = (GLYPH_WIDTH + 1) * scale;
    let mut x: i32 = x0;
    let mut k: usize = 0;
    proof {
        assert(0 * (6 * scale) == 0);
        if scale > 0 {
            job.starts(before);
        }
    }
    while k < v.len()
        invariant
            k <= v@.len(),
            v@ == text@,
            advance == 6 * scale,
            i32::MIN <= x0 + text@.len() * (6 * scale) <= i32::MAX,
            y0 + 7 * scale <= i32::MAX,
            x == x0 + k * (6 * scale),
            canvas_fits(before.len(), dst_w, dst_h),
            job == (Lettering {
                w: dst_w,
                h: dst_h,
                font: *font,
                text: text@,
                x0: x0 as int,
                y0: y0 as int,
                scale: scale as int,
                bgr: color_bgr@,
            }),
            scale > 0 ==> job.drawn(before, dst@, k as int, 0, 0),
            scale <= 0 ==> dst@ == before,
        decreases v@.len() - k,
    {
        proof {
            steps_stay_in_range(x0 as int, 6 * scale, k as int, text@.len() as int);
        }
        if scale > 0 {
            if let Some(rows) = font.glyph(v[k]) {
                draw_glyph(
                    dst,
                    &rows,
                    x,
                    y0,
                    scale,
                    dst_w,
                    dst_h,
                    color_bgr,
                    Ghost(before),
                    Ghost(job),
                    Ghost(k as int),
                );
            }
            proof {
                job.next_letter(before, dst@, k as int);
            }
        }
        x = x + advance;
        k = k + 1;
    }
    proof {
        let after = text_drawn(
            before,
            dst_w,
            dst_h,
            *font,
            text@,
            x0 as int,
            y0 as int,
            scale as int,
            color_bgr@,
        );
        assert(dst@ =~= after);
    }
    x
}

/// Draws the blocks of letter `k`, whose corner is (x, y0).
fn draw_glyph(
    dst: &mut [u8],
    rows: &[u8; 7],
    x: i32,
    y0: i32,
    scale: i32,
    dst_w: i32,
    dst_h: i32,
    color_bgr: [u8; 3],
    Ghost(before): Ghost<Seq<u8>>,
    Ghost(job): Ghost<Lettering>,
    Ghost(k): Ghost<int>,
)
    requires
        scale > 0,
        canvas_fits(before.len(), dst_w, dst_h),
        0 <= k < job.text.len(),
        job.font.rows(job.text[k]) == Some(rows@),
        job.w == dst_w,
        job.h == dst_h,
        job.y0 == y0,
        job.scale == scale,
        job.bgr == color_bgr@,
        x == job.x0 + k * (6 * scale),
        6 * scale <= i32::MAX,
        x + 6 * scale <= i32::MAX,
        y0 + 7 * scale <= i32::MAX,
        job.drawn(before, old(dst)@, k, 0, 0),
    ensures
        job.drawn(before, final(dst)@, k, 7, 0),
{
    let mut r: i32 = 0;
    while r < GLYPH_HEIGHT
        invariant
            0 <= r <= 7,
            scale > 0,
            canvas_fits(before.len(), dst_w, dst_h),
            0 <= k < job.text.len(),
            job.font.rows(job.text[k]) == Some(rows@),
            job.w == dst_w,
            job.h == dst_h,
            job.y0 == y0,
            job.scale == scale,
            job.bgr == color_bgr@,
            x == job.x0 + k * (6 * scale),
            6 * scale <= i32::MAX,
            x + 6 * scale <= i32::MAX,
            y0 + 7 * scale <= i32::MAX,
            job.drawn(before, dst@, k, r as int, 0),
        decreases 7 - r,
    {
        let bits: u8 = rows[r as usize];
        let mut col: i32 = 0;
        assert(0 <= r * scale <= 6 * scale && r * scale + scale <= 7 * scale) by (nonlinear_arith)
            requires
                0 <= r < 7,
                scale > 0,
        ;
        let y: i32 = y0 + r * scale;
        while col < GLYPH_WIDTH
            invariant
                0 <= r < 7,
                0 <= col <= 5,
                bits == rows@[r as int],
                scale > 0,
                canvas_fits(before.len(), dst_w, dst_h),
                0 <= k < job.text.len(),
                job.font.rows(job.text[k]) == Some(rows@),
                job.w == dst_w,
                job.h == dst_h,
                job.y0 == y0,
                job.scale == scale,
                job.bgr == color_bgr@,
                x == job.x0 + k * (6 * scale),
                6 * scale <= i32::MAX,
                x + 6 * scale <= i32::MAX,
                y == y0 + r * scale,
                job.drawn(before, dst@, k, r as int, col as int),
            decreases 5 - col,
        {
            let ghost at = dst@;
            assert(0 <= col * scale && col * scale + scale <= 6 * scale) by (nonlinear_arith)
                requires
                    0 <= col < 5,
                    scale > 0,
            ;
            let block: i32 = x + col * scale;
            let shift: u8 = (4 - col) as u8;
            if bits & (1u8 << shift) != 0 {
                draw_rect(dst, dst_w, dst_h, block, y, scale, scale, color_bgr);
            }
            proof {
                let area = Area { x: block, y, w: scale, h: scale };
                job.next_column(before, at, dst@, k, r as int, col as int, area);
            }
            col = col + 1;
        }
        proof {
            job.next_row(before, dst@, k, r as int);
        }
        r = r + 1;
    }
}

// ---------------------------------------------------------------- laws

/// A letter is drawn, and can be typed, in either case.
pub proof fn letters_look_alike_in_both_cases(font: Font, c: char)
    ensures
        font.rows(ascii_upper(c)) == font.rows(c),
{
}

/// A character is drawn with the first glyph for it, small letters with the one
/// for their capital, and without one it is not drawn.
pub proof fn characters_are_drawn_with_their_glyph(font: Font, c: char, k: int)
    requires
        0 <= k <= font.glyphs@.len(),
        forall|j: int| 0 <= j < k ==> (#[trigger] font.glyphs@[j]).ch != ascii_upper(c),
    ensures
        k == font.glyphs@.len() ==> font.rows(c) is None,
        k < font.glyphs@.len() && font.glyphs@[k].ch == ascii_upper(c) ==> font.rows(c) == Some(
            font.glyphs@[k].rows@,
        ),
        'a' <= c <= 'z' ==> ascii_upper(c) as int == c as int - 32,
        !('a' <= c <= 'z') ==> ascii_upper(c) == c,
{
    the_first_entry_counts(font.glyphs@, ascii_upper(c), k);
}

proof fn the_first_entry_counts(g: Seq<Glyph>, c: char, k: int)
    requires
        0 <= k <= g.len(),
        forall|j: int| 0 <= j < k ==> (#[trigger] g[j]).ch != c,
    ensures
        k == g.len() ==> entry(g, c) is None,
        k < g.len() && g[k].ch == c ==> entry(g, c) == Some(g[k].rows@),
    decreases g.len(),
{
    if g.len() > 0 && k > 0 {
        assert(g[0].ch != c);
        let t = g.drop_first();
        assert forall|j: int| 0 <= j < k - 1 implies (#[trigger] t[j]).ch != c by {
            assert(t[j] == g[j + 1]);
        }
        the_first_entry_counts(t, c, k - 1);
        if k < g.len() {
            assert(t[k - 1] == g[k]);
        }
    }
}

/// The leftmost of a row's five pixels is its bit of value 16, and the rightmost
/// its lowest.
pub proof fn rows_run_from_left_to_right(bits: u8)
    ensures
        bit_set(bits, 0) <==> (bits / 16) % 2 == 1,
        bit_set(bits, 1) <==> (bits / 8) % 2 == 1,
        bit_set(bits, 2) <==> (bits / 4) % 2 == 1,
        bit_set(bits, 3) <==> (bits / 2) % 2 == 1,
        bit_set(bits, 4) <==> bits % 2 == 1,
{
    assert(bits & (1u8 << 4u8) != 0 <==> (bits / 16) % 2 == 1) by (bit_vector);
    assert(bits & (1u8 << 3u8) != 0 <==> (bits / 8) % 2 == 1) by (bit_vector);
    assert(bits & (1u8 << 2u8) != 0 <==> (bits / 4) % 2 == 1) by (bit_vector);
    assert(bits & (1u8 << 1u8) != 0 <==> (bits / 2) % 2 == 1) by (bit_vector);
    assert(bits & (1u8 << 0u8) != 0 <==> bits % 2 == 1) by (bit_vector);
}

/// Letters stand side by side, six blocks each, of which the sixth is the gap:
/// the block at a column and row of a letter is covered exactly where the
/// letter's glyph has ink, and beyond the text nothing is.
pub proof fn letters_stand_side_by_side(
    font: Font,
    text: Seq<char>,
    x0: int,
    y0: int,
    scale: int,
    letter: int,
    col: int,
    r: int,
    dx: int,
    dy: int,
)
    requires
        scale > 0,
        0 <= letter,
        0 <= col < 6,
        0 <= r < 7,
        0 <= dx < scale,
        0 <= dy < scale,
    ensures
        ({
            let x = x0 + letter * (6 * scale) + col * scale + dx;
            let y = y0 + r * scale + dy;
            font.covers(text, x0, y0, scale, x, y) <==> {
                &&& letter < text.len()
                &&& col < 5
                &&& font.rows(text[letter]) is Some
                &&& bit_set(font.rows(text[letter])->0[r], col)
            }
        }),
{
    let x = x0 + letter * (6 * scale) + col * scale + dx;
    let y = y0 + r * scale + dy;
    let within = col * scale + dx;
    assert(0 <= within < 6 * scale) by (nonlinear_arith)
        requires
            within == col * scale + dx,
            0 <= col <= 5,
            0 <= dx < scale,
    ;
    assert(0 <= r * scale && r * scale + dy < 7 * scale) by (nonlinear_arith)
        requires
            0 <= r <= 6,
            0 <= dy < scale,
    ;
    assert(0 <= letter * (6 * scale)) by (nonlinear_arith)
        requires
            0 <= letter,
            0 < scale,
    ;
    lemma_fundamental_div_mod_converse(x - x0, 6 * scale, letter, within);
    lemma_fundamental_div_mod_converse(within, scale, col, dx);
    lemma_fundamental_div_mod_converse(y - y0, scale, r, dy);
}

} // verus!
