//! Rendering the picker: the icon panel, the search bar with its text, the
//! thumbnails and the highlight ring, composed in this order.

use vstd::prelude::*;
use vstd::arithmetic::div_mod::{lemma_fundamental_div_mod, lemma_fundamental_div_mod_converse};
use crate::canvas::{
    blend_byte, blit_rounded, column, draw_rect, draw_ring, fill_mask,
    fresh_pixels_are_premultiplied, image_drawn, mask_drawn, pixel_is_on_canvas, pixel_position,
    rect_drawn, ring_area, row, Area,
};
use crate::font::{draw_text, text_drawn, Font};
use crate::picker::{
    cell_hit, cell_x_of, points_hit_the_square_they_lie_in, search_lists_exactly_the_matches,
    stride_of, the_ring_belongs_to_the_selection, Entry, Picker, PickerView, Position,
};
use crate::pixels::Pixels;
use crate::shape::{
    bare_pixels_are_not_full, coverage, is_bare, is_full, opacity, pixel_opacity, rect_table,
    ring_mask, ring_opacity, ring_table, rounded_rect, shape_mask, Coverage,
};
use crate::text::chars_of;
use crate::theme::{half, Theme, ThemeView};

verus! {

/// Each font pixel of the search text is a block of this size.
pub const SEARCH_FONT_SCALE: i32 = 3;

/// The opacities, 0 to 255, of the shapes that are drawn, a byte for each
/// pixel of a shape's box: the panel and the search bar with their colors'
/// alpha, the highlight ring, and every entry twice, as it looks when it is
/// selected and when it is not.
pub struct Masks {
    pub panel: Vec<u8>,
    pub pill: Vec<u8>,
    pub ring: Vec<u8>,
    pub lit: Vec<Vec<u8>>,
    pub dim: Vec<Vec<u8>>,
}

/// The box of the icon panel.
pub open spec fn panel_area(t: ThemeView) -> Area {
    Area { x: 0, y: 0, w: t.window_width, h: t.window_height }
}

/// The box of the search bar.
pub open spec fn pill_area(t: ThemeView) -> Area {
    Area {
        x: half((t.window_width - t.search_bar_width) as i32),
        y: (t.window_height + t.search_bar_gap) as i32,
        w: t.search_bar_width,
        h: t.search_bar_height,
    }
}

pub open spec fn text_x(t: ThemeView) -> int {
    pill_area(t).x + t.padding
}

/// The top of the search text, centered in the search bar.
pub open spec fn text_y(t: ThemeView) -> int {
    pill_area(t).y + half((t.search_bar_height - 21) as i32)
}

/// Where the search text ends.
pub open spec fn text_end(t: ThemeView, search: Seq<char>) -> int {
    text_x(t) + search.len() * 18
}

pub open spec fn icon_x(t: ThemeView, pos: int, scroll: int) -> int {
    t.padding + pos * stride_of(t) - scroll
}

/// The first three bytes of a color, and the same in reverse.
pub open spec fn rgb_of(c: Seq<u8>) -> Seq<u8> {
    seq![c[0], c[1], c[2]]
}

pub open spec fn bgr_of(c: Seq<u8>) -> Seq<u8> {
    seq![c[2], c[1], c[0]]
}

impl Masks {
    /// There is an opacity for each pixel of each shape.
    pub open spec fn fit(self, v: PickerView) -> bool {
        let t = v.theme;
        let size = t.icon_size as int;
        &&& self.panel@.len() >= panel_area(t).count()
        &&& self.pill@.len() >= pill_area(t).count()
        &&& self.lit@.len() == v.entries.len()
        &&& self.dim@.len() == v.entries.len()
        &&& forall|i: int|
            0 <= i < v.entries.len() ==> (#[trigger] self.lit@[i])@.len() >= size * size
        &&& forall|i: int|
            0 <= i < v.entries.len() ==> (#[trigger] self.dim@[i])@.len() >= size * size
        &&& t.highlight_border_width > 0 ==> {
            let side = size + 2 * t.highlight_border_width;
            side <= i32::MAX && self.ring@.len() >= side * side
        }
    }
}

/// Every position on the way can be counted.
pub open spec fn renders(v: PickerView, scroll: i32, highlight: i32) -> bool {
    let t = v.theme;
    &&& 0 <= scroll
    &&& text_end(t, v.search) + 4 <= i32::MAX
    &&& text_y(t) + 21 <= i32::MAX
    &&& i32::MIN <= highlight - scroll - t.highlight_border_width
    &&& highlight - scroll <= i32::MAX
}

/// The canvas after the first `k` thumbnails were drawn. Those that lie
/// beyond the window are skipped.
pub open spec fn icons_drawn(
    before: Seq<u8>,
    v: PickerView,
    masks: Masks,
    scroll: int,
    k: nat,
) -> Seq<u8>
    decreases k,
{
    if k == 0 {
        before
    } else {
        let prev = icons_drawn(before, v, masks, scroll, (k - 1) as nat);
        let t = v.theme;
        let x = icon_x(t, k - 1, scroll);
        let e = v.filtered[k - 1] as int;
        let alpha = if k - 1 == v.selected() {
            masks.lit@[e]@
        } else {
            masks.dim@[e]@
        };
        if x + t.icon_size < 0 || x > t.window_width {
            prev
        } else {
            image_drawn(
                prev,
                t.window_width,
                t.surface_height() as i32,
                v.entries[e].pixels,
                alpha,
                x as i32,
                t.padding,
            )
        }
    }
}

/// The canvas with the panel and the search bar on it.
pub open spec fn boxes_drawn(before: Seq<u8>, t: ThemeView, masks: Masks) -> Seq<u8> {
    let w = t.window_width;
    let h = t.surface_height() as i32;
    mask_drawn(
        mask_drawn(before, w, h, panel_area(t), rgb_of(t.background), masks.panel@),
        w,
        h,
        pill_area(t),
        rgb_of(t.search_bar_background),
        masks.pill@,
    )
}

/// The bar after the search text.
pub open spec fn cursor_area(t: ThemeView, search: Seq<char>) -> Area {
    Area { x: (text_end(t, search) + 2) as i32, y: text_y(t) as i32, w: 2, h: 21 }
}

/// The canvas with the search text and its cursor on it.
pub open spec fn search_drawn(before: Seq<u8>, t: ThemeView, search: Seq<char>, font: Font) -> Seq<
    u8,
> {
    let w = t.window_width;
    let h = t.surface_height() as i32;
    let bgr = bgr_of(t.search_text_color);
    rect_drawn(
        text_drawn(before, w, h, font, search, text_x(t), text_y(t), 3, bgr),
        w,
        h,
        cursor_area(t, search),
        bgr,
    )
}

/// The canvas with the highlight ring on it.
pub open spec fn ring_drawn(
    before: Seq<u8>,
    v: PickerView,
    masks: Masks,
    scroll: int,
    highlight: int,
) -> Seq<u8> {
    let t = v.theme;
    if v.shown() > 0 && t.highlight_border_width > 0 {
        mask_drawn(
            before,
            t.window_width,
            t.surface_height() as i32,
            ring_area((highlight - scroll) as i32, t.padding, t.icon_size, t.highlight_border_width),
            rgb_of(t.highlight_border),
            masks.ring@,
        )
    } else {
        before
    }
}

/// The whole picture.
pub open spec fn rendered(
    before: Seq<u8>,
    v: PickerView,
    masks: Masks,
    font: Font,
    scroll: int,
    highlight: int,
) -> Seq<u8> {
    ring_drawn(
        icons_drawn(
            search_drawn(boxes_drawn(before, v.theme, masks), v.theme, v.search, font),
            v,
            masks,
            scroll,
            v.filtered.len(),
        ),
        v,
        masks,
        scroll,
        highlight,
    )
}

fn rgb(c: &[u8; 4]) -> (r: [u8; 3])
    ensures
        r@ == rgb_of(c@),
{
    let r: [u8; 3] = [c[0], c[1], c[2]];
    assert(r@ =~= rgb_of(c@));
    r
}

fn bgr(c: &[u8; 4]) -> (r: [u8; 3])
    ensures
        r@ == bgr_of(c@),
{
    let r: [u8; 3] = [c[2], c[1], c[0]];
    assert(r@ =~= bgr_of(c@));
    r
}

/// Whether a mask has an opacity for each pixel of a `w` by `h` box.
fn mask_fits(mask: &Vec<u8>, w: i32, h: i32) -> (b: bool)
    requires
        w >= 0,
        h >= 0,
    ensures
        b == (mask@.len() >= w * h),
{
    assert(0 <= w * h <= 0x7fff_ffff * 0x7fff_ffff) by (nonlinear_arith)
        requires
            0 <= w <= 0x7fff_ffff,
            0 <= h <= 0x7fff_ffff,
    ;
    mask.len() as u64 >= (w as u64) * (h as u64)
}

fn masks_fit(masks: &Vec<Vec<u8>>, n: usize, size: i32) -> (b: bool)
    requires
        size >= 0,
    ensures
        b == (masks@.len() == n && forall|i: int|
            0 <= i < n ==> (#[trigger] masks@[i])@.len() >= size * size),
{
    if masks.len() != n {
        return false;
    }
    let mut i: usize = 0;
    while i < n
        invariant
            i <= n == masks@.len(),
            size >= 0,
            forall|k: int| 0 <= k < i ==> (#[trigger] masks@[k])@.len() >= size * size,
        decreases n - i,
    {
        if !mask_fits(&masks[i], size, size) {
            assert(masks@[i as int]@.len() < size * size);
            return false;
        }
        i = i + 1;
    }
    true
}

/// An alpha scaled by an opacity out of 255, rounded to the nearest; a half
/// never occurs.
pub open spec fn dimmed(a: u8, dim: u8) -> u8 {
    ((2 * (a * dim) + 255) / 510) as u8
}

/// The opacities of a thumbnail's pixels: each has its own alpha, dimmed, as
/// far as the rounded shape covers it.
pub open spec fn icon_opacities(table: Seq<Coverage>, rgba: Seq<u8>, dim: u8, raw: Seq<u8>) -> Seq<
    u8,
> {
    Seq::new(table.len(), |k: int| opacity(table[k], dimmed(rgba[4 * k + 3], dim), raw[k]))
}

/// The opacities of a shape's pixels.
pub open spec fn shape_opacities(table: Seq<Coverage>, alpha: u8, raw: Seq<u8>) -> Seq<u8> {
    Seq::new(table.len(), |k: int| opacity(table[k], alpha, raw[k]))
}

/// The opacities of a ring's pixels.
pub open spec fn ring_mask_of(table: Seq<(Coverage, Coverage)>, alpha: u8, raw: Seq<u8>) -> Seq<
    u8,
> {
    Seq::new(table.len(), |k: int| ring_opacity(table[k], alpha, raw[k]))
}

/// The shape of a thumbnail.
pub open spec fn icon_table(t: ThemeView) -> Seq<Coverage> {
    rect_table(t.icon_size as int, t.icon_size as int, t.corner_radius as int)
}

pub open spec fn panel_table(t: ThemeView) -> Seq<Coverage> {
    rect_table(t.window_width as int, t.window_height as int, t.window_corner_radius as int)
}

pub open spec fn pill_table(t: ThemeView) -> Seq<Coverage> {
    rect_table(
        t.search_bar_width as int,
        t.search_bar_height as int,
        t.search_bar_corner_radius as int,
    )
}

pub open spec fn border_table(t: ThemeView) -> Seq<(Coverage, Coverage)> {
    ring_table(t.icon_size as int, t.corner_radius as int, t.highlight_border_width as int)
}

impl Masks {
    /// There is one opacity for each pixel of each shape.
    pub open spec fn matches_shapes(self, t: ThemeView, entries: Seq<Entry>) -> bool {
        &&& self.panel@.len() == panel_table(t).len()
        &&& self.pill@.len() == pill_table(t).len()
        &&& self.ring@.len() == border_table(t).len()
        &&& self.lit@.len() == entries.len()
        &&& self.dim@.len() == entries.len()
        &&& forall|i: int|
            0 <= i < entries.len() ==> (#[trigger] self.lit@[i])@.len() == icon_table(t).len()
        &&& forall|i: int|
            0 <= i < entries.len() ==> (#[trigger] self.dim@[i])@.len() == icon_table(t).len()
    }

    /// The opacities of everything that is drawn with a theme: boxes and ring
    /// have their colors' alpha, the selected thumbnail its own, and the others
    /// theirs dimmed. `raw` decides along the edges only.
    pub open spec fn are_of(self, t: ThemeView, entries: Seq<Entry>, raw: Masks) -> bool {
        &&& self.panel@ == shape_opacities(panel_table(t), t.background[3], raw.panel@)
        &&& self.pill@ == shape_opacities(pill_table(t), t.search_bar_background[3], raw.pill@)
        &&& self.ring@ == ring_mask_of(border_table(t), t.highlight_border[3], raw.ring@)
        &&& self.lit@.len() == entries.len()
        &&& self.dim@.len() == entries.len()
        &&& forall|i: int|
            0 <= i < entries.len() ==> (#[trigger] self.lit@[i])@ == icon_opacities(
                icon_table(t),
                entries[i].pixels.data@,
                255,
                raw.lit@[i]@,
            )
        &&& forall|i: int|
            0 <= i < entries.len() ==> (#[trigger] self.dim@[i])@ == icon_opacities(
                icon_table(t),
                entries[i].pixels.data@,
                t.dim_opacity,
                raw.dim@[i]@,
            )
    }
}

proof fn dimmed_fits(a: u8, dim: u8)
    ensures
        0 <= a * dim <= 65025,
        (2 * (a * dim) + 255) / 510 <= 255,
{
    assert(0 <= a * dim <= 255 * 255) by (nonlinear_arith)
        requires
            0 <= a <= 255,
            0 <= dim <= 255,
    ;
}

/// The opacities of a thumbnail's pixels, dimmed to `dim` out of 255.
pub fn icon_mask(table: &Vec<Coverage>, pixels: &Pixels, dim: u8, raw: &Vec<u8>) -> (r: Vec<u8>)
    requires
        raw@.len() == table@.len(),
        pixels.data@.len() >= 4 * table@.len(),
    ensures
        r@ == icon_opacities(table@, pixels.data@, dim, raw@),
{
    let mut r: Vec<u8> = Vec::new();
    let mut i: usize = 0;
    let n: usize = pixels.data.len();
    while i < table.len()
        invariant
            i <= table@.len() == raw@.len(),
            n == pixels.data@.len() >= 4 * table@.len(),
            r@ == icon_opacities(table@, pixels.data@, dim, raw@).take(i as int),
        decreases table@.len() - i,
    {
        let a: u8 = pixels.data[4 * i + 3];
        proof {
            dimmed_fits(a, dim);
        }
        let most: u8 = ((2 * (a as u32 * dim as u32) + 255) / 510) as u8;
        r.push(pixel_opacity(table[i], most, raw[i]));
        i = i + 1;
        assert(r@ =~= icon_opacities(table@, pixels.data@, dim, raw@).take(i as int));
    }
    assert(r@ =~= icon_opacities(table@, pixels.data@, dim, raw@));
    r
}

fn icon_masks(table: &Vec<Coverage>, entries: &Vec<Entry>, dim: u8, raw: &Vec<Vec<u8>>) -> (r: Vec<
    Vec<u8>,
>)
    requires
        raw@.len() == entries@.len(),
        forall|i: int| 0 <= i < entries@.len() ==> (#[trigger] raw@[i])@.len() == table@.len(),
        forall|i: int|
            0 <= i < entries@.len() ==> (#[trigger] entries@[i]).pixels.data@.len() >= 4
                * table@.len(),
    ensures
        r@.len() == entries@.len(),
        forall|i: int|
            0 <= i < entries@.len() ==> (#[trigger] r@[i])@ == icon_opacities(
                table@,
                entries@[i].pixels.data@,
                dim,
                raw@[i]@,
            ),
{
    let mut r: Vec<Vec<u8>> = Vec::new();
    let mut i: usize = 0;
    while i < entries.len()
        invariant
            i <= entries@.len() == raw@.len(),
            forall|k: int| 0 <= k < entries@.len() ==> (#[trigger] raw@[k])@.len() == table@.len(),
            forall|k: int|
                0 <= k < entries@.len() ==> (#[trigger] entries@[k]).pixels.data@.len() >= 4
                    * table@.len(),
            r@.len() == i,
            forall|k: int|
                0 <= k < i ==> (#[trigger] r@[k])@ == icon_opacities(
                    table@,
                    entries@[k].pixels.data@,
                    dim,
                    raw@[k]@,
                ),
        decreases entries@.len() - i,
    {
        r.push(icon_mask(table, &entries[i].pixels, dim, &raw[i]));
        i = i + 1;
    }
    r
}

impl Masks {
    /// Holds opacities to the shapes and the theme: nothing and everything are
    /// exact, and `raw` is taken along the edges.
    pub fn shaped(theme: &Theme, entries: &Vec<Entry>, raw: &Masks) -> (r: Masks)
        requires
            theme@.wf(),
            theme@.icon_size + 2 * theme@.highlight_border_width <= i32::MAX,
            theme@.corner_radius + theme@.highlight_border_width <= i32::MAX,
            raw.matches_shapes(theme@, entries@),
            forall|i: int|
                0 <= i < entries@.len() ==> {
                    let p = #[trigger] entries@[i].pixels;
                    p.wf() && p.width == theme@.icon_size && p.height == theme@.icon_size
                },
        ensures
            r.are_of(theme@, entries@, *raw),
            r.matches_shapes(theme@, entries@),
    {
        let panel_shape: Vec<Coverage> = rounded_rect(
            theme.window_width,
            theme.window_height,
            theme.window_corner_radius,
        );
        let pill_shape: Vec<Coverage> = rounded_rect(
            theme.search_bar_width,
            theme.search_bar_height,
            theme.search_bar_corner_radius,
        );
        let icon_shape: Vec<Coverage> = rounded_rect(
            theme.icon_size,
            theme.icon_size,
            theme.corner_radius,
        );
        assert forall|i: int| 0 <= i < entries@.len() implies (
        #[trigger] entries@[i]).pixels.data@.len() >= 4 * icon_shape@.len() by {
            assert(entries@[i].pixels.wf());
        }
        let panel: Vec<u8> = shape_mask(&panel_shape, theme.background.0[3], &raw.panel);
        let pill: Vec<u8> = shape_mask(&pill_shape, theme.search_bar_background.0[3], &raw.pill);
        let ring: Vec<u8> = ring_mask(
            theme.icon_size,
            theme.corner_radius,
            theme.highlight_border_width,
            theme.highlight_border.0[3],
            &raw.ring,
        );
        let lit: Vec<Vec<u8>> = icon_masks(&icon_shape, entries, 255, &raw.lit);
        let dim: Vec<Vec<u8>> = icon_masks(&icon_shape, entries, theme.dim_opacity, &raw.dim);
        let r: Masks = Masks { panel, pill, ring, lit, dim };
        assert(r.panel@ =~= shape_opacities(
            panel_table(theme@),
            theme@.background[3],
            raw.panel@,
        ));
        assert(r.pill@ =~= shape_opacities(
            pill_table(theme@),
            theme@.search_bar_background[3],
            raw.pill@,
        ));
        assert(r.ring@ =~= ring_mask_of(border_table(theme@), theme@.highlight_border[3], raw.ring@));
        r
    }
}

impl Masks {
    pub fn fits(&self, picker: &Picker) -> (b: bool)
        requires
            picker@.wf(),
        ensures
            b == self.fit(picker@),
    {
        let t = &picker.theme;
        let n: usize = picker.entries.len();
        assert(t.window_width * t.window_height >= 1) by (nonlinear_arith)
            requires
                t.window_width >= 1,
                t.window_height >= 1,
        ;
        assert(t.search_bar_height == 0 ==> t.search_bar_width * t.search_bar_height == 0)
            by (nonlinear_arith);
        if !mask_fits(&self.panel, t.window_width, t.window_height) || !mask_fits(
            &self.pill,
            t.search_bar_width,
            t.search_bar_height,
        ) || !masks_fit(&self.lit, n, t.icon_size) || !masks_fit(&self.dim, n, t.icon_size) {
            return false;
        }
        if t.highlight_border_width > 0 {
            let side: i64 = t.icon_size as i64 + 2 * t.highlight_border_width as i64;
            side <= i32::MAX as i64 && mask_fits(&self.ring, side as i32, side as i32)
        } else {
            true
        }
    }
}

impl Picker {
    /// Whether everything can be rendered at these positions.
    pub fn can_render(&self, scroll: i32, highlight: i32) -> (b: bool)
        requires
            self@.wf(),
        ensures
            b == renders(self@, scroll, highlight),
    {
        let t = &self.theme;
        let n: usize = chars_of(self.search.as_str()).len();
        let max: i64 = i32::MAX as i64;
        if scroll < 0 || n > i32::MAX as usize {
            return false;
        }
        let x0: i32 = t.search_bar_x0();
        let y0: i32 = t.search_bar_y0();
        let end: i64 = x0 as i64 + t.padding as i64 + n as i64 * 18;
        let top: i64 = y0 as i64 + ((t.search_bar_height - 21) / 2) as i64;
        let at: i64 = highlight as i64 - scroll as i64;
        end + 4 <= max && top + 21 <= max && i32::MIN as i64 <= at - t.highlight_border_width as i64
            && at <= max
    }

    /// Renders everything into `content` at natural size. `scroll` and
    /// `highlight` are the rendered positions, in whole pixels.
    pub fn render_content(
        &self,
        content: &mut [u8],
        masks: &Masks,
        font: &Font,
        scroll: i32,
        highlight: i32,
    )
        requires
            self@.wf(),
            masks.fit(self@),
            renders(self@, scroll, highlight),
            old(content)@.len() >= 4 * (self@.theme.window_width * self@.theme.surface_height()),
        ensures
            final(content)@ == rendered(
                old(content)@,
                self@,
                *masks,
                *font,
                scroll as int,
                highlight as int,
            ),
    {
        self.render_boxes(content, masks);
        self.render_search(content, font);
        self.render_icons(content, masks, scroll);
        self.render_ring(content, masks, scroll, highlight);
    }

    fn render_boxes(&self, content: &mut [u8], masks: &Masks)
        requires
            self@.wf(),
            masks.fit(self@),
            old(content)@.len() >= 4 * (self@.theme.window_width * self@.theme.surface_height()),
        ensures
            final(content)@ == boxes_drawn(old(content)@, self@.theme, *masks),
            final(content)@.len() == old(content)@.len(),
    {
        let t = &self.theme;
        let w: i32 = t.window_width;
        let h: i32 = t.surface_height();
        let panel: Area = Area { x: 0, y: 0, w, h: t.window_height };
        fill_mask(content, w, h, panel, rgb(&t.background.0), masks.panel.as_slice());
        let pill: Area = Area {
            x: t.search_bar_x0(),
            y: t.search_bar_y0(),
            w: t.search_bar_width,
            h: t.search_bar_height,
        };
        fill_mask(content, w, h, pill, rgb(&t.search_bar_background.0), masks.pill.as_slice());
    }

    fn render_search(&self, content: &mut [u8], font: &Font)
        requires
            self@.wf(),
            text_end(self@.theme, self@.search) + 4 <= i32::MAX,
            text_y(self@.theme) + 21 <= i32::MAX,
            old(content)@.len() >= 4 * (self@.theme.window_width * self@.theme.surface_height()),
        ensures
            final(content)@ == search_drawn(old(content)@, self@.theme, self@.search, *font),
            final(content)@.len() == old(content)@.len(),
    {
        let t = &self.theme;
        let w: i32 = t.window_width;
        let h: i32 = t.surface_height();
        let ink: [u8; 3] = bgr(&t.search_text_color.0);
        let x: i32 = t.search_bar_x0() + t.padding;
        let y: i32 = t.search_bar_y0() + (t.search_bar_height - 21) / 2;
        let end: i32 = draw_text(
            content,
            w,
            h,
            font,
            self.search.as_str(),
            x,
            y,
            SEARCH_FONT_SCALE,
            ink,
        );
        draw_rect(content, w, h, end + 2, y, 2, 21, ink);
    }

    fn render_icons(&self, content: &mut [u8], masks: &Masks, scroll: i32)
        requires
            self@.wf(),
            masks.fit(self@),
            0 <= scroll,
            old(content)@.len() >= 4 * (self@.theme.window_width * self@.theme.surface_height()),
        ensures
            final(content)@ == icons_drawn(
                old(content)@,
                self@,
                *masks,
                scroll as int,
                self@.filtered.len(),
            ),
            final(content)@.len() == old(content)@.len(),
    {
        let t = &self.theme;
        let w: i32 = t.window_width;
        let h: i32 = t.surface_height();
        let selected: usize = match self.hover {
            Some(p) => p,
            None => self.kbd_index,
        };
        let ghost before = content@;
        let mut pos: usize = 0;
        while pos < self.filtered.len()
            invariant
                pos <= self@.filtered.len(),
                self@.wf(),
                masks.fit(self@),
                0 <= scroll,
                t == &self.theme,
                w == self@.theme.window_width,
                h == self@.theme.surface_height(),
                selected == self@.selected(),
                before.len() >= 4 * (self@.theme.window_width * self@.theme.surface_height()),
                content@.len() == before.len(),
                content@ == icons_drawn(before, self@, *masks, scroll as int, pos as nat),
            decreases self@.filtered.len() - pos,
        {
            let e: usize = self.filtered[pos];
            proof {
                search_lists_exactly_the_matches(self@.entries, self@.search, self@.entries.len());
                assert(self@.filtered[pos as int] < self@.entries.len());
            }
            let x: i32 = self.cell_x(pos) - scroll;
            if (x as i64 + t.icon_size as i64) < 0 || x > w {
                pos = pos + 1;
                continue;
            }
            let alpha: &Vec<u8> = if pos == selected {
                &masks.lit[e]
            } else {
                &masks.dim[e]
            };
            blit_rounded(
                content,
                w,
                h,
                &self.entries[e].pixels,
                alpha.as_slice(),
                x,
                t.icon_area_y0(),
            );
            pos = pos + 1;
        }
    }

    fn render_ring(&self, content: &mut [u8], masks: &Masks, scroll: i32, highlight: i32)
        requires
            self@.wf(),
            masks.fit(self@),
            renders(self@, scroll, highlight),
            old(content)@.len() >= 4 * (self@.theme.window_width * self@.theme.surface_height()),
        ensures
            final(content)@ == ring_drawn(
                old(content)@,
                self@,
                *masks,
                scroll as int,
                highlight as int,
            ),
    {
        if self.filtered.len() == 0 {
            return;
        }
        let t = &self.theme;
        draw_ring(
            content,
            t.window_width,
            t.surface_height(),
            highlight - scroll,
            t.icon_area_y0(),
            t.icon_size,
            t.highlight_border_width,
            rgb(&t.highlight_border.0),
            masks.ring.as_slice(),
        );
    }
}

// ---------------------------------------------------------------- laws

/// Drawing keeps the canvas's size.
pub proof fn icons_keep_the_size(before: Seq<u8>, v: PickerView, masks: Masks, scroll: int, k: nat)
    ensures
        icons_drawn(before, v, masks, scroll, k).len() == before.len(),
    decreases k,
{
    if k > 0 {
        icons_keep_the_size(before, v, masks, scroll, (k - 1) as nat);
    }
}

/// Rows below the thumbnails are not touched by them.
proof fn icons_stay_in_their_row(
    before: Seq<u8>,
    v: PickerView,
    masks: Masks,
    scroll: int,
    k: nat,
    i: int,
)
    requires
        v.wf(),
        0 <= scroll <= i32::MAX,
        k <= v.filtered.len(),
        0 <= i < before.len(),
        row(i, v.theme.window_width as int) >= v.theme.padding + v.theme.icon_size,
    ensures
        icons_drawn(before, v, masks, scroll, k)[i] == before[i],
    decreases k,
{
    if k > 0 {
        icons_stay_in_their_row(before, v, masks, scroll, (k - 1) as nat, i);
        icons_keep_the_size(before, v, masks, scroll, (k - 1) as nat);
        search_lists_exactly_the_matches(v.entries, v.search, v.entries.len());
        let e = v.filtered[k - 1];
        assert(e < v.entries.len());
        assert(v.entries[e as int].pixels.height == v.theme.icon_size);
    }
}

/// Between the panel and the search bar nothing is drawn: where the
/// thumbnails and their ring fit in the panel and the text in the bar, the gap
/// shows what was there before.
pub proof fn the_gap_stays_clear(
    before: Seq<u8>,
    v: PickerView,
    masks: Masks,
    font: Font,
    scroll: i32,
    highlight: i32,
    i: int,
)
    requires
        v.wf(),
        renders(v, scroll, highlight),
        masks.fit(v),
        v.theme.padding + v.theme.icon_size + v.theme.highlight_border_width
            <= v.theme.window_height,
        v.theme.search_bar_height >= 21,
        0 <= i < before.len(),
        v.theme.window_height <= row(i, v.theme.window_width as int) < v.theme.window_height
            + v.theme.search_bar_gap,
    ensures
        rendered(before, v, masks, font, scroll as int, highlight as int)[i] == before[i],
{
    let t = v.theme;
    let boxes = boxes_drawn(before, t, masks);
    let searched = search_drawn(boxes, t, v.search, font);
    assert(boxes[i] == before[i]);
    assert(searched[i] == boxes[i]);
    icons_stay_in_their_row(searched, v, masks, scroll as int, v.filtered.len(), i);
    icons_keep_the_size(searched, v, masks, scroll as int, v.filtered.len());
}

/// Beside the search bar nothing is drawn: from its top on, what lies to its
/// left shows what was there before, and so does what lies to its right as
/// long as the text and its cursor end within it. The thumbnails and their
/// ring have to end above it.
pub proof fn the_margin_stays_clear(
    before: Seq<u8>,
    v: PickerView,
    masks: Masks,
    font: Font,
    scroll: i32,
    highlight: i32,
    i: int,
)
    requires
        v.wf(),
        renders(v, scroll, highlight),
        masks.fit(v),
        v.theme.padding + v.theme.icon_size + v.theme.highlight_border_width
            <= v.theme.window_height + v.theme.search_bar_gap,
        0 <= i < before.len(),
        row(i, v.theme.window_width as int) >= pill_area(v.theme).y,
        column(i, v.theme.window_width as int) < pill_area(v.theme).x || (column(
            i,
            v.theme.window_width as int,
        ) >= pill_area(v.theme).x + v.theme.search_bar_width && text_end(v.theme, v.search) + 4
            <= pill_area(v.theme).x + v.theme.search_bar_width),
    ensures
        rendered(before, v, masks, font, scroll as int, highlight as int)[i] == before[i],
{
    let t = v.theme;
    let x = column(i, t.window_width as int);
    let y = row(i, t.window_width as int);
    let boxes = boxes_drawn(before, t, masks);
    let searched = search_drawn(boxes, t, v.search, font);
    assert(boxes[i] == before[i]);
    assert(!font.covers(v.search, text_x(t), text_y(t), 3, x, y)) by {
        if x >= text_x(t) + v.search.len() * 18 {
            let dx = x - text_x(t);
            assert(dx / 18 >= v.search.len());
        }
    }
    assert(searched[i] == boxes[i]);
    icons_stay_in_their_row(searched, v, masks, scroll as int, v.filtered.len(), i);
    icons_keep_the_size(searched, v, masks, scroll as int, v.filtered.len());
}

/// Opacities held to the shapes fit whatever picker the shapes are of.
pub proof fn shaped_masks_fit(v: PickerView, masks: Masks)
    requires
        v.wf(),
        v.theme.icon_size + 2 * v.theme.highlight_border_width <= i32::MAX,
        masks.matches_shapes(v.theme, v.entries),
    ensures
        masks.fit(v),
{
    let t = v.theme;
    assert(t.search_bar_height == 0 ==> t.search_bar_width * t.search_bar_height == 0)
        by (nonlinear_arith);
    assert forall|i: int| 0 <= i < v.entries.len() implies (#[trigger] masks.lit@[i])@.len()
        >= t.icon_size * t.icon_size by {
        assert(masks.lit@[i]@.len() == icon_table(t).len());
    }
    assert forall|i: int| 0 <= i < v.entries.len() implies (#[trigger] masks.dim@[i])@.len()
        >= t.icon_size * t.icon_size by {
        assert(masks.dim@[i]@.len() == icon_table(t).len());
    }
}

/// Undimmed, a thumbnail's pixel keeps its alpha; dimming never adds to it.
pub proof fn dimming_takes_away(a: u8, dim: u8)
    ensures
        dimmed(a, 255) == a,
        dimmed(a, 0) == 0,
        dimmed(a, dim) <= a,
{
    dimmed_fits(a, 255);
    dimmed_fits(a, dim);
    assert(2 * (a * 255) + 255 == 510 * a + 255);
    assert(a * dim <= a * 255) by (nonlinear_arith)
        requires
            0 <= a,
            dim <= 255,
    ;
}

/// On a clear canvas the panel has its color's alpha wherever its shape is
/// full, and nothing of it shows where its shape is bare, above the search bar.
pub proof fn the_panel_has_its_colors_alpha(
    before: Seq<u8>,
    t: ThemeView,
    entries: Seq<Entry>,
    raw: Masks,
    masks: Masks,
    i: int,
)
    requires
        t.wf(),
        t.surface_height() <= i32::MAX,
        masks.are_of(t, entries, raw),
        0 <= i < before.len(),
        i < 4 * (t.window_width * t.surface_height()),
        i % 4 == 3,
        before[i] == 0,
        row(i, t.window_width as int) < t.window_height,
    ensures
        ({
            let c = coverage(
                column(i, t.window_width as int),
                row(i, t.window_width as int),
                t.window_width as int,
                t.window_height as int,
                t.window_corner_radius as int,
            );
            &&& is_full(c) ==> boxes_drawn(before, t, masks)[i] == t.background[3]
            &&& is_bare(c) ==> boxes_drawn(before, t, masks)[i] == 0
        }),
{
    let w = t.window_width as int;
    let h = t.window_height as int;
    let x = column(i, w);
    let y = row(i, w);
    let k = panel_area(t).index(x, y);
    bounds_of_a_byte(i, w, h);
    let c = coverage(x, y, w, h, t.window_corner_radius as int);
    bare_pixels_are_not_full(c);
    assert(panel_table(t)[k] == c);
    assert(masks.panel@[k] == opacity(c, t.background[3], raw.panel@[k]));
    fresh_pixels_are_premultiplied(3, rgb_of(t.background), masks.panel@[k]);
}

/// A byte's pixel lies in the row and column that its number says.
proof fn bounds_of_a_byte(i: int, w: int, h: int)
    requires
        0 <= i,
        0 < w,
        row(i, w) < h,
    ensures
        0 <= column(i, w) < w,
        0 <= row(i, w),
        ({
            let k = row(i, w) * w + column(i, w);
            0 <= k < w * h && k % w == column(i, w) && k / w == row(i, w)
        }),
{
    let p = i / 4;
    lemma_fundamental_div_mod(p, w);
    assert(w * (p / w) == (p / w) * w) by (nonlinear_arith);
    assert(0 <= p / w) by (nonlinear_arith)
        requires
            0 <= p,
            0 < w,
    ;
    assert((p / w) * w + w <= w * h) by (nonlinear_arith)
        requires
            p / w + 1 <= h,
            0 < w,
    ;
}

// ---------------------------------------------------------------- pixels

/// Cells do not overlap.
proof fn cells_keep_apart(t: ThemeView, a: int, b: int)
    requires
        t.wf(),
        a < b,
    ensures
        cell_x_of(t, a) + t.icon_size <= cell_x_of(t, b),
{
    assert(a * stride_of(t) + stride_of(t) <= b * stride_of(t)) by (nonlinear_arith)
        requires
            a + 1 <= b,
            stride_of(t) >= 0,
    ;
}

/// What a cell shows at a place of its square, over what is there already.
pub open spec fn cell_byte(
    v: PickerView,
    masks: Masks,
    pos: int,
    dx: int,
    dy: int,
    under: u8,
    c: int,
) -> u8 {
    let e = v.filtered[pos] as int;
    let k = dy * v.theme.icon_size + dx;
    let data = v.entries[e].pixels.data@;
    let selected = match v.hover {
        Some(p) => p,
        None => v.kbd_index,
    };
    blend_byte(
        under,
        c,
        seq![data[4 * k], data[4 * k + 1], data[4 * k + 2]],
        if pos == selected {
            masks.lit@[e]@[k]
        } else {
            masks.dim@[e]@[k]
        },
    )
}

proof fn a_cell_fills_its_square(
    before: Seq<u8>,
    v: PickerView,
    masks: Masks,
    scroll: int,
    k: nat,
    pos: int,
    x: int,
    y: int,
    c: int,
)
    requires
        v.wf(),
        0 <= scroll <= i32::MAX,
        k <= v.filtered.len(),
        0 <= pos < v.filtered.len(),
        0 <= x < v.theme.window_width,
        0 <= y < v.theme.surface_height(),
        0 <= c < 4,
        before.len() >= 4 * (v.theme.window_width * v.theme.surface_height()),
        cell_x_of(v.theme, pos) <= x + scroll < cell_x_of(v.theme, pos) + v.theme.icon_size,
        v.theme.padding <= y < v.theme.padding + v.theme.icon_size,
    ensures
        ({
            let i = 4 * (y * v.theme.window_width + x) + c;
            icons_drawn(before, v, masks, scroll, k)[i] == (if k <= pos {
                before[i]
            } else {
                cell_byte(
                    v,
                    masks,
                    pos,
                    x + scroll - cell_x_of(v.theme, pos),
                    y - v.theme.padding,
                    before[i],
                    c,
                )
            })
        }),
    decreases k,
{
    let t = v.theme;
    let w = t.window_width as int;
    let i = 4 * (y * w + x) + c;
    pixel_position(w, x, y, c);
    pixel_is_on_canvas(w, t.surface_height(), x, y, c);
    icons_keep_the_size(before, v, masks, scroll, k);
    if k > 0 {
        let q = k - 1;
        a_cell_fills_its_square(before, v, masks, scroll, q as nat, pos, x, y, c);
        icons_keep_the_size(before, v, masks, scroll, q as nat);
        search_lists_exactly_the_matches(v.entries, v.search, v.entries.len());
        assert(v.filtered[q] < v.entries.len());
        assert(v.entries[v.filtered[q] as int].pixels.width == t.icon_size);
        v.cells_can_be_counted(q);
        if q < pos {
            cells_keep_apart(t, q, pos);
        } else if q > pos {
            cells_keep_apart(t, pos, q);
        }
    }
}

proof fn gaps_stay_as_they_are(
    before: Seq<u8>,
    v: PickerView,
    masks: Masks,
    scroll: int,
    k: nat,
    x: int,
    y: int,
    c: int,
)
    requires
        v.wf(),
        0 <= scroll <= i32::MAX,
        k <= v.filtered.len(),
        0 <= x < v.theme.window_width,
        0 <= y < v.theme.surface_height(),
        0 <= c < 4,
        before.len() >= 4 * (v.theme.window_width * v.theme.surface_height()),
        forall|pos: int|
            0 <= pos < v.filtered.len() ==> !{
                &&& #[trigger] cell_x_of(v.theme, pos) <= x + scroll
                &&& x + scroll < cell_x_of(v.theme, pos) + v.theme.icon_size
                &&& v.theme.padding <= y
                &&& y < v.theme.padding + v.theme.icon_size
            },
    ensures
        ({
            let i = 4 * (y * v.theme.window_width + x) + c;
            icons_drawn(before, v, masks, scroll, k)[i] == before[i]
        }),
    decreases k,
{
    let t = v.theme;
    let w = t.window_width as int;
    pixel_position(w, x, y, c);
    pixel_is_on_canvas(w, t.surface_height(), x, y, c);
    icons_keep_the_size(before, v, masks, scroll, k);
    if k > 0 {
        let q = k - 1;
        gaps_stay_as_they_are(before, v, masks, scroll, q as nat, x, y, c);
        icons_keep_the_size(before, v, masks, scroll, q as nat);
        search_lists_exactly_the_matches(v.entries, v.search, v.entries.len());
        assert(v.filtered[q] < v.entries.len());
        assert(v.entries[v.filtered[q] as int].pixels.width == t.icon_size);
        v.cells_can_be_counted(q);
        assert(cell_x_of(t, q) - scroll == icon_x(t, q, scroll));
    }
}

/// Thumbnails are drawn where they are hit: the pixel at (x, y) of the picture
/// shows the cell that a click there picks, at the place of that cell's square
/// that the click has, and with the opacity of the selected cell or of the
/// others; where a click picks nothing, no thumbnail is drawn, and none is drawn
/// on the row that a square's lower edge lies on.
pub proof fn thumbnails_are_drawn_where_they_are_hit(
    before: Seq<u8>,
    v: PickerView,
    masks: Masks,
    scroll: int,
    x: int,
    y: int,
    c: int,
)
    requires
        v.wf(),
        0 <= scroll <= i32::MAX,
        0 <= x < v.theme.window_width,
        0 <= y < v.theme.surface_height(),
        0 <= c < 4,
        before.len() >= 4 * (v.theme.window_width * v.theme.surface_height()),
    ensures
        ({
            let t = v.theme;
            let i = 4 * (y * t.window_width + x) + c;
            let along = x + scroll - t.padding;
            let hit = cell_hit(
                t,
                v.filtered.len() as int,
                Position { whole: along as i64, exact: true },
                Position { whole: y as i64, exact: true },
            );
            icons_drawn(before, v, masks, scroll, v.filtered.len())[i] == (match hit {
                Some(p) if y < t.padding + t.icon_size => cell_byte(
                    v,
                    masks,
                    p as int,
                    along - p * (t.icon_size + t.spacing),
                    y - t.padding,
                    before[i],
                    c,
                ),
                _ => before[i],
            })
        }),
{
    let t = v.theme;
    let n = v.filtered.len() as int;
    let px = Position { whole: (x + scroll - t.padding) as i64, exact: true };
    let py = Position { whole: y as i64, exact: true };
    search_lists_exactly_the_matches(v.entries, v.search, v.entries.len());
    points_hit_the_square_they_lie_in(t, n, px, py);
    let hit = cell_hit(t, n, px, py);
    if hit is Some && y < t.padding + t.icon_size {
        let p = hit->0 as int;
        assert(cell_x_of(t, p) <= px.whole + t.padding);
        a_cell_fills_its_square(before, v, masks, scroll, v.filtered.len(), p, x, y, c);
    } else {
        assert forall|pos: int| 0 <= pos < v.filtered.len() implies !{
            &&& #[trigger] cell_x_of(t, pos) <= x + scroll
            &&& x + scroll < cell_x_of(t, pos) + t.icon_size
            &&& t.padding <= y
            &&& y < t.padding + t.icon_size
        } by {}
        gaps_stay_as_they_are(before, v, masks, scroll, v.filtered.len(), x, y, c);
    }
}

/// A cell's square is drawn with its left edge at its place on the ribbon less
/// the scrolling, and its top a padding down, whatever the scrolling.
pub proof fn scrolling_moves_the_thumbnails(
    before: Seq<u8>,
    v: PickerView,
    masks: Masks,
    scroll: int,
    pos: int,
    dx: int,
    dy: int,
    c: int,
)
    requires
        v.wf(),
        0 <= scroll <= i32::MAX,
        0 <= pos < v.filtered.len(),
        0 <= dx < v.theme.icon_size,
        0 <= dy < v.theme.icon_size,
        0 <= cell_x_of(v.theme, pos) - scroll + dx < v.theme.window_width,
        v.theme.padding + dy < v.theme.surface_height(),
        0 <= c < 4,
        before.len() >= 4 * (v.theme.window_width * v.theme.surface_height()),
    ensures
        ({
            let t = v.theme;
            let x = t.padding + pos * (t.icon_size + t.spacing) - scroll + dx;
            let y = t.padding + dy;
            let i = 4 * (y * t.window_width + x) + c;
            icons_drawn(before, v, masks, scroll, v.filtered.len())[i] == cell_byte(
                v,
                masks,
                pos,
                dx,
                dy,
                before[i],
                c,
            )
        }),
{
    let x = cell_x_of(v.theme, pos) - scroll + dx;
    let y = v.theme.padding + dy;
    a_cell_fills_its_square(before, v, masks, scroll, v.filtered.len(), pos, x, y, c);
}

/// The half of what is left over on one side, rounded toward zero where there is
/// not enough.
pub open spec fn middle(spare: int) -> int {
    if spare >= 0 {
        spare / 2
    } else {
        -((-spare) / 2)
    }
}

/// The panel's pixels are put under everything: on its rows each pixel of the
/// canvas gets the background color with the panel's opacity, and below it the
/// search bar's pixels get theirs, centered under the panel.
pub proof fn the_boxes_are_the_panel_and_the_bar(
    before: Seq<u8>,
    t: ThemeView,
    masks: Masks,
    x: int,
    y: int,
    c: int,
)
    requires
        t.wf(),
        t.surface_height() <= i32::MAX,
        0 <= x < t.window_width,
        0 <= y < t.surface_height(),
        0 <= c < 4,
        before.len() >= 4 * (t.window_width * t.surface_height()),
    ensures
        ({
            let i = 4 * (y * t.window_width + x) + c;
            let left = middle(t.window_width - t.search_bar_width);
            let top = t.window_height + t.search_bar_gap;
            let b = t.background;
            let s = t.search_bar_background;
            boxes_drawn(before, t, masks)[i] == (if y < t.window_height {
                blend_byte(before[i], c, seq![b[0], b[1], b[2]], masks.panel@[y * t.window_width + x])
            } else if y >= top && left <= x < left + t.search_bar_width {
                blend_byte(
                    before[i],
                    c,
                    seq![s[0], s[1], s[2]],
                    masks.pill@[(y - top) * t.search_bar_width + (x - left)],
                )
            } else {
                before[i]
            })
        }),
{
    pixel_position(t.window_width as int, x, y, c);
    pixel_is_on_canvas(t.window_width as int, t.surface_height(), x, y, c);
}

/// The search text stands in the bar, a padding in and centered in height, in
/// blocks of three pixels, and its cursor, two pixels wide, stands two pixels
/// behind it; both are opaque and in the color of the text.
pub proof fn the_search_stands_in_the_bar(
    before: Seq<u8>,
    t: ThemeView,
    search: Seq<char>,
    font: Font,
    x: int,
    y: int,
    c: int,
)
    requires
        t.wf(),
        t.surface_height() <= i32::MAX,
        text_end(t, search) + 4 <= i32::MAX,
        0 <= x < t.window_width,
        0 <= y < t.surface_height(),
        0 <= c < 4,
        before.len() >= 4 * (t.window_width * t.surface_height()),
    ensures
        ({
            let i = 4 * (y * t.window_width + x) + c;
            let left = middle(t.window_width - t.search_bar_width) + t.padding;
            let top = t.window_height + t.search_bar_gap + middle(t.search_bar_height - 21);
            let end = left + 18 * search.len();
            let k = t.search_text_color;
            search_drawn(before, t, search, font)[i] == (if font.covers(search, left, top, 3, x, y)
                || (end + 2 <= x < end + 4 && top <= y < top + 21) {
                if c == 3 {
                    255
                } else {
                    k[2 - c]
                }
            } else {
                before[i]
            })
        }),
{
    pixel_position(t.window_width as int, x, y, c);
    pixel_is_on_canvas(t.window_width as int, t.surface_height(), x, y, c);
}

/// The ring is drawn around the square at the highlight's place on the ribbon
/// less the scrolling, wider than it by the border on every side, in the
/// border's color and with the ring's opacity; with nothing shown, or without a
/// border, there is none.
pub proof fn the_ring_is_drawn_around_its_square(
    before: Seq<u8>,
    v: PickerView,
    masks: Masks,
    scroll: i32,
    highlight: i32,
    x: int,
    y: int,
    c: int,
)
    requires
        v.wf(),
        masks.fit(v),
        renders(v, scroll, highlight),
        0 <= x < v.theme.window_width,
        0 <= y < v.theme.surface_height(),
        0 <= c < 4,
        before.len() >= 4 * (v.theme.window_width * v.theme.surface_height()),
    ensures
        ({
            let t = v.theme;
            let i = 4 * (y * t.window_width + x) + c;
            let b = t.highlight_border_width;
            let side = t.icon_size + 2 * b;
            let left = highlight - scroll - b;
            let top = t.padding - b;
            let k = t.highlight_border;
            ring_drawn(before, v, masks, scroll as int, highlight as int)[i] == (if v.filtered.len()
                > 0 && b > 0 && left <= x < left + side && top <= y < top + side {
                blend_byte(
                    before[i],
                    c,
                    seq![k[0], k[1], k[2]],
                    masks.ring@[(y - top) * side + (x - left)],
                )
            } else {
                before[i]
            })
        }),
{
    pixel_position(v.theme.window_width as int, x, y, c);
    pixel_is_on_canvas(v.theme.window_width as int, v.theme.surface_height(), x, y, c);
}

/// The whole picture is its layers, one over the other: the boxes, the search,
/// the thumbnails, and the ring on top. Every pixel of it is the panel's or the
/// bar's, under the search text, under the thumbnail that a click there picks,
/// under the ring.
pub proof fn the_picture_is_its_layers(
    before: Seq<u8>,
    v: PickerView,
    masks: Masks,
    font: Font,
    scroll: i32,
    highlight: i32,
    x: int,
    y: int,
    c: int,
)
    requires
        v.wf(),
        masks.fit(v),
        renders(v, scroll, highlight),
        0 <= x < v.theme.window_width,
        0 <= y < v.theme.surface_height(),
        0 <= c < 4,
        before.len() >= 4 * (v.theme.window_width * v.theme.surface_height()),
    ensures
        ({
            let t = v.theme;
            let i = 4 * (y * t.window_width + x) + c;
            let b = t.background;
            let s = t.search_bar_background;
            let left = middle(t.window_width - t.search_bar_width);
            let top = t.window_height + t.search_bar_gap;
            let boxes = if y < t.window_height {
                blend_byte(before[i], c, seq![b[0], b[1], b[2]], masks.panel@[y * t.window_width + x])
            } else if y >= top && left <= x < left + t.search_bar_width {
                blend_byte(
                    before[i],
                    c,
                    seq![s[0], s[1], s[2]],
                    masks.pill@[(y - top) * t.search_bar_width + (x - left)],
                )
            } else {
                before[i]
            };
            let text_top = top + middle(t.search_bar_height - 21);
            let end = left + t.padding + 18 * v.search.len();
            let k = t.search_text_color;
            let lettered = if font.covers(v.search, left + t.padding, text_top, 3, x, y) || (end + 2
                <= x < end + 4 && text_top <= y < text_top + 21) {
                if c == 3 {
                    255
                } else {
                    k[2 - c]
                }
            } else {
                boxes
            };
            let along = x + scroll - t.padding;
            let hit = cell_hit(
                t,
                v.filtered.len() as int,
                Position { whole: along as i64, exact: true },
                Position { whole: y as i64, exact: true },
            );
            let shown = match hit {
                Some(p) if y < t.padding + t.icon_size => cell_byte(
                    v,
                    masks,
                    p as int,
                    along - p * (t.icon_size + t.spacing),
                    y - t.padding,
                    lettered,
                    c,
                ),
                _ => lettered,
            };
            let d = t.highlight_border_width;
            let side = t.icon_size + 2 * d;
            let ring_left = highlight - scroll - d;
            let ring_top = t.padding - d;
            let r = t.highlight_border;
            rendered(before, v, masks, font, scroll as int, highlight as int)[i] == (if v.filtered.len()
                > 0 && d > 0 && ring_left <= x < ring_left + side && ring_top <= y < ring_top
                + side {
                blend_byte(
                    shown,
                    c,
                    seq![r[0], r[1], r[2]],
                    masks.ring@[(y - ring_top) * side + (x - ring_left)],
                )
            } else {
                shown
            })
        }),
{
    let t = v.theme;
    let boxes = boxes_drawn(before, t, masks);
    let searched = search_drawn(boxes, t, v.search, font);
    let icons = icons_drawn(searched, v, masks, scroll as int, v.filtered.len());
    icons_keep_the_size(searched, v, masks, scroll as int, v.filtered.len());
    the_boxes_are_the_panel_and_the_bar(before, t, masks, x, y, c);
    the_search_stands_in_the_bar(boxes, t, v.search, font, x, y, c);
    thumbnails_are_drawn_where_they_are_hit(searched, v, masks, scroll as int, x, y, c);
    the_ring_is_drawn_around_its_square(icons, v, masks, scroll, highlight, x, y, c);
}

/// The picture has the canvas's size, and what the canvas holds behind its pixels
/// stays.
pub proof fn the_picture_keeps_to_its_canvas(
    before: Seq<u8>,
    v: PickerView,
    masks: Masks,
    font: Font,
    scroll: i32,
    highlight: i32,
    i: int,
)
    requires
        v.wf(),
        4 * (v.theme.window_width * v.theme.surface_height()) <= i < before.len(),
    ensures
        rendered(before, v, masks, font, scroll as int, highlight as int).len() == before.len(),
        rendered(before, v, masks, font, scroll as int, highlight as int)[i] == before[i],
{
    let searched = search_drawn(boxes_drawn(before, v.theme, masks), v.theme, v.search, font);
    icons_keep_the_size(searched, v, masks, scroll as int, v.filtered.len());
    icons_stay_on_the_canvas(searched, v, masks, scroll as int, v.filtered.len(), i);
}

proof fn icons_stay_on_the_canvas(
    before: Seq<u8>,
    v: PickerView,
    masks: Masks,
    scroll: int,
    k: nat,
    i: int,
)
    requires
        v.wf(),
        4 * (v.theme.window_width * v.theme.surface_height()) <= i < before.len(),
    ensures
        icons_drawn(before, v, masks, scroll, k)[i] == before[i],
    decreases k,
{
    if k > 0 {
        icons_stay_on_the_canvas(before, v, masks, scroll, (k - 1) as nat, i);
        icons_keep_the_size(before, v, masks, scroll, (k - 1) as nat);
    }
}

/// At its target, the ring encloses the selected cell's square, and only that:
/// the square's place in the picture is the ring's, less the border.
pub proof fn the_ring_encloses_the_selected_cell(v: PickerView, scroll: int)
    requires
        v.wf(),
        v.shown() > 0,
    ensures
        ({
            let selected = match v.hover {
                Some(p) => p,
                None => v.kbd_index,
            };
            v.ring_target() is Some && v.ring_target()->0 - scroll == icon_x(
                v.theme,
                selected as int,
                scroll,
            )
        }),
{
    the_ring_belongs_to_the_selection(v);
}

/// Dimming rounds to the nearest: a pixel's dimmed alpha differs from its alpha
/// times the opacity by no more than half a step.
pub proof fn dimming_rounds_to_the_nearest(a: u8, dim: u8)
    ensures
        -255 <= 510 * dimmed(a, dim) - 2 * (a * dim) <= 255,
{
    dimmed_fits(a, dim);
}

/// The opacities of everything that is drawn go by the shapes: full is the
/// color's own alpha, or the thumbnail's own for the selected one and dimmed
/// for the others; bare is nothing; and along the edges the raw opacity counts,
/// as far as that allows.
pub proof fn opacities_go_by_the_shapes(
    masks: Masks,
    t: ThemeView,
    entries: Seq<Entry>,
    raw: Masks,
    e: int,
    x: int,
    y: int,
)
    requires
        t.wf(),
        masks.are_of(t, entries, raw),
        0 <= e < entries.len(),
        0 <= x,
        0 <= y,
    ensures
        ({
            let w = t.search_bar_width as int;
            let h = t.search_bar_height as int;
            let c = coverage(x, y, w, h, t.search_bar_corner_radius as int);
            x < w && y < h ==> {
                &&& is_full(c) ==> masks.pill@[y * w + x] == t.search_bar_background[3]
                &&& is_bare(c) ==> masks.pill@[y * w + x] == 0
                &&& !is_full(c) && !is_bare(c) ==> masks.pill@[y * w + x] == (if raw.pill@[y * w + x]
                    <= t.search_bar_background[3] {
                    raw.pill@[y * w + x]
                } else {
                    t.search_bar_background[3]
                })
            }
        }),
        ({
            let w = t.window_width as int;
            let h = t.window_height as int;
            let c = coverage(x, y, w, h, t.window_corner_radius as int);
            x < w && y < h ==> {
                &&& is_full(c) ==> masks.panel@[y * w + x] == t.background[3]
                &&& is_bare(c) ==> masks.panel@[y * w + x] == 0
                &&& !is_full(c) && !is_bare(c) ==> masks.panel@[y * w + x] == (if raw.panel@[y * w
                    + x] <= t.background[3] {
                    raw.panel@[y * w + x]
                } else {
                    t.background[3]
                })
            }
        }),
        ({
            let w = t.icon_size as int;
            let c = coverage(x, y, w, w, t.corner_radius as int);
            let a = entries[e].pixels.data@[4 * (y * w + x) + 3];
            x < w && y < w ==> {
                &&& is_full(c) ==> masks.lit@[e]@[y * w + x] == a
                &&& is_full(c) ==> masks.dim@[e]@[y * w + x] == dimmed(a, t.dim_opacity)
                &&& is_bare(c) ==> masks.lit@[e]@[y * w + x] == 0 && masks.dim@[e]@[y * w + x] == 0
                &&& !is_full(c) && !is_bare(c) ==> masks.lit@[e]@[y * w + x] == (if raw.lit@[e]@[y
                    * w + x] <= a {
                    raw.lit@[e]@[y * w + x]
                } else {
                    a
                })
                &&& !is_full(c) && !is_bare(c) ==> masks.dim@[e]@[y * w + x] == (if raw.dim@[e]@[y
                    * w + x] <= dimmed(a, t.dim_opacity) {
                    raw.dim@[e]@[y * w + x]
                } else {
                    dimmed(a, t.dim_opacity)
                })
            }
        }),
        ({
            let b = t.highlight_border_width as int;
            let w = t.icon_size + 2 * b;
            let outer = coverage(x, y, w, w, t.corner_radius + b);
            let inner = coverage(
                x - b,
                y - b,
                t.icon_size as int,
                t.icon_size as int,
                t.corner_radius as int,
            );
            b > 0 && x < w && y < w ==> {
                &&& is_bare(outer) || is_full(inner) ==> masks.ring@[y * w + x] == 0
                &&& is_full(outer) && is_bare(inner) ==> masks.ring@[y * w + x]
                    == t.highlight_border[3]
                &&& !is_bare(outer) && !is_full(inner) && !(is_full(outer) && is_bare(inner))
                    ==> masks.ring@[y * w + x] == (if raw.ring@[y * w + x]
                    <= t.highlight_border[3] {
                    raw.ring@[y * w + x]
                } else {
                    t.highlight_border[3]
                })
            }
        }),
{
    let a = entries[e].pixels.data@[4 * (y * t.icon_size + x) + 3];
    dimming_takes_away(a, t.dim_opacity);
    assert(masks.lit@[e]@.len() == icon_table(t).len());
    assert(masks.dim@[e]@.len() == icon_table(t).len());
    if x < t.search_bar_width && y < t.search_bar_height {
        a_place_in_a_table(t.search_bar_width as int, t.search_bar_height as int, x, y);
        bare_pixels_are_not_full(
            coverage(
                x,
                y,
                t.search_bar_width as int,
                t.search_bar_height as int,
                t.search_bar_corner_radius as int,
            ),
        );
    }
    if x < t.window_width && y < t.window_height {
        a_place_in_a_table(t.window_width as int, t.window_height as int, x, y);
        bare_pixels_are_not_full(
            coverage(
                x,
                y,
                t.window_width as int,
                t.window_height as int,
                t.window_corner_radius as int,
            ),
        );
    }
    if x < t.icon_size && y < t.icon_size {
        a_place_in_a_table(t.icon_size as int, t.icon_size as int, x, y);
        bare_pixels_are_not_full(
            coverage(x, y, t.icon_size as int, t.icon_size as int, t.corner_radius as int),
        );
    }
    let side = t.icon_size + 2 * t.highlight_border_width;
    if x < side && y < side {
        a_place_in_a_table(side, side, x, y);
        let b = t.highlight_border_width as int;
        let size = t.icon_size as int;
        bare_pixels_are_not_full(coverage(x, y, side, side, t.corner_radius + b));
        bare_pixels_are_not_full(coverage(x - b, y - b, size, size, t.corner_radius as int));
    }
}

/// The place of (x, y) in a table that runs row by row.
proof fn a_place_in_a_table(w: int, h: int, x: int, y: int)
    requires
        0 <= x < w,
        0 <= y < h,
    ensures
        0 <= y * w + x < w * h,
        (y * w + x) % w == x,
        (y * w + x) / w == y,
{
    pixel_position(w, x, y, 0);
    pixel_is_on_canvas(w, h, x, y, 0);
    lemma_fundamental_div_mod_converse(y * w + x, w, y, x);
}

/// A picture can be rendered when the scrolling is not negative, the text with
/// its cursor can be placed, and so can the ring.
pub proof fn positions_that_can_be_counted_render(v: PickerView, scroll: i32, highlight: i32)
    requires
        v.wf(),
    ensures
        renders(v, scroll, highlight) <==> {
            let t = v.theme;
            &&& scroll >= 0
            &&& middle(t.window_width - t.search_bar_width) + t.padding + 18 * v.search.len() + 4
                <= i32::MAX
            &&& t.window_height + t.search_bar_gap + middle(t.search_bar_height - 21) + 21
                <= i32::MAX
            &&& highlight - scroll - t.highlight_border_width >= i32::MIN
            &&& highlight - scroll <= i32::MAX
        },
{
}

} // verus!
