//! The geometry of rounded rectangles: how far a pixel lies from the edge.
//!
//! Lengths are counted in half pixels, so that pixel centers and the middle of
//! a box are whole numbers. What fraction of a pixel a distance stands for is
//! for the renderer to say; see [`Coverage`].

use vstd::prelude::*;
use vstd::arithmetic::div_mod::lemma_fundamental_div_mod_converse;

verus! {

/// How much of a pixel a rounded rectangle covers.
#[derive(Clone, Copy, PartialEq, Eq, Structural, Debug)]
pub enum Coverage {
    /// None of it.
    Empty,
    /// All of it.
    Solid,
    /// A part that depends on the distance to the edge. In half pixels, `qx`
    /// and `qy` say how far the pixel's center lies beyond the box that the
    /// corner circles have their centers on (negative: within it), and `r` is
    /// the corners' radius. The signed distance is
    /// `hypot(max(qx, 0), max(qy, 0)) + min(max(qx, qy), 0) - r`, and the
    /// coverage falls from one to zero as it goes from -1 to 1.
    Edge { qx: i64, qy: i64, r: i64 },
}

/// The radius in half pixels: no more than what fits the box.
pub open spec fn fitted_radius(w: int, h: int, radius: int) -> int {
    let a = if 2 * radius < w {
        2 * radius
    } else {
        w
    };
    let b = if a < h {
        a
    } else {
        h
    };
    if b > 0 {
        b
    } else {
        0
    }
}

/// How far the center of pixel `x` lies beyond the inner part of a side of
/// length `w`, in half pixels.
pub open spec fn excess(x: int, w: int, r: int) -> int {
    let p = 2 * x + 1 - w;
    (if p < 0 {
        -p
    } else {
        p
    }) - (w - r)
}

/// The coverage of the pixel at (x, y) by a `w` by `h` rounded rectangle whose
/// corner is the origin.
pub open spec fn coverage(x: int, y: int, w: int, h: int, radius: int) -> Coverage {
    let inside_x = 0 <= x < w;
    let inside_y = 0 <= y < h;
    if x < -1 || y < -1 || x > w || y > h {
        Coverage::Empty
    } else if radius <= 0 {
        if inside_x && inside_y {
            Coverage::Solid
        } else {
            Coverage::Empty
        }
    } else if (inside_y && radius <= x < w - radius) || (inside_x && radius <= y < h - radius) {
        Coverage::Solid
    } else {
        let r = fitted_radius(w, h, radius);
        Coverage::Edge { qx: excess(x, w, r) as i64, qy: excess(y, h, r) as i64, r: r as i64 }
    }
}

fn excess_of(x: i32, w: i32, r: i64) -> (q: i64)
    requires
        0 <= r <= 2 * (i32::MAX as int),
    ensures
        q == excess(x as int, w as int, r as int),
{
    let p: i64 = 2 * (x as i64) + 1 - w as i64;
    let a: i64 = if p < 0 {
        -p
    } else {
        p
    };
    a - (w as i64 - r)
}

/// How much of the pixel at (x, y) is covered by a `w` by `h` rounded
/// rectangle whose top left corner is the origin. Pixels well outside and well
/// inside are told at once; only those near an edge or a corner get a distance.
pub fn rounded_rect_coverage(x: i32, y: i32, w: i32, h: i32, radius: i32) -> (c: Coverage)
    ensures
        c == coverage(x as int, y as int, w as int, h as int, radius as int),
{
    if x < -1 || y < -1 || x > w || y > h {
        return Coverage::Empty;
    }
    let inside_x: bool = x >= 0 && x < w;
    let inside_y: bool = y >= 0 && y < h;
    if radius <= 0 {
        return if inside_x && inside_y {
            Coverage::Solid
        } else {
            Coverage::Empty
        };
    }
    let x_end: i64 = w as i64 - radius as i64;
    let y_end: i64 = h as i64 - radius as i64;
    if (inside_y && x >= radius && (x as i64) < x_end) || (inside_x && y >= radius && (y as i64)
        < y_end) {
        return Coverage::Solid;
    }
    let mut r: i64 = 2 * (radius as i64);
    if r >= w as i64 {
        r = w as i64;
    }
    if r >= h as i64 {
        r = h as i64;
    }
    if r < 0 {
        r = 0;
    }
    Coverage::Edge { qx: excess_of(x, w, r), qy: excess_of(y, h, r), r }
}

// ---------------------------------------------------------------- distance

pub open spec fn positive(q: int) -> int {
    if q > 0 {
        q
    } else {
        0
    }
}

/// The square of the distance from the inner box, outside of it.
pub open spec fn outside_squared(qx: int, qy: int) -> int {
    positive(qx) * positive(qx) + positive(qy) * positive(qy)
}

/// The depth within the inner box, as a number that is not positive.
pub open spec fn depth(qx: int, qy: int) -> int {
    let q = if qx > qy {
        qx
    } else {
        qy
    };
    if q < 0 {
        q
    } else {
        0
    }
}

/// The signed distance is at most -1: the pixel is covered wholly.
pub open spec fn wholly_inside(qx: int, qy: int, r: int) -> bool {
    let reach = r - depth(qx, qy) - 1;
    reach >= 0 && outside_squared(qx, qy) <= reach * reach
}

/// The signed distance is at least 1: the pixel is not covered at all.
pub open spec fn wholly_outside(qx: int, qy: int, r: int) -> bool {
    let reach = r - depth(qx, qy) + 1;
    reach <= 0 || outside_squared(qx, qy) >= reach * reach
}

proof fn square_grows(a: int, b: int)
    requires
        0 <= a <= b,
    ensures
        0 <= a * a <= b * b,
{
    assert(0 <= a * a <= b * b) by (nonlinear_arith)
        requires
            0 <= a <= b,
    ;
}

proof fn squares_are_not_negative(qx: int, qy: int)
    ensures
        outside_squared(qx, qy) >= positive(qx) * positive(qx),
        outside_squared(qx, qy) >= positive(qy) * positive(qy),
        outside_squared(qx, qy) >= 0,
{
    assert(positive(qx) * positive(qx) >= 0) by (nonlinear_arith);
    assert(positive(qy) * positive(qy) >= 0) by (nonlinear_arith);
}

/// The center of a pixel outside the box is at least half a pixel from the
/// shape.
proof fn outside_pixels_are_wholly_outside(x: int, y: int, w: int, h: int, radius: int)
    requires
        !(0 <= x < w && 0 <= y < h),
    ensures
        ({
            let r = fitted_radius(w, h, radius);
            wholly_outside(excess(x, w, r), excess(y, h, r), r)
        }),
{
    let r = fitted_radius(w, h, radius);
    let qx = excess(x, w, r);
    let qy = excess(y, h, r);
    let reach = r - depth(qx, qy) + 1;
    squares_are_not_negative(qx, qy);
    if x < 0 || x >= w {
        assert(qx >= r + 1);
        square_grows(reach, qx);
    } else {
        assert(qy >= r + 1);
        square_grows(reach, qy);
    }
}

/// The answers that need no distance are those that the distance gives: a
/// pixel called solid lies wholly inside the shape, and one called empty lies
/// wholly outside.
pub proof fn shortcuts_agree_with_the_distance(x: int, y: int, w: int, h: int, radius: int)
    ensures
        ({
            let r = fitted_radius(w, h, radius);
            let qx = excess(x, w, r);
            let qy = excess(y, h, r);
            let c = coverage(x, y, w, h, radius);
            &&& c is Solid ==> wholly_inside(qx, qy, r)
            &&& c is Empty ==> wholly_outside(qx, qy, r)
        }),
{
    let r = fitted_radius(w, h, radius);
    let qx = excess(x, w, r);
    let qy = excess(y, h, r);
    let c = coverage(x, y, w, h, radius);
    squares_are_not_negative(qx, qy);
    if c is Solid {
        let reach = r - depth(qx, qy) - 1;
        assert(qx <= r - 1 && qy <= r - 1);
        assert(0 * 0 == 0);
        if qx > 0 {
            assert(qy <= 0);
            square_grows(qx, reach);
        } else if qy > 0 {
            square_grows(qy, reach);
        } else {
            square_grows(0, reach);
        }
    }
    if c is Empty {
        outside_pixels_are_wholly_outside(x, y, w, h, radius);
    }
}

/// A rounded rectangle is its own mirror image, left to right and top to
/// bottom.
pub proof fn coverage_is_symmetric(x: int, y: int, w: int, h: int, radius: int)
    ensures
        coverage(w - 1 - x, y, w, h, radius) == coverage(x, y, w, h, radius),
        coverage(x, h - 1 - y, w, h, radius) == coverage(x, y, w, h, radius),
{
}

/// Between the corners everything is solid, from side to side and from top to
/// bottom. Nothing of a pixel outside the box is covered, and a pixel away from
/// the box this is told at once.
pub proof fn interior_is_solid_and_exterior_is_empty(x: int, y: int, w: int, h: int, radius: int)
    ensures
        0 <= radius && radius <= x < w - radius && 0 <= y < h ==> coverage(x, y, w, h, radius)
            is Solid,
        0 <= radius && 0 <= x < w && radius <= y < h - radius ==> coverage(x, y, w, h, radius)
            is Solid,
        x < -1 || y < -1 || x > w || y > h ==> coverage(x, y, w, h, radius) is Empty,
        !(0 <= x < w && 0 <= y < h) ==> coverage(x, y, w, h, radius) is Empty || {
            let r = fitted_radius(w, h, radius);
            wholly_outside(excess(x, w, r), excess(y, h, r), r)
        },
{
    if !(0 <= x < w && 0 <= y < h) {
        outside_pixels_are_wholly_outside(x, y, w, h, radius);
    }
}

/// Without a radius the shape is a plain rectangle.
pub proof fn zero_radius_is_a_plain_rectangle(x: int, y: int, w: int, h: int)
    ensures
        0 <= x < w && 0 <= y < h ==> coverage(x, y, w, h, 0) is Solid,
        !(0 <= x < w && 0 <= y < h) ==> coverage(x, y, w, h, 0) is Empty,
{
}

// ---------------------------------------------------------------- tables

pub open spec fn pixels_of(w: int, h: int) -> nat {
    if w > 0 && h > 0 {
        (w * h) as nat
    } else {
        0
    }
}

/// The coverage of each pixel of a rounded rectangle's box, row by row.
pub open spec fn rect_table(w: int, h: int, radius: int) -> Seq<Coverage> {
    Seq::new(pixels_of(w, h), |k: int| coverage(k % w, k / w, w, h, radius))
}

proof fn table_position(k: int, w: int, x: int, y: int)
    requires
        0 <= x < w,
        k == y * w + x,
    ensures
        k % w == x,
        k / w == y,
{
    lemma_fundamental_div_mod_converse(k, w, y, x);
}

pub fn rounded_rect(w: i32, h: i32, radius: i32) -> (table: Vec<Coverage>)
    ensures
        table@ == rect_table(w as int, h as int, radius as int),
{
    let mut table: Vec<Coverage> = Vec::new();
    let mut y: i32 = 0;
    if w <= 0 || h <= 0 {
        assert(table@ =~= rect_table(w as int, h as int, radius as int));
        return table;
    }
    assert(0 * w == 0);
    while y < h
        invariant
            0 < w,
            0 <= y <= h,
            table@.len() == y * w,
            forall|k: int|
                0 <= k < table@.len() ==> table@[k] == coverage(
                    k % (w as int),
                    k / (w as int),
                    w as int,
                    h as int,
                    radius as int,
                ),
        decreases h - y,
    {
        let mut x: i32 = 0;
        while x < w
            invariant
                0 <= x <= w,
                0 <= y < h,
                table@.len() == y * w + x,
                forall|k: int|
                    0 <= k < table@.len() ==> table@[k] == coverage(
                        k % (w as int),
                        k / (w as int),
                        w as int,
                        h as int,
                        radius as int,
                    ),
            decreases w - x,
        {
            proof {
                table_position(table@.len() as int, w as int, x as int, y as int);
            }
            table.push(rounded_rect_coverage(x, y, w, h, radius));
            x = x + 1;
        }
        assert((y + 1) * w == y * w + w) by (nonlinear_arith);
        y = y + 1;
    }
    assert(h * w == w * h) by (nonlinear_arith);
    assert(table@ =~= rect_table(w as int, h as int, radius as int));
    table
}

/// The two shapes at a pixel of a ring's box: the outer one, which holds the
/// ring, and the inner one, which is left out of it. The inner one has its
/// corner `width` pixels in.
pub open spec fn ring_at(x: int, y: int, size: int, radius: int, width: int) -> (
    Coverage,
    Coverage,
) {
    let side = size + 2 * width;
    (
        coverage(x, y, side, side, radius + width),
        coverage(x - width, y - width, size, size, radius),
    )
}

/// The shapes at each pixel of a ring's box, row by row; a ring without a
/// width has none.
pub open spec fn ring_table(size: int, radius: int, width: int) -> Seq<(Coverage, Coverage)> {
    let side = size + 2 * width;
    if width <= 0 {
        Seq::empty()
    } else {
        Seq::new(
            pixels_of(side, side),
            |k: int| ring_at(k % side, k / side, size, radius, width),
        )
    }
}

/// The ring of `width` pixels around a `size` by `size` box with the given
/// corner radius.
pub fn ring(size: i32, radius: i32, width: i32) -> (table: Vec<(Coverage, Coverage)>)
    requires
        size + 2 * width <= i32::MAX,
        2 * width <= i32::MAX,
        radius + width <= i32::MAX,
    ensures
        table@ == ring_table(size as int, radius as int, width as int),
{
    let mut table: Vec<(Coverage, Coverage)> = Vec::new();
    if width <= 0 {
        return table;
    }
    let side: i32 = size + 2 * width;
    let outer_r: i32 = radius + width;
    if side <= 0 {
        assert(table@ =~= ring_table(size as int, radius as int, width as int));
        return table;
    }
    let mut y: i32 = 0;
    assert(0 * side == 0);
    while y < side
        invariant
            0 < side == size + 2 * width,
            0 < width,
            outer_r == radius + width,
            0 <= y <= side,
            table@.len() == y * side,
            forall|k: int|
                0 <= k < table@.len() ==> table@[k] == ring_at(
                    k % (side as int),
                    k / (side as int),
                    size as int,
                    radius as int,
                    width as int,
                ),
        decreases side - y,
    {
        let mut x: i32 = 0;
        while x < side
            invariant
                0 < side == size + 2 * width,
                0 < width,
                outer_r == radius + width,
                0 <= x <= side,
                0 <= y < side,
                table@.len() == y * side + x,
                forall|k: int|
                    0 <= k < table@.len() ==> table@[k] == ring_at(
                        k % (side as int),
                        k / (side as int),
                        size as int,
                        radius as int,
                        width as int,
                    ),
            decreases side - x,
        {
            proof {
                table_position(table@.len() as int, side as int, x as int, y as int);
            }
            let outer: Coverage = rounded_rect_coverage(x, y, side, side, outer_r);
            let inner: Coverage = rounded_rect_coverage(x - width, y - width, size, size, radius);
            table.push((outer, inner));
            x = x + 1;
        }
        assert((y + 1) * side == y * side + side) by (nonlinear_arith);
        y = y + 1;
    }
    assert(table@ =~= ring_table(size as int, radius as int, width as int));
    table
}

/// The opacity of a pixel of a ring's box: none where the outer shape is empty,
/// which is outside the ring, or where the inner one is solid, which belongs to
/// what the ring surrounds; elsewhere `a`.
pub open spec fn ring_share(shapes: (Coverage, Coverage), a: u8) -> u8 {
    if shapes.0 is Empty || shapes.1 is Solid {
        0
    } else {
        a
    }
}

/// Holds the opacities of a ring's pixels to the ring: those that it has no
/// share in become transparent.
pub fn ring_opacities(table: &Vec<(Coverage, Coverage)>, alpha: &Vec<u8>) -> (r: Vec<u8>)
    requires
        alpha@.len() == table@.len(),
    ensures
        r@ == Seq::new(table@.len(), |k: int| ring_share(table@[k], alpha@[k])),
{
    let mut r: Vec<u8> = Vec::new();
    let mut i: usize = 0;
    while i < table.len()
        invariant
            i <= table@.len() == alpha@.len(),
            r@ == Seq::new(i as nat, |k: int| ring_share(table@[k], alpha@[k])),
        decreases table@.len() - i,
    {
        let a: u8 = match (table[i].0, table[i].1) {
            (Coverage::Empty, _) => 0,
            (_, Coverage::Solid) => 0,
            _ => alpha[i],
        };
        r.push(a);
        i = i + 1;
        assert(r@ =~= Seq::new(i as nat, |k: int| ring_share(table@[k], alpha@[k])));
    }
    r
}

/// A ring encloses its box: wherever the inner shape is solid, so is the outer
/// one, and the ring has no share in the pixel.
pub proof fn ring_encloses_its_box(x: int, y: int, size: int, radius: int, width: int, a: u8)
    requires
        width > 0,
        radius >= 0,
        ring_at(x, y, size, radius, width).1 is Solid,
    ensures
        ring_at(x, y, size, radius, width).0 is Solid,
        ring_share(ring_at(x, y, size, radius, width), a) == 0,
{
}

// ---------------------------------------------------------------- opacities

/// None of the pixel is covered.
pub open spec fn is_bare(c: Coverage) -> bool {
    match c {
        Coverage::Empty => true,
        Coverage::Solid => false,
        Coverage::Edge { qx, qy, r } => wholly_outside(qx as int, qy as int, r as int),
    }
}

/// All of the pixel is covered.
pub open spec fn is_full(c: Coverage) -> bool {
    match c {
        Coverage::Empty => false,
        Coverage::Solid => true,
        Coverage::Edge { qx, qy, r } => wholly_inside(qx as int, qy as int, r as int),
    }
}

pub open spec fn lesser(a: u8, b: u8) -> u8 {
    if a <= b {
        a
    } else {
        b
    }
}

/// The opacity of a pixel of a shape that is drawn with opacity `full`: nothing
/// and everything are exact, and a part, for which `raw` has been worked out,
/// is no more than everything.
pub open spec fn opacity(c: Coverage, full: u8, raw: u8) -> u8 {
    if is_bare(c) {
        0
    } else if is_full(c) {
        full
    } else {
        lesser(raw, full)
    }
}

/// The opacity of a pixel of a ring's box: nothing outside the outer shape and
/// inside the inner one, everything between them, and a part along the edges.
pub open spec fn ring_opacity(shapes: (Coverage, Coverage), full: u8, raw: u8) -> u8 {
    if is_bare(shapes.0) || is_full(shapes.1) {
        0
    } else if is_full(shapes.0) && is_bare(shapes.1) {
        full
    } else {
        lesser(raw, full)
    }
}

/// The square of the distance from the inner box, and the depth within it.
fn measure(qx: i64, qy: i64) -> (m: (u128, i128))
    ensures
        m.0 == outside_squared(qx as int, qy as int),
        m.0 < 0x8000_0000_0000_0000_0000_0000_0000_0000,
        m.1 == depth(qx as int, qy as int),
        i64::MIN <= m.1 <= 0,
{
    let x: u128 = if qx > 0 {
        qx as u128
    } else {
        0
    };
    let y: u128 = if qy > 0 {
        qy as u128
    } else {
        0
    };
    assert(x * x <= 0x3fff_ffff_ffff_ffff_ffff_ffff_ffff_ffff) by (nonlinear_arith)
        requires
            0 <= x <= 0x7fff_ffff_ffff_ffff,
    ;
    assert(y * y <= 0x3fff_ffff_ffff_ffff_ffff_ffff_ffff_ffff) by (nonlinear_arith)
        requires
            0 <= y <= 0x7fff_ffff_ffff_ffff,
    ;
    let q: i64 = if qx > qy {
        qx
    } else {
        qy
    };
    let d: i128 = if q < 0 {
        q as i128
    } else {
        0
    };
    (x * x + y * y, d)
}

proof fn long_squares(reach: int)
    requires
        0 <= reach,
    ensures
        reach <= 0xffff_ffff_ffff_ffff ==> reach * reach <= u128::MAX,
        reach > 0xffff_ffff_ffff_ffff ==> reach * reach
            >= 0x8000_0000_0000_0000_0000_0000_0000_0000,
{
    assert(reach <= 0xffff_ffff_ffff_ffff ==> reach * reach <= 0xffff_ffff_ffff_ffff
        * 0xffff_ffff_ffff_ffff) by (nonlinear_arith)
        requires
            0 <= reach,
    ;
    assert(reach > 0xffff_ffff_ffff_ffff ==> reach * reach >= 0x1_0000_0000_0000_0000
        * 0x1_0000_0000_0000_0000) by (nonlinear_arith)
        requires
            0 <= reach,
    ;
}

pub fn bare(c: Coverage) -> (b: bool)
    ensures
        b == is_bare(c),
{
    match c {
        Coverage::Empty => true,
        Coverage::Solid => false,
        Coverage::Edge { qx, qy, r } => {
            let (outside, d): (u128, i128) = measure(qx, qy);
            let reach: i128 = r as i128 - d + 1;
            if reach <= 0 {
                return true;
            }
            proof {
                long_squares(reach as int);
            }
            reach <= 0xffff_ffff_ffff_ffff && outside >= reach as u128 * reach as u128
        },
    }
}

pub fn full(c: Coverage) -> (b: bool)
    ensures
        b == is_full(c),
{
    match c {
        Coverage::Empty => false,
        Coverage::Solid => true,
        Coverage::Edge { qx, qy, r } => {
            let (outside, d): (u128, i128) = measure(qx, qy);
            let reach: i128 = r as i128 - d - 1;
            if reach < 0 {
                return false;
            }
            proof {
                long_squares(reach as int);
            }
            reach > 0xffff_ffff_ffff_ffff || outside <= reach as u128 * reach as u128
        },
    }
}

/// The opacity of a pixel whose shape is drawn with opacity `most`.
pub fn pixel_opacity(c: Coverage, most: u8, raw: u8) -> (a: u8)
    ensures
        a == opacity(c, most, raw),
{
    if bare(c) {
        0
    } else if full(c) || raw > most {
        most
    } else {
        raw
    }
}

/// The opacities of a shape's pixels: none where it is empty, `alpha` where it
/// is solid, and what has been worked out for an edge, which is no more than
/// `alpha`.
pub fn shape_mask(table: &Vec<Coverage>, alpha: u8, raw: &Vec<u8>) -> (r: Vec<u8>)
    requires
        raw@.len() == table@.len(),
    ensures
        r@ == Seq::new(table@.len(), |k: int| opacity(table@[k], alpha, raw@[k])),
{
    let mut r: Vec<u8> = Vec::new();
    let mut i: usize = 0;
    while i < table.len()
        invariant
            i <= table@.len() == raw@.len(),
            r@ == Seq::new(i as nat, |k: int| opacity(table@[k], alpha, raw@[k])),
        decreases table@.len() - i,
    {
        r.push(pixel_opacity(table[i], alpha, raw[i]));
        i = i + 1;
        assert(r@ =~= Seq::new(i as nat, |k: int| opacity(table@[k], alpha, raw@[k])));
    }
    r
}

/// The opacities of a ring's box, for a color with the given alpha.
pub fn ring_mask(size: i32, radius: i32, width: i32, alpha: u8, raw: &Vec<u8>) -> (r: Vec<u8>)
    requires
        size + 2 * width <= i32::MAX,
        2 * width <= i32::MAX,
        radius + width <= i32::MAX,
        raw@.len() == ring_table(size as int, radius as int, width as int).len(),
    ensures
        r@ == Seq::new(
            raw@.len(),
            |k: int|
                ring_opacity(
                    ring_table(size as int, radius as int, width as int)[k],
                    alpha,
                    raw@[k],
                ),
        ),
{
    let table: Vec<(Coverage, Coverage)> = ring(size, radius, width);
    let mut r: Vec<u8> = Vec::new();
    let mut i: usize = 0;
    while i < table.len()
        invariant
            i <= table@.len() == raw@.len(),
            r@ == Seq::new(i as nat, |k: int| ring_opacity(table@[k], alpha, raw@[k])),
        decreases table@.len() - i,
    {
        let outer: Coverage = table[i].0;
        let inner: Coverage = table[i].1;
        let a: u8 = if bare(outer) || full(inner) {
            0
        } else if (full(outer) && bare(inner)) || raw[i] > alpha {
            alpha
        } else {
            raw[i]
        };
        r.push(a);
        i = i + 1;
        assert(r@ =~= Seq::new(i as nat, |k: int| ring_opacity(table@[k], alpha, raw@[k])));
    }
    r
}

/// No opacity exceeds the color's alpha.
pub proof fn opacities_stay_below_the_alpha(
    c: Coverage,
    shapes: (Coverage, Coverage),
    alpha: u8,
    raw: u8,
)
    ensures
        opacity(c, alpha, raw) <= alpha,
        ring_opacity(shapes, alpha, raw) <= alpha,
{
}

/// No pixel is both wholly inside a shape and wholly outside of it.
pub proof fn bare_pixels_are_not_full(c: Coverage)
    ensures
        !(is_bare(c) && is_full(c)),
{
    if let Coverage::Edge { qx, qy, r } = c {
        let outside = outside_squared(qx as int, qy as int);
        let d = depth(qx as int, qy as int);
        let a = r - d - 1;
        squares_are_not_negative(qx as int, qy as int);
        assert(a >= 0 ==> a * a < (a + 2) * (a + 2)) by (nonlinear_arith);
    }
}

/// A corner is a quarter circle: a pixel there is covered wholly when its center
/// lies at least half a pixel within the circle around the corner's own center,
/// and not at all when it lies half a pixel beyond it. Distances are counted in
/// half pixels.
pub proof fn corners_are_quarter_circles(x: int, y: int, w: int, h: int, radius: int)
    requires
        0 <= x < radius,
        0 <= y < radius,
        2 * radius <= w <= i32::MAX,
        2 * radius <= h <= i32::MAX,
    ensures
        ({
            let dx = 2 * radius - (2 * x + 1);
            let dy = 2 * radius - (2 * y + 1);
            let c = coverage(x, y, w, h, radius);
            &&& c == (Coverage::Edge { qx: dx as i64, qy: dy as i64, r: (2 * radius) as i64 })
            &&& is_full(c) <==> dx * dx + dy * dy <= (2 * radius - 1) * (2 * radius - 1)
            &&& is_bare(c) <==> dx * dx + dy * dy >= (2 * radius + 1) * (2 * radius + 1)
        }),
{
}

/// Nothing outside its box belongs to a shape, and everything between its
/// corners does.
pub proof fn shapes_fill_their_box(x: int, y: int, w: int, h: int, radius: int)
    requires
        i32::MIN <= x <= i32::MAX,
        i32::MIN <= y <= i32::MAX,
        0 <= w <= i32::MAX,
        0 <= h <= i32::MAX,
        0 <= radius <= i32::MAX,
    ensures
        !(0 <= x < w && 0 <= y < h) ==> is_bare(coverage(x, y, w, h, radius)),
        0 <= y < h && radius <= x < w - radius ==> is_full(coverage(x, y, w, h, radius)),
        0 <= x < w && radius <= y < h - radius ==> is_full(coverage(x, y, w, h, radius)),
{
    if !(0 <= x < w && 0 <= y < h) {
        outside_pixels_are_wholly_outside(x, y, w, h, radius);
    }
}

/// Tables run row by row, and hold what the pixel at each place is covered by.
pub proof fn tables_hold_each_pixel(x: int, y: int, w: int, h: int, radius: int, width: int)
    requires
        0 <= x < w,
        0 <= y < h,
    ensures
        rect_table(w, h, radius).len() == w * h,
        0 <= y * w + x < w * h,
        rect_table(w, h, radius)[y * w + x] == coverage(x, y, w, h, radius),
        width > 0 && w == h ==> ring_table(w - 2 * width, radius, width).len() == w * w,
        width > 0 && w == h ==> ring_table(w - 2 * width, radius, width)[y * w + x] == (
            coverage(x, y, w, w, radius + width),
            coverage(x - width, y - width, w - 2 * width, w - 2 * width, radius),
        ),
        width <= 0 ==> ring_table(w, radius, width).len() == 0,
{
    table_position(y * w + x, w, x, y);
    assert(0 <= y * w) by (nonlinear_arith)
        requires
            0 <= y,
            0 < w,
    ;
    assert(y * w + w <= w * h) by (nonlinear_arith)
        requires
            y + 1 <= h,
            0 < w,
    ;
}

/// A pixel's opacity is nothing where it is bare, everything where it is full,
/// and in between what was worked out, as far as everything allows; a ring has
/// everything between its shapes and nothing beyond the one or within the other.
pub proof fn opacity_goes_by_the_coverage(c: Coverage, d: Coverage, most: u8, raw: u8)
    ensures
        is_bare(c) ==> opacity(c, most, raw) == 0,
        is_full(c) ==> opacity(c, most, raw) == most,
        !is_bare(c) && !is_full(c) ==> opacity(c, most, raw) == (if raw <= most {
            raw
        } else {
            most
        }),
        is_bare(c) || is_full(d) ==> ring_opacity((c, d), most, raw) == 0,
        is_full(c) && is_bare(d) ==> ring_opacity((c, d), most, raw) == most,
        !is_bare(c) && !is_full(d) && !(is_full(c) && is_bare(d)) ==> ring_opacity(
            (c, d),
            most,
            raw,
        ) == (if raw <= most {
            raw
        } else {
            most
        }),
        is_bare(Coverage::Empty) && is_full(Coverage::Solid),
        ring_share((Coverage::Empty, d), raw) == 0,
        ring_share((c, Coverage::Solid), raw) == 0,
        !(c is Empty) && !(d is Solid) ==> ring_share((c, d), raw) == raw,
{
    bare_pixels_are_not_full(c);
    bare_pixels_are_not_full(d);
}

/// An edge pixel is measured from the box that the corners' circles have their
/// centers on, whose corners are as round as the shape allows: no rounder than
/// asked for, and no wider than either side.
pub proof fn edges_are_measured_from_the_inner_box(x: int, y: int, w: int, h: int, radius: int)
    requires
        i32::MIN <= x <= i32::MAX,
        i32::MIN <= y <= i32::MAX,
        0 <= w <= i32::MAX,
        0 <= h <= i32::MAX,
        radius <= i32::MAX,
    ensures
        coverage(x, y, w, h, radius) matches Coverage::Edge { qx, qy, r } ==> {
            let px = 2 * x + 1 - w;
            let py = 2 * y + 1 - h;
            &&& r <= 2 * radius && r <= w && r <= h
            &&& r == 2 * radius || r == w || r == h
            &&& qx == (if px >= 0 {
                px
            } else {
                -px
            }) - w + r
            &&& qy == (if py >= 0 {
                py
            } else {
                -py
            }) - h + r
        },
        coverage(x, y, w, h, radius) is Edge <==> {
            &&& -1 <= x <= w && -1 <= y <= h
            &&& radius > 0
            &&& !(0 <= y < h && radius <= x < w - radius)
            &&& !(0 <= x < w && radius <= y < h - radius)
        },
        coverage(x, y, w, h, radius) is Empty ==> !(0 <= x < w && 0 <= y < h),
{
}

/// A pixel is covered wholly, or not at all, when its distance from the edge is
/// half a pixel or more: beside a straight edge the one excess counts, within the
/// inner box the larger one, and at a corner both, by the circle.
pub proof fn edges_count_by_their_distance(qx: i64, qy: i64, r: i64)
    requires
        0 <= r,
    ensures
        ({
            let c = Coverage::Edge { qx, qy, r };
            let most = if qx > qy {
                qx
            } else {
                qy
            };
            let least = if qx > qy {
                qy
            } else {
                qx
            };
            &&& least <= 0 ==> (is_full(c) <==> most <= r - 1)
            &&& least <= 0 ==> (is_bare(c) <==> most >= r + 1)
            &&& least > 0 ==> (is_full(c) <==> r >= 1 && qx * qx + qy * qy <= (r - 1) * (r - 1))
            &&& least > 0 ==> (is_bare(c) <==> qx * qx + qy * qy >= (r + 1) * (r + 1))
        }),
{
    let most = if qx > qy {
        qx as int
    } else {
        qy as int
    };
    let least = if qx > qy {
        qy as int
    } else {
        qx as int
    };
    if least <= 0 {
        assert(0int * 0 == 0);
        if most > 0 {
            assert(outside_squared(qx as int, qy as int) == most * most);
            assert(depth(qx as int, qy as int) == 0);
            assert(r - 1 >= 0 ==> (most * most <= (r - 1) * (r - 1) <==> most <= r - 1))
                by (nonlinear_arith)
                requires
                    most > 0,
                    r >= 0,
            ;
            assert(most * most >= (r + 1) * (r + 1) <==> most >= r + 1) by (nonlinear_arith)
                requires
                    most > 0,
                    r >= 0,
            ;
        } else {
            assert(outside_squared(qx as int, qy as int) == 0);
            assert(depth(qx as int, qy as int) == most);
            let a = r - most - 1;
            let b = r - most + 1;
            assert(a * a >= 0) by (nonlinear_arith);
            assert(b > 0 ==> b * b > 0) by (nonlinear_arith);
        }
    }
}

} // verus!
