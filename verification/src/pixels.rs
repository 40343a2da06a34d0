//! Decoded pictures: cover-cropping them, and their pixels as plain bytes.

use vstd::prelude::*;

verus! {

/// The pixels of a picture, straight RGBA, row by row.
pub struct Pixels {
    pub width: u32,
    pub height: u32,
    pub data: Vec<u8>,
}

impl Pixels {
    /// There are four bytes for each pixel; what follows them is not shown.
    pub open spec fn wf(self) -> bool {
        self.data@.len() >= 4 * (self.width * self.height)
    }
}

// ---------------------------------------------------------------- `image`

/// A picture of the `image` crate, in whichever color format it was decoded.
#[verifier::external_type_specification]
#[verifier::external_body]
pub struct ExDynamicImage(image::DynamicImage);

/// The bytes of a picture when each of its pixels is written as 8-bit RGBA,
/// with whatever surplus its buffer has behind them.
pub uninterp spec fn rgba_bytes(img: image::DynamicImage) -> Seq<u8>;

/// The number of columns of a picture.
pub uninterp spec fn columns(img: image::DynamicImage) -> u32;

/// The number of rows of a picture.
pub uninterp spec fn rows(img: image::DynamicImage) -> u32;

/// The bytes of a picture that was scaled and cropped to fill a box of the
/// given width and height, with a triangle filter.
pub uninterp spec fn filled_bytes(img: image::DynamicImage, w: u32, h: u32) -> Seq<u8>;

/// Whether `r` is what scaling and cropping `img` to fill a box of the given
/// width and height, with a Lanczos filter, makes of it.
pub uninterp spec fn lanczos_fill(
    img: image::DynamicImage,
    w: u32,
    h: u32,
    r: image::DynamicImage,
) -> bool;

/// `DynamicImage::width`: a picture keeps its number of columns.
#[verifier::external_body]
fn width_of(img: &image::DynamicImage) -> (w: u32)
    ensures
        w == columns(*img),
{
    img.width()
}

/// `DynamicImage::height`: a picture keeps its number of rows.
#[verifier::external_body]
fn height_of(img: &image::DynamicImage) -> (h: u32)
    ensures
        h == rows(*img),
{
    img.height()
}

/// How a picture is resampled.
#[derive(Clone, Copy, PartialEq, Eq, Structural, Debug)]
pub enum Filter {
    Triangle,
    Lanczos3,
}

/// No less than the side that a picture's side of length `d` gets when the
/// picture, whose other side is `e`, is scaled to cover a box of `n` by `m`:
/// the box's own side, or what keeps the proportions, rounded up.
pub open spec fn scaled_side(d: u32, e: u32, n: u32, m: u32) -> int {
    let kept = d * m / e as int + 1;
    if kept > n {
        kept
    } else {
        n as int
    }
}

/// Whether a picture already covers a box with one side the same: it is not
/// resampled then, only cropped.
pub open spec fn is_kept(w: u32, h: u32, nw: u32, nh: u32) -> bool {
    (nw == w && nh <= h) || (nh == h && nw <= w)
}

/// Whether each of `n` places finds something to sample on a side of length
/// `d`. Places are computed in single precision, so on a long side they can
/// miss its end by a pixel or more; a place that samples nothing has no color,
/// and the resampling does not get past it. These lengths keep every place
/// within what it stands for.
pub open spec fn is_sampled(d: int, n: int) -> bool {
    ||| d <= 0x10_0000
    ||| d <= 0x40_0000 && n <= 0x80_0000
    ||| d <= 0x100_0000 && n <= 0x40_0000
    ||| n <= 0x20_0000
}

/// The sizes at which filling a box works. The picture is not empty. Where it
/// has to be resampled, the scaled picture's sides can be counted, every place
/// of it is sampled, and the buffers on the way (16 bytes to a pixel at most)
/// can be addressed.
pub open spec fn fill_fits(w: u32, h: u32, nw: u32, nh: u32) -> bool {
    let wide = scaled_side(w, h, nw, nh);
    let tall = scaled_side(h, w, nh, nw);
    &&& w >= 1
    &&& h >= 1
    &&& is_kept(w, h, nw, nh) || {
        &&& wide <= u32::MAX
        &&& tall <= u32::MAX
        &&& is_sampled(w as int, wide)
        &&& is_sampled(h as int, tall)
        &&& 16 * (w * tall) <= isize::MAX
        &&& 16 * (wide * tall) <= isize::MAX
    }
}

/// Whether that many pixels can be addressed as RGBA bytes.
pub open spec fn bytes_fit(w: u32, h: u32) -> bool {
    4 * (w * h) <= isize::MAX
}

/// `DynamicImage::resize_to_fill`: scales a picture until it covers the box
/// and cuts off the overflow, so the result has the box's size. With the
/// triangle filter the result's pixels depend on the picture and the box
/// alone. With the Lanczos filter the result is one of those that the filter
/// makes of the picture and the box; its weights go through the sine, whose
/// last digits vary between platforms.
#[verifier::external_body]
fn resize_to_fill(img: &image::DynamicImage, nw: u32, nh: u32, filter: Filter) -> (r:
    image::DynamicImage)
    requires
        fill_fits(columns(*img), rows(*img), nw, nh),
    ensures
        columns(r) == nw,
        rows(r) == nh,
        filter is Triangle ==> rgba_bytes(r) == filled_bytes(*img, nw, nh),
        filter is Lanczos3 ==> lanczos_fill(*img, nw, nh, r),
{
    let f = match filter {
        Filter::Triangle => image::imageops::FilterType::Triangle,
        Filter::Lanczos3 => image::imageops::FilterType::Lanczos3,
    };
    img.resize_to_fill(nw, nh, f)
}

/// `DynamicImage::to_rgba8`: the picture's pixels as 8-bit RGBA, at its own
/// size, four bytes to a pixel. A picture that is in this format already is
/// handed out with the whole of its buffer, which may be longer.
#[verifier::external_body]
fn to_rgba8(img: &image::DynamicImage) -> (p: Pixels)
    requires
        bytes_fit(columns(*img), rows(*img)),
    ensures
        p.width == columns(*img),
        p.height == rows(*img),
        p.data@ == rgba_bytes(*img),
        p.data@.len() >= 4 * (columns(*img) * rows(*img)),
{
    let rgba = img.to_rgba8();
    let (width, height) = rgba.dimensions();
    Pixels { width, height, data: rgba.into_raw() }
}

// ---------------------------------------------------------------- cropping

fn scaled(d: u32, e: u32, n: u32, m: u32) -> (r: u64)
    requires
        e >= 1,
    ensures
        r == scaled_side(d, e, n, m),
{
    proof {
        product_bound(d as int, m as int);
        let p = d * m;
        assert(0 <= p / e as int <= p) by (nonlinear_arith)
            requires
                p >= 0,
                e >= 1,
        ;
    }
    let kept: u64 = d as u64 * m as u64 / e as u64 + 1;
    if kept > n as u64 {
        kept
    } else {
        n as u64
    }
}

fn sampled(d: u32, n: u32) -> (b: bool)
    ensures
        b == is_sampled(d as int, n as int),
{
    d <= 0x10_0000 || (d <= 0x40_0000 && n <= 0x80_0000) || (d <= 0x100_0000 && n <= 0x40_0000)
        || n <= 0x20_0000
}

fn sizes_fit(w: u32, h: u32, nw: u32, nh: u32) -> (b: bool)
    ensures
        b == fill_fits(w, h, nw, nh),
{
    if w < 1 || h < 1 {
        return false;
    }
    if (nw == w && nh <= h) || (nh == h && nw <= w) {
        return true;
    }
    let wide: u64 = scaled(w, h, nw, nh);
    let tall: u64 = scaled(h, w, nh, nw);
    if wide > u32::MAX as u64 || tall > u32::MAX as u64 {
        return false;
    }
    let limit: u128 = isize::MAX as u128;
    proof {
        product_bound(w as int, tall as int);
        product_bound(wide as int, tall as int);
    }
    sampled(w, wide as u32) && sampled(h, tall as u32) && 16 * (w as u128 * tall as u128) <= limit
        && 16 * (wide as u128 * tall as u128) <= limit
}

proof fn product_bound(a: int, b: int)
    requires
        0 <= a <= u32::MAX,
        0 <= b <= u32::MAX,
    ensures
        0 <= a * b <= u32::MAX * u32::MAX,
{
    assert(0 <= a * b <= u32::MAX * u32::MAX) by (nonlinear_arith)
        requires
            0 <= a <= u32::MAX,
            0 <= b <= u32::MAX,
    ;
}

/// A square cover-crop: the picture scaled so that it covers a `size` by
/// `size` box, with the overflow cut off on both sides. `None` if the picture
/// is empty or too large to be worked on.
pub fn cover_crop(img: &image::DynamicImage, size: u32, filter: Filter) -> (r: Option<
    image::DynamicImage,
>)
    ensures
        match r {
            Some(p) => {
                &&& fill_fits(columns(*img), rows(*img), size, size)
                &&& columns(p) == size
                &&& rows(p) == size
                &&& filter is Triangle ==> rgba_bytes(p) == filled_bytes(*img, size, size)
                &&& filter is Lanczos3 ==> lanczos_fill(*img, size, size, p)
            },
            None => !fill_fits(columns(*img), rows(*img), size, size),
        },
{
    if sizes_fit(width_of(img), height_of(img), size, size) {
        Some(resize_to_fill(img, size, size, filter))
    } else {
        None
    }
}

/// What the picker shows of a picture: its cover-crop at the size of an icon,
/// as plain pixels. `None` where there is no cover-crop, or no room for its
/// bytes.
pub fn icon_pixels(img: &image::DynamicImage, size: u32) -> (r: Option<Pixels>)
    ensures
        match r {
            Some(p) => {
                &&& fill_fits(columns(*img), rows(*img), size, size)
                &&& bytes_fit(size, size)
                &&& p.wf()
                &&& p.width == size
                &&& p.height == size
                &&& p.data@ == filled_bytes(*img, size, size)
            },
            None => !fill_fits(columns(*img), rows(*img), size, size) || !bytes_fit(size, size),
        },
{
    proof {
        product_bound(size as int, size as int);
    }
    if 4 * (size as u128 * size as u128) > isize::MAX as u128 {
        return None;
    }
    match cover_crop(img, size, Filter::Triangle) {
        Some(p) => Some(to_rgba8(&p)),
        None => None,
    }
}

// ---------------------------------------------------------------- laws

/// Every picture with sides of up to a million pixels can be cropped to every
/// size for which the scaled picture can be counted and addressed.
pub proof fn ordinary_pictures_can_be_cropped(w: u32, h: u32, nw: u32, nh: u32)
    requires
        1 <= w <= 0x10_0000,
        1 <= h <= 0x10_0000,
        scaled_side(w, h, nw, nh) <= u32::MAX,
        scaled_side(h, w, nh, nw) <= u32::MAX,
        16 * (w * scaled_side(h, w, nh, nw)) <= isize::MAX,
        16 * (scaled_side(w, h, nw, nh) * scaled_side(h, w, nh, nw)) <= isize::MAX,
    ensures
        fill_fits(w, h, nw, nh),
{
}

proof fn scaled_sides_are_bounded(d: u32, e: u32, n: u32, m: u32)
    requires
        1 <= d <= 0x1_0000,
        1 <= e,
        n <= 0x1000,
        m <= 0x1000,
    ensures
        0 <= scaled_side(d, e, n, m) <= 0x1000_0001,
{
    let p = d * m;
    assert(0 <= p <= 0x1_0000 * 0x1000) by (nonlinear_arith)
        requires
            p == d * m,
            1 <= d <= 0x1_0000,
            0 <= m <= 0x1000,
    ;
    assert(0 <= p / e as int <= p) by (nonlinear_arith)
        requires
            p >= 0,
            e >= 1,
    ;
}

/// A picture can be cropped to any thumbnail's size: with sides of up to 65536
/// pixels, to boxes of up to 4096, where 64 bits count the bytes. One that has a
/// side of the box already can be cropped to it whatever its size, and an empty
/// one cannot be cropped at all.
pub proof fn pictures_can_be_cropped(w: u32, h: u32, nw: u32, nh: u32)
    ensures
        1 <= w <= 0x1_0000 && 1 <= h <= 0x1_0000 && nw <= 0x1000 && nh <= 0x1000 && isize::MAX
            >= 0x7fff_ffff_ffff_ffff ==> fill_fits(w, h, nw, nh),
        w >= 1 && h >= 1 && nw == w && nh <= h ==> fill_fits(w, h, nw, nh),
        w >= 1 && h >= 1 && nh == h && nw <= w ==> fill_fits(w, h, nw, nh),
        w == 0 || h == 0 ==> !fill_fits(w, h, nw, nh),
        nw <= 0x1000 && nh <= 0x1000 ==> bytes_fit(nw, nh),
{
    assert(nw <= 0x1000 && nh <= 0x1000 ==> nw * nh <= 0x1000 * 0x1000) by (nonlinear_arith);
    if 1 <= w <= 0x1_0000 && 1 <= h <= 0x1_0000 && nw <= 0x1000 && nh <= 0x1000 {
        scaled_sides_are_bounded(w, h, nw, nh);
        scaled_sides_are_bounded(h, w, nh, nw);
        let wide = scaled_side(w, h, nw, nh);
        let tall = scaled_side(h, w, nh, nw);
        assert(w * tall <= 0x1_0000 * 0x1000_0001) by (nonlinear_arith)
            requires
                0 <= w <= 0x1_0000,
                0 <= tall <= 0x1000_0001,
        ;
        assert(wide * tall <= 0x1000_0001 * 0x1000_0001) by (nonlinear_arith)
            requires
                0 <= wide <= 0x1000_0001,
                0 <= tall <= 0x1000_0001,
        ;
    }
}

} // verus!
