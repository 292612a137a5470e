//! Image encoding for clipboard paste.
//!
//! Converts raw RGBA pixel data to PNG bytes. Oversized images are resized to
//! fit within a bounding box of 2048 by 2048 pixels.

use vstd::prelude::*;

verus! {

/// Maximum dimension (width or height) before resizing.
pub const MAX_DIMENSION: u32 = 2048;

/// The PNG file that the `image` crate writes for RGBA pixels.
pub uninterp spec fn png_bytes(rgba: Seq<u8>, width: u32, height: u32) -> Seq<u8>;

/// Whether `rgba` holds the pixels of an image of the given size. There may be
/// bytes behind them.
pub open spec fn holds_pixels(rgba: Seq<u8>, width: u32, height: u32) -> bool {
    4 * width * height <= rgba.len()
}

/// Whether `rgba` is an image of the given size, with nothing behind its pixels.
pub open spec fn is_image(rgba: Seq<u8>, width: u32, height: u32) -> bool {
    width > 0 && height > 0 && 4 * width * height == rgba.len()
}

/// Whether `n` is `a / b` to the nearest integer, and at least 1.
pub open spec fn nearest(n: int, a: int, b: int) -> bool {
    ||| n >= 1 && -b <= 2 * (n * b - a) <= b
    ||| n == 1 && 2 * a <= b
}

/// Whether an image of `w` by `h` pixels is one of `width` by `height` pixels
/// scaled into a square of `limit`: the longer side fills it, and the other one
/// keeps the ratio.
pub open spec fn scaled_into(width: u32, height: u32, w: u32, h: u32, limit: u32) -> bool {
    &&& 1 <= w <= limit
    &&& 1 <= h <= limit
    &&& width >= height ==> w == limit && nearest(h as int, height * limit, width as int)
    &&& height >= width ==> h == limit && nearest(w as int, width * limit, height as int)
}

/// Whether `data`, an image of `w` by `h` pixels, is one that the `image` crate may
/// give when it scales the image `rgba` of `width` by `height` pixels into a square of
/// `limit`. Two calls need not give the same one.
pub uninterp spec fn may_scale(
    rgba: Seq<u8>,
    width: u32,
    height: u32,
    limit: u32,
    data: Seq<u8>,
    w: u32,
    h: u32,
) -> bool;

/// Writes the pixels with `image::DynamicImage::write_to` in PNG format. The
/// bytes depend on the pixels and the size alone.
#[verifier::external_body]
fn encodePng(rgba: &Vec<u8>, width: u32, height: u32) -> (r: Vec<u8>)
    requires
        is_image(rgba@, width, height),
        width <= MAX_DIMENSION,
        height <= MAX_DIMENSION,
    ensures
        r@ == png_bytes(rgba@, width, height),
{
    let img = image::RgbaImage::from_raw(width, height, rgba.clone()).expect("pixel buffer");
    let mut buf = Vec::new();
    image::DynamicImage::ImageRgba8(img).write_to(
        &mut std::io::Cursor::new(&mut buf),
        image::ImageFormat::Png,
    ).expect("PNG encoding");
    buf
}

/// Scales the pixels with `image::DynamicImage::resize` and the Lanczos filter,
/// keeping the aspect ratio. An image without pixels becomes a blank one. The new
/// pixels are among those that may come of the old ones; which of them is not stated:
/// the filter weighs the old ones by sines in floating point, which may differ in the
/// last place between machines.
#[verifier::external_body]
fn scaleInto(rgba: &Vec<u8>, width: u32, height: u32, limit: u32) -> (r: (Vec<u8>, u32, u32))
    requires
        holds_pixels(rgba@, width, height),
        width > limit || height > limit,
        0 < limit <= MAX_DIMENSION,
    ensures
        is_image(r.0@, r.1, r.2),
        scaled_into(width, height, r.1, r.2, limit),
        may_scale(rgba@, width, height, limit, r.0@, r.1, r.2),
{
    let img = image::RgbaImage::from_raw(width, height, rgba.clone()).expect("pixel buffer");
    let resized = image::DynamicImage::ImageRgba8(img).resize(
        limit,
        limit,
        image::imageops::FilterType::Lanczos3,
    ).into_rgba8();
    let (w, h) = (resized.width(), resized.height());
    (resized.into_raw(), w, h)
}

/// Whether an image of this size is resized before it is encoded.
#[verifier::allow_in_spec]
pub fn needsScaling(width: u32, height: u32) -> bool
    returns
        width > MAX_DIMENSION || height > MAX_DIMENSION,
{
    width > MAX_DIMENSION || height > MAX_DIMENSION
}

/// Encodes raw RGBA pixel data (4 bytes per pixel) to PNG bytes, resized where
/// either dimension exceeds the limit. An image that is not resized has pixels, and
/// nothing stands behind them.
pub fn encodeRgbaToPng(rgba: &Vec<u8>, width: u32, height: u32) -> (r: Vec<u8>)
    requires
        if needsScaling(width, height) {
            holds_pixels(rgba@, width, height)
        } else {
            is_image(rgba@, width, height)
        },
    ensures
        !needsScaling(width, height) ==> r@ == png_bytes(rgba@, width, height),
        needsScaling(width, height) ==> exists|data: Seq<u8>, w: u32, h: u32|
            #![trigger png_bytes(data, w, h)]
            is_image(data, w, h) && scaled_into(width, height, w, h, MAX_DIMENSION) && may_scale(
                rgba@,
                width,
                height,
                MAX_DIMENSION,
                data,
                w,
                h,
            ) && r@ == png_bytes(data, w, h),
{
    if needsScaling(width, height) {
        let (data, w, h) = scaleInto(rgba, width, height, MAX_DIMENSION);
        encodePng(&data, w, h)
    } else {
        encodePng(rgba, width, height)
    }
}

// ---- laws ----

/// An image takes four bytes for each pixel. One that is too large is made to fit 2048
/// pixels: its longer side is that long, and the other keeps the ratio to the nearest
/// pixel.
pub proof fn law_images_keep_their_shape(
    width: u32,
    height: u32,
    w: u32,
    h: u32,
    data: Seq<u8>,
)
    requires
        needsScaling(width, height),
        scaled_into(width, height, w, h, MAX_DIMENSION),
        is_image(data, w, h),
    ensures
        width > 2048 || height > 2048,
        w <= 2048 && h <= 2048,
        width >= height ==> w == 2048,
        height >= width ==> h == 2048,
        width >= height && 2 * (height * 2048) >= width ==> -(width as int) <= 2 * (h * width
            - height * 2048) <= width,
        height >= width && 2 * (width * 2048) >= height ==> -(height as int) <= 2 * (w * height
            - width * 2048) <= height,
        data.len() == 4 * w * h,
{
    if width >= height && 2 * (height * 2048) >= width {
        assert(h == 1 ==> h * width == width) by (nonlinear_arith);
    }
    if height >= width && 2 * (width * 2048) >= height {
        assert(w == 1 ==> w * height == height) by (nonlinear_arith);
    }
}

/// An image that fits is not scaled.
pub proof fn law_small_images_are_not_scaled(width: u32, height: u32)
    ensures
        needsScaling(width, height) <==> width > 2048 || height > 2048,
{
}

} // verus!
