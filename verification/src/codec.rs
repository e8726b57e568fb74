//! The calls into the image codecs and filters of outside crates.
//!
//! Every function here is trusted: Verus believes its contract and does not read its body.
use vstd::prelude::*;
use crate::arith::clamp;
use crate::raster::{GrayImage, RgbImage};

verus! {

/// The bytes that `jpeg_encoder::Encoder::encode` writes for row-major RGB `pixels` of the given
/// size at the given quality, or `None` where it returns an error.
pub uninterp spec fn jpeg_encoder_rgb_output(
    pixels: Seq<u8>,
    width: u16,
    height: u16,
    quality: u8,
) -> Option<Seq<u8>>;

/// The bytes that `image::codecs::jpeg::JpegEncoder::new_with_quality(.., quality)` writes from
/// `encode_image` for an RGB image, or `None` where it returns an error.
pub uninterp spec fn image_jpeg_output(pixels: Seq<u8>, width: u32, height: u32, quality: u8) -> Option<
    Seq<u8>,
>;

/// The pixels of `imageproc::filter::median_filter(image, x_radius, y_radius)` on an RGB image.
pub uninterp spec fn median_filter_output(
    pixels: Seq<u8>,
    width: u32,
    height: u32,
    x_radius: u32,
    y_radius: u32,
) -> Seq<u8>;

/// Channel `c` of the pixel at `(x, y)` of a row-major RGB buffer of `width` by `height`
/// pixels, with coordinates outside the image moved to the nearest edge (padding by
/// continuity).
pub open spec fn padded_at(pixels: Seq<u8>, width: int, height: int, x: int, y: int, c: int) -> int {
    pixels[(clamp(y, 0, height - 1) * width + clamp(x, 0, width - 1)) * 3 + c] as int
}

/// Value `k` of the median kernel of pixel `(x, y)`, channel `c`: offsets `-x_radius..=x_radius`
/// along rows and `-y_radius..=y_radius` along columns, row by row.
pub open spec fn kernel_value(
    pixels: Seq<u8>,
    width: int,
    height: int,
    x_radius: int,
    y_radius: int,
    x: int,
    y: int,
    c: int,
    k: int,
) -> int {
    padded_at(
        pixels,
        width,
        height,
        x + k % (2 * x_radius + 1) - x_radius,
        y + k / (2 * x_radius + 1) - y_radius,
        c,
    )
}

/// How many of the first `k` kernel values are below `m` (at most `m` where `or_equal`).
pub open spec fn kernel_count_below(
    pixels: Seq<u8>,
    width: int,
    height: int,
    x_radius: int,
    y_radius: int,
    x: int,
    y: int,
    c: int,
    m: int,
    k: int,
    or_equal: bool,
) -> int
    decreases k,
{
    if k <= 0 {
        0
    } else {
        let v = kernel_value(pixels, width, height, x_radius, y_radius, x, y, c, k - 1);
        kernel_count_below(pixels, width, height, x_radius, y_radius, x, y, c, m, k - 1, or_equal)
            + if (if or_equal { v <= m } else { v < m }) { 1int } else { 0int }
    }
}

/// `m` is the median of the kernel of pixel `(x, y)`, channel `c`: of its
/// `n = (2 * x_radius + 1) * (2 * y_radius + 1)` values (an odd number), at most `n / 2` are
/// below `m` and more than `n / 2` are at most `m`.
pub open spec fn is_kernel_median(
    pixels: Seq<u8>,
    width: int,
    height: int,
    x_radius: int,
    y_radius: int,
    x: int,
    y: int,
    c: int,
    m: int,
) -> bool {
    let n = (2 * x_radius + 1) * (2 * y_radius + 1);
    &&& kernel_count_below(pixels, width, height, x_radius, y_radius, x, y, c, m, n, false) <= n / 2
    &&& n / 2 < kernel_count_below(pixels, width, height, x_radius, y_radius, x, y, c, m, n, true)
}

/// Every channel of every pixel of `out` is the median of that channel over the pixel's kernel
/// in `pixels`.
pub open spec fn is_median_filtered(
    pixels: Seq<u8>,
    width: int,
    height: int,
    x_radius: int,
    y_radius: int,
    out: Seq<u8>,
) -> bool {
    forall|x: int, y: int, c: int|
        0 <= x < width && 0 <= y < height && 0 <= c < 3 ==> #[trigger] is_kernel_median(
            pixels,
            width,
            height,
            x_radius,
            y_radius,
            x,
            y,
            c,
            out[(y * width + x) * 3 + c] as int,
        )
}

/// The pixels of `image::DynamicImage::ImageRgb8(image).to_luma8()`: each pixel's channels
/// weighed with the sRGB luminance coefficients in single-precision floating point and brought
/// back to a byte. The arithmetic path (with or without fused multiply-add) is fixed when the
/// `image` crate is compiled, so within a build the result depends on the pixels alone.
pub uninterp spec fn luma8_output(pixels: Seq<u8>, width: u32, height: u32) -> Seq<u8>;

/// Calls `jpeg_encoder::Encoder::new(.., quality)` and `Encoder::encode(pixels, width, height,
/// ColorType::Rgb)` into a memory buffer. Trusted: the bytes written are those named by
/// `jpeg_encoder_rgb_output`, and the encoder refuses a zero width or height and a buffer
/// shorter than `width * height * 3` (as its source shows). Success is not promised otherwise.
#[verifier::external_body]
pub(crate) fn encode_jpeg_rgb(pixels: &Vec<u8>, width: u16, height: u16, quality: u8) -> (out: Option<
    Vec<u8>,
>)
    ensures
        match out {
            Some(b) => jpeg_encoder_rgb_output(pixels@, width, height, quality) == Some(b@),
            None => jpeg_encoder_rgb_output(pixels@, width, height, quality) is None,
        },
        (width == 0 || height == 0 || pixels@.len() < width * height * 3) ==> out is None,
{
    let mut buf: Vec<u8> = Vec::new();
    let encoder = jpeg_encoder::Encoder::new(&mut buf, quality);
    match encoder.encode(pixels, width, height, jpeg_encoder::ColorType::Rgb) {
        Ok(()) => Some(buf),
        Err(_) => None,
    }
}

/// Calls `image::codecs::jpeg::JpegEncoder::new_with_quality(.., quality)` and `encode_image`
/// on the image into a memory buffer. Trusted: the bytes written are those named by
/// `image_jpeg_output`, and the encoder refuses a width or height outside `1..=65535` (as its
/// source shows). Success is not promised otherwise.
#[verifier::external_body]
pub(crate) fn encode_jpeg_image(img: &RgbImage, quality: u8) -> (out: Option<Vec<u8>>)
    requires
        img.wf(),
    ensures
        match out {
            Some(b) => image_jpeg_output(img.data@, img.width, img.height, quality) == Some(b@),
            None => image_jpeg_output(img.data@, img.width, img.height, quality) is None,
        },
        (img.width == 0 || img.height == 0 || img.width > 65535 || img.height > 65535) ==> out is None,
{
    let buffer = ::image::RgbImage::from_raw(img.width, img.height, img.data.clone())?;
    let mut bytes: Vec<u8> = Vec::new();
    let result = {
        let mut cursor = std::io::Cursor::new(&mut bytes);
        ::image::codecs::jpeg::JpegEncoder::new_with_quality(&mut cursor, quality).encode_image(&buffer)
    };
    match result {
        Ok(()) => Some(bytes),
        Err(_) => None,
    }
}

/// Calls `image::load_from_memory_with_format(bytes, ImageFormat::Jpeg)` and `to_rgb8`, handing
/// back the width, the height and the raw row-major RGB buffer. Nothing is promised of the
/// decoded pixels: the decoder picks processor-specific code paths at run time.
#[verifier::external_body]
pub(crate) fn decode_jpeg(bytes: &Vec<u8>) -> (out: Option<(u32, u32, Vec<u8>)>) {
    let decoded = ::image::load_from_memory_with_format(bytes, ::image::ImageFormat::Jpeg).ok()?;
    let rgb = decoded.to_rgb8();
    let (w, h) = rgb.dimensions();
    Some((w, h, rgb.into_raw()))
}

/// Calls `imageproc::filter::median_filter(image, x_radius, y_radius)` on the RGB image.
/// Trusted: the result has the size of the input (the function builds it with
/// `Image::new(width, height)` or clones the input), its pixels are named by
/// `median_filter_output`, and, as the function's documentation says, each channel of each
/// pixel is the median of that channel over the pixel's kernel, the image padded by
/// continuity (`is_median_filtered`); the function panics where `width + x_radius` or
/// `height + y_radius` exceeds `i32::MAX`, and its kernel size
/// `(2 * x_radius + 1) * (2 * y_radius + 1)` is computed in `u32`; `requires` leaves both out.
#[verifier::external_body]
pub(crate) fn median_filter_rgb(img: &RgbImage, x_radius: u32, y_radius: u32) -> (out: RgbImage)
    requires
        img.wf(),
        img.width + x_radius <= i32::MAX,
        img.height + y_radius <= i32::MAX,
        (2 * x_radius + 1) * (2 * y_radius + 1) <= u32::MAX,
    ensures
        out.width == img.width,
        out.height == img.height,
        out.wf(),
        out.data@ == median_filter_output(img.data@, img.width, img.height, x_radius, y_radius),
        is_median_filtered(
            img.data@,
            img.width as int,
            img.height as int,
            x_radius as int,
            y_radius as int,
            out.data@,
        ),
{
    let buffer = ::image::RgbImage::from_raw(img.width, img.height, img.data.clone()).unwrap();
    let filtered = imageproc::filter::median_filter(&buffer, x_radius, y_radius);
    RgbImage { width: img.width, height: img.height, data: filtered.into_raw() }
}

/// Calls `image::DynamicImage::ImageRgb8(image).to_luma8()`. Trusted: the result has the size
/// of the input (the conversion builds it with `ImageBuffer::from_vec(width, height, ..)` and
/// a pixel count checked by `expect`), and its pixels are named by `luma8_output`; their
/// values are not stated, since the conversion is floating point.
#[verifier::external_body]
pub(crate) fn to_luma8(img: &RgbImage) -> (out: GrayImage)
    requires
        img.wf(),
    ensures
        out.width == img.width,
        out.height == img.height,
        out.wf(),
        out.data@ == luma8_output(img.data@, img.width, img.height),
{
    let buffer = ::image::RgbImage::from_raw(img.width, img.height, img.data.clone()).unwrap();
    let gray = ::image::DynamicImage::ImageRgb8(buffer).to_luma8();
    GrayImage { width: img.width, height: img.height, data: gray.into_raw() }
}

} // verus!
