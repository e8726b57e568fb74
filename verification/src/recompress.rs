//! Re-compression of an image through a JPEG encoder and the decoder.
use vstd::prelude::*;
use crate::codec::{decode_jpeg, encode_jpeg_image, encode_jpeg_rgb, image_jpeg_output, jpeg_encoder_rgb_output};
use crate::raster::RgbImage;

verus! {

/// Encodes `img` with the `jpeg_encoder` crate at `quality` (width and height are cast to `u16`,
/// as the encoder takes them) and decodes the result. `None` where encoding or decoding fails
/// or the decoded image has another size than `img`.
pub fn recompress(img: &RgbImage, quality: u8) -> (r: Option<RgbImage>)
    requires
        img.wf(),
    ensures
        jpeg_encoder_rgb_output(img.data@, img.width as u16, img.height as u16, quality) is None
            ==> r is None,
        r matches Some(c) ==> c.wf() && c.same_size(img),
{
    let bytes = match encode_jpeg_rgb(&img.data, img.width as u16, img.height as u16, quality) {
        Some(b) => b,
        None => return None,
    };
    let (w, h, raw) = match decode_jpeg(&bytes) {
        Some(d) => d,
        None => return None,
    };
    if w != img.width || h != img.height {
        return None;
    }
    RgbImage::from_raw(w, h, raw)
}

/// Encodes `img` with the `image` crate's JPEG encoder at `quality` and decodes the result.
/// `None` where encoding or decoding fails or the decoded image has another size than `img`.
pub fn resave(img: &RgbImage, quality: u8) -> (r: Option<RgbImage>)
    requires
        img.wf(),
    ensures
        image_jpeg_output(img.data@, img.width, img.height, quality) is None ==> r is None,
        r matches Some(c) ==> c.wf() && c.same_size(img),
{
    let bytes = match encode_jpeg_image(img, quality) {
        Some(b) => b,
        None => return None,
    };
    let (w, h, raw) = match decode_jpeg(&bytes) {
        Some(d) => d,
        None => return None,
    };
    if w != img.width || h != img.height {
        return None;
    }
    RgbImage::from_raw(w, h, raw)
}

} // verus!
