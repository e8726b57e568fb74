//! In-memory 8-bit RGB and grayscale images, stored row by row.
use vstd::prelude::*;
use crate::arith::lemma_mul_le;

verus! {

/// An 8-bit RGB image; `data` holds the pixels row by row, three bytes per pixel.
pub struct RgbImage {
    pub width: u32,
    pub height: u32,
    pub data: Vec<u8>,
}

/// An 8-bit single-channel image; `data` holds the pixels row by row.
pub struct GrayImage {
    pub width: u32,
    pub height: u32,
    pub data: Vec<u8>,
}

impl RgbImage {
    /// The buffer holds exactly `width * height` pixels of three channels.
    pub open spec fn wf(&self) -> bool {
        self.data@.len() == self.width * self.height * 3
    }

    /// Channel `c` of pixel `(x, y)`.
    pub open spec fn at(&self, x: int, y: int, c: int) -> u8 {
        self.data@[(y * self.width + x) * 3 + c]
    }

    /// Both images have the same size.
    pub open spec fn same_size(&self, other: &RgbImage) -> bool {
        self.width == other.width && self.height == other.height
    }

    /// A black image of the given size.
    pub fn new(width: u32, height: u32) -> (img: RgbImage)
        requires
            width * height * 3 <= usize::MAX,
        ensures
            img.wf(),
            img.width == width,
            img.height == height,
            forall|i: int| 0 <= i < img.data@.len() ==> img.data@[i] == 0,
    {
        let n: usize = (width as usize) * (height as usize) * 3;
        let data: Vec<u8> = vec![0u8; n];
        RgbImage { width, height, data }
    }

    /// Wraps a row-major buffer, provided that it holds exactly `width * height` RGB pixels.
    pub fn from_raw(width: u32, height: u32, data: Vec<u8>) -> (img: Option<RgbImage>)
        ensures
            img is Some <==> data@.len() == width * height * 3,
            img matches Some(i) ==> i.width == width && i.height == height && i.data@ == data@,
    {
        proof {
            lemma_mul_le(width as int, height as int, u32::MAX as int, u32::MAX as int);
        }
        let expected: u128 = (width as u128) * (height as u128) * 3;
        if data.len() as u128 != expected {
            return None;
        }
        Some(RgbImage { width, height, data })
    }

    /// The width and height.
    pub fn dimensions(&self) -> (d: (u32, u32))
        ensures
            d == (self.width, self.height),
    {
        (self.width, self.height)
    }

    /// Channel `c` of pixel `(x, y)`.
    pub fn get(&self, x: u32, y: u32, c: usize) -> (v: u8)
        requires
            self.wf(),
            x < self.width,
            y < self.height,
            c < 3,
        ensures
            v == self.at(x as int, y as int, c as int),
    {
        let len: usize = self.data.len();
        proof {
            assert((y * self.width + x) * 3 + c < self.width * self.height * 3) by (nonlinear_arith)
                requires x < self.width, y < self.height, c < 3;
        }
        self.data[((y as usize) * (self.width as usize) + (x as usize)) * 3 + c]
    }

    /// A copy of the image.
    pub fn copy(&self) -> (c: RgbImage)
        ensures
            c.width == self.width,
            c.height == self.height,
            c.data@ == self.data@,
    {
        RgbImage { width: self.width, height: self.height, data: self.data.clone() }
    }
}

impl GrayImage {
    /// The buffer holds exactly `width * height` pixels.
    pub open spec fn wf(&self) -> bool {
        self.data@.len() == self.width * self.height
    }

    /// Pixel `(x, y)`.
    pub open spec fn at(&self, x: int, y: int) -> u8 {
        self.data@[y * self.width + x]
    }

    /// Wraps a row-major buffer, provided that it holds exactly `width * height` pixels.
    pub fn from_raw(width: u32, height: u32, data: Vec<u8>) -> (img: Option<GrayImage>)
        ensures
            img is Some <==> data@.len() == width * height,
            img matches Some(i) ==> i.width == width && i.height == height && i.data@ == data@,
    {
        proof {
            lemma_mul_le(width as int, height as int, u32::MAX as int, u32::MAX as int);
        }
        let expected: u128 = (width as u128) * (height as u128);
        if data.len() as u128 != expected {
            return None;
        }
        Some(GrayImage { width, height, data })
    }
}

} // verus!
