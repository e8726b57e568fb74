//! Error Level Analysis after Forensically: the scaled error blended over the original.
use vstd::prelude::*;
use crate::arith::{abs_diff, abs_diff_u8, blend255, blend255_u8, min, scale_sat_u8};
use crate::codec::image_jpeg_output;
use crate::raster::RgbImage;
use crate::recompress::resave;

verus! {

/// One output channel: the error `|orig - resaved|` times `scale` (saturating at 255), blended
/// over `orig` at opacity `opacity / 255`, rounded to the nearest integer.
pub open spec fn overlay_channel(orig: u8, resaved: u8, scale: u8, opacity: u8) -> int {
    blend255(orig as int, min(abs_diff(orig as int, resaved as int) * scale, 255), opacity as int)
}

/// Error Level Analysis that re-encodes at a chosen JPEG quality and blends the scaled error
/// over the original.
pub struct ForensicallyELAPlugin {
    quality: u8,
    error_scale: u8,
    opacity: u8,
}

impl ForensicallyELAPlugin {
    /// The JPEG quality used for re-encoding.
    pub closed spec fn quality_spec(&self) -> u8 {
        self.quality
    }

    /// The factor applied to the error.
    pub closed spec fn error_scale_spec(&self) -> u8 {
        self.error_scale
    }

    /// The opacity of the error layer, in 255ths.
    pub closed spec fn opacity_spec(&self) -> u8 {
        self.opacity
    }

    /// Quality 90, error scale 20, opacity 242/255 (0.95).
    pub fn new() -> (p: Self)
        ensures
            p.quality_spec() == 90,
            p.error_scale_spec() == 20,
            p.opacity_spec() == 242,
    {
        ForensicallyELAPlugin { quality: 90, error_scale: 20, opacity: 242 }
    }

    /// The JPEG quality used for re-encoding.
    pub fn quality(&self) -> (q: u8)
        ensures
            q == self.quality_spec(),
    {
        self.quality
    }

    /// The factor applied to the error.
    pub fn error_scale(&self) -> (s: u8)
        ensures
            s == self.error_scale_spec(),
    {
        self.error_scale
    }

    /// The opacity of the error layer, in 255ths.
    pub fn opacity(&self) -> (o: u8)
        ensures
            o == self.opacity_spec(),
    {
        self.opacity
    }

    /// Sets the JPEG quality; the other settings stay.
    pub fn set_quality(&mut self, q: u8)
        ensures
            final(self).quality_spec() == q,
            final(self).error_scale_spec() == old(self).error_scale_spec(),
            final(self).opacity_spec() == old(self).opacity_spec(),
    {
        self.quality = q;
    }

    /// Sets the error scale; the other settings stay.
    pub fn set_error_scale(&mut self, s: u8)
        ensures
            final(self).error_scale_spec() == s,
            final(self).quality_spec() == old(self).quality_spec(),
            final(self).opacity_spec() == old(self).opacity_spec(),
    {
        self.error_scale = s;
    }

    /// Sets the opacity, in 255ths; the other settings stay.
    pub fn set_opacity(&mut self, o: u8)
        ensures
            final(self).opacity_spec() == o,
            final(self).quality_spec() == old(self).quality_spec(),
            final(self).error_scale_spec() == old(self).error_scale_spec(),
    {
        self.opacity = o;
    }

    /// The blended error view of `img` against `resaved`, its re-encoded version.
    pub fn overlay(img: &RgbImage, resaved: &RgbImage, scale: u8, opacity: u8) -> (out: RgbImage)
        requires
            img.wf(),
            resaved.wf(),
            img.same_size(resaved),
        ensures
            out.wf(),
            out.same_size(img),
            forall|i: int|
                0 <= i < out.data@.len() ==> out.data@[i] == overlay_channel(
                    img.data@[i],
                    resaved.data@[i],
                    scale,
                    opacity,
                ),
    {
        let n: usize = img.data.len();
        let mut data: Vec<u8> = Vec::with_capacity(n);
        let mut i: usize = 0;
        while i < n
            invariant
                n == img.data@.len(),
                n == resaved.data@.len(),
                i <= n,
                data@.len() == i,
                forall|j: int|
                    0 <= j < i ==> data@[j] == overlay_channel(
                        img.data@[j],
                        resaved.data@[j],
                        scale,
                        opacity,
                    ),
            decreases n - i,
        {
            let o: u8 = img.data[i];
            let diff: u8 = abs_diff_u8(o, resaved.data[i]);
            let scaled: u8 = scale_sat_u8(diff, scale as u32);
            data.push(blend255_u8(o, scaled, opacity));
            i += 1;
        }
        RgbImage { width: img.width, height: img.height, data }
    }

    /// Re-encodes `img` as JPEG at the configured quality, decodes it, and returns the blended
    /// error view against the decoded image. `None` where encoding or decoding fails or the
    /// decoded image has another size.
    pub fn process(&self, img: &RgbImage) -> (r: Option<RgbImage>)
        requires
            img.wf(),
        ensures
            image_jpeg_output(img.data@, img.width, img.height, self.quality_spec()) is None
                ==> r is None,
            r matches Some(out) ==> exists|resaved: RgbImage|
                resaved.wf() && #[trigger] resaved.same_size(img) && out.wf() && out.same_size(img)
                    && forall|i: int|
                    0 <= i < out.data@.len() ==> out.data@[i] == overlay_channel(
                        img.data@[i],
                        resaved.data@[i],
                        self.error_scale_spec(),
                        self.opacity_spec(),
                    ),
    {
        let resaved = match resave(img, self.quality) {
            Some(r) => r,
            None => return None,
        };
        let out = Self::overlay(img, &resaved, self.error_scale, self.opacity);
        assert(resaved.same_size(img));
        Some(out)
    }

    /// The analysis name shown to users.
    pub fn name(&self) -> (s: &'static str)
        ensures
            s@ == "forensicallyELA"@,
    {
        "forensicallyELA"
    }

    /// What the analysis shows.
    pub fn description(&self) -> (s: &'static str)
        ensures
            s@ == "Error Level Analysis (Forensically) : JPEG Quality (0–100), Error Scale (0–100), Opacity (0–1)."@,
    {
        "Error Level Analysis (Forensically) : JPEG Quality (0–100), Error Scale (0–100), Opacity (0–1)."
    }

    /// Where the method is described.
    pub fn reference(&self) -> (s: &'static str)
        ensures
            s@ == "https://29a.ch/photo-forensics/#error-level-analysis"@,
    {
        "https://29a.ch/photo-forensics/#error-level-analysis"
    }
}

/// The constructor that the plugin host calls.
pub fn create_forensically_ela_plugin() -> (p: ForensicallyELAPlugin)
    ensures
        p.quality_spec() == 90,
        p.error_scale_spec() == 20,
        p.opacity_spec() == 242,
{
    ForensicallyELAPlugin::new()
}

} // verus!
