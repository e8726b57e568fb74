//! Error Level Analysis after GIMP-Forensics: the per-pixel largest channel error, stretched over
//! its range with a gamma curve.
use vstd::prelude::*;
use crate::arith::clamp;
use crate::errormap::{max_error_map, min_max, pixel_max_error};
use crate::codec::jpeg_encoder_rgb_output;
use crate::raster::{GrayImage, RgbImage};
use crate::recompress::recompress;

verus! {

/// Error Level Analysis after GIMP-Forensics.
pub struct GimpForensicsElaPlugin {
    quality: i32,
    gamma: u32,
}

impl GimpForensicsElaPlugin {
    /// The stored JPEG quality (clamped to `1..=100` when used).
    pub closed spec fn quality_spec(&self) -> i32 {
        self.quality
    }

    /// The stored gamma, in hundredths (clamped to `1..=500` when used).
    pub closed spec fn gamma_spec(&self) -> u32 {
        self.gamma
    }

    /// Quality 75, gamma 1.00.
    pub fn new() -> (p: Self)
        ensures
            p.quality_spec() == 75,
            p.gamma_spec() == 100,
    {
        GimpForensicsElaPlugin { quality: 75, gamma: 100 }
    }

    /// The stored JPEG quality.
    pub fn quality(&self) -> (q: i32)
        ensures
            q == self.quality_spec(),
    {
        self.quality
    }

    /// The stored gamma, in hundredths.
    pub fn gamma(&self) -> (g: u32)
        ensures
            g == self.gamma_spec(),
    {
        self.gamma
    }

    /// Stores the JPEG quality; the gamma stays.
    pub fn set_quality(&mut self, q: i32)
        ensures
            final(self).quality_spec() == q,
            final(self).gamma_spec() == old(self).gamma_spec(),
    {
        self.quality = q;
    }

    /// Stores the gamma in hundredths, raised to 1 where it is 0; the quality stays.
    pub fn set_gamma(&mut self, g: u32)
        ensures
            final(self).gamma_spec() == (if g == 0 { 1 } else { g }),
            final(self).quality_spec() == old(self).quality_spec(),
    {
        self.gamma = if g == 0 { 1 } else { g };
    }

    /// The JPEG quality used: the stored one clamped to `1..=100`.
    pub fn effective_quality(&self) -> (q: u8)
        ensures
            q == clamp(self.quality_spec() as int, 1, 100),
    {
        if self.quality < 1 { 1 } else if self.quality > 100 { 100 } else { self.quality as u8 }
    }

    /// The gamma used, in hundredths: the stored one clamped to `1..=500`.
    pub fn effective_gamma(&self) -> (g: u32)
        ensures
            g == clamp(self.gamma_spec() as int, 1, 500),
    {
        if self.gamma < 1 { 1 } else if self.gamma > 500 { 500 } else { self.gamma }
    }

    /// The image re-compressed at the quality used, or `None` where that fails.
    pub fn recompressed(&self, img: &RgbImage) -> (r: Option<RgbImage>)
        requires
            img.wf(),
        ensures
            jpeg_encoder_rgb_output(
                img.data@,
                img.width as u16,
                img.height as u16,
                clamp(self.quality_spec() as int, 1, 100) as u8,
            ) is None ==> r is None,
            r matches Some(c) ==> c.wf() && c.same_size(img),
    {
        recompress(img, self.effective_quality())
    }

    /// The per-pixel largest channel error of `img` against `compressed`, with its smallest and
    /// largest value over the (non-empty) image.
    pub fn error_levels(img: &RgbImage, compressed: &RgbImage) -> (r: (GrayImage, u8, u8))
        requires
            img.wf(),
            compressed.wf(),
            img.same_size(compressed),
            img.width * img.height > 0,
        ensures
            r.0.wf(),
            r.0.width == img.width,
            r.0.height == img.height,
            forall|p: int|
                0 <= p < r.0.data@.len() ==> r.0.data@[p] == pixel_max_error(img.data@, compressed.data@, p),
            forall|p: int| 0 <= p < r.0.data@.len() ==> r.1 <= #[trigger] r.0.data@[p] <= r.2,
            exists|p: int| 0 <= p < r.0.data@.len() && r.0.data@[p] == r.1,
            exists|p: int| 0 <= p < r.0.data@.len() && r.0.data@[p] == r.2,
    {
        let levels = max_error_map(img, compressed);
        let (lo, hi) = min_max(&levels);
        (levels, lo, hi)
    }

    /// The analysis name shown to users.
    pub fn name(&self) -> (s: &'static str)
        ensures
            s@ == "GIMP Forensics ELA"@,
    {
        "GIMP Forensics ELA"
    }

    /// What the analysis shows.
    pub fn description(&self) -> (s: &'static str)
        ensures
            s@ == "Error Level Analysis implementation based on GIMP-Forensics (sourceforge.net/projects/gimp-forensics/) by Bernardo Bulgarelli Labronici. The image is re-saved at a lower JPEG quality and the absolute difference between original and re-compressed versions is computed via per-pixel channel-wise subtraction. The plugin then applies GIMP-style histogram stretching: it scans all pixels to find the global minimum and maximum error values (using per-pixel max across RGB channels), then maps the [min, max] range to full [0, 255] with a gamma correction curve. The gamma parameter controls the mid-tone distribution: gamma < 1 brightens mid-tones, gamma > 1 darkens them. Brighter regions in the output indicate higher error levels that may correspond to tampered areas with a different JPEG compression history."@,
    {
        "Error Level Analysis implementation based on GIMP-Forensics (sourceforge.net/projects/gimp-forensics/) by Bernardo Bulgarelli Labronici. The image is re-saved at a lower JPEG quality and the absolute difference between original and re-compressed versions is computed via per-pixel channel-wise subtraction. The plugin then applies GIMP-style histogram stretching: it scans all pixels to find the global minimum and maximum error values (using per-pixel max across RGB channels), then maps the [min, max] range to full [0, 255] with a gamma correction curve. The gamma parameter controls the mid-tone distribution: gamma < 1 brightens mid-tones, gamma > 1 darkens them. Brighter regions in the output indicate higher error levels that may correspond to tampered areas with a different JPEG compression history."
    }

    /// Where the method comes from.
    pub fn reference(&self) -> (s: &'static str)
        ensures
            s@ == "https://sourceforge.net/projects/gimp-forensics/"@,
    {
        "https://sourceforge.net/projects/gimp-forensics/"
    }
}

/// The constructor that the plugin host calls.
pub fn create_gimp_forensics_ela_plugin() -> (p: GimpForensicsElaPlugin)
    ensures
        p.quality_spec() == 75,
        p.gamma_spec() == 100,
{
    GimpForensicsElaPlugin::new()
}

} // verus!
