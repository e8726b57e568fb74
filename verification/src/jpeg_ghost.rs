//! JPEG Ghost: the image re-compressed at qualities 50 to 90 by 10; the per-pixel squared error
//! of each quality, block-averaged, is laid out as a grid of gray tiles.
use vstd::prelude::*;
use crate::codec::jpeg_encoder_rgb_output;
use crate::errormap::{bounded_errors, pixel_sq_error};
use crate::raster::RgbImage;
use crate::sherloq_ghost::{quality_steps, SherloqGhostPlugin};

verus! {

/// JPEG Ghost over a fixed sweep of qualities.
pub struct JPEGGhostPlugin;

impl JPEGGhostPlugin {
    /// The qualities of the sweep: 50, 60, 70, 80 and 90.
    pub fn qualities(&self) -> (qs: Vec<u8>)
        ensures
            qs@ == quality_steps(50, 90, 10),
    {
        let qs: Vec<u8> = vec![50u8, 60u8, 70u8, 80u8, 90u8];
        proof {
            assert(qs@ =~= quality_steps(50, 90, 10));
        }
        qs
    }

    /// For each quality of the sweep, the squared-error map of `img` against its re-compression;
    /// `None` where any re-compression fails.
    pub fn error_maps(&self, img: &RgbImage) -> (r: Option<Vec<Vec<u32>>>)
        requires
            img.wf(),
        ensures
            (exists|i: int|
                0 <= i < 5 && jpeg_encoder_rgb_output(
                    img.data@,
                    img.width as u16,
                    img.height as u16,
                    #[trigger] quality_steps(50, 90, 10)[i],
                ) is None) ==> r is None,
            r matches Some(maps) ==> maps@.len() == 5 && forall|i: int|
                0 <= i < maps@.len() ==> (#[trigger] maps@[i])@.len() == img.width * img.height
                    && bounded_errors(maps@[i]@) && exists|c: RgbImage|
                    c.wf() && c.same_size(img) && forall|p: int|
                        0 <= p < maps@[i]@.len() ==> maps@[i]@[p] == pixel_sq_error(img.data@, c.data@, p),
    {
        let qs = self.qualities();
        SherloqGhostPlugin::error_maps(img, &qs)
    }

    /// The analysis name shown to users.
    pub fn name(&self) -> (s: &'static str)
        ensures
            s@ == "JPEG Ghost"@,
    {
        "JPEG Ghost"
    }

    /// What the analysis shows.
    pub fn description(&self) -> (s: &'static str)
        ensures
            s@ == "Detects JPEG ghost artifacts by re-saving the image at multiple quality levels and identifying regions that appear darker at a specific quality setting. The algorithm iterates through a grid of JPEG quality values, re-compresses the image at each level, and computes the difference from the original. When the re-compression quality matches the original save quality of a particular region, that region will exhibit minimal error (a ghost). This technique is highly effective at identifying spliced regions that originate from JPEG images saved at a different quality than the surrounding area. Darker regions in the output correspond to JPEG ghosts that reveal the original compression quality of tampered areas. The multi-quality grid approach ensures that ghosts at any quality level are detected."@,
    {
        "Detects JPEG ghost artifacts by re-saving the image at multiple quality levels and identifying regions that appear darker at a specific quality setting. The algorithm iterates through a grid of JPEG quality values, re-compresses the image at each level, and computes the difference from the original. When the re-compression quality matches the original save quality of a particular region, that region will exhibit minimal error (a ghost). This technique is highly effective at identifying spliced regions that originate from JPEG images saved at a different quality than the surrounding area. Darker regions in the output correspond to JPEG ghosts that reveal the original compression quality of tampered areas. The multi-quality grid approach ensures that ghosts at any quality level are detected."
    }

    /// No bibliographic reference.
    pub fn reference(&self) -> (s: &'static str)
        ensures
            s@ == ""@,
    {
        ""
    }
}

/// The constructor that the plugin host calls.
pub fn create_jpeg_ghost_plugin() -> (p: JPEGGhostPlugin) {
    JPEGGhostPlugin
}

} // verus!
