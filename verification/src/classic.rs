//! The pass-through view: the original image, unchanged.
use vstd::prelude::*;
use crate::raster::RgbImage;

verus! {

/// A pass-through analysis that returns the original image unchanged.
pub struct ClassicPlugin;

impl ClassicPlugin {
    /// The analysis name shown to users.
    pub fn name(&self) -> (s: &'static str)
        ensures
            s@ == "Classic"@,
    {
        "Classic"
    }

    /// What the analysis shows.
    pub fn description(&self) -> (s: &'static str)
        ensures
            s@ == "Displays the original unmodified image as a baseline reference. This plugin performs no processing and simply passes through the input image unchanged. It is useful for comparing the output of other forensic filters against the original. Use this plugin to verify that your image was loaded correctly and to serve as a control when evaluating other analysis results."@,
    {
        "Displays the original unmodified image as a baseline reference. This plugin performs no processing and simply passes through the input image unchanged. It is useful for comparing the output of other forensic filters against the original. Use this plugin to verify that your image was loaded correctly and to serve as a control when evaluating other analysis results."
    }

    /// No bibliographic reference.
    pub fn reference(&self) -> (s: &'static str)
        ensures
            s@ == ""@,
    {
        ""
    }

    /// A copy of the input, pixel for pixel.
    pub fn process(&self, img: &RgbImage) -> (r: Option<RgbImage>)
        ensures
            r matches Some(out) && out.width == img.width && out.height == img.height
                && out.data@ == img.data@,
    {
        Some(img.copy())
    }
}

/// The constructor that the plugin host calls.
pub fn create_classic_plugin() -> (p: ClassicPlugin) {
    ClassicPlugin
}

} // verus!
