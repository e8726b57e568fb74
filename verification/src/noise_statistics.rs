//! The analyses whose views are local statistics in floating point: noise kurtosis, noise
//! variance, sensor noise and zero-shot anomaly. The library gives their names, descriptions and
//! references; the statistics themselves are computed by the viewer in floating point.
use vstd::prelude::*;

verus! {

/// Regions whose noise deviates from a Gaussian model (local kurtosis of the blur residual).
pub struct NoiseKurtosisPlugin;

impl NoiseKurtosisPlugin {
    /// The analysis name shown to users.
    pub fn name(&self) -> (s: &'static str)
        ensures
            s@ == "Noise Kurtosis"@,
    {
        "Noise Kurtosis"
    }

    /// What the analysis shows.
    pub fn description(&self) -> (s: &'static str)
        ensures
            s@ == "Detects image regions where the noise distribution deviates from a Gaussian model. The algorithm computes the kurtosis of noise residuals in local windows after applying a Gaussian blur subtraction. Natural images captured by digital cameras typically exhibit Gaussian noise, so regions with abnormal kurtosis values may indicate tampering. Bright areas in the output highlight regions where the noise is non-Gaussian, suggesting potential splicing or generative editing."@,
    {
        "Detects image regions where the noise distribution deviates from a Gaussian model. The algorithm computes the kurtosis of noise residuals in local windows after applying a Gaussian blur subtraction. Natural images captured by digital cameras typically exhibit Gaussian noise, so regions with abnormal kurtosis values may indicate tampering. Bright areas in the output highlight regions where the noise is non-Gaussian, suggesting potential splicing or generative editing."
    }

    /// No bibliographic reference.
    pub fn reference(&self) -> (s: &'static str)
        ensures
            s@ == ""@,
    {
        ""
    }
}

/// The constructor that the plugin host calls.
pub fn create_noise_kurtosis_plugin() -> (p: NoiseKurtosisPlugin) {
    NoiseKurtosisPlugin
}

/// Noise inconsistency through the local variance of the blur residual.
pub struct NoiseVariancePlugin;

impl NoiseVariancePlugin {
    /// The analysis name shown to users.
    pub fn name(&self) -> (s: &'static str)
        ensures
            s@ == "Noise Variance"@,
    {
        "Noise Variance"
    }

    /// What the analysis shows.
    pub fn description(&self) -> (s: &'static str)
        ensures
            s@ == "Detects noise inconsistency across the image by analyzing local variance of the noise residual. The algorithm subtracts a Gaussian-blurred version of the image to isolate high-frequency noise, then computes the variance in sliding windows. A consistent noise variance across the image suggests an authentic capture, while regions with significantly different variance may indicate compositing or local editing. Brighter areas in the output correspond to higher local noise variance, revealing potential tampered regions."@,
    {
        "Detects noise inconsistency across the image by analyzing local variance of the noise residual. The algorithm subtracts a Gaussian-blurred version of the image to isolate high-frequency noise, then computes the variance in sliding windows. A consistent noise variance across the image suggests an authentic capture, while regions with significantly different variance may indicate compositing or local editing. Brighter areas in the output correspond to higher local noise variance, revealing potential tampered regions."
    }

    /// No bibliographic reference.
    pub fn reference(&self) -> (s: &'static str)
        ensures
            s@ == ""@,
    {
        ""
    }
}

/// The constructor that the plugin host calls.
pub fn create_noise_variance_plugin() -> (p: NoiseVariancePlugin) {
    NoiseVariancePlugin
}

/// Sensor noise pattern inconsistencies through a high-pass residual.
pub struct SensorNoisePlugin;

impl SensorNoisePlugin {
    /// The analysis name shown to users.
    pub fn name(&self) -> (s: &'static str)
        ensures
            s@ == "Sensor Noise"@,
    {
        "Sensor Noise"
    }

    /// What the analysis shows.
    pub fn description(&self) -> (s: &'static str)
        ensures
            s@ == "Detects sensor noise pattern inconsistencies across the image using a high-pass filter approach, parallelized with Rayon for performance. Every digital camera sensor leaves a unique fixed-pattern noise on captured images, and tampered regions from different sources will exhibit a different noise signature. The algorithm extracts the high-frequency noise residual and analyzes its local correlation with the expected sensor noise pattern. Regions where the sensor noise pattern deviates from the rest of the image are highlighted as potential forgeries. Brighter areas indicate stronger noise pattern inconsistency, suggesting compositing or local editing."@,
    {
        "Detects sensor noise pattern inconsistencies across the image using a high-pass filter approach, parallelized with Rayon for performance. Every digital camera sensor leaves a unique fixed-pattern noise on captured images, and tampered regions from different sources will exhibit a different noise signature. The algorithm extracts the high-frequency noise residual and analyzes its local correlation with the expected sensor noise pattern. Regions where the sensor noise pattern deviates from the rest of the image are highlighted as potential forgeries. Brighter areas indicate stronger noise pattern inconsistency, suggesting compositing or local editing."
    }

    /// No bibliographic reference.
    pub fn reference(&self) -> (s: &'static str)
        ensures
            s@ == ""@,
    {
        ""
    }
}

/// The constructor that the plugin host calls.
pub fn create_sensor_noise_plugin() -> (p: SensorNoisePlugin) {
    SensorNoisePlugin
}

/// Zero-shot anomaly detection: local against global statistics.
pub struct ZeroShotAnomalyPlugin;

impl ZeroShotAnomalyPlugin {
    /// The analysis name shown to users.
    pub fn name(&self) -> (s: &'static str)
        ensures
            s@ == "ZERO Anomaly Detector"@,
    {
        "ZERO Anomaly Detector"
    }

    /// What the analysis shows.
    pub fn description(&self) -> (s: &'static str)
        ensures
            s@ == "Zero-shot anomaly detection based on local semantic distribution inconsistency. The algorithm learns global statistics (mean and standard deviation) from the entire image, then projects 9x9 patches through a ZSL-style distance metric to measure how each patch deviates from the global distribution. Patches that significantly differ from the global statistics are flagged as anomalies, without requiring any training data or prior knowledge of tampering types. This method can detect a wide range of manipulations including splicing, inpainting, and generative content. Higher intensity values in the output indicate greater statistical deviation and higher likelihood of tampering."@,
    {
        "Zero-shot anomaly detection based on local semantic distribution inconsistency. The algorithm learns global statistics (mean and standard deviation) from the entire image, then projects 9x9 patches through a ZSL-style distance metric to measure how each patch deviates from the global distribution. Patches that significantly differ from the global statistics are flagged as anomalies, without requiring any training data or prior knowledge of tampering types. This method can detect a wide range of manipulations including splicing, inpainting, and generative content. Higher intensity values in the output indicate greater statistical deviation and higher likelihood of tampering."
    }

    /// Where the method is described.
    pub fn reference(&self) -> (s: &'static str)
        ensures
            s@ == "https://ipol.im/pub/art/2021/390/"@,
    {
        "https://ipol.im/pub/art/2021/390/"
    }
}

/// The constructor that the plugin host calls.
pub fn create_zero_shot_plugin() -> (p: ZeroShotAnomalyPlugin) {
    ZeroShotAnomalyPlugin
}

} // verus!
