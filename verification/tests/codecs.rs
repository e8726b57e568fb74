use ac_image_forensics::ela::ELAPlugin;
use ac_image_forensics::forensically_ela::ForensicallyELAPlugin;
use ac_image_forensics::gimp_forensics_ela::GimpForensicsElaPlugin;
use ac_image_forensics::gimp_forensics_ghost::GimpForensicsGhostPlugin;
use ac_image_forensics::gradient_forensics::GradientForensicsPlugin;
use ac_image_forensics::jpeg_ghost::JPEGGhostPlugin;
use ac_image_forensics::jpeg_ghost_alt::JPEGGhostAltPlugin;
use ac_image_forensics::mini_nand_jpeg::MiniNandJpegPlugin;
use ac_image_forensics::noise_analysis::NoiseAnalysisPlugin;
use ac_image_forensics::raster::RgbImage;
use ac_image_forensics::recompress::recompress;
use ac_image_forensics::sherloq_ela::SherloqElaPlugin;
use ac_image_forensics::sherloq_ghost::SherloqGhostPlugin;
use ac_image_forensics::views::luminance;

fn textured(width: u32, height: u32) -> RgbImage {
    let mut data = Vec::new();
    for y in 0..height {
        for x in 0..width {
            let v = ((x * 37 + y * 91 + (x * y) % 13 * 17) % 256) as u8;
            data.push(v);
            data.push(255 - v);
            data.push(((x * 8) % 256) as u8);
        }
    }
    RgbImage::from_raw(width, height, data).unwrap()
}

#[test]
fn recompression_keeps_the_size_and_loses_detail() {
    let img = textured(24, 16);
    let out = recompress(&img, 10).unwrap();
    assert_eq!(out.dimensions(), (24, 16));
    assert_eq!(out.data.len(), img.data.len());
    assert_ne!(out.data, img.data);
}

#[test]
fn recompression_of_an_empty_image_fails() {
    let img = RgbImage::from_raw(0, 5, vec![]).unwrap();
    assert!(recompress(&img, 90).is_none());
}

#[test]
fn forensically_process_runs_the_image_encoder() {
    let img = textured(16, 16);
    let p = ForensicallyELAPlugin::new();
    let out = p.process(&img).unwrap();
    assert_eq!(out.dimensions(), (16, 16));
    let empty = RgbImage::from_raw(0, 0, vec![]).unwrap();
    assert!(p.process(&empty).is_none());
}

#[test]
fn image_encoder_resave_differs_from_input() {
    let img = textured(16, 16);
    let mut p = MiniNandJpegPlugin::new();
    p.set_quality(5);
    let resaved = p.resaved(&img).unwrap();
    assert_eq!(resaved.dimensions(), (16, 16));
    assert_ne!(resaved.data, img.data);
}

#[test]
fn recompressed_copies_for_ela_variants() {
    let img = textured(20, 12);
    let g = GimpForensicsElaPlugin::new().recompressed(&img).unwrap();
    assert_eq!(g.dimensions(), (20, 12));
    let s = SherloqElaPlugin::new().recompressed(&img).unwrap();
    assert_eq!(s.dimensions(), (20, 12));
    let h = GimpForensicsGhostPlugin::new().recompressed(&img).unwrap();
    assert_eq!(h.dimensions(), (20, 12));
}

#[test]
fn ghost_error_maps() {
    let img = textured(16, 8);
    let maps = JPEGGhostPlugin.error_maps(&img).unwrap();
    assert_eq!(maps.len(), 5);
    assert!(maps.iter().all(|m| m.len() == 16 * 8));
    assert!(maps.iter().any(|m| m.iter().any(|&e| e > 0)));
    let alt = JPEGGhostAltPlugin.squared_errors(&img).unwrap();
    assert_eq!(alt.len(), 16 * 8);
    let sg = SherloqGhostPlugin::new();
    let rolled = sg.rolled(&img);
    let qs = sg.qualities();
    let smaps = SherloqGhostPlugin::error_maps(&rolled, &qs).unwrap();
    assert_eq!(smaps.len(), 9);
}

#[test]
fn median_filter_removes_an_isolated_dot() {
    let mut data = vec![50u8; 5 * 5 * 3];
    let c = (2 * 5 + 2) * 3;
    data[c] = 250;
    let img = RgbImage::from_raw(5, 5, data).unwrap();
    let p = NoiseAnalysisPlugin::new();
    let layer = p.noise_layer(&img);
    // amplitude 0 means a gain of 1: the dot stands 200 above its median of 50
    assert_eq!(layer.data[c], 255);
    assert_eq!(layer.data[c + 1], 128);
    assert_eq!(layer.data[0], 128);
}

#[test]
fn luminance_weights_the_channels() {
    let img = RgbImage::from_raw(1, 1, vec![255, 0, 0]).unwrap();
    let g = luminance(&img);
    assert_eq!((g.width, g.height), (1, 1));
    assert!(g.data[0] > 0 && g.data[0] < 128);
    let green = RgbImage::from_raw(1, 1, vec![0, 255, 0]).unwrap();
    assert!(luminance(&green).data[0] > g.data[0]);
}

#[test]
fn gradient_analysis_of_an_image() {
    let img = textured(8, 8);
    let out = GradientForensicsPlugin.analyze_gradients(&img);
    assert_eq!(out.dimensions(), (8, 8));
    assert!(out.data.chunks(3).all(|p| p[0] == 0));
}

#[test]
fn ela_resaves_and_amplifies() {
    let img = textured(16, 16);
    let out = ELAPlugin.process(&img).unwrap();
    assert_eq!(out.dimensions(), (16, 16));
    assert!(out.data.iter().any(|&v| v > 0));
    assert!(ELAPlugin.process(&RgbImage::from_raw(0, 3, vec![]).unwrap()).is_none());
}

#[test]
fn ghost_error_maps_of_no_quality() {
    let img = textured(16, 8);
    let maps = SherloqGhostPlugin::error_maps(&img, &vec![]).unwrap();
    assert!(maps.is_empty());
}
