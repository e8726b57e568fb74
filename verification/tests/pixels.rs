use ac_image_forensics::arith::{abs_diff_u8, blend255_u8, scale_sat_u8, sqrt_capped_255};
use ac_image_forensics::cfa_detector::CFADetectorPlugin;
use ac_image_forensics::classic::create_classic_plugin;
use ac_image_forensics::ela::{create_ela_plugin, ELA_GAIN};
use ac_image_forensics::errormap::{max_error_map, min_max, squared_error_map, sum_rect};
use ac_image_forensics::forensically_ela::{create_forensically_ela_plugin, ForensicallyELAPlugin};
use ac_image_forensics::gimp_forensics_ela::GimpForensicsElaPlugin;
use ac_image_forensics::gradient_forensics::{create_gradient_forensics_plugin, GradientForensicsPlugin};
use ac_image_forensics::mini_nand_jpeg::{red_error_map, MiniNandJpegPlugin};
use ac_image_forensics::noise_analysis::{blend_overlay, intensity_cdf, noise_view, pixel_intensity};
use ac_image_forensics::raster::{GrayImage, RgbImage};
use ac_image_forensics::sherloq_ela::{apply_lut, build_contrast_lut, SherloqElaPlugin};
use ac_image_forensics::texture_inconsistency::{create_texture_inconsistency_plugin, TextureInconsistencyPlugin};
use ac_image_forensics::views::gray_to_rgb;

fn rgb(width: u32, height: u32, data: Vec<u8>) -> RgbImage {
    RgbImage::from_raw(width, height, data).unwrap()
}

fn flat(width: u32, height: u32, v: [u8; 3]) -> RgbImage {
    let mut data = Vec::new();
    for _ in 0..(width * height) {
        data.extend_from_slice(&v);
    }
    rgb(width, height, data)
}

#[test]
fn byte_arithmetic_exact_values() {
    assert_eq!(abs_diff_u8(10, 250), 240);
    assert_eq!(abs_diff_u8(250, 10), 240);
    assert_eq!(blend255_u8(0, 255, 128), 128);
    assert_eq!(blend255_u8(200, 100, 0), 200);
    assert_eq!(blend255_u8(200, 100, 255), 100);
    assert_eq!(blend255_u8(10, 20, 242), 19);
    assert_eq!(scale_sat_u8(20, 8), 160);
    assert_eq!(scale_sat_u8(40, 8), 255);
    assert_eq!(scale_sat_u8(7, 0), 0);
}

#[test]
fn capped_square_root() {
    assert_eq!(sqrt_capped_255(0), 0);
    assert_eq!(sqrt_capped_255(99), 9);
    assert_eq!(sqrt_capped_255(100), 10);
    assert_eq!(sqrt_capped_255(65024), 254);
    assert_eq!(sqrt_capped_255(65025), 255);
    assert_eq!(sqrt_capped_255(1_000_000), 255);
}

#[test]
fn raw_buffers_must_match_the_size() {
    assert!(RgbImage::from_raw(2, 2, vec![0; 11]).is_none());
    assert!(RgbImage::from_raw(2, 2, vec![0; 12]).is_some());
    assert!(GrayImage::from_raw(3, 1, vec![0; 2]).is_none());
    let img = rgb(2, 1, vec![1, 2, 3, 4, 5, 6]);
    assert_eq!(img.dimensions(), (2, 1));
    assert_eq!(img.get(1, 0, 2), 6);
    let c = img.copy();
    assert_eq!(c.data, img.data);
    let black = RgbImage::new(3, 2);
    assert_eq!(black.data, vec![0u8; 18]);
}

#[test]
fn classic_view_is_the_image() {
    let img = rgb(2, 1, vec![9, 8, 7, 6, 5, 4]);
    let out = create_classic_plugin().process(&img).unwrap();
    assert_eq!(out.data, img.data);
    assert_eq!(out.dimensions(), (2, 1));
}

#[test]
fn ela_difference_and_amplification() {
    let p = create_ela_plugin();
    let a = rgb(1, 2, vec![10, 200, 30, 0, 255, 128]);
    let b = rgb(1, 2, vec![20, 190, 30, 255, 0, 100]);
    let d = p.compute_difference(&a, &b);
    assert_eq!(d.data, vec![10, 10, 0, 255, 255, 28]);
    let amp = p.amplify_image(&d, 10);
    assert_eq!(amp.data, vec![100, 100, 0, 255, 255, 255]);
    let out = p.process_recompressed(&a, &b);
    assert_eq!(ELA_GAIN, 8);
    assert_eq!(out.data, vec![80, 80, 0, 255, 255, 224]);
}

#[test]
fn forensically_overlay_exact() {
    let img = rgb(1, 1, vec![100, 50, 0]);
    let resaved = rgb(1, 1, vec![103, 50, 20]);
    let out = ForensicallyELAPlugin::overlay(&img, &resaved, 20, 242);
    // errors 60, 0, 255 (capped), blended at 242/255 over the original
    assert_eq!(out.data, vec![62, 3, 242]);
    let p = create_forensically_ela_plugin();
    assert_eq!((p.quality(), p.error_scale(), p.opacity()), (90, 20, 242));
}

#[test]
fn forensically_parameters_are_independent() {
    let mut p = ForensicallyELAPlugin::new();
    p.set_quality(50);
    p.set_error_scale(3);
    p.set_opacity(7);
    assert_eq!((p.quality(), p.error_scale(), p.opacity()), (50, 3, 7));
}

#[test]
fn sherloq_contrast_table_values() {
    let id = build_contrast_lut(0);
    for v in 0..256usize {
        assert_eq!(id[v] as usize, v);
    }
    let lut = build_contrast_lut(20);
    assert_eq!(lut.len(), 256);
    assert_eq!(lut[0], 0);
    assert_eq!(lut[20], 0);
    assert_eq!(lut[21], 1);
    assert_eq!(lut[100], 95);
    assert_eq!(lut[127], 127);
    assert_eq!(lut[235], 255);
    assert_eq!(lut[255], 255);
    let steep = build_contrast_lut(100);
    assert_eq!(steep[100], 0);
    assert_eq!(steep[101], 5);
    assert_eq!(steep[155], 255);
}

#[test]
fn sherloq_linear_view_and_lut() {
    let img = rgb(1, 1, vec![100, 100, 100]);
    let comp = rgb(1, 1, vec![98, 100, 0]);
    let lut = build_contrast_lut(0);
    let out = SherloqElaPlugin::linear_view(&img, &comp, 50, &lut);
    assert_eq!(out.data, vec![100, 0, 255]);
    let stretched = apply_lut(&img, &build_contrast_lut(20));
    assert_eq!(stretched.data, vec![95, 95, 95]);
}

#[test]
fn sherloq_parameters_clamp() {
    let mut p = SherloqElaPlugin::new();
    assert_eq!((p.quality(), p.scale(), p.contrast()), (75, 50, 20));
    assert!(!p.linear() && !p.grayscale());
    p.set_quality(500);
    p.set_scale(-3);
    p.set_contrast(250);
    p.set_linear(true);
    assert_eq!(p.effective_quality(), 100);
    assert_eq!(p.effective_scale(), 1);
    assert_eq!(p.effective_contrast(), 100);
    assert!(p.linear());
}

#[test]
fn gimp_ela_error_levels() {
    let img = rgb(2, 1, vec![10, 20, 30, 40, 50, 60]);
    let comp = rgb(2, 1, vec![12, 20, 25, 40, 50, 60]);
    let (levels, lo, hi) = GimpForensicsElaPlugin::error_levels(&img, &comp);
    assert_eq!(levels.data, vec![5, 0]);
    assert_eq!((lo, hi), (0, 5));
    let mut p = GimpForensicsElaPlugin::new();
    assert_eq!((p.quality(), p.gamma()), (75, 100));
    p.set_gamma(0);
    assert_eq!(p.gamma(), 1);
    p.set_quality(0);
    assert_eq!(p.effective_quality(), 1);
    p.set_gamma(9000);
    assert_eq!(p.effective_gamma(), 500);
}

#[test]
fn error_maps_exact() {
    let a = rgb(2, 1, vec![0, 0, 0, 10, 10, 10]);
    let b = rgb(2, 1, vec![3, 4, 0, 10, 10, 255]);
    assert_eq!(squared_error_map(&a, &b), vec![25, 245 * 245]);
    assert_eq!(max_error_map(&a, &b).data, vec![4, 245]);
    assert_eq!(red_error_map(&a, &b), vec![3, 0]);
    let g = GrayImage::from_raw(3, 1, vec![7, 2, 9]).unwrap();
    assert_eq!(min_max(&g), (2, 9));
    let s = vec![1u32, 2, 3, 4, 5, 6];
    assert_eq!(sum_rect(&s, 3, 2, 1, 0, 2, 2), 2 + 3 + 5 + 6);
}

#[test]
fn noise_view_and_blend_exact() {
    let orig = rgb(1, 1, vec![130, 100, 128]);
    let med = rgb(1, 1, vec![128, 110, 128]);
    let out = noise_view(&orig, &med, 20);
    assert_eq!(out.data, vec![168, 0, 128]);
    let over = rgb(1, 1, vec![255, 0, 100]);
    assert_eq!(blend_overlay(&orig, &over, 0).data, orig.data);
    assert_eq!(blend_overlay(&orig, &over, 255).data, over.data);
}

#[test]
fn intensity_histogram_cumulates() {
    let img = rgb(3, 1, vec![0, 0, 3, 10, 10, 10, 255, 255, 255]);
    assert_eq!(pixel_intensity(&img, 0), 1);
    let (cdf, first) = intensity_cdf(&img);
    assert_eq!(cdf[0], 0);
    assert_eq!(cdf[1], 1);
    assert_eq!(cdf[9], 1);
    assert_eq!(cdf[10], 2);
    assert_eq!(cdf[254], 2);
    assert_eq!(cdf[255], 3);
    assert_eq!(first, 1);
}

#[test]
fn gradient_of_a_vertical_edge() {
    // a 4 by 3 gray image, dark on the left half and white on the right half
    let g = GrayImage::from_raw(4, 3, vec![0, 0, 255, 255, 0, 0, 255, 255, 0, 0, 255, 255]).unwrap();
    let out = GradientForensicsPlugin::gradient_view(&g);
    // border pixels are black; interior pixels see a horizontal response of 4 * 255
    assert_eq!(&out.data[0..3], &[0, 0, 0]);
    let p = 4 + 1;
    assert_eq!(&out.data[3 * p..3 * p + 3], &[0, 255, 255]);
    let flat_img = flat(5, 5, [90, 90, 90]);
    let r = create_gradient_forensics_plugin().process(&flat_img).unwrap();
    assert!(r.data.iter().all(|&v| v == 0));
}

#[test]
fn texture_of_a_bright_dot() {
    let mut data = vec![0u8; 7 * 7];
    data[3 * 7 + 3] = 49;
    let g = GrayImage::from_raw(7, 7, data).unwrap();
    let out = TextureInconsistencyPlugin::texture_view(&g);
    // the centre is 48 above the mean of 1: twice that, capped at 255
    let q = 3 * 7 + 3;
    assert_eq!(&out.data[3 * q..3 * q + 3], &[96, 96, 96]);
    assert_eq!(&out.data[0..3], &[0, 0, 0]);
    let r = create_texture_inconsistency_plugin().process(&flat(9, 9, [40, 40, 40])).unwrap();
    assert!(r.data.iter().all(|&v| v == 0));
}

#[test]
fn gray_views_are_replicated() {
    let g = GrayImage::from_raw(2, 1, vec![5, 200]).unwrap();
    assert_eq!(gray_to_rgb(&g).data, vec![5, 5, 5, 200, 200, 200]);
}

#[test]
fn cfa_error_of_a_bump() {
    let mut img = flat(5, 5, [10, 10, 10]);
    let c = (2 * 5 + 2) * 3;
    img.data[c] = 20;
    let err = CFADetectorPlugin::error_map(&img);
    assert_eq!(err.len(), 25);
    assert_eq!(err[12], 40);
    assert_eq!(err[0], 0);
    assert_eq!(err[11], 0);
}

#[test]
fn mini_nand_blocks() {
    let err: Vec<u32> = (0..(9 * 2)).map(|i| if i % 9 == 8 { 100 } else { 1 }).collect();
    let (sums, counts) = MiniNandJpegPlugin::block_errors(&err, 9, 2);
    assert_eq!(sums, vec![16, 200]);
    assert_eq!(counts, vec![16, 2]);
    let out = MiniNandJpegPlugin::fill_blocks(9, 2, &vec![7, 200]);
    assert_eq!(&out.data[0..3], &[0, 7, 7]);
    assert_eq!(&out.data[3 * 8..3 * 9], &[0, 200, 200]);
    let mut p = MiniNandJpegPlugin::new();
    assert_eq!(p.quality(), 90);
    p.set_quality(0);
    assert_eq!(p.effective_quality(), 1);
}

#[test]
fn contrast_table_up_to_its_limit() {
    let half = build_contrast_lut(127);
    assert!(half[..128].iter().all(|&v| v == 0));
    assert!(half[128..].iter().all(|&v| v == 255));
    let lut = build_contrast_lut(110);
    assert_eq!(lut[110], 0);
    assert_eq!(lut[111], 7);
    assert_eq!(lut[145], 255);
    for c in [0, 20, 101, 126, 127] {
        let l = build_contrast_lut(c);
        for v in 0..256usize {
            assert_eq!(l[255 - v], 255 - l[v]);
        }
    }
}

#[test]
fn ela_difference_against_a_larger_image() {
    let p = create_ela_plugin();
    let small = rgb(1, 1, vec![10, 200, 0]);
    let big = rgb(2, 2, vec![30, 100, 0, 1, 1, 1, 2, 2, 2, 3, 3, 3]);
    assert_eq!(p.compute_difference(&small, &big).data, vec![20, 100, 0]);
    let two = rgb(2, 1, vec![0, 0, 0, 9, 9, 9]);
    let wide = rgb(3, 2, vec![1, 1, 1, 2, 2, 2, 50, 50, 50, 7, 7, 7, 7, 7, 7, 7, 7, 7]);
    assert_eq!(p.compute_difference(&two, &wide).data, vec![1, 1, 1, 7, 7, 7]);
}
