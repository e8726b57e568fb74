use ac_image_forensics::arith::blend255_u8;
use ac_image_forensics::ela::ELAPlugin;
use ac_image_forensics::forensically_ela::ForensicallyELAPlugin;
use ac_image_forensics::noise_analysis::{intensity_cdf, NoiseAnalysisPlugin};
use ac_image_forensics::noisesniffer::bin_range;
use ac_image_forensics::penet_srm_selector::srm_filter;
use ac_image_forensics::raster::RgbImage;
use ac_image_forensics::report::escape_html;
use ac_image_forensics::sherloq_ela::build_contrast_lut;
use ac_image_forensics::sherloq_ghost::roll_image;

fn sample() -> RgbImage {
    let data: Vec<u8> = (0..(4 * 3 * 3)).map(|i| ((i * 53 + 7) % 256) as u8).collect();
    RgbImage::from_raw(4, 3, data).unwrap()
}

fn other() -> RgbImage {
    let data: Vec<u8> = (0..(4 * 3 * 3)).map(|i| ((i * 29 + 200) % 256) as u8).collect();
    RgbImage::from_raw(4, 3, data).unwrap()
}

#[test]
fn law_error_levels_of_an_unchanged_image_are_black() {
    let img = sample();
    let out = ELAPlugin.process_recompressed(&img, &img);
    assert!(out.data.iter().all(|&v| v == 0));
}

#[test]
fn law_difference_is_symmetric() {
    let (a, b) = (sample(), other());
    assert_eq!(ELAPlugin.compute_difference(&a, &b).data, ELAPlugin.compute_difference(&b, &a).data);
}

#[test]
fn law_blend_extremes() {
    for a in [0u8, 1, 77, 254, 255] {
        for b in [0u8, 128, 255] {
            assert_eq!(blend255_u8(a, b, 0), a);
            assert_eq!(blend255_u8(a, b, 255), b);
        }
        for t in [0u8, 3, 128, 242, 255] {
            assert_eq!(blend255_u8(a, a, t), a);
        }
    }
}

#[test]
fn law_overlay_opacity_extremes() {
    let (img, resaved) = (sample(), other());
    let clear = ForensicallyELAPlugin::overlay(&img, &resaved, 20, 0);
    assert_eq!(clear.data, img.data);
    let full = ForensicallyELAPlugin::overlay(&img, &resaved, 4, 255);
    let expected: Vec<u8> = img
        .data
        .iter()
        .zip(resaved.data.iter())
        .map(|(&a, &b)| ((a as i32 - b as i32).abs() * 4).min(255) as u8)
        .collect();
    assert_eq!(full.data, expected);
}

#[test]
fn law_rolls_compose() {
    let img = sample();
    let twice = roll_image(&roll_image(&img, 1, 2), 2, 2);
    let once = roll_image(&img, 3, 4);
    assert_eq!(twice.data, once.data);
    assert_eq!(roll_image(&img, 0, 0).data, img.data);
    assert_eq!(roll_image(&img, 4, 3).data, img.data);
}

#[test]
fn law_noise_of_a_flat_image_is_gray() {
    let img = RgbImage::from_raw(6, 4, vec![93; 6 * 4 * 3]).unwrap();
    let mut p = NoiseAnalysisPlugin::new();
    p.set_amplitude(200);
    let layer = p.noise_layer(&img);
    assert!(layer.data.iter().all(|&v| v == 128));
}

#[test]
fn law_intensity_cdf_is_monotone_and_totals_the_pixels() {
    let img = sample();
    let (cdf, _) = intensity_cdf(&img);
    assert!(cdf.windows(2).all(|w| w[0] <= w[1]));
    assert_eq!(cdf[255], 12);
}

#[test]
fn law_contrast_table_is_monotone_and_bounded() {
    for c in [0, 1, 20, 64, 100] {
        let lut = build_contrast_lut(c);
        assert!(lut.windows(2).all(|w| w[0] <= w[1]));
        assert_eq!(lut[0], 0);
        assert_eq!(lut[255], 255);
    }
}

#[test]
fn law_escaped_text_has_no_markup() {
    let s = "<script>alert(\"x\") && 1 > 0</script>";
    let e = escape_html(s);
    assert!(!e.contains('<') && !e.contains('>') && !e.contains('"'));
    assert_eq!(escape_html("abc def"), "abc def");
    let (a, b) = ("a<b", "c&d");
    assert_eq!(escape_html(&format!("{a}{b}")), format!("{}{}", escape_html(a), escape_html(b)));
}

#[test]
fn law_one_colour_image_has_no_demosaicing_error() {
    let img = RgbImage::from_raw(7, 6, [12u8, 200, 77].repeat(7 * 6)).unwrap();
    let err = ac_image_forensics::cfa_detector::CFADetectorPlugin::error_map(&img);
    assert!(err.iter().all(|&e| e == 0));
}

#[test]
fn law_bins_partition_the_blocks() {
    for (bins, total) in [(1usize, 0usize), (1, 7), (3, 10), (4, 4), (5, 3), (7, 100)] {
        let mut next = 0;
        for bin in 0..bins {
            let (start, end) = bin_range(bin, bins, total);
            assert_eq!(start, next);
            assert!(start <= end && end <= total);
            next = end;
        }
        assert_eq!(next, total);
    }
}

#[test]
fn law_bank_positions_name_distinct_filters() {
    let bank: Vec<_> = (0..30).map(srm_filter).collect();
    for i in 0..30 {
        for j in (i + 1)..30 {
            assert_ne!(bank[i], bank[j]);
        }
    }
    assert_eq!(srm_filter(-1), bank[0]);
    assert_eq!(srm_filter(30), bank[29]);
}

#[test]
fn law_escaping_is_undone_by_decoding() {
    let s = "a<b & \"c\" > d &amp;";
    let e = escape_html(s);
    let decoded = e.replace("&lt;", "<").replace("&gt;", ">").replace("&quot;", "\"").replace("&amp;", "&");
    assert_eq!(decoded, s);
    let extra = 4 * s.matches('&').count() + 3 * s.matches('<').count() + 3 * s.matches('>').count()
        + 5 * s.matches('"').count();
    assert_eq!(e.chars().count(), s.chars().count() + extra);
    for (i, _) in e.match_indices('&') {
        let tail = &e[i..];
        assert!(tail.starts_with("&amp;") || tail.starts_with("&lt;") || tail.starts_with("&gt;") || tail.starts_with("&quot;"));
    }
}
