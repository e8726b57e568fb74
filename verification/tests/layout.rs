use ac_image_forensics::gimp_forensics_ghost::GimpForensicsGhostPlugin;
use ac_image_forensics::jpeg_ghost::create_jpeg_ghost_plugin;
use ac_image_forensics::jpeg_ghost_alt::{create_jpeg_ghost_alt_plugin, JPEGGhostAltPlugin};
use ac_image_forensics::mosaic_analysis::{bayer_position, MosaicAnalysisPlugin};
use ac_image_forensics::noisesniffer::{
    bin_count, bin_range, candidate_count, channel_extremes, macro_index, selected_count, usable_mask,
};
use ac_image_forensics::penet_srm_selector::{
    create_penet_srm_selector_plugin, is_five_by_five, srm_filter, SrmFilter,
};
use ac_image_forensics::raster::RgbImage;
use ac_image_forensics::report::{escape_html, is_plugin_library, report_card, rgb_to_rgba};
use ac_image_forensics::sherloq_ghost::{
    block_sums, ceil_sqrt, create_sherloq_ghost_plugin, render_tiles, roll_image, SherloqGhostPlugin,
};

#[test]
fn norm_window_corners_and_whole_image() {
    let p = create_jpeg_ghost_alt_plugin();
    assert_eq!(p.get_norm_window(4, 4, 0, 2), vec![0, 1, 4, 5]);
    assert_eq!(p.get_norm_window(4, 4, 15, 2), vec![10, 11, 14, 15]);
    assert_eq!(p.get_norm_window(4, 4, 5, 2), vec![0, 1, 4, 5]);
    assert_eq!(p.get_norm_window(3, 2, 4, 16), vec![0, 1, 2, 3, 4, 5]);
}

#[test]
fn alt_window_sums() {
    let p = JPEGGhostAltPlugin;
    let err = vec![1u32, 2, 3, 4];
    let sums = p.window_sums(&err, 2, 2, 1);
    assert_eq!(sums, vec![1, 2, 3, 4]);
    let whole = p.window_sums(&err, 2, 2, 16);
    assert_eq!(whole, vec![10, 10, 10, 10]);
    assert_eq!(JPEGGhostAltPlugin::window_sum(&err, &vec![3, 3, 0]), 9);
}

#[test]
fn gimp_ghost_window_sums() {
    let err = vec![1u32, 2, 3, 4, 5, 6, 7, 8, 9];
    // 3 by 3 map, windows of 2: starts at round((3 - 2) * pos / 2)
    let sums = GimpForensicsGhostPlugin::window_sums(&err, 3, 3, 2);
    assert_eq!(sums[0], 1 + 2 + 4 + 5);
    assert_eq!(sums[4], 5 + 6 + 8 + 9);
    assert_eq!(sums[8], 5 + 6 + 8 + 9);
    let all = GimpForensicsGhostPlugin::window_sums(&err, 3, 3, 16);
    assert_eq!(all[0], 45);
    let mut p = GimpForensicsGhostPlugin::new();
    assert_eq!((p.quality(), p.block()), (90, 16));
    p.set_block(1);
    assert_eq!(p.block(), 2);
    p.set_quality(150);
    assert_eq!(p.effective_quality(), 99);
}

#[test]
fn roll_moves_pixels_circularly() {
    let img = RgbImage::from_raw(3, 1, vec![1, 1, 1, 2, 2, 2, 3, 3, 3]).unwrap();
    let r = roll_image(&img, 1, 0);
    assert_eq!(r.data, vec![3, 3, 3, 1, 1, 1, 2, 2, 2]);
    let r5 = roll_image(&img, 5, 7);
    assert_eq!(r5.data, vec![2, 2, 2, 3, 3, 3, 1, 1, 1]);
}

#[test]
fn ceil_sqrt_values() {
    assert_eq!(ceil_sqrt(0), 0);
    assert_eq!(ceil_sqrt(1), 1);
    assert_eq!(ceil_sqrt(9), 3);
    assert_eq!(ceil_sqrt(10), 4);
    assert_eq!(ceil_sqrt(65536), 256);
}

#[test]
fn ghost_quality_lists() {
    let g = create_jpeg_ghost_plugin();
    assert_eq!(g.qualities(), vec![50, 60, 70, 80, 90]);
    let mut s = create_sherloq_ghost_plugin();
    assert_eq!(s.qualities(), vec![50, 55, 60, 65, 70, 75, 80, 85, 90]);
    s.set_qmin(95);
    s.set_qmax(20);
    assert_eq!(s.qualities(), vec![95]);
    s.set_qmin(-10);
    s.set_qmax(12);
    s.set_qstep(0);
    assert_eq!(s.qstep(), 1);
    assert_eq!(s.qualities().len(), 13);
    s.set_qstep(5);
    assert_eq!(s.qualities(), vec![0, 5, 10]);
}

#[test]
fn tiles_are_laid_out_row_by_row() {
    // two qualities, each a single 1 by 1 block of 16 by 16 pixels, on a 2 by 2 grid
    let colors = vec![10, 20, 30, 40, 50, 60];
    let out = render_tiles(&colors, 1, 1, 2, 2);
    assert_eq!((out.width, out.height), (32, 32));
    assert_eq!(out.get(0, 0, 0), 10);
    assert_eq!(out.get(16, 0, 2), 60);
    assert_eq!(out.get(0, 16, 0), 0);
}

#[test]
fn bayer_patterns() {
    assert_eq!(bayer_position(0, 0, 0), 0);
    assert_eq!(bayer_position(1, 1, 0), 2);
    assert_eq!(bayer_position(1, 0, 0), 1);
    assert_eq!(bayer_position(0, 0, 1), 2);
    assert_eq!(bayer_position(1, 0, 2), 0);
    assert_eq!(bayer_position(0, 1, 2), 2);
    assert_eq!(bayer_position(1, 0, 3), 2);
    assert_eq!(bayer_position(0, 1, 3), 0);
    assert_eq!(bayer_position(3, 3, 3), 1);
}

#[test]
fn mosaic_phase_counting() {
    let phase = vec![0u8, 1, 1, 3, 1, 2];
    let counts = MosaicAnalysisPlugin::block_histograms(&phase, 3, 2);
    assert_eq!(counts, vec![1, 3, 1, 1]);
    let totals = MosaicAnalysisPlugin::phase_totals(&counts, 1);
    assert_eq!(totals, vec![1, 3, 1, 1]);
    assert_eq!(MosaicAnalysisPlugin::global_phase(&totals), 1);
    assert_eq!(MosaicAnalysisPlugin::global_phase(&vec![5, 2, 5, 0]), 2);
    assert_eq!(MosaicAnalysisPlugin::global_phase(&vec![0, 0, 0, 0]), 0);
}

#[test]
fn noisesniffer_bins_and_masks() {
    assert_eq!(bin_count(0), 1);
    assert_eq!(bin_count(20000), 1);
    assert_eq!(bin_count(20001), 2);
    assert_eq!(bin_range(0, 3, 10), (0, 3));
    assert_eq!(bin_range(2, 3, 10), (6, 10));
    assert_eq!(candidate_count(10), 1);
    assert_eq!(candidate_count(45), 2);
    assert_eq!(selected_count(2), 1);
    assert_eq!(selected_count(40), 12);
    assert_eq!(macro_index(300, 600, 1000), 2 * 4 + 1);
    let img = RgbImage::from_raw(3, 1, vec![0, 5, 9, 4, 5, 1, 255, 7, 3]).unwrap();
    assert_eq!(channel_extremes(&img, 0), (0, 255));
    let (mask, los, his) = usable_mask(&img);
    assert_eq!(los, vec![0, 5, 1]);
    assert_eq!(his, vec![255, 7, 9]);
    assert_eq!(mask, vec![false, false, false]);
    let img2 = RgbImage::from_raw(3, 1, vec![0, 0, 0, 4, 4, 4, 9, 9, 9]).unwrap();
    assert_eq!(usable_mask(&img2).0, vec![false, true, false]);
}

#[test]
fn srm_bank_positions() {
    assert_eq!(srm_filter(-5), SrmFilter::Class1(0));
    assert_eq!(srm_filter(7), SrmFilter::Class1(7));
    assert_eq!(srm_filter(9), SrmFilter::Class2(1));
    assert_eq!(srm_filter(13), SrmFilter::Class3(1));
    assert_eq!(srm_filter(23), SrmFilter::Edge3x3(3));
    assert_eq!(srm_filter(24), SrmFilter::Edge5x5(0));
    assert_eq!(srm_filter(28), SrmFilter::Square3x3);
    assert_eq!(srm_filter(99), SrmFilter::Square5x5);
    assert!(is_five_by_five(SrmFilter::Class3(0)));
    assert!(!is_five_by_five(SrmFilter::Square3x3));
    let mut p = create_penet_srm_selector_plugin();
    assert_eq!(p.filter_index(), 0);
    p.set_filter_index(20);
    assert_eq!(p.selected_filter(), SrmFilter::Edge3x3(0));
}

#[test]
fn html_escaping() {
    assert_eq!(escape_html("<a & \"b\">"), "&lt;a &amp; &quot;b&quot;&gt;");
    assert_eq!(escape_html("plain text"), "plain text");
    assert_eq!(escape_html(""), "");
    assert_eq!(escape_html("it's"), "it's");
}

#[test]
fn plugin_library_names() {
    assert!(is_plugin_library("plugin_ela.dll"));
    assert!(!is_plugin_library("plugin_penet_steganalysis.dll"));
    assert!(!is_plugin_library("ela.dll"));
    assert!(!is_plugin_library("plugin_ela.so"));
    assert!(!is_plugin_library("plugin_.dl"));
}

#[test]
fn report_cards() {
    let card = report_card("A<B", "a.png", "x & y", "");
    assert_eq!(
        card,
        "<div class=\"card\"><h2>A&lt;B</h2><img src=\"a.png\" alt=\"A&lt;B\"><p class=\"desc\">x &amp; y</p></div>\n"
    );
    let with_ref = report_card("N", "n.png", "d", "http://e/?a=1&b=2");
    assert!(with_ref.contains("<p class=\"ref\">📖 <a href=\"http://e/?a=1&amp;b=2\">http://e/?a=1&amp;b=2</a></p>"));
}

#[test]
fn clipboard_pixels_are_opaque() {
    let img = RgbImage::from_raw(2, 1, vec![1, 2, 3, 4, 5, 6]).unwrap();
    assert_eq!(rgb_to_rgba(&img), vec![1, 2, 3, 255, 4, 5, 6, 255]);
}

#[test]
fn block_sums_cover_whole_blocks() {
    // two maps of a 33 by 17 image: two whole 16 by 16 blocks per map, the rest left out
    let w = 33usize;
    let h = 17usize;
    let ones = vec![1u32; w * h];
    let ramp: Vec<u32> = (0..w * h).map(|i| (i % w) as u32).collect();
    let sums = block_sums(&vec![ones, ramp], w, h);
    assert_eq!(sums.len(), 4);
    assert_eq!(sums[0], 256);
    assert_eq!(sums[1], 256);
    assert_eq!(sums[2], 16 * (0..16).sum::<u128>());
    assert_eq!(sums[3], 16 * (16..32).sum::<u128>());
}

#[test]
fn sherloq_ghost_offsets_roll_the_grid() {
    let img = RgbImage::from_raw(3, 1, vec![1, 1, 1, 2, 2, 2, 3, 3, 3]).unwrap();
    let mut p = SherloqGhostPlugin::new();
    p.set_x_off(1);
    assert_eq!(p.rolled(&img).data, vec![3, 3, 3, 1, 1, 1, 2, 2, 2]);
    p.set_x_off(-4);
    assert_eq!(p.rolled(&img).data, img.data);
    p.set_x_off(20);
    // clamped to 7, which is 1 modulo 3
    assert_eq!(p.rolled(&img).data, vec![3, 3, 3, 1, 1, 1, 2, 2, 2]);
}

#[test]
fn small_decisions_of_the_ghost_and_mosaic_views() {
    assert_eq!(JPEGGhostAltPlugin::sum_range(&vec![5, 2, 9, 2]), Some((2, 9)));
    assert_eq!(JPEGGhostAltPlugin::sum_range(&vec![4, 4, 4]), None);
    assert_eq!(JPEGGhostAltPlugin::sum_range(&vec![]), None);
    assert_eq!(SherloqGhostPlugin::block_grid(40, 17), Some((1, 2)));
    assert_eq!(SherloqGhostPlugin::block_grid(15, 100), None);
    assert!(MosaicAnalysisPlugin::too_small(7, 100));
    assert!(!MosaicAnalysisPlugin::too_small(8, 8));
}
