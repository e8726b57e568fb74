//! Image forensics analyses on in-memory RGB images.
pub mod arith;
pub mod raster;
pub mod codec;
pub mod classic;
pub mod ela;
pub mod forensically_ela;
pub mod recompress;
pub mod sherloq_ela;
pub mod errormap;
pub mod gimp_forensics_ghost;
pub mod jpeg_ghost_alt;
pub mod sherloq_ghost;
pub mod mini_nand_jpeg;
pub mod noise_analysis;
pub mod gradient_forensics;
pub mod texture_inconsistency;
pub mod report;
pub mod penet_srm_selector;
pub mod mosaic_analysis;
pub mod cfa_detector;
pub mod noisesniffer;
pub mod gimp_forensics_ela;
pub mod views;
pub mod jpeg_ghost;
pub mod noise_statistics;
pub mod laws;
