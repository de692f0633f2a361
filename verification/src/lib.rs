//! Turns a list of image files into a single PDF: each image is decoded,
//! adjusted (contrast, brightness, grayscale) and saved under a derived
//! name, then an external composition tool merges the processed files into
//! one PDF, and intermediate or original files are optionally deleted.
//!
//! This crate holds the verified orchestration logic: the derived-name
//! scheme shared by processing, assembly and cleanup, the resolution of
//! defaults, the exact argument list handed to the composition tool, and
//! the deletion plan chosen by the configuration flags. The surrounding
//! binary performs the file reads and writes, the pixel transforms and the
//! subprocess call, driven by the plans computed here.

pub mod config;
pub mod digits;
pub mod plan;
