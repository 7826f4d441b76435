//! Builds Google/Samsung motion photos: the Samsung SEF trailer that carries the
//! video after the still image, and the XMP packet that tells readers where it is.

pub mod adb;
pub mod batch;
pub mod cli;
pub mod constants;
pub mod error;
pub mod exiftool;
pub mod ffmpeg;
pub mod muxer;
pub mod mux_run;
pub mod path;
pub mod samsung_tags;
pub mod text;
pub mod utils;
pub mod xmp;
