//! Image file encodings: FITS, XISF, JPEG, PNG and TIFF.

pub mod fits;
pub mod fits_reader;
pub mod fits_round_trip;
pub mod jpeg;
pub mod png;
pub mod raster;
pub mod tiff;
pub mod types;
pub mod xisf;
pub mod xisf_round_trip;
