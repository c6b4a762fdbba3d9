//! Image analysis helpers.

pub mod images;
