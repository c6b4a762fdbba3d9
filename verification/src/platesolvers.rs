//! Plate-solver backends: configuration and selection.

pub mod astap;
pub mod astrometry_net;
pub mod registry;
