//! Shared data types: camera, image frame, guiding, mount, plate solver and
//! common units.

pub mod camera;
pub mod camera_summary;
pub mod common;
pub mod guiding;
pub mod imageformats;
pub mod mount;
pub mod platsolver;
