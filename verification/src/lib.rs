//! Core library for astronomy device control: camera, mount and focuser protocol
//! logic, image frame formats and image file encodings.

pub mod algos;
pub mod base;
pub mod cameras;
pub mod drivers;
pub mod scan;
pub mod text;
pub mod types;
pub mod imageformats;
pub mod platesolvers;
