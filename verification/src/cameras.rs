//! Camera driver capability descriptors.

pub mod traits;
pub mod types;
