//! Device protocol clients and simulated devices.

pub mod fake_camera;
pub mod fake_focuser;
pub mod moonlight;
pub mod onstep;
