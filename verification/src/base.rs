//! Shared error types, transport abstractions and worker helpers.

pub mod connections;
pub mod errors;
pub mod system;
pub mod workers;
