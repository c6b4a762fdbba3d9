//! Astrometry.net `solve-field` backend configuration.
use vstd::prelude::*;

use crate::text::owned;

verus! {

/// Astrometry.net `solve-field` backend.
#[derive(Clone, Debug)]
pub struct AstrometryNetPlatesolver {
    /// `solve-field` executable path.
    pub executable_path: String,
    /// Keeps temporary files when enabled for debugging.
    pub keep_temporary_files: bool,
}

impl Default for AstrometryNetPlatesolver {
    fn default() -> (r: Self)
        ensures
            r.executable_path@ == "solve-field"@,
            !r.keep_temporary_files,
    {
        AstrometryNetPlatesolver { executable_path: owned("solve-field"), keep_temporary_files: false }
    }
}

impl AstrometryNetPlatesolver {
    /// Creates a solver that finds `solve-field` on the search path.
    pub fn new() -> (r: Self)
        ensures
            r.executable_path@ == "solve-field"@,
            !r.keep_temporary_files,
    {
        Self::default()
    }

    /// Overrides the `solve-field` executable path.
    pub fn with_executable_path(self, executable_path: String) -> (r: Self)
        ensures
            r.executable_path@ == executable_path@,
            r.keep_temporary_files == self.keep_temporary_files,
    {
        AstrometryNetPlatesolver { executable_path, ..self }
    }

    /// Keeps temporary solve files on disk for inspection.
    pub fn with_keep_temporary_files(self, keep_temporary_files: bool) -> (r: Self)
        ensures
            r.executable_path == self.executable_path,
            r.keep_temporary_files == keep_temporary_files,
    {
        AstrometryNetPlatesolver { keep_temporary_files, ..self }
    }
}

} // verus!
