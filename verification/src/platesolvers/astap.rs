//! ASTAP backend configuration.
use vstd::prelude::*;

use crate::text::owned;

verus! {

/// ASTAP-backed plate solver.
#[derive(Clone, Debug)]
pub struct AstapPlatesolver {
    /// ASTAP executable path.
    pub executable_path: String,
    /// Optional ASTAP star database directory.
    pub database_path: Option<String>,
    /// Keeps temporary files when enabled for debugging.
    pub keep_temporary_files: bool,
}

impl Default for AstapPlatesolver {
    fn default() -> (r: Self)
        ensures
            r.executable_path@ == "astap"@,
            r.database_path is None,
            !r.keep_temporary_files,
    {
        AstapPlatesolver { executable_path: owned("astap"), database_path: None, keep_temporary_files: false }
    }
}

impl AstapPlatesolver {
    /// Creates an ASTAP solver that finds `astap` on the search path.
    pub fn new() -> (r: Self)
        ensures
            r.executable_path@ == "astap"@,
            r.database_path is None,
            !r.keep_temporary_files,
    {
        Self::default()
    }

    /// Overrides the ASTAP executable path.
    pub fn with_executable_path(self, executable_path: String) -> (r: Self)
        ensures
            r.executable_path@ == executable_path@,
            r.database_path == self.database_path,
            r.keep_temporary_files == self.keep_temporary_files,
    {
        AstapPlatesolver { executable_path, ..self }
    }

    /// Sets the ASTAP star database directory.
    pub fn with_database_path(self, database_path: String) -> (r: Self)
        ensures
            r.executable_path == self.executable_path,
            r.database_path == Some(database_path),
            r.keep_temporary_files == self.keep_temporary_files,
    {
        AstapPlatesolver { database_path: Some(database_path), ..self }
    }

    /// Keeps temporary solve files on disk for inspection.
    pub fn with_keep_temporary_files(self, keep_temporary_files: bool) -> (r: Self)
        ensures
            r.executable_path == self.executable_path,
            r.database_path == self.database_path,
            r.keep_temporary_files == keep_temporary_files,
    {
        AstapPlatesolver { keep_temporary_files, ..self }
    }
}

} // verus!
