//! Choosing a plate-solver backend.
use vstd::prelude::*;

use crate::platesolvers::astap::AstapPlatesolver;
use crate::platesolvers::astrometry_net::AstrometryNetPlatesolver;
use crate::types::platsolver::VastPlatesolverBackend;

verus! {

/// A plate solver of a named implementation.
pub trait VastPlatesolver {
    /// Short name of the implementation.
    fn implementation_name(&self) -> &'static str;
}

impl VastPlatesolver for AstapPlatesolver {
    fn implementation_name(&self) -> (r: &'static str)
        ensures
            r@ == "astap"@,
    {
        "astap"
    }
}

impl VastPlatesolver for AstrometryNetPlatesolver {
    fn implementation_name(&self) -> (r: &'static str)
        ensures
            r@ == "astrometry.net"@,
    {
        "astrometry.net"
    }
}

/// A configured plate solver of either backend.
#[derive(Clone, Debug)]
pub enum AnyPlatesolver {
    Astap(AstapPlatesolver),
    AstrometryNet(AstrometryNetPlatesolver),
}

/// Name of the implementation behind a backend.
pub open spec fn backend_name(b: VastPlatesolverBackend) -> Seq<char> {
    match b {
        VastPlatesolverBackend::Astap => "astap"@,
        VastPlatesolverBackend::AstrometryNet => "astrometry.net"@,
    }
}

impl AnyPlatesolver {
    /// The backend this solver runs.
    pub open spec fn backend(&self) -> VastPlatesolverBackend {
        match self {
            AnyPlatesolver::Astap(_) => VastPlatesolverBackend::Astap,
            AnyPlatesolver::AstrometryNet(_) => VastPlatesolverBackend::AstrometryNet,
        }
    }
}

impl VastPlatesolver for AnyPlatesolver {
    fn implementation_name(&self) -> (r: &'static str)
        ensures
            r@ == backend_name(self.backend()),
    {
        match self {
            AnyPlatesolver::Astap(s) => s.implementation_name(),
            AnyPlatesolver::AstrometryNet(s) => s.implementation_name(),
        }
    }
}

/// Creates a solver of the requested backend with its default
/// configuration.
pub fn create_platesolver(backend: VastPlatesolverBackend) -> (r: AnyPlatesolver)
    ensures
        r.backend() == backend,
{
    match backend {
        VastPlatesolverBackend::Astap => AnyPlatesolver::Astap(AstapPlatesolver::new()),
        VastPlatesolverBackend::AstrometryNet => AnyPlatesolver::AstrometryNet(AstrometryNetPlatesolver::new()),
    }
}

} // verus!
