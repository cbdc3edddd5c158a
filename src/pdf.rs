use vstd::prelude::*;

verus! {

/// Density that is the same in every direction: `1 / (4 pi)` over the unit
/// sphere. It draws directions uniformly on the sphere and is what an
/// isotropic medium scatters by.
#[derive(Clone, Copy, Debug, PartialEq, Eq, Structural)]
pub struct SpherePDF;

} // verus!
