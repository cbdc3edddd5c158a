use vstd::prelude::*;
use rand::Rng;

verus! {

/// A uniformly drawn integer of `[min, max]`.
///
/// Relies on `rand::Rng::gen_range` with an inclusive range on the
/// thread-local generator of `rand::thread_rng`: for a nonempty range it
/// returns a value inside the range; it panics on an empty one, which
/// `requires` leaves out.
#[verifier::external_body]
pub fn random_int(min: i64, max: i64) -> (r: i64)
    requires
        min <= max,
    ensures
        min <= r <= max,
{
    rand::thread_rng().gen_range(min..=max)
}

} // verus!
