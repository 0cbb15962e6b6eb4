use vstd::prelude::*;

verus! {

/// Relies on rand::random_range: the drawn value lies within the given
/// range. The range must be non-empty, since rand panics otherwise.
#[verifier::external_body]
pub(crate) fn random_below(bound: usize) -> (r: usize)
    requires
        0 < bound,
    ensures
        r < bound,
{
    rand::random_range(0..bound)
}

/// Relies on rand::random: an arbitrary value comes back; nothing can be
/// promised of it.
#[verifier::external_body]
pub(crate) fn random_value() -> usize {
    rand::random::<u64>() as usize
}

} // verus!
