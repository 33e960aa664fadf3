use vstd::prelude::*;

verus! {

/// fastrand's seedable generator, carried through the library opaquely.
#[verifier::external_type_specification]
#[verifier::external_body]
pub struct ExRng(fastrand::Rng);

/// Relies on fastrand::Rng::i32: a value drawn from the inclusive range
/// `lo..=hi`, which must not be empty.
#[verifier::external_body]
pub(crate) fn draw_i32(rng: &mut fastrand::Rng, lo: i32, hi: i32) -> (r: i32)
    requires
        lo <= hi,
    ensures
        lo <= r <= hi,
{
    rng.i32(lo..=hi)
}

/// Relies on fastrand::Rng::u64: a value drawn from the inclusive range
/// `lo..=hi`, which must not be empty.
#[verifier::external_body]
pub(crate) fn draw_u64(rng: &mut fastrand::Rng, lo: u64, hi: u64) -> (r: u64)
    requires
        lo <= hi,
    ensures
        lo <= r <= hi,
{
    rng.u64(lo..=hi)
}

} // verus!
