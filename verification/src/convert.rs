//! Checked integer conversions, done by the `cast` crate.

use vstd::prelude::*;

verus! {

/// The error of a failed conversion, `cast::Error`: carried, never looked
/// into.
#[verifier::external_type_specification]
#[verifier::external_body]
pub struct ExCastError(cast::Error);

/// `cast::u8` on a `usize`. Trusted: the call answers `Ok` with the same
/// number exactly when the number is at most `u8::MAX`, and an error above.
#[verifier::external_body]
pub(crate) fn narrow(n: usize) -> (r: Result<u8, cast::Error>)
    ensures
        r is Ok <==> n <= u8::MAX,
        r is Ok ==> r->Ok_0 == n,
{
    cast::u8(n)
}

/// `cast::usize` on a `u8`. Trusted: the call cannot fail and keeps the
/// number.
#[verifier::external_body]
pub(crate) fn widen(x: u8) -> (r: usize)
    ensures
        r == x,
{
    cast::usize(x)
}

} // verus!
