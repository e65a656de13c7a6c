//! The thread-local random source, as far as the generator draws from it.
//!
//! Nothing here is proved: each function hands one draw of `fastrand` on, and
//! its contract states only what holds of every value that can come back.

use vstd::prelude::*;

verus! {

/// Draws with `fastrand::u8` from the closed range `low..=high`.
///
/// The draw maps a random word into the range, so the value lies between the
/// two bounds, both included. An empty range makes `fastrand` panic and is
/// left out.
#[verifier::external_body]
pub(crate) fn random_u8(low: u8, high: u8) -> (drawn: u8)
    requires
        low <= high,
    ensures
        low <= drawn <= high,
{
    fastrand::u8(low..=high)
}

/// Draws with `fastrand::u32` from the half-open range `low..high`.
///
/// The value is at least `low` and below `high`. An empty range makes
/// `fastrand` panic and is left out.
#[verifier::external_body]
pub(crate) fn random_u32(low: u32, high: u32) -> (drawn: u32)
    requires
        low < high,
    ensures
        low <= drawn < high,
{
    fastrand::u32(low..high)
}

/// Draws with `fastrand::usize` from the half-open range `low..high`.
///
/// The value is at least `low` and below `high`. An empty range makes
/// `fastrand` panic and is left out.
#[verifier::external_body]
pub(crate) fn random_usize(low: usize, high: usize) -> (drawn: usize)
    requires
        low < high,
    ensures
        low <= drawn < high,
{
    fastrand::usize(low..high)
}

/// Flips a coin with `fastrand::bool`. Either value can come back.
#[verifier::external_body]
pub(crate) fn random_bool() -> bool {
    fastrand::bool()
}

} // verus!
