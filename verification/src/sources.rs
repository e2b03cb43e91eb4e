//! What a block takes from outside the program: a fresh identifier, the
//! wall-clock time and random nonces.
//!
//! Nothing here is proved. Each item states only what holds of every value
//! that the outside source can hand back, so the code that uses them is
//! verified for all of them.

use vstd::prelude::*;

verus! {

/// `std::time::SystemTimeError`, the error of a clock that reads a time
/// before the instant it is compared with. It is carried through unopened.
#[verifier::external_type_specification]
#[verifier::external_body]
pub struct ExSystemTimeError(std::time::SystemTimeError);

/// The whole milliseconds in `duration`, as `Duration::as_millis` counts
/// them.
pub uninterp spec fn whole_millis(duration: core::time::Duration) -> u128;

/// `Duration::as_millis` gives the whole milliseconds in a duration. The
/// number depends on the duration alone; the contract gives it the name
/// [`whole_millis`] and claims nothing else about it.
pub assume_specification[ core::time::Duration::as_millis ](
    duration: &core::time::Duration,
) -> (millis: u128)
    ensures
        millis == whole_millis(*duration),
;

/// Calls `SystemTime::elapsed` on `UNIX_EPOCH`: the time from the epoch to
/// the current reading of the system clock, or an error when the clock reads
/// a time before the epoch. Nothing is claimed of which of the two comes
/// back.
#[verifier::external_body]
pub(crate) fn elapsed_since_epoch() -> Result<core::time::Duration, std::time::SystemTimeError> {
    std::time::UNIX_EPOCH.elapsed()
}

/// Draws a nonce with `rand::random`, which samples the thread-local
/// generator uniformly over all 128-bit signed integers. Nothing is claimed
/// of the value. The call panics if the operating system cannot seed the
/// generator.
#[verifier::external_body]
pub(crate) fn draw_nonce() -> i128 {
    rand::random()
}

/// The sixteen bytes carry the version and variant marks of a randomly
/// generated identifier: the high half of byte 6 is 4 and the two high bits
/// of byte 8 are `10`.
pub open spec fn is_random_identifier(id: [u8; 16]) -> bool {
    &&& id@[6] / 16 == 4
    &&& id@[8] / 64 == 2
}

/// Calls `uuid::Uuid::new_v4` and takes the identifier's sixteen bytes with
/// `Uuid::into_bytes`. The bytes are random except for the version and
/// variant fields, which `new_v4` sets. The call panics if the operating
/// system cannot supply random bytes.
#[verifier::external_body]
pub(crate) fn fresh_identifier() -> (id: [u8; 16])
    ensures
        is_random_identifier(id),
{
    uuid::Uuid::new_v4().into_bytes()
}

} // verus!
