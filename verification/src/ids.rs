//! Fresh identifiers and wall-clock timestamps, from the outside crates that
//! produce them.

use vstd::prelude::*;

verus! {

/// A fresh random identifier: the 128-bit value of `uuid::Uuid::new_v4()`.
/// Every such value carries the version-4 nibble and the RFC 4122 variant
/// bits, as the crate sets them; the rest is random.
#[verifier::external_body]
pub(crate) fn new_id() -> (r: u128)
    ensures
        (r >> 76u128) & 0xfu128 == 4u128,
        (r >> 62u128) & 0x3u128 == 2u128,
{
    uuid::Uuid::new_v4().as_u128()
}

/// The current wall-clock time in milliseconds since the Unix epoch
/// (`chrono::Utc::now().timestamp_millis()`). Nothing is promised of the
/// value: it depends on the clock.
#[verifier::external_body]
pub(crate) fn now_millis() -> i64 {
    chrono::Utc::now().timestamp_millis()
}

} // verus!
