//! The wall clock, read through chrono.

use vstd::prelude::*;

verus! {

/// The largest UNIX timestamp that chrono's `DateTime<Utc>` holds: the last
/// second of the year 262142.
pub const MAX_UTC_TIMESTAMP: i64 = 8210266876799;

/// `chrono::Utc::now().timestamp()`: the current time in whole seconds since
/// the UNIX epoch. `Utc::now` panics where the system clock is before the
/// epoch, and its value is a `DateTime<Utc>`, so what it returns lies
/// between 0 and `MAX_UTC_TIMESTAMP`; which second it is, is not stated.
#[verifier::external_body]
pub fn unix_now() -> (t: i64)
    ensures
        0 <= t <= MAX_UTC_TIMESTAMP,
{
    chrono::Utc::now().timestamp()
}

} // verus!
