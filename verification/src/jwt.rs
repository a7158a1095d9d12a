//! The claims of the service's JSON web tokens.

use vstd::prelude::*;
use crate::clock::{MAX_UTC_TIMESTAMP, unix_now};

verus! {

/// The smallest UNIX timestamp that chrono's `DateTime<Utc>` holds (its
/// first day is in the year -262143).
pub const MIN_UTC_TIMESTAMP: i64 = -8334601228800;

/// How long a token is valid: 60 minutes.
pub const TOKEN_LIFETIME_SECS: i64 = 3600;

/// The expiry of a token issued at the UNIX time `now`, as `usize`
/// (`timestamp() as usize`).
pub open spec fn expiry_of(now: int) -> usize {
    (now + TOKEN_LIFETIME_SECS) as usize
}

/// The claims of a token: its subject (a user id or email) and when it
/// expires, as a UNIX timestamp.
#[derive(Debug)]
pub struct Claims {
    pub sub: String,
    pub exp: usize,
}

/// The claims of a token for `user_id` issued at the UNIX time `now`
/// (within chrono's range): it expires 60 minutes later, and there are none
/// where that time is past what chrono holds (where `create_jwt` panics).
pub fn claims_at(user_id: &str, now: i64) -> (r: Option<Claims>)
    requires
        MIN_UTC_TIMESTAMP <= now <= MAX_UTC_TIMESTAMP,
    ensures
        match r {
            Some(c) => now + TOKEN_LIFETIME_SECS <= MAX_UTC_TIMESTAMP && c.sub@ == user_id@
                && c.exp == expiry_of(now as int),
            None => now + TOKEN_LIFETIME_SECS > MAX_UTC_TIMESTAMP,
        },
{
    if now > MAX_UTC_TIMESTAMP - TOKEN_LIFETIME_SECS {
        return None;
    }
    let exp_time: i64 = now + TOKEN_LIFETIME_SECS;
    Some(Claims { sub: String::from_str(user_id), exp: exp_time as usize })
}

/// The claims of a token for `user_id` issued now, by the clock; there
/// are none only where the clock reads a time within the last hour that
/// chrono holds.
pub fn claims_for(user_id: &str) -> (r: Option<Claims>)
    ensures
        match r {
            Some(c) => c.sub@ == user_id@ && exists|now: int|
                0 <= now && now + TOKEN_LIFETIME_SECS <= MAX_UTC_TIMESTAMP && c.exp
                    == #[trigger] expiry_of(now),
            None => true,
        },
{
    let now: i64 = unix_now();
    let r = claims_at(user_id, now);
    match &r {
        Some(c) => {
            assert(0 <= now && now + TOKEN_LIFETIME_SECS <= MAX_UTC_TIMESTAMP && c.exp == expiry_of(
                now as int,
            ));
        },
        None => {},
    }
    r
}

} // verus!
