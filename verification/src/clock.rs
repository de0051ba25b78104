//! Wall-clock timestamps used as request parameters.
use vstd::prelude::*;
use crate::text::{nat_dec, u64_to_string};

verus! {

/// Milliseconds since the Unix epoch (`SystemTime::now()`), or 0 when the
/// clock reads earlier than the epoch. The value depends on the clock, so
/// nothing is stated of it.
#[verifier::external_body]
fn unix_millis() -> u64 {
    std::time::SystemTime::now()
        .duration_since(std::time::UNIX_EPOCH)
        .unwrap_or_default()
        .as_millis() as u64
}

/// `now_ms()`: the current time in milliseconds, in decimal.
pub fn now_ms() -> (r: String)
    ensures
        exists|n: nat| r@ == nat_dec(n),
{
    let n = unix_millis();
    u64_to_string(n)
}

} // verus!
