//! The clock, and small helpers around it.

use vstd::prelude::*;
use std::time::SystemTime;
use std::time::UNIX_EPOCH;

verus! {

/// Relies on `std::time::SystemTime`: milliseconds since the Unix epoch as
/// the system clock reports them. The value depends on the clock, so nothing
/// is assumed of it; a clock before the epoch reads as zero.
#[verifier::external_body]
pub fn get_current_timestamp_millis() -> u128 {
    match SystemTime::now().duration_since(UNIX_EPOCH) {
        Ok(d) => d.as_millis(),
        Err(_) => 0,
    }
}

/// The clock reading in whole seconds, saturating into 64 bits.
pub fn now_seconds() -> u64 {
    let ms = get_current_timestamp_millis();
    let s = ms / 1000;
    if s > 0xffff_ffff_ffff_ffffu128 {
        0xffff_ffff_ffff_ffffu64
    } else {
        s as u64
    }
}

} // verus!
