//! The client clock.

use vstd::prelude::*;
use crate::value::EnokiTimeStamp;

verus! {

/// The time of the client clock: microseconds since the Unix epoch, and
/// zero for a clock that is set before it.
///
/// Trusted: reads `std::time::SystemTime::now`. Nothing is claimed of the
/// result, which differs from call to call.
#[verifier::external_body]
pub fn now() -> EnokiTimeStamp {
    match std::time::SystemTime::now().duration_since(std::time::UNIX_EPOCH) {
        Ok(elapsed) => elapsed.as_micros() as EnokiTimeStamp,
        Err(_) => 0,
    }
}

} // verus!
