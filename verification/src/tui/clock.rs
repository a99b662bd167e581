//! The monotonic clock that times running tool calls, and the way an elapsed
//! time is written.
use crate::text::{decimal, decimal_u64, extend};
use core::time::Duration;
use std::time::Instant;
use vstd::prelude::*;

verus! {

/// A reading of the monotonic clock (`std::time::Instant`), carried as an
/// opaque value.
#[verifier::external_type_specification]
#[verifier::external_body]
pub struct ExInstant(Instant);

/// A copy of an instant (`Instant` is `Copy`; its `clone` gives the same
/// instant).
pub assume_specification[ <Instant as Clone>::clone ](i: &Instant) -> (r: Instant)
    ensures
        r == *i,
;

/// The current instant (`Instant::now`). Nothing is claimed of it: it is
/// whatever the clock reads.
#[verifier::external_body]
pub(crate) fn now() -> Instant {
    Instant::now()
}

/// The time passed since `start` (`Instant::elapsed`). Nothing is claimed of
/// it: it depends on when the call is made.
#[verifier::external_body]
pub(crate) fn elapsed_since(start: &Instant) -> Duration {
    start.elapsed()
}

/// The whole seconds of a duration (`Duration::as_secs`). The duration is
/// opaque here, so nothing is claimed of the number.
#[verifier::external_body]
pub(crate) fn whole_seconds(d: &Duration) -> u64 {
    d.as_secs()
}

/// An elapsed time as the interface writes it: `42s` under a minute,
/// `3m7s` from a minute on.
pub open spec fn elapsed_text(secs: nat) -> Seq<char> {
    if secs < 60 {
        decimal(secs) + seq!['s']
    } else {
        decimal(secs / 60) + seq!['m'] + decimal(secs % 60) + seq!['s']
    }
}

/// Writes a number of seconds as [`elapsed_text`] describes.
pub fn format_elapsed(total_secs: u64) -> (r: String)
    ensures
        r@ == elapsed_text(total_secs as nat),
{
    let mut out: Vec<char> = Vec::new();
    if total_secs < 60 {
        let d = decimal_u64(total_secs);
        extend(&mut out, d.as_slice());
        out.push('s');
    } else {
        let mins = decimal_u64(total_secs / 60);
        let secs = decimal_u64(total_secs % 60);
        extend(&mut out, mins.as_slice());
        out.push('m');
        extend(&mut out, secs.as_slice());
        out.push('s');
    }
    crate::text::string_of(out.as_slice())
}

} // verus!
