//! Clock and randomness, the two nondeterministic inputs of the library.

use rand::Rng;
use std::time::{SystemTime, UNIX_EPOCH};
use vstd::prelude::*;

verus! {

/// Milliseconds since the Unix epoch, from `SystemTime::now`. Nothing is
/// stated of the value: it is the wall clock.
#[verifier::external_body]
pub fn now_ms() -> u64 {
    SystemTime::now().duration_since(UNIX_EPOCH).unwrap_or_default().as_millis() as u64
}

/// A uniformly drawn integer in `lo..=hi`, from `rand::rng().random_range`.
/// Only the range is stated: the value is random.
#[verifier::external_body]
pub(crate) fn random_between(lo: u64, hi: u64) -> (r: u64)
    requires
        lo <= hi,
    ensures
        lo <= r <= hi,
{
    rand::rng().random_range(lo..=hi)
}

/// A random index below `len`.
pub fn random_index(len: usize) -> (r: usize)
    requires
        len > 0,
    ensures
        r < len,
{
    random_between(0, (len - 1) as u64) as usize
}

} // verus!
