//! Whole seconds of `std::time::Duration`.

use std::time::Duration;
use vstd::prelude::*;

verus! {

/// The whole seconds of a duration, as `Duration::as_secs` returns them.
pub uninterp spec fn duration_secs(d: Duration) -> nat;

/// Calls `Duration::as_secs`; its result is named by `duration_secs`.
#[verifier::external_body]
pub(crate) fn as_secs(d: &Duration) -> (secs: u64)
    ensures
        secs == duration_secs(*d),
{
    d.as_secs()
}

/// The duration that `Duration::from_secs` makes of `secs` whole seconds.
pub uninterp spec fn secs_duration(secs: u64) -> Duration;

/// Calls `Duration::from_secs`; the duration it makes is named by
/// `secs_duration`, and std documents that it has exactly `secs` whole
/// seconds.
#[verifier::external_body]
pub(crate) fn from_secs(secs: u64) -> (d: Duration)
    ensures
        d == secs_duration(secs),
        duration_secs(d) == secs,
{
    Duration::from_secs(secs)
}

} // verus!
