//! The wall clock.

use crate::semantik::duration::NANOS_PER_SEC;
use std::time::SystemTime;
use vstd::prelude::*;

verus! {

/// The standard library's point in time.
#[verifier::external_type_specification]
#[verifier::external_body]
pub struct ExSystemTime(SystemTime);

/// `SystemTime::now`: the time by the machine's clock. Nothing is claimed
/// of it.
pub assume_specification[ SystemTime::now ]() -> (res: SystemTime);

/// `SystemTime::duration_since` the Unix epoch: seconds and nanoseconds
/// after it, or, as an error, before it. Of nanoseconds there are always
/// less than a second; nothing else is claimed.
#[verifier::external_body]
fn since_unix_epoch(t: SystemTime) -> (res: Result<(u64, u32), (u64, u32)>)
    ensures
        res matches Ok((_, nanos)) ==> nanos < NANOS_PER_SEC,
        res matches Err((_, nanos)) ==> nanos < NANOS_PER_SEC,
{
    t.duration_since(std::time::UNIX_EPOCH)
        .map(|d| (d.as_secs(), d.subsec_nanos()))
        .map_err(|e| (e.duration().as_secs(), e.duration().subsec_nanos()))
}

/// A distance from the Unix epoch in nanoseconds, negative before it.
pub open spec fn from_epoch(distance: Result<(u64, u32), (u64, u32)>) -> int {
    match distance {
        Ok((secs, nanos)) => secs * 1_000_000_000 + nanos,
        Err((secs, nanos)) => -(secs * 1_000_000_000 + nanos),
    }
}

/// A distance from the Unix epoch, which is seconds and nanoseconds after
/// it, or, as an error, before it, in nanoseconds.
pub fn epoch_nanos(distance: Result<(u64, u32), (u64, u32)>) -> (res: i128)
    ensures
        res == from_epoch(distance),
{
    match distance {
        Ok((secs, nanos)) => secs as i128 * 1_000_000_000 + nanos as i128,
        Err((secs, nanos)) => -(secs as i128 * 1_000_000_000 + nanos as i128),
    }
}

/// The time by the machine's clock in nanoseconds since the Unix epoch.
pub fn unix_now() -> (res: i128)
    ensures
        -0x1_0000_0000_0000_0000 * 1_000_000_000 < res < 0x1_0000_0000_0000_0000 * 1_000_000_000,
{
    epoch_nanos(since_unix_epoch(SystemTime::now()))
}

/// Times count forward after the epoch and backward before it.
pub proof fn law_times_count_from_the_epoch(secs: u64, nanos: u32)
    ensures
        from_epoch(Ok((secs, nanos))) == secs * 1_000_000_000 + nanos,
        from_epoch(Err((secs, nanos))) == -from_epoch(Ok((secs, nanos))),
{
}

} // verus!
