//! Liveness evaluation: how long an owner has been silent, and whether that
//! silence exceeds the configured heartbeat interval.
use vstd::prelude::*;

verus! {

/// Nanoseconds in one second.
pub const NANOS_PER_SECOND: u64 = 1_000_000_000;

/// Seconds of silence since `last_active`; a clock reading before
/// `last_active` counts as no silence at all.
pub open spec fn elapsed_spec(last_active: u64, now: u64) -> int {
    if now >= last_active {
        now - last_active
    } else {
        0
    }
}

/// An owner is expired exactly when the silence is strictly longer than the
/// heartbeat interval.
pub open spec fn expired_spec(last_active: u64, heartbeat_interval: u64, now: u64) -> bool {
    elapsed_spec(last_active, now) > heartbeat_interval
}

/// Seconds left before expiry; zero once expired.
pub open spec fn remaining_spec(last_active: u64, heartbeat_interval: u64, now: u64) -> int {
    if expired_spec(last_active, heartbeat_interval, now) {
        0
    } else {
        heartbeat_interval - elapsed_spec(last_active, now)
    }
}

/// Whole seconds in a nanosecond timestamp.
pub fn seconds_from_nanos(nanos: u64) -> (r: u64)
    ensures
        r == nanos / NANOS_PER_SECOND,
{
    nanos / NANOS_PER_SECOND
}

/// Seconds of silence between `last_active` and `now`.
pub fn elapsed(last_active: u64, now: u64) -> (r: u64)
    ensures
        r == elapsed_spec(last_active, now),
{
    if now >= last_active {
        now - last_active
    } else {
        0
    }
}

/// Whether an owner last active at `last_active` counts as gone at `now`.
pub fn is_expired(last_active: u64, heartbeat_interval: u64, now: u64) -> (r: bool)
    ensures
        r == expired_spec(last_active, heartbeat_interval, now),
        r <==> elapsed_spec(last_active, now) > heartbeat_interval,
        !r <==> elapsed_spec(last_active, now) <= heartbeat_interval,
{
    elapsed(last_active, now) > heartbeat_interval
}

/// Seconds left before the owner counts as gone; never negative.
pub fn time_remaining(last_active: u64, heartbeat_interval: u64, now: u64) -> (r: u64)
    ensures
        r == remaining_spec(last_active, heartbeat_interval, now),
{
    let e = elapsed(last_active, now);
    if e > heartbeat_interval {
        0
    } else {
        heartbeat_interval - e
    }
}

} // verus!
