//! The transaction ids that the schema catalog writes are stamped with.
use std::time::{Duration, SystemTime, UNIX_EPOCH};
use vstd::prelude::*;

verus! {

/// `std::time::SystemTime`, a reading of the system clock, carried as an opaque value.
#[verifier::external_type_specification]
#[verifier::external_body]
pub struct ExSystemTime(SystemTime);

/// `SystemTime::now`: the current time of the system clock.
#[verifier::external_body]
fn system_time_now() -> SystemTime {
    SystemTime::now()
}

/// `SystemTime::duration_since(UNIX_EPOCH)`: the time elapsed since the Unix
/// epoch, `None` when `t` lies before it.
#[verifier::external_body]
fn duration_since_unix_epoch(t: &SystemTime) -> Option<Duration> {
    t.duration_since(UNIX_EPOCH).ok()
}

/// `Duration::as_nanos`: the whole duration in nanoseconds.
#[verifier::external_body]
fn duration_as_nanos(d: &Duration) -> u128 {
    d.as_nanos()
}

/// A nanosecond count clamped to `u64`.
pub fn clamp_nanos(nanos: u128) -> (r: u64)
    ensures
        r == if nanos > u64::MAX { u64::MAX as u128 } else { nanos },
{
    if nanos > u64::MAX as u128 {
        u64::MAX
    } else {
        nanos as u64
    }
}

/// The current time in nanoseconds since the Unix epoch, clamped to `u64`;
/// 0 for a clock set before the epoch.
pub fn now_catalog_xid() -> u64 {
    let now = system_time_now();
    let nanos = match duration_since_unix_epoch(&now) {
        Some(d) => duration_as_nanos(&d),
        None => 0,
    };
    clamp_nanos(nanos)
}

/// The last catalog transaction id handed out.
pub struct CatalogXidClock {
    next: u64,
}

impl CatalogXidClock {
    pub closed spec fn spec_last(&self) -> u64 {
        self.next
    }

    /// A clock whose last id is `start`.
    pub fn new(start: u64) -> (r: Self)
        ensures
            r.spec_last() == start,
    {
        CatalogXidClock { next: start }
    }

    /// The next catalog transaction id, given the current time `now`: the
    /// later of `now` and one past the last id (saturating at `u64::MAX`).
    pub fn next_catalog_xid(&mut self, now: u64) -> (r: u64)
        ensures
            r == if now > (if old(self).spec_last() == u64::MAX { u64::MAX } else { (old(self).spec_last() + 1) as u64 }) {
                now
            } else {
                if old(self).spec_last() == u64::MAX { u64::MAX } else { (old(self).spec_last() + 1) as u64 }
            },
            final(self).spec_last() == r,
    {
        let after = self.next.saturating_add(1);
        let candidate = if now > after {
            now
        } else {
            after
        };
        self.next = candidate;
        candidate
    }
}

/// Catalog transaction ids increase: each id handed out is greater than the
/// one before, unless the last id was already `u64::MAX`.
pub proof fn lemma_catalog_xids_increase(last: u64, now: u64, r: u64)
    requires
        r == if now > (if last == u64::MAX { u64::MAX } else { (last + 1) as u64 }) {
            now
        } else {
            if last == u64::MAX { u64::MAX } else { (last + 1) as u64 }
        },
    ensures
        last < u64::MAX ==> r > last,
        r >= now,
{
}

} // verus!
