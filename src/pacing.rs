//! Turning an aggregate operation rate into a per-thread cadence.
use vstd::prelude::*;

verus! {

/// Nanoseconds in one second.
pub const NANOS_PER_SECOND: u128 = 1_000_000_000;

/// The gap between two operations of one thread, in nanoseconds, when
/// `threads` threads share `rate` operations per second.
pub open spec fn gap_of(threads: u64, rate: u64) -> int
    recommends
        rate > 0,
{
    (threads as int * 1_000_000_000) / (rate as int)
}

/// Per-thread gap between operations so that `threads` threads together make
/// `rate_per_second` operations per second; `None` when the rate is zero,
/// meaning that the operation is not run at all.
pub fn gap_nanos(threads: u64, rate_per_second: u64) -> (r: Option<u128>)
    ensures
        rate_per_second == 0 ==> r is None,
        rate_per_second > 0 ==> r == Some(gap_of(threads, rate_per_second) as u128),
{
    if rate_per_second == 0 {
        None
    } else {
        assert(threads as u128 * NANOS_PER_SECOND <= u64::MAX as u128 * 1_000_000_000)
            by (nonlinear_arith);
        Some(threads as u128 * NANOS_PER_SECOND / rate_per_second as u128)
    }
}

/// The number of operations that each of `threads` threads makes out of a
/// total of `total`; the remainder of the division is not run.
pub fn ops_per_thread(total: u64, threads: u64) -> (r: u64)
    requires
        threads > 0,
    ensures
        r == total / threads,
        r * threads <= total,
        total - r * threads < threads,
{
    let r = total / threads;
    assert(r * threads <= total && total - r * threads < threads) by (nonlinear_arith)
        requires
            r == total / threads,
            threads > 0,
    ;
    r
}

/// The largest number of nanoseconds a `Duration` holds: its whole seconds
/// are a `u64`, its remaining nanoseconds below one second.
pub open spec fn max_duration_nanos() -> int {
    u64::MAX as int * 1_000_000_000 + 999_999_999
}

/// Relies on `SystemTime::elapsed` on the Unix epoch: the time since then.
/// It fails only if the clock reads earlier than the epoch, which is treated
/// as fatal.
#[verifier::external_body]
fn elapsed_since_epoch() -> std::time::Duration {
    std::time::UNIX_EPOCH.elapsed().unwrap()
}

/// Relies on `Duration::as_secs`: the whole seconds of a duration.
#[verifier::external_body]
fn whole_seconds(d: &std::time::Duration) -> u64 {
    d.as_secs()
}

/// Relies on `Duration::subsec_nanos`: the nanoseconds past the whole
/// seconds, always less than one second.
#[verifier::external_body]
fn subsec_nanos(d: &std::time::Duration) -> (r: u32)
    ensures
        r < 1_000_000_000,
{
    d.subsec_nanos()
}

/// A duration of `secs` seconds and `nanos` nanoseconds, in nanoseconds.
pub fn duration_nanos(secs: u64, nanos: u32) -> (r: u128)
    requires
        nanos < 1_000_000_000,
    ensures
        r == secs * 1_000_000_000 + nanos,
        r <= max_duration_nanos(),
{
    assert(secs as u128 * NANOS_PER_SECOND <= u64::MAX as u128 * 1_000_000_000) by (nonlinear_arith);
    secs as u128 * NANOS_PER_SECOND + nanos as u128
}

/// The wall clock in nanoseconds since the Unix epoch.
pub fn unix_timestamp_nanos() -> (r: u128)
    ensures
        r <= max_duration_nanos(),
{
    let d = elapsed_since_epoch();
    duration_nanos(whole_seconds(&d), subsec_nanos(&d))
}

/// The schedule of one worker thread: the time at which its next operation
/// is due, and the constant gap by which that time advances.
pub struct Pacer {
    pub next: u128,
    pub gap: u128,
}

impl Pacer {
    /// A schedule whose first operation is due at `start`.
    pub fn new(start: u128, gap: u128) -> (r: Pacer)
        ensures
            r.next == start,
            r.gap == gap,
    {
        Pacer { next: start, gap }
    }

    /// How long to sleep, at time `now`, before the next operation: the time
    /// left until it is due, or zero when it is already due or overdue.
    pub fn delay_before(&self, now: u128) -> (r: u128)
        ensures
            now < self.next ==> r == self.next - now,
            now >= self.next ==> r == 0,
    {
        if now < self.next {
            self.next - now
        } else {
            0
        }
    }

    /// Marks one operation as done: the next one is due one gap later than
    /// this one was, however long the sleep or the operation took.
    pub fn advance(&mut self)
        requires
            old(self).next + old(self).gap <= u128::MAX,
        ensures
            final(self).next == old(self).next + old(self).gap,
            final(self).gap == old(self).gap,
    {
        self.next = self.next + self.gap;
    }
}

} // verus!
