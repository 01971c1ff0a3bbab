//! Clocks that tell the rate limiter the current time in seconds.

use std::sync::atomic::{AtomicU64, Ordering};
use std::sync::Arc;
use vstd::prelude::*;

verus! {

/// A source of the current UNIX time in whole seconds.
pub trait Clock: Send + Sync {
    fn unix_secs(&self) -> u64;
}

#[verifier::external_type_specification]
#[verifier::external_body]
pub struct ExSystemTime(std::time::SystemTime);

#[verifier::external_type_specification]
#[verifier::external_body]
pub struct ExSystemTimeError(std::time::SystemTimeError);

/// The machine's clock reading.
/// Trusted: `std::time::SystemTime::now`; nothing is claimed of the value,
/// which is the machine's time.
#[verifier::external_body]
fn system_now() -> std::time::SystemTime {
    std::time::SystemTime::now()
}

/// How long after the UNIX epoch a clock reading lies; an error for a
/// reading before the epoch.
/// Trusted: `SystemTime::duration_since` with `UNIX_EPOCH`; nothing is
/// claimed of the value, which depends on the machine's time.
#[verifier::external_body]
fn since_epoch(t: &std::time::SystemTime) -> Result<std::time::Duration, std::time::SystemTimeError> {
    t.duration_since(std::time::UNIX_EPOCH)
}

/// The whole seconds of a duration.
/// Trusted: `Duration::as_secs`; the duration is opaque here, so nothing is
/// claimed of the value.
#[verifier::external_body]
fn duration_secs(d: &std::time::Duration) -> u64 {
    d.as_secs()
}

/// The nanoseconds of a duration beyond its whole seconds.
/// Trusted: `Duration::subsec_nanos`, which std documents to be below one
/// billion; nothing else is claimed of the value.
#[verifier::external_body]
fn duration_subsec_nanos(d: &std::time::Duration) -> (n: u32)
    ensures
        n < 1_000_000_000,
{
    d.subsec_nanos()
}

/// The current UNIX time in whole seconds; 0 when the machine's clock reads
/// before the epoch, and `i64::MAX` past what `i64` holds.
pub(crate) fn utc_now_secs() -> (t: i64)
    ensures
        t >= 0,
{
    match since_epoch(&system_now()) {
        Ok(d) => {
            let secs = duration_secs(&d);
            if secs <= i64::MAX as u64 {
                secs as i64
            } else {
                i64::MAX
            }
        },
        Err(_) => 0,
    }
}

/// The nanoseconds of `secs` whole seconds and `subsec` more, when they
/// fit in `i64`.
pub fn nanos_of(secs: u64, subsec: u32) -> (r: Option<i64>)
    requires
        subsec < 1_000_000_000,
    ensures
        secs * 1_000_000_000 + subsec <= i64::MAX ==> r == Some((secs * 1_000_000_000 + subsec) as i64),
        secs * 1_000_000_000 + subsec > i64::MAX ==> r is None,
{
    let limit: u64 = i64::MAX as u64;
    if secs > (limit - subsec as u64) / 1_000_000_000 {
        assert(secs * 1_000_000_000 + subsec > i64::MAX) by (nonlinear_arith)
            requires
                secs > (limit - subsec as u64) / 1_000_000_000,
                limit == i64::MAX,
                subsec < 1_000_000_000,
        ;
        None
    } else {
        assert(secs * 1_000_000_000 + subsec <= i64::MAX) by (nonlinear_arith)
            requires
                secs <= (limit - subsec as u64) / 1_000_000_000,
                limit == i64::MAX,
                subsec < 1_000_000_000,
        ;
        Some((secs * 1_000_000_000 + subsec as u64) as i64)
    }
}

/// The current UNIX time in nanoseconds, when the machine's clock reads
/// after the epoch and the value fits in `i64`.
pub(crate) fn utc_now_nanos() -> (r: Option<i64>)
    ensures
        r matches Some(n) ==> n >= 0,
{
    match since_epoch(&system_now()) {
        Ok(d) => nanos_of(duration_secs(&d), duration_subsec_nanos(&d)),
        Err(_) => None,
    }
}

/// The machine's clock.
#[derive(Debug, Default, Clone, Copy)]
pub struct SystemClock;

impl Clock for SystemClock {
    /// The system time in seconds, or 0 when it lies before the epoch.
    fn unix_secs(&self) -> u64 {
        match since_epoch(&system_now()) {
            Ok(d) => duration_secs(&d),
            Err(_) => 0,
        }
    }
}

/// A hand-stepped clock shared between its clones, for tests.
#[derive(Debug, Clone, Default)]
pub struct TestClock {
    now: Arc<AtomicU64>,
}

impl TestClock {
    pub fn new(initial_secs: u64) -> (c: TestClock) {
        TestClock { now: Arc::new(AtomicU64::new(initial_secs)) }
    }

    /// Moves the shared time forward by `secs` (wrapping like the atomic it is).
    pub fn advance(&self, secs: u64) {
        self.now.fetch_add(secs, Ordering::SeqCst);
    }

    /// Sets the shared time to `secs`.
    pub fn set(&self, secs: u64) {
        self.now.store(secs, Ordering::SeqCst);
    }
}

impl Clock for TestClock {
    fn unix_secs(&self) -> u64 {
        self.now.load(Ordering::SeqCst)
    }
}

} // verus!
