//! Clocks: the system clock, and a simulated one for tests.
use vstd::prelude::*;

verus! {

/// A source of the current time.
pub trait TimeProvider: Send + Sync {
    /// Current time in seconds since the Unix epoch.
    fn now_secs(&self) -> u64;

    /// Current time in milliseconds since the Unix epoch.
    fn now_millis(&self) -> u64;
}

/// A clock that shows whatever time it is set to, for tests. It is a plain
/// value with one owner: it has no `Clone`, since a copy would be a second,
/// independent clock. Where several holders must read one clock, they share
/// a single value of this type behind a lock.
#[derive(Debug)]
pub struct MockTimeProvider {
    /// The time it shows, in milliseconds since the epoch
    pub current_time_ms: u64,
}

impl MockTimeProvider {
    /// A clock showing `initial_time_ms`.
    pub fn new(initial_time_ms: u64) -> (p: Self)
        ensures
            p.current_time_ms == initial_time_ms,
    {
        MockTimeProvider { current_time_ms: initial_time_ms }
    }

    /// Sets the clock to `time_ms`.
    pub fn set_time(&mut self, time_ms: u64)
        ensures
            final(self).current_time_ms == time_ms,
    {
        self.current_time_ms = time_ms;
    }

    /// Moves the clock forward by `delta_ms` milliseconds.
    pub fn advance(&mut self, delta_ms: u64)
        requires
            old(self).current_time_ms + delta_ms <= u64::MAX,
        ensures
            final(self).current_time_ms == old(self).current_time_ms + delta_ms,
    {
        self.current_time_ms = self.current_time_ms + delta_ms;
    }

    /// Moves the clock forward by `delta_secs` seconds.
    pub fn advance_secs(&mut self, delta_secs: u64)
        requires
            old(self).current_time_ms + delta_secs * 1000 <= u64::MAX,
        ensures
            final(self).current_time_ms == old(self).current_time_ms + delta_secs * 1000,
    {
        self.advance(delta_secs * 1000);
    }

    /// The time shown, in milliseconds.
    pub fn get_time_ms(&self) -> (t: u64)
        ensures
            t == self.current_time_ms,
    {
        self.current_time_ms
    }
}

impl TimeProvider for MockTimeProvider {
    /// The time shown, in whole seconds (milliseconds rounded down).
    fn now_secs(&self) -> (s: u64)
        ensures
            s == self.current_time_ms / 1000,
    {
        self.get_time_ms() / 1000
    }

    /// The time shown, in milliseconds.
    fn now_millis(&self) -> (ms: u64)
        ensures
            ms == self.current_time_ms,
    {
        self.get_time_ms()
    }
}

impl Default for MockTimeProvider {
    /// A clock showing the epoch.
    fn default() -> (p: Self)
        ensures
            p.current_time_ms == 0,
    {
        Self::new(0)
    }
}

/// The system clock's type, `std::time::SystemTime`.
#[verifier::external_type_specification]
#[verifier::external_body]
pub struct ExSystemTime(std::time::SystemTime);

/// `std::time::SystemTime::now()`: what the system clock reads now. It
/// depends on when it is called; nothing is claimed of it.
#[verifier::external_body]
fn system_now() -> (t: std::time::SystemTime) {
    std::time::SystemTime::now()
}

/// `SystemTime::duration_since(UNIX_EPOCH)`: how long after the Unix epoch
/// `t` is, or `None` where std reports an error, which it documents for a
/// `t` before the epoch. Nothing is claimed of the duration here: its parts
/// are read by `whole_secs` and `subsec_millis`.
#[verifier::external_body]
fn since_unix_epoch(t: &std::time::SystemTime) -> (d: Option<core::time::Duration>) {
    t.duration_since(std::time::UNIX_EPOCH).ok()
}

/// `Duration::as_secs`: the whole seconds of `d`. Nothing is claimed of
/// the value, since the duration itself is opaque here.
#[verifier::external_body]
fn whole_secs(d: &core::time::Duration) -> (secs: u64) {
    d.as_secs()
}

/// `Duration::subsec_millis`: the whole milliseconds of `d` beyond its
/// whole seconds, which std documents as always less than 1000.
#[verifier::external_body]
fn subsec_millis(d: &core::time::Duration) -> (ms: u32)
    ensures
        ms < 1000,
{
    d.subsec_millis()
}

/// The system clock, as whole seconds since the epoch and the milliseconds
/// of the second under way (below 1000); a clock that reads a time before
/// the epoch reads as the epoch itself, `(0, 0)`.
fn read_system_clock() -> (t: (u64, u32))
    ensures
        t.1 < 1000,
{
    let now = system_now();
    match since_unix_epoch(&now) {
        Some(since_epoch) => (whole_secs(&since_epoch), subsec_millis(&since_epoch)),
        None => (0, 0),
    }
}

/// Milliseconds since the epoch for a clock reading of `secs` whole seconds
/// and `subsec_millis` milliseconds, truncated to 64 bits (as a `u128`
/// millisecond count cast to `u64` is).
pub fn millis_from_clock(secs: u64, subsec_millis: u32) -> (ms: u64)
    requires
        subsec_millis < 1000,
    ensures
        ms == (secs * 1000 + subsec_millis) % 0x1_0000_0000_0000_0000,
{
    let total: u128 = (secs as u128) * 1000 + (subsec_millis as u128);
    assert((total as u64) as int == total % 0x1_0000_0000_0000_0000) by (bit_vector);
    #[verifier::truncate]
    (total as u64)
}

/// The real clock.
#[derive(Debug, Clone, Copy)]
pub struct SystemTimeProvider;

impl SystemTimeProvider {
    /// The system clock.
    pub fn new() -> (p: Self) {
        SystemTimeProvider
    }
}

impl Default for SystemTimeProvider {
    /// The system clock.
    fn default() -> (p: Self) {
        Self::new()
    }
}

impl TimeProvider for SystemTimeProvider {
    /// Whole seconds since the epoch, as the system clock reads now (0 for a
    /// clock before the epoch).
    fn now_secs(&self) -> (s: u64) {
        let (secs, _subsec_millis) = read_system_clock();
        secs
    }

    /// Milliseconds since the epoch, as the system clock reads now (0 for a
    /// clock before the epoch).
    fn now_millis(&self) -> (ms: u64) {
        let (secs, subsec_millis) = read_system_clock();
        millis_from_clock(secs, subsec_millis)
    }
}

/// The current time in milliseconds since the epoch (0 for a clock before
/// the epoch).
pub fn current_time_ms() -> (ms: u64) {
    let (secs, subsec_millis) = read_system_clock();
    millis_from_clock(secs, subsec_millis)
}

} // verus!
