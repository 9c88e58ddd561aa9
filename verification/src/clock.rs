use std::time::SystemTime;
use vstd::prelude::*;

verus! {

/// Nanoseconds in a second.
pub const NANOS_PER_SEC: i128 = 1_000_000_000;

/// The earliest second, counted from the Unix epoch, of a `chrono::DateTime<Utc>`
/// (the first second of the year -262143).
pub const MIN_TIMESTAMP_SECS: i64 = -8_334_601_315_200;

/// The latest second, counted from the Unix epoch, of a `chrono::DateTime<Utc>`
/// (the last second of the year 262142).
pub const MAX_TIMESTAMP_SECS: i64 = 8_210_266_876_799;

/// The earliest instant chrono represents, in nanoseconds since the Unix epoch.
pub const MIN_INSTANT_NANOS: i128 = -8_334_601_315_200_000_000_000;

/// The latest instant chrono represents, in nanoseconds since the Unix epoch.
pub const MAX_INSTANT_NANOS: i128 = 8_210_266_876_799_999_999_999;

/// Whether `n` nanoseconds since the epoch is an instant chrono can represent.
pub open spec fn in_clock_range(n: int) -> bool {
    MIN_INSTANT_NANOS <= n <= MAX_INSTANT_NANOS
}

/// An instant that a `chrono::DateTime<Utc>` can hold, kept as nanoseconds since
/// the Unix epoch.
#[derive(Clone, Copy, Debug, PartialEq, Eq)]
pub struct Instant {
    nanos: i128,
}

impl View for Instant {
    type V = int;

    closed spec fn view(&self) -> int {
        self.nanos as int
    }
}

/// Why an operation that reads the clock did not go through.
#[derive(Clone, Copy, Debug, PartialEq, Eq)]
pub enum TimeError {
    /// The system clock lies before the Unix epoch or beyond chrono's range.
    ClockUnavailable,
    /// A count would leave its range (an `i64`, or chrono's instants).
    OutOfRange,
}

impl Instant {
    #[verifier::type_invariant]
    spec fn in_range(self) -> bool {
        MIN_INSTANT_NANOS <= self.nanos <= MAX_INSTANT_NANOS
    }

    /// The instant `n` nanoseconds after the epoch, when chrono can represent it.
    pub fn from_nanos(n: i128) -> (r: Option<Instant>)
        ensures
            r is Some <==> in_clock_range(n as int),
            r matches Some(i) ==> i@ == n,
    {
        if MIN_INSTANT_NANOS <= n && n <= MAX_INSTANT_NANOS {
            Some(Instant { nanos: n })
        } else {
            None
        }
    }

    /// The Unix epoch itself.
    pub fn epoch() -> (i: Instant)
        ensures
            i@ == 0,
    {
        Instant { nanos: 0 }
    }

    /// Nanoseconds since the epoch.
    pub fn nanos(&self) -> (n: i128)
        ensures
            n == self@,
            in_clock_range(n as int),
    {
        proof {
            use_type_invariant(self);
        }
        self.nanos
    }

    /// The instant `secs` whole seconds earlier, as `DateTime - TimeDelta::seconds`
    /// gives it: none where chrono panics (more than `i64::MAX / 1000` seconds, or
    /// an instant before chrono's earliest).
    pub fn seconds_earlier(&self, secs: u64) -> (r: Option<Instant>)
        ensures
            r is Some <==> secs <= i64::MAX / 1000 && in_clock_range(self@ - secs * NANOS_PER_SEC),
            r matches Some(i) ==> i@ == self@ - secs * NANOS_PER_SEC,
    {
        let n = self.nanos();
        if secs > 9_223_372_036_854_775 {
            return None;
        }
        let back: i128 = (secs as i128) * NANOS_PER_SEC;
        Instant::from_nanos(n - back)
    }
}

/// Whole seconds from `earlier` to `later` (both in nanoseconds), truncated
/// toward zero, as `chrono::TimeDelta::num_seconds` counts them.
pub open spec fn whole_seconds_between(later: int, earlier: int) -> int {
    let d = later - earlier;
    if d >= 0 {
        d / 1_000_000_000
    } else {
        -((-d) / 1_000_000_000)
    }
}

/// Whole seconds a timer started at `started` has been running at `now`, never
/// negative (a clock that went backwards counts as zero).
pub open spec fn running_seconds(now: int, started: int) -> int {
    if now - started >= 0 {
        (now - started) / 1_000_000_000
    } else {
        0
    }
}

/// Whole seconds from `earlier` to `later`, truncated toward zero.
pub fn seconds_between(later: Instant, earlier: Instant) -> (r: i64)
    ensures
        r == whole_seconds_between(later@, earlier@),
{
    let d: i128 = later.nanos() - earlier.nanos();
    if d >= 0 {
        let q: i128 = d / NANOS_PER_SEC;
        q as i64
    } else {
        let q: i128 = (-d) / NANOS_PER_SEC;
        -(q as i64)
    }
}

/// Whole seconds a timer started at `started` has been running at `now`,
/// clamped at zero.
pub fn elapsed_since(now: Instant, started: Instant) -> (r: i64)
    ensures
        r == running_seconds(now@, started@),
        0 <= r,
{
    let d: i128 = now.nanos() - started.nanos();
    if d >= 0 {
        let q: i128 = d / NANOS_PER_SEC;
        q as i64
    } else {
        0
    }
}

#[verifier::external_type_specification]
#[verifier::external_body]
pub struct ExSystemTime(SystemTime);

/// Reads the system clock with `std::time::SystemTime::now`.
///
/// Trusted with no claim on the result: it depends on the machine's clock.
#[verifier::external_body]
fn system_time_now() -> SystemTime {
    SystemTime::now()
}

/// `SystemTime::duration_since(UNIX_EPOCH)` of std, as whole seconds and the
/// nanoseconds past them; none when `t` lies before the epoch (std's error).
///
/// Trusted: std documents `Duration::subsec_nanos` as less than one billion.
/// Which duration comes back depends on `t`, an opaque value, and is not stated.
#[verifier::external_body]
fn since_unix_epoch(t: &SystemTime) -> (r: Option<(u64, u32)>)
    ensures
        r matches Some(p) ==> p.1 < 1_000_000_000,
{
    match t.duration_since(std::time::UNIX_EPOCH) {
        Ok(d) => Some((d.as_secs(), d.subsec_nanos())),
        Err(_) => None,
    }
}

/// `chrono::DateTime::<Utc>::from_timestamp(secs, nanos)`, given back as its
/// `timestamp()` and `timestamp_subsec_nanos()`.
///
/// Trusted: chrono returns none for seconds outside its range or an invalid
/// nanosecond, and a result round-trips to the same seconds and nanoseconds (as
/// its documentation guarantees); seconds within its range with fewer than a
/// billion nanoseconds always give a result.
#[verifier::external_body]
fn chrono_timestamp(secs: i64, nanos: u32) -> (r: Option<(i64, u32)>)
    ensures
        r matches Some(p) ==> p == (secs, nanos) && MIN_TIMESTAMP_SECS <= secs
            <= MAX_TIMESTAMP_SECS,
        MIN_TIMESTAMP_SECS <= secs <= MAX_TIMESTAMP_SECS && nanos < 1_000_000_000 ==> r is Some,
{
    match chrono::DateTime::<chrono::Utc>::from_timestamp(secs, nanos) {
        Some(t) => Some((t.timestamp(), t.timestamp_subsec_nanos())),
        None => None,
    }
}

/// The instant chrono makes of a system time `secs` seconds and `nanos`
/// nanoseconds past the epoch, the seconds taken `as i64` as `Utc::now` takes
/// them: none outside chrono's range.
pub open spec fn unix_instant(secs: u64, nanos: u32) -> Option<int> {
    let s = secs as i64;
    if MIN_TIMESTAMP_SECS <= s <= MAX_TIMESTAMP_SECS {
        Some(s as int * NANOS_PER_SEC + nanos as int)
    } else {
        None
    }
}

/// The instant of a system time `secs` seconds and `nanos` nanoseconds past the
/// epoch, made by `chrono::DateTime::from_timestamp` as `Utc::now` makes it;
/// none where `Utc::now` would panic (outside chrono's range).
pub fn instant_from_unix(secs: u64, nanos: u32) -> (r: Option<Instant>)
    requires
        nanos < 1_000_000_000,
    ensures
        r is None <==> unix_instant(secs, nanos) is None,
        r matches Some(i) ==> unix_instant(secs, nanos) == Some(i@),
{
    #[verifier::truncate]
    let s: i64 = secs as i64;
    match chrono_timestamp(s, nanos) {
        None => None,
        Some((cs, cn)) => {
            let n: i128 = (cs as i128) * NANOS_PER_SEC + (cn as i128);
            Instant::from_nanos(n)
        },
    }
}

/// Reads the current instant as `chrono::Utc::now` does: the system time since
/// the epoch, made an instant by `instant_from_unix`. None where `Utc::now`
/// would panic: a system time before the epoch or beyond chrono's range. Which
/// system time it reads depends on the machine.
pub fn now() -> (r: Option<Instant>)
    ensures
        r matches Some(i) ==> exists|secs: u64, nanos: u32|
            nanos < 1_000_000_000 && #[trigger] unix_instant(secs, nanos) == Some(i@),
{
    let t = system_time_now();
    match since_unix_epoch(&t) {
        None => None,
        Some((secs, nanos)) => instant_from_unix(secs, nanos),
    }
}

} // verus!
