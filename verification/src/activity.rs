use vstd::prelude::*;

use crate::clock::{now, Instant, TimeError};
use crate::models::ActivityStats;

verus! {

/// Seconds between two polls of the system idle time.
pub const POLL_INTERVAL_SECS: u64 = 2;

/// The user counts as active when the system saw input less than one poll
/// interval plus a second ago.
pub open spec fn user_active(idle_ms: u64) -> bool {
    idle_ms / 1000 < POLL_INTERVAL_SECS + 1
}

/// Whether a poll that found the system idle for `idle_ms` milliseconds saw the
/// user active.
pub fn user_is_active(idle_ms: u64) -> (r: bool)
    ensures
        r == user_active(idle_ms),
{
    idle_ms / 1000 < 3
}

/// Counts the polled seconds as active or idle.
#[derive(Clone, Debug, PartialEq, Eq)]
pub struct ActivityTracker {
    pub active_secs: i64,
    pub idle_secs: i64,
    pub last_activity_at: Instant,
}

impl ActivityTracker {
    /// Nothing counted yet; the last activity is `now`.
    pub fn new_at(now: Instant) -> (t: Self)
        ensures
            t.active_secs == 0,
            t.idle_secs == 0,
            t.last_activity_at == now,
    {
        ActivityTracker { active_secs: 0, idle_secs: 0, last_activity_at: now }
    }

    /// Nothing counted yet; the last activity is the current instant. Fails with
    /// `ClockUnavailable` when the system clock cannot be read as an instant.
    pub fn new() -> (r: Result<Self, TimeError>)
        ensures
            r matches Ok(t) ==> t.active_secs == 0 && t.idle_secs == 0,
            r matches Err(e) ==> e == TimeError::ClockUnavailable,
    {
        match now() {
            Some(t) => Ok(Self::new_at(t)),
            None => Err(TimeError::ClockUnavailable),
        }
    }

    /// The counted seconds and their sum.
    pub fn stats(&self) -> (s: ActivityStats)
        requires
            i64::MIN <= self.active_secs + self.idle_secs <= i64::MAX,
        ensures
            s.active_secs == self.active_secs,
            s.idle_secs == self.idle_secs,
            s.total_secs == self.active_secs + self.idle_secs,
    {
        ActivityStats {
            active_secs: self.active_secs,
            idle_secs: self.idle_secs,
            total_secs: self.active_secs + self.idle_secs,
        }
    }

    /// Whether `stats` stays within `i64`.
    pub fn stats_fit(&self) -> (r: bool)
        ensures
            r == (i64::MIN <= self.active_secs + self.idle_secs <= i64::MAX),
    {
        let sum: i128 = self.active_secs as i128 + self.idle_secs as i128;
        i64::MIN as i128 <= sum && sum <= i64::MAX as i128
    }

    /// Counting one poll stays within `i64`.
    pub open spec fn record_fits(&self, was_idle: bool) -> bool {
        if was_idle {
            self.idle_secs + POLL_INTERVAL_SECS <= i64::MAX
        } else {
            self.active_secs + POLL_INTERVAL_SECS <= i64::MAX
        }
    }

    /// A poll that counts toward the active seconds and saw recent input: only
    /// then is the clock read.
    pub open spec fn marks_activity(was_idle: bool, user_active: bool) -> bool {
        !was_idle && user_active
    }

    /// What counting one poll does: the poll interval goes to the idle seconds
    /// when an idle period was under way, else to the active seconds, and then a
    /// poll that saw recent input makes `now` the last activity.
    pub open spec fn recorded(
        old: Self,
        new: Self,
        was_idle: bool,
        user_active: bool,
        now: Instant,
    ) -> bool {
        if was_idle {
            &&& new.idle_secs == old.idle_secs + POLL_INTERVAL_SECS
            &&& new.active_secs == old.active_secs
            &&& new.last_activity_at == old.last_activity_at
        } else {
            &&& new.active_secs == old.active_secs + POLL_INTERVAL_SECS
            &&& new.idle_secs == old.idle_secs
            &&& new.last_activity_at == if user_active {
                now
            } else {
                old.last_activity_at
            }
        }
    }

    /// Whether `record_poll` stays within `i64`.
    pub fn record_fits_exec(&self, was_idle: bool) -> (r: bool)
        ensures
            r == self.record_fits(was_idle),
    {
        if was_idle {
            self.idle_secs <= i64::MAX - 2
        } else {
            self.active_secs <= i64::MAX - 2
        }
    }

    /// Counts one poll at `now`; see `recorded`.
    pub fn record_poll(&mut self, was_idle: bool, user_active: bool, now: Instant)
        requires
            old(self).record_fits(was_idle),
        ensures
            Self::recorded(*old(self), *final(self), was_idle, user_active, now),
    {
        if was_idle {
            self.idle_secs = self.idle_secs + 2;
        } else {
            self.active_secs = self.active_secs + 2;
            if user_active {
                self.last_activity_at = now;
            }
        }
    }

    /// Counts one poll that found the system idle for `idle_ms` milliseconds,
    /// reading the clock only when the poll marks activity. Nothing changes on
    /// an error: `OutOfRange` when the count would leave `i64`, `ClockUnavailable`
    /// when the clock was needed and could not be read.
    pub fn record_current_poll(&mut self, was_idle: bool, idle_ms: u64) -> (r: Result<
        (),
        TimeError,
    >)
        ensures
            match r {
                Ok(()) => exists|now: Instant|
                    #[trigger] Self::recorded(
                        *old(self),
                        *final(self),
                        was_idle,
                        user_active(idle_ms),
                        now,
                    ),
                Err(e) => {
                    &&& *final(self) == *old(self)
                    &&& e == TimeError::OutOfRange <==> !old(self).record_fits(was_idle)
                    &&& e == TimeError::ClockUnavailable ==> Self::marks_activity(
                        was_idle,
                        user_active(idle_ms),
                    )
                },
            },
    {
        if !self.record_fits_exec(was_idle) {
            return Err(TimeError::OutOfRange);
        }
        let active = user_is_active(idle_ms);
        let at = if !was_idle && active {
            match now() {
                Some(t) => t,
                None => return Err(TimeError::ClockUnavailable),
            }
        } else {
            self.last_activity_at
        };
        self.record_poll(was_idle, active, at);
        Ok(())
    }
}

} // verus!
