use vstd::prelude::*;

use crate::activity::{user_active, user_is_active};
use crate::clock::{now, seconds_between, whole_seconds_between, Instant, TimeError, NANOS_PER_SEC, in_clock_range};
use crate::models::IdleEvent;

verus! {

/// What a poll asks of the caller.
#[derive(Clone, Debug, PartialEq, Eq)]
pub enum IdleDecision {
    /// Nothing to do.
    Nothing,
    /// The user came back from an idle period; the event is there when a task
    /// was paused for it.
    Returned(Option<IdleEvent>),
    /// The idle threshold was reached: the running timer, if any, must be stopped
    /// and reported with `record_pause`.
    WentIdle,
}

/// Watches the system idle time and pauses the running timer when the user
/// leaves.
#[derive(Clone, Debug, PartialEq, Eq)]
pub struct IdleMonitor {
    pub threshold_secs: u64,
    pub is_idle: bool,
    pub idle_started_at: Option<Instant>,
    pub paused_task_id: Option<i64>,
    pub paused_task_name: Option<String>,
}

impl IdleMonitor {
    /// Outside an idle period nothing is recorded; inside one its start is known;
    /// a paused task has both an id and a name.
    pub open spec fn well_formed(&self) -> bool {
        &&& !self.is_idle ==> self.idle_started_at is None && self.paused_task_id is None
        &&& self.is_idle ==> self.idle_started_at is Some
        &&& self.paused_task_id.is_some() == self.paused_task_name.is_some()
    }

    /// The monitor is back outside an idle period.
    pub open spec fn is_reset(&self, threshold_secs: u64) -> bool {
        &&& self.threshold_secs == threshold_secs
        &&& !self.is_idle
        &&& self.idle_started_at is None
        &&& self.paused_task_id is None
        &&& self.paused_task_name is None
    }

    /// When an idle period that began `idle_ms` before `now` started, in
    /// nanoseconds since the epoch: `now` less the whole idle seconds.
    pub open spec fn idle_start(idle_ms: u64, now: Instant) -> int {
        now@ - (idle_ms / 1000) as int * NANOS_PER_SEC
    }

    /// This poll reaches the idle threshold outside an idle period.
    pub open spec fn goes_idle(&self, idle_ms: u64) -> bool {
        !user_active(idle_ms) && !self.is_idle && idle_ms / 1000 >= self.threshold_secs
    }

    /// This poll ends an idle period.
    pub open spec fn comes_back(&self, idle_ms: u64) -> bool {
        user_active(idle_ms) && self.is_idle
    }

    /// The start of an idle period begun at this poll is an instant chrono can
    /// hold (`chrono::TimeDelta::seconds` takes at most `i64::MAX / 1000` seconds,
    /// and the instant must not lie before chrono's earliest one).
    pub open spec fn start_fits(&self, idle_ms: u64, now: Instant) -> bool {
        self.goes_idle(idle_ms) ==> idle_ms / 1000 <= i64::MAX / 1000 && in_clock_range(
            Self::idle_start(idle_ms, now),
        )
    }

    /// The event reported when the user comes back at `now`.
    pub open spec fn return_event(&self, now: Instant) -> Option<IdleEvent> {
        match (self.paused_task_id, self.paused_task_name) {
            (Some(id), Some(name)) => Some(
                IdleEvent {
                    idle_duration_secs: match self.idle_started_at {
                        Some(s) => whole_seconds_between(now@, s@) as i64,
                        None => 0,
                    },
                    task_id: id,
                    task_name: name,
                },
            ),
            _ => None,
        }
    }

    /// What one poll does to the monitor and what it asks for.
    pub open spec fn poll_outcome(
        old: Self,
        new: Self,
        idle_ms: u64,
        now: Instant,
        decision: IdleDecision,
    ) -> bool {
        if user_active(idle_ms) {
            if old.is_idle {
                decision == IdleDecision::Returned(old.return_event(now)) && new.is_reset(
                    old.threshold_secs,
                )
            } else {
                decision == IdleDecision::Nothing && new == old
            }
        } else if old.goes_idle(idle_ms) {
            &&& decision == IdleDecision::WentIdle
            &&& new.is_idle
            &&& new.idle_started_at matches Some(s) && s@ == Self::idle_start(idle_ms, now)
            &&& new.threshold_secs == old.threshold_secs
            &&& new.paused_task_id == old.paused_task_id
            &&& new.paused_task_name == old.paused_task_name
        } else {
            decision == IdleDecision::Nothing && new == old
        }
    }

    /// Not idle, with the given threshold in seconds.
    pub fn new(threshold_secs: u64) -> (m: Self)
        ensures
            m.is_reset(threshold_secs),
            m.well_formed(),
    {
        IdleMonitor {
            threshold_secs,
            is_idle: false,
            idle_started_at: None,
            paused_task_id: None,
            paused_task_name: None,
        }
    }

    /// The start of the idle period a poll at `now` would begin; none where it
    /// does not fit (see `start_fits`).
    fn idle_start_exec(idle_ms: u64, now: Instant) -> (r: Option<Instant>)
        ensures
            r is Some <==> idle_ms / 1000 <= i64::MAX / 1000 && in_clock_range(
                Self::idle_start(idle_ms, now),
            ),
            r matches Some(s) ==> s@ == Self::idle_start(idle_ms, now),
    {
        now.seconds_earlier(idle_ms / 1000)
    }

    /// Whether `observe_at` stays within range (see `start_fits`).
    pub fn start_fits_exec(&self, idle_ms: u64, now: Instant) -> (r: bool)
        ensures
            r == self.start_fits(idle_ms, now),
    {
        let secs: u64 = idle_ms / 1000;
        if secs >= 3 && !self.is_idle && secs >= self.threshold_secs {
            Self::idle_start_exec(idle_ms, now).is_some()
        } else {
            true
        }
    }

    /// Decides one poll at `now` that found the system idle for `idle_ms`
    /// milliseconds: input within the last poll interval ends an idle period and
    /// reports the paused task with the whole seconds since the period began;
    /// reaching the threshold outside an idle period starts one, dated back by the
    /// idle seconds. The poll is counted separately, by `ActivityTracker`.
    pub fn observe_at(&mut self, idle_ms: u64, now: Instant) -> (decision: IdleDecision)
        requires
            old(self).start_fits(idle_ms, now),
        ensures
            Self::poll_outcome(*old(self), *final(self), idle_ms, now, decision),
            old(self).well_formed() ==> final(self).well_formed(),
    {
        let secs: u64 = idle_ms / 1000;
        if user_is_active(idle_ms) {
            if self.is_idle {
                let idle_secs: i64 = match self.idle_started_at {
                    Some(s) => seconds_between(now, s),
                    None => 0,
                };
                let name = self.paused_task_name.take();
                let event = match (self.paused_task_id, name) {
                    (Some(id), Some(n)) => Some(
                        IdleEvent { idle_duration_secs: idle_secs, task_id: id, task_name: n },
                    ),
                    _ => None,
                };
                self.is_idle = false;
                self.idle_started_at = None;
                self.paused_task_id = None;
                IdleDecision::Returned(event)
            } else {
                IdleDecision::Nothing
            }
        } else if !self.is_idle && secs >= self.threshold_secs {
            let start = Self::idle_start_exec(idle_ms, now).unwrap();
            self.idle_started_at = Some(start);
            self.is_idle = true;
            IdleDecision::WentIdle
        } else {
            IdleDecision::Nothing
        }
    }

    /// `observe_at` on the current clock, read only when the poll ends or begins
    /// an idle period. Nothing changes on an error: `ClockUnavailable` when the
    /// clock was needed and could not be read, `OutOfRange` when the start of the
    /// idle period does not fit (see `start_fits`).
    pub fn observe(&mut self, idle_ms: u64) -> (r: Result<IdleDecision, TimeError>)
        ensures
            match r {
                Ok(decision) => exists|now: Instant|
                    #[trigger] Self::poll_outcome(
                        *old(self),
                        *final(self),
                        idle_ms,
                        now,
                        decision,
                    ) && old(self).start_fits(idle_ms, now),
                Err(e) => {
                    &&& *final(self) == *old(self)
                    &&& old(self).goes_idle(idle_ms) || old(self).comes_back(idle_ms)
                    &&& e == TimeError::OutOfRange ==> exists|now: Instant|
                        !#[trigger] old(self).start_fits(idle_ms, now)
                },
            },
            old(self).well_formed() ==> final(self).well_formed(),
    {
        let secs: u64 = idle_ms / 1000;
        let active = user_is_active(idle_ms);
        let needs_clock = (active && self.is_idle) || (!active && !self.is_idle && secs
            >= self.threshold_secs);
        if !needs_clock {
            let epoch = Instant::epoch();
            assert(Self::poll_outcome(*self, *self, idle_ms, epoch, IdleDecision::Nothing));
            return Ok(IdleDecision::Nothing);
        }
        match now() {
            None => Err(TimeError::ClockUnavailable),
            Some(t) => {
                if self.start_fits_exec(idle_ms, t) {
                    let d = self.observe_at(idle_ms, t);
                    Ok(d)
                } else {
                    Err(TimeError::OutOfRange)
                }
            },
        }
    }

    /// Records the task that was stopped when the idle period began.
    pub fn record_pause(&mut self, task_id: i64, task_name: String)
        requires
            old(self).is_idle,
        ensures
            final(self).paused_task_id == Some(task_id),
            final(self).paused_task_name == Some(task_name),
            final(self).is_idle == old(self).is_idle,
            final(self).idle_started_at == old(self).idle_started_at,
            final(self).threshold_secs == old(self).threshold_secs,
            old(self).well_formed() ==> final(self).well_formed(),
    {
        self.paused_task_id = Some(task_id);
        self.paused_task_name = Some(task_name);
    }
}

/// Leaving and coming back: a poll that reaches the threshold at `left`, the
/// pause of `task_id`, then a poll with recent input at `back` report that task
/// with the whole seconds from the start of the idle period (dated back by the
/// idle time seen at `left`) to `back`, and end the idle period.
pub proof fn lemma_idle_round_trip(
    m0: IdleMonitor,
    m1: IdleMonitor,
    m2: IdleMonitor,
    m3: IdleMonitor,
    idle_ms: u64,
    left: Instant,
    back_ms: u64,
    back: Instant,
    task_id: i64,
    task_name: String,
    d1: IdleDecision,
    d2: IdleDecision,
)
    requires
        m0.well_formed(),
        !m0.is_idle,
        !user_active(idle_ms),
        idle_ms / 1000 >= m0.threshold_secs,
        IdleMonitor::poll_outcome(m0, m1, idle_ms, left, d1),
        m2.paused_task_id == Some(task_id),
        m2.paused_task_name == Some(task_name),
        m2.is_idle == m1.is_idle,
        m2.idle_started_at == m1.idle_started_at,
        m2.threshold_secs == m1.threshold_secs,
        user_active(back_ms),
        IdleMonitor::poll_outcome(m2, m3, back_ms, back, d2),
    ensures
        d1 == IdleDecision::WentIdle,
        d2 == IdleDecision::Returned(
            Some(
                IdleEvent {
                    idle_duration_secs: whole_seconds_between(
                        back@,
                        IdleMonitor::idle_start(idle_ms, left),
                    ) as i64,
                    task_id,
                    task_name,
                },
            ),
        ),
        m3.is_reset(m0.threshold_secs),
{
}

/// A poll that does not reach the threshold outside an idle period changes nothing.
pub proof fn lemma_short_idle_is_quiet(
    m0: IdleMonitor,
    m1: IdleMonitor,
    idle_ms: u64,
    now: Instant,
    d: IdleDecision,
)
    requires
        !m0.is_idle,
        idle_ms / 1000 < m0.threshold_secs,
        IdleMonitor::poll_outcome(m0, m1, idle_ms, now, d),
    ensures
        d == IdleDecision::Nothing,
        m1 == m0,
{
}

/// The time away reported on coming back grows with the instant of the return
/// poll: of two returns to the same paused idle period, the later one counts at
/// least as many whole seconds since the period began.
pub proof fn lemma_time_away_grows(m: IdleMonitor, back1: Instant, back2: Instant)
    requires
        m.idle_started_at is Some,
        back1@ <= back2@,
    ensures
        whole_seconds_between(back1@, m.idle_started_at.unwrap()@) <= whole_seconds_between(
            back2@,
            m.idle_started_at.unwrap()@,
        ),
{
    let s = m.idle_started_at.unwrap()@;
    let d1 = back1@ - s;
    let d2 = back2@ - s;
    if d1 >= 0 {
        vstd::arithmetic::div_mod::lemma_div_is_ordered(d1, d2, 1_000_000_000);
    } else if d2 >= 0 {
        vstd::arithmetic::div_mod::lemma_div_pos_is_pos(d2, 1_000_000_000);
        vstd::arithmetic::div_mod::lemma_div_pos_is_pos(-d1, 1_000_000_000);
    } else {
        vstd::arithmetic::div_mod::lemma_div_is_ordered(-d2, -d1, 1_000_000_000);
    }
}

} // verus!
