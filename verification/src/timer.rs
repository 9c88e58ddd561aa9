use std::collections::HashMap;
use vstd::prelude::*;

use crate::clock::{elapsed_since, now, running_seconds, Instant, TimeError};
use crate::decimal::{decimal_text, push_decimal};
use crate::models::{status_live, ApiStatus, Task, TimerStatus};
use crate::text::string_from_chars;

verus! {

broadcast use vstd::std_specs::hash::group_hash_axioms;

/// Local timer state that tracks everything without asking the server each time.
pub struct TimerStateInner {
    /// The task list of the last sync (names and budgets; elapsed kept in `base_elapsed`).
    pub cached_tasks: Vec<Task>,
    /// The task whose timer runs.
    pub running_task_id: Option<i64>,
    /// When the running timer was started, on the local clock.
    pub timer_started_at: Option<Instant>,
    /// When the last sync with the server finished; none before the first.
    pub last_sync_at: Option<Instant>,
    /// Seconds tracked on each task before the current run.
    pub base_elapsed: HashMap<i64, i64>,
}

/// A request the server must answer before a timer operation can go on.
#[derive(Clone, Debug, PartialEq, Eq)]
pub enum RemoteCall {
    /// Stop the server timer of `task_id`; when that succeeds, start `then_start` if any.
    Stop { task_id: i64, then_start: Option<i64> },
    /// Start the server timer of `task_id`.
    Start { task_id: i64 },
}

/// What a timer operation needs next: a server call, or nothing more (with its result).
#[derive(Debug, PartialEq, Eq)]
pub enum TimerStep {
    Call(RemoteCall),
    Done(Result<(), String>),
}

/// Left after `sync_tasks` when the server's status must correct the base of the
/// running task: its id and the elapsed seconds the task list gave for it.
#[derive(Clone, Debug, PartialEq, Eq)]
pub struct StatusCheck {
    pub task_id: i64,
    pub listed_elapsed: i64,
}

/// The listed tasks' elapsed seconds written over `m`, in list order (a later
/// entry for the same id wins).
pub open spec fn with_listed(m: Map<i64, i64>, s: Seq<Task>) -> Map<i64, i64>
    decreases s.len(),
{
    if s.len() == 0 {
        m
    } else {
        with_listed(m, s.drop_last()).insert(s.last().id, s.last().elapsed_secs)
    }
}

/// The first task of the list that the server reports as running.
pub open spec fn first_running(s: Seq<Task>) -> Option<Task>
    decreases s.len(),
{
    if s.len() == 0 {
        None
    } else if s[0].running {
        Some(s[0])
    } else {
        first_running(s.skip(1))
    }
}

/// How the cache keeps a listed task: elapsed and running state are tracked locally.
pub open spec fn cached_form(t: Task) -> Task {
    Task { id: t.id, name: t.name, budget_secs: t.budget_secs, elapsed_secs: 0, running: false }
}

/// The first cached task with id `id`.
pub open spec fn first_with_id(s: Seq<Task>, id: i64) -> Option<Task>
    decreases s.len(),
{
    if s.len() == 0 {
        None
    } else if s[0].id == id {
        Some(s[0])
    } else {
        first_with_id(s.skip(1), id)
    }
}

/// The name under which a paused task is reported: its cached name, or
/// `Task <id>` when it is not cached.
pub open spec fn task_label(s: Seq<Task>, id: i64) -> Seq<char> {
    match first_with_id(s, id) {
        Some(t) => t.name@,
        None => seq!['T', 'a', 's', 'k', ' '] + decimal_text(id as int),
    }
}

proof fn lemma_first_with_id_at(s: Seq<Task>, id: i64, i: int)
    requires
        0 <= i <= s.len(),
        forall|k: int| 0 <= k < i ==> (#[trigger] s[k]).id != id,
    ensures
        i < s.len() && s[i].id == id ==> first_with_id(s, id) == Some(s[i]),
        i == s.len() ==> first_with_id(s, id) is None,
    decreases i,
{
    if i > 0 {
        let t = s.skip(1);
        assert forall|k: int| 0 <= k < i - 1 implies (#[trigger] t[k]).id != id by {
            assert(t[k] == s[k + 1]);
        }
        lemma_first_with_id_at(t, id, i - 1);
        if i < s.len() {
            assert(t[i - 1] == s[i]);
        }
    }
}

pub proof fn lemma_first_running_at(s: Seq<Task>, i: int)
    requires
        0 <= i <= s.len(),
        forall|k: int| 0 <= k < i ==> !(#[trigger] s[k]).running,
    ensures
        i < s.len() && s[i].running ==> first_running(s) == Some(s[i]),
        i == s.len() ==> first_running(s) is None,
    decreases i,
{
    if i > 0 {
        assert(!s[0].running);
        let t = s.skip(1);
        assert forall|k: int| 0 <= k < i - 1 implies !(#[trigger] t[k]).running by {
            assert(t[k] == s[k + 1]);
        }
        lemma_first_running_at(t, i - 1);
        if i < s.len() {
            assert(t[i - 1] == s[i]);
        }
    }
}

impl TimerStateInner {
    /// A timer runs exactly when its start instant is known.
    pub open spec fn well_formed(&self) -> bool {
        self.running_task_id.is_some() == self.timer_started_at.is_some()
    }

    /// The base seconds of task `id`, or `fallback` when none is recorded.
    pub open spec fn base_or(&self, id: i64, fallback: int) -> int {
        if self.base_elapsed@.contains_key(id) {
            self.base_elapsed@[id] as int
        } else {
            fallback
        }
    }

    /// Seconds the current run adds to task `id` at `now`.
    pub open spec fn live_secs(&self, id: i64, now: Instant) -> int {
        if self.running_task_id == Some(id) {
            match self.timer_started_at {
                Some(s) => running_seconds(now@, s@),
                None => 0,
            }
        } else {
            0
        }
    }

    /// The elapsed seconds shown for a cached task at `now`.
    pub open spec fn shown_elapsed(&self, t: Task, now: Instant) -> int {
        self.base_or(t.id, t.elapsed_secs as int) + self.live_secs(t.id, now)
    }

    /// A cached task as it is shown at `now`.
    pub open spec fn shown(&self, t: Task, now: Instant) -> Task {
        Task {
            id: t.id,
            name: t.name,
            budget_secs: t.budget_secs,
            elapsed_secs: self.shown_elapsed(t, now) as i64,
            running: self.running_task_id == Some(t.id),
        }
    }

    /// Whole seconds the current run has lasted at `now` (zero when none runs).
    pub open spec fn current_run_secs(&self, now: Instant) -> int {
        match self.timer_started_at {
            Some(s) => running_seconds(now@, s@),
            None => 0,
        }
    }

    /// Every shown elapsed value at `now` fits in an `i64`.
    pub open spec fn shown_fits(&self, now: Instant) -> bool {
        forall|i: int|
            0 <= i < self.cached_tasks@.len() ==> #[trigger] self.shown_elapsed(
                self.cached_tasks@[i],
                now,
            ) <= i64::MAX
    }

    /// The base seconds the running task ends up with when it is stopped at `now`:
    /// what was recorded (zero if nothing) plus the seconds of the run.
    pub open spec fn stop_credit(&self, now: Instant) -> int {
        match (self.running_task_id, self.timer_started_at) {
            (Some(id), Some(s)) => self.base_or(id, 0) + running_seconds(now@, s@),
            _ => 0,
        }
    }

    /// The base map after stopping at `now`: the run is credited to the running
    /// task when its start instant is known, else nothing changes.
    pub open spec fn base_after_stop(&self, now: Instant) -> Map<i64, i64> {
        match (self.running_task_id, self.timer_started_at) {
            (Some(id), Some(s)) => self.base_elapsed@.insert(id, self.stop_credit(now) as i64),
            _ => self.base_elapsed@,
        }
    }

    /// Stopping at `now` credits no more seconds than an `i64` holds.
    pub open spec fn stop_fits(&self, now: Instant) -> bool {
        self.stop_credit(now) <= i64::MAX
    }

    /// Starting `task_id` at `now` needs no arithmetic beyond an `i64`.
    pub open spec fn start_fits(&self, task_id: i64, now: Instant) -> bool {
        self.running_task_id == Some(task_id) || self.stop_fits(now)
    }

    /// Everything but the base map is as in `other`.
    pub open spec fn same_but_base(&self, other: &Self) -> bool {
        &&& self.cached_tasks@ == other.cached_tasks@
        &&& self.running_task_id == other.running_task_id
        &&& self.timer_started_at == other.timer_started_at
        &&& self.last_sync_at == other.last_sync_at
    }

    /// The state is unchanged.
    pub open spec fn same_as(&self, other: &Self) -> bool {
        self.same_but_base(other) && self.base_elapsed@ == other.base_elapsed@
    }

    /// `new` is `old` after a stop began at `now` (the run credited to the running task).
    pub open spec fn stopped_from(new: &Self, old: &Self, now: Instant) -> bool {
        new.same_but_base(old) && new.base_elapsed@ == old.base_after_stop(now)
    }

    /// What `begin_stop_at` does at `now`.
    pub open spec fn stop_outcome(old: &Self, new: &Self, now: Instant, step: TimerStep) -> bool {
        match old.running_task_id {
            Some(id) => {
                &&& step == TimerStep::Call(RemoteCall::Stop { task_id: id, then_start: None })
                &&& Self::stopped_from(new, old, now)
            },
            None => step == TimerStep::Done(Ok(())) && new.same_as(old),
        }
    }

    /// What `begin_start_at` does for `task_id` at `now`.
    pub open spec fn start_outcome(
        old: &Self,
        new: &Self,
        task_id: i64,
        now: Instant,
        step: TimerStep,
    ) -> bool {
        match old.running_task_id {
            Some(cur) => if cur == task_id {
                step == TimerStep::Done(Ok(())) && new.same_as(old)
            } else {
                &&& step == TimerStep::Call(
                    RemoteCall::Stop { task_id: cur, then_start: Some(task_id) },
                )
                &&& Self::stopped_from(new, old, now)
            },
            None => step == TimerStep::Call(RemoteCall::Start { task_id }) && new.same_as(old),
        }
    }

    /// What `complete_call_at` does with the answer `outcome` to `call` at `now`.
    pub open spec fn complete_outcome(
        old: &Self,
        new: &Self,
        call: RemoteCall,
        outcome: Result<(), String>,
        now: Instant,
        step: TimerStep,
    ) -> bool {
        match outcome {
            Err(e) => step == TimerStep::Done(Err(e)) && new.same_as(old),
            Ok(()) => match call {
                RemoteCall::Stop { task_id, then_start } => {
                    &&& new.running_task_id is None
                    &&& new.timer_started_at is None
                    &&& new.cached_tasks@ == old.cached_tasks@
                    &&& new.last_sync_at == old.last_sync_at
                    &&& new.base_elapsed@ == old.base_elapsed@
                    &&& step == match then_start {
                        Some(t) => TimerStep::Call(RemoteCall::Start { task_id: t }),
                        None => TimerStep::Done(Ok(())),
                    }
                },
                RemoteCall::Start { task_id } => {
                    &&& new.running_task_id == Some(task_id)
                    &&& new.timer_started_at == Some(now)
                    &&& new.cached_tasks@ == old.cached_tasks@
                    &&& new.last_sync_at == old.last_sync_at
                    &&& new.base_elapsed@ == old.base_elapsed@
                    &&& step == TimerStep::Done(Ok(()))
                },
            },
        }
    }

    /// No timer runs, nothing is cached and nothing is synced yet.
    pub fn new() -> (s: Self)
        ensures
            s.cached_tasks@.len() == 0,
            s.running_task_id is None,
            s.timer_started_at is None,
            s.last_sync_at is None,
            s.base_elapsed@ == Map::<i64, i64>::empty(),
            s.well_formed(),
    {
        TimerStateInner {
            cached_tasks: Vec::new(),
            running_task_id: None,
            timer_started_at: None,
            last_sync_at: None,
            base_elapsed: HashMap::new(),
        }
    }

    fn base_or_exec(&self, id: i64, fallback: i64) -> (r: i64)
        ensures
            r == self.base_or(id, fallback as int),
    {
        match self.base_elapsed.get(&id) {
            Some(b) => *b,
            None => fallback,
        }
    }

    fn live_secs_exec(&self, id: i64, now: Instant) -> (r: i64)
        ensures
            r == self.live_secs(id, now),
            r >= 0,
    {
        match self.running_task_id {
            Some(r) => if r == id {
                match self.timer_started_at {
                    Some(s) => elapsed_since(now, s),
                    None => 0,
                }
            } else {
                0
            },
            None => 0,
        }
    }

    /// Whether `get_tasks_at(now)` stays within `i64`.
    pub fn shown_fits_at(&self, now: Instant) -> (r: bool)
        ensures
            r == self.shown_fits(now),
    {
        let n = self.cached_tasks.len();
        let mut i: usize = 0;
        while i < n
            invariant
                n == self.cached_tasks@.len(),
                i <= n,
                forall|k: int| 0 <= k < i ==> #[trigger] self.shown_elapsed(
                    self.cached_tasks@[k],
                    now,
                ) <= i64::MAX,
            decreases n - i,
        {
            let t = &self.cached_tasks[i];
            let base = self.base_or_exec(t.id, t.elapsed_secs);
            let live = self.live_secs_exec(t.id, now);
            if base as i128 + live as i128 > i64::MAX as i128 {
                assert(self.shown_elapsed(self.cached_tasks@[i as int], now) > i64::MAX);
                return false;
            }
            i = i + 1;
        }
        true
    }

    /// The cached tasks with the elapsed seconds they have at `now`: the recorded
    /// base (or the listed value when none is recorded) plus the current run.
    pub fn get_tasks_at(&self, now: Instant) -> (r: Vec<Task>)
        requires
            self.shown_fits(now),
        ensures
            r@ == self.cached_tasks@.map_values(|t: Task| self.shown(t, now)),
    {
        let n = self.cached_tasks.len();
        let mut out: Vec<Task> = Vec::new();
        let mut i: usize = 0;
        while i < n
            invariant
                n == self.cached_tasks@.len(),
                i <= n,
                self.shown_fits(now),
                out@ == self.cached_tasks@.take(i as int).map_values(
                    |t: Task| self.shown(t, now),
                ),
            decreases n - i,
        {
            let t = &self.cached_tasks[i];
            let base = self.base_or_exec(t.id, t.elapsed_secs);
            let live = self.live_secs_exec(t.id, now);
            assert(self.shown_elapsed(self.cached_tasks@[i as int], now) <= i64::MAX);
            let running = match self.running_task_id {
                Some(r) => r == t.id,
                None => false,
            };
            let shown = Task {
                id: t.id,
                name: t.name.clone(),
                budget_secs: t.budget_secs,
                elapsed_secs: base + live,
                running,
            };
            out.push(shown);
            i = i + 1;
            assert(out@ =~= self.cached_tasks@.take(i as int).map_values(
                |t: Task| self.shown(t, now),
            ));
        }
        assert(self.cached_tasks@.take(n as int) =~= self.cached_tasks@);
        out
    }

    /// The cached tasks with their elapsed seconds on the current clock. Fails
    /// with `ClockUnavailable` when the clock cannot be read, and with
    /// `OutOfRange` when a value would not fit in an `i64`.
    pub fn get_tasks(&self) -> (r: Result<Vec<Task>, TimeError>)
        ensures
            match r {
                Ok(v) => exists|now: Instant|
                    #[trigger] self.shown_fits(now) && v@ == self.cached_tasks@.map_values(
                        |t: Task| self.shown(t, now),
                    ),
                Err(e) => e == TimeError::OutOfRange ==> exists|now: Instant|
                    !#[trigger] self.shown_fits(now),
            },
    {
        match now() {
            None => Err(TimeError::ClockUnavailable),
            Some(t) => {
                if self.shown_fits_at(t) {
                    Ok(self.get_tasks_at(t))
                } else {
                    Err(TimeError::OutOfRange)
                }
            },
        }
    }

    /// The timer status at `now`: the running task and the whole seconds of its
    /// current run (zero when none runs).
    pub fn status_at(&self, now: Instant) -> (r: TimerStatus)
        ensures
            r.running == self.running_task_id.is_some(),
            r.active_task_id == self.running_task_id,
            r.current_entry_elapsed == self.current_run_secs(now),
    {
        let elapsed = match self.timer_started_at {
            Some(s) => elapsed_since(now, s),
            None => 0,
        };
        TimerStatus {
            running: self.running_task_id.is_some(),
            active_task_id: self.running_task_id,
            current_entry_elapsed: elapsed,
        }
    }

    /// The timer status on the current clock, read only when a start instant is
    /// recorded; fails with `ClockUnavailable` when it cannot be read.
    pub fn status(&self) -> (r: Result<TimerStatus, TimeError>)
        ensures
            match r {
                Ok(st) => {
                    &&& st.running == self.running_task_id.is_some()
                    &&& st.active_task_id == self.running_task_id
                    &&& exists|now: Instant|
                        st.current_entry_elapsed == #[trigger] self.current_run_secs(now)
                },
                Err(e) => e == TimeError::ClockUnavailable && self.timer_started_at is Some,
            },
    {
        let at = match self.timer_started_at {
            Some(_) => match now() {
                Some(t) => t,
                None => return Err(TimeError::ClockUnavailable),
            },
            None => Instant::epoch(),
        };
        Ok(self.status_at(at))
    }

    /// Whether stopping at `now` stays within `i64`.
    pub fn stop_fits_at(&self, now: Instant) -> (r: bool)
        ensures
            r == self.stop_fits(now),
    {
        match (self.running_task_id, self.timer_started_at) {
            (Some(id), Some(s)) => {
                let base = self.base_or_exec(id, 0);
                let live = elapsed_since(now, s);
                base as i128 + live as i128 <= i64::MAX as i128
            },
            _ => true,
        }
    }

    /// Credits the current run to the running task (when its start is known).
    fn credit_run(&mut self, now: Instant)
        requires
            old(self).stop_fits(now),
        ensures
            Self::stopped_from(final(self), old(self), now),
    {
        match (self.running_task_id, self.timer_started_at) {
            (Some(id), Some(s)) => {
                let base = self.base_or_exec(id, 0);
                let live = elapsed_since(now, s);
                self.base_elapsed.insert(id, base + live);
            },
            _ => {},
        }
    }

    /// Begins stopping the running timer at `now`: the run is credited to its task
    /// and the server is asked to stop it; without a running timer, nothing is left to do.
    pub fn begin_stop_at(&mut self, now: Instant) -> (step: TimerStep)
        requires
            old(self).stop_fits(now),
        ensures
            Self::stop_outcome(old(self), final(self), now, step),
            old(self).well_formed() ==> final(self).well_formed(),
    {
        match self.running_task_id {
            Some(id) => {
                self.credit_run(now);
                TimerStep::Call(RemoteCall::Stop { task_id: id, then_start: None })
            },
            None => TimerStep::Done(Ok(())),
        }
    }

    /// Begins starting the timer of `task_id` at `now`: nothing to do when it
    /// already runs; another running timer is stopped first (its run credited);
    /// else the server is asked to start it.
    pub fn begin_start_at(&mut self, task_id: i64, now: Instant) -> (step: TimerStep)
        requires
            old(self).start_fits(task_id, now),
        ensures
            Self::start_outcome(old(self), final(self), task_id, now, step),
            old(self).well_formed() ==> final(self).well_formed(),
    {
        match self.running_task_id {
            Some(cur) => {
                if cur != task_id {
                    self.credit_run(now);
                    TimerStep::Call(RemoteCall::Stop { task_id: cur, then_start: Some(task_id) })
                } else {
                    TimerStep::Done(Ok(()))
                }
            },
            None => TimerStep::Call(RemoteCall::Start { task_id }),
        }
    }

    /// Takes the server's answer to `call` at `now`: a refusal ends the operation
    /// with that error; a done stop clears the running timer (and goes on to the
    /// start it was for); a done start makes `task_id` the running task from `now`.
    pub fn complete_call_at(
        &mut self,
        call: RemoteCall,
        outcome: Result<(), String>,
        now: Instant,
    ) -> (step: TimerStep)
        ensures
            Self::complete_outcome(old(self), final(self), call, outcome, now, step),
            old(self).well_formed() ==> final(self).well_formed(),
    {
        match outcome {
            Err(e) => TimerStep::Done(Err(e)),
            Ok(()) => match call {
                RemoteCall::Stop { task_id, then_start } => {
                    self.running_task_id = None;
                    self.timer_started_at = None;
                    match then_start {
                        Some(t) => TimerStep::Call(RemoteCall::Start { task_id: t }),
                        None => TimerStep::Done(Ok(())),
                    }
                },
                RemoteCall::Start { task_id } => {
                    self.running_task_id = Some(task_id);
                    self.timer_started_at = Some(now);
                    TimerStep::Done(Ok(()))
                },
            },
        }
    }

    /// Adding `idle_secs` to the base of `task_id` stays within `i64`.
    pub open spec fn resume_fits(&self, task_id: i64, idle_secs: int) -> bool {
        i64::MIN <= self.base_or(task_id, 0) + idle_secs <= i64::MAX
    }

    /// Whether `begin_resume` stays within `i64`.
    pub fn resume_fits_exec(&self, task_id: i64, idle_secs: i64) -> (r: bool)
        ensures
            r == self.resume_fits(task_id, idle_secs as int),
    {
        let base = self.base_or_exec(task_id, 0);
        let sum: i128 = base as i128 + idle_secs as i128;
        i64::MIN as i128 <= sum && sum <= i64::MAX as i128
    }

    /// Begins resuming `task_id` after an idle period: the idle seconds are added
    /// to its base (counted from zero when none is recorded) and the server is
    /// asked to start its timer.
    pub fn begin_resume(&mut self, task_id: i64, idle_secs: i64) -> (step: TimerStep)
        requires
            old(self).resume_fits(task_id, idle_secs as int),
        ensures
            final(self).same_but_base(old(self)),
            final(self).base_elapsed@ == old(self).base_elapsed@.insert(
                task_id,
                (old(self).base_or(task_id, 0) + idle_secs) as i64,
            ),
            step == TimerStep::Call(RemoteCall::Start { task_id }),
            old(self).well_formed() ==> final(self).well_formed(),
    {
        let base = self.base_or_exec(task_id, 0);
        self.base_elapsed.insert(task_id, base + idle_secs);
        TimerStep::Call(RemoteCall::Start { task_id })
    }

    /// The instant to act at: the current clock when `reads_clock`, else the
    /// epoch (where nothing depends on the instant).
    fn instant_for(reads_clock: bool) -> (r: Option<Instant>)
        ensures
            !reads_clock ==> r is Some,
    {
        if reads_clock {
            now()
        } else {
            Some(Instant::epoch())
        }
    }

    /// A stop credits a run, and so reads the clock.
    pub open spec fn stop_reads_clock(&self) -> bool {
        self.running_task_id is Some && self.timer_started_at is Some
    }

    /// `begin_stop_at` on the current clock, read only when a run is credited.
    /// Nothing changes on an error: `ClockUnavailable` when the clock could not be
    /// read, `OutOfRange` when the credited seconds would not fit in an `i64`.
    pub fn begin_stop(&mut self) -> (r: Result<TimerStep, TimeError>)
        ensures
            match r {
                Ok(step) => exists|now: Instant|
                    #[trigger] Self::stop_outcome(old(self), final(self), now, step),
                Err(e) => {
                    &&& final(self).same_as(old(self))
                    &&& e == TimeError::ClockUnavailable ==> old(self).stop_reads_clock()
                    &&& e == TimeError::OutOfRange ==> exists|now: Instant|
                        !#[trigger] old(self).stop_fits(now)
                },
            },
            old(self).well_formed() ==> final(self).well_formed(),
    {
        let reads = self.running_task_id.is_some() && self.timer_started_at.is_some();
        let at = match Self::instant_for(reads) {
            Some(t) => t,
            None => return Err(TimeError::ClockUnavailable),
        };
        if self.stop_fits_at(at) {
            Ok(self.begin_stop_at(at))
        } else {
            Err(TimeError::OutOfRange)
        }
    }

    /// Starting `task_id` stops another running timer first, and so reads the clock.
    pub open spec fn start_reads_clock(&self, task_id: i64) -> bool {
        self.stop_reads_clock() && self.running_task_id != Some(task_id)
    }

    /// `begin_start_at` on the current clock, read only when another run is
    /// credited. Nothing changes on an error: `ClockUnavailable` when the clock
    /// could not be read, `OutOfRange` when the credited seconds would not fit in
    /// an `i64`.
    pub fn begin_start(&mut self, task_id: i64) -> (r: Result<TimerStep, TimeError>)
        ensures
            match r {
                Ok(step) => exists|now: Instant|
                    #[trigger] Self::start_outcome(old(self), final(self), task_id, now, step),
                Err(e) => {
                    &&& final(self).same_as(old(self))
                    &&& e == TimeError::ClockUnavailable ==> old(self).start_reads_clock(task_id)
                    &&& e == TimeError::OutOfRange ==> exists|now: Instant|
                        !#[trigger] old(self).start_fits(task_id, now)
                },
            },
            old(self).well_formed() ==> final(self).well_formed(),
    {
        let other = match self.running_task_id {
            Some(cur) => cur != task_id,
            None => false,
        };
        let reads = other && self.timer_started_at.is_some();
        let at = match Self::instant_for(reads) {
            Some(t) => t,
            None => return Err(TimeError::ClockUnavailable),
        };
        let fits = !other || self.stop_fits_at(at);
        if fits {
            Ok(self.begin_start_at(task_id, at))
        } else {
            assert(!self.start_fits(task_id, at));
            Err(TimeError::OutOfRange)
        }
    }

    /// What `sync_tasks_at` does with a fresh task list at `now`.
    pub open spec fn sync_outcome(
        old: &Self,
        new: &Self,
        tasks: Seq<Task>,
        now: Instant,
        check: Option<StatusCheck>,
    ) -> bool {
        &&& new.base_elapsed@ == with_listed(old.base_elapsed@, tasks)
        &&& new.cached_tasks@ == tasks.map_values(|t: Task| cached_form(t))
        &&& new.last_sync_at == old.last_sync_at
        &&& match first_running(tasks) {
            Some(r) => {
                &&& old.running_task_id is None ==> new.running_task_id == Some(r.id)
                    && new.timer_started_at == Some(now)
                &&& old.running_task_id is Some ==> new.running_task_id == old.running_task_id
                    && new.timer_started_at == old.timer_started_at
                &&& check == if new.running_task_id == Some(r.id) {
                    Some(StatusCheck { task_id: r.id, listed_elapsed: r.elapsed_secs })
                } else {
                    None
                }
            },
            None => {
                &&& new.running_task_id == old.running_task_id
                &&& new.timer_started_at == old.timer_started_at
                &&& check is None
            },
        }
    }

    /// The base map after the server's status corrected it.
    pub open spec fn base_after_status(
        &self,
        check: Option<StatusCheck>,
        status: Option<ApiStatus>,
    ) -> Map<i64, i64> {
        match (check, status) {
            (Some(c), Some(s)) => if self.base_elapsed@.contains_key(c.task_id) {
                self.base_elapsed@.insert(c.task_id, (c.listed_elapsed - status_live(s)) as i64)
            } else {
                self.base_elapsed@
            },
            _ => self.base_elapsed@,
        }
    }

    /// What `finish_sync_at` does at `now`.
    pub open spec fn finish_outcome(
        old: &Self,
        new: &Self,
        check: Option<StatusCheck>,
        status: Option<ApiStatus>,
        now: Instant,
    ) -> bool {
        &&& new.base_elapsed@ == old.base_after_status(check, status)
        &&& new.last_sync_at == Some(now)
        &&& new.cached_tasks@ == old.cached_tasks@
        &&& new.running_task_id == old.running_task_id
        &&& new.timer_started_at == old.timer_started_at
    }

    /// Takes a fresh task list from the server at `now`: every listed task's
    /// elapsed seconds become its base; the first task the server reports as
    /// running is adopted when no timer runs locally; the list is cached (without
    /// elapsed and running state). When the adopted or already running task is the
    /// one the server runs, the result asks for the server's status.
    pub fn sync_tasks_at(&mut self, tasks: Vec<Task>, now: Instant) -> (check: Option<StatusCheck>)
        ensures
            Self::sync_outcome(old(self), final(self), tasks@, now, check),
            old(self).well_formed() ==> final(self).well_formed(),
    {
        let n = tasks.len();
        let ghost old_base = self.base_elapsed@;
        let mut i: usize = 0;
        while i < n
            invariant
                n == tasks@.len(),
                i <= n,
                self.base_elapsed@ == with_listed(old_base, tasks@.take(i as int)),
                old_base == old(self).base_elapsed@,
                self.same_but_base(old(self)),
            decreases n - i,
        {
            self.base_elapsed.insert(tasks[i].id, tasks[i].elapsed_secs);
            i = i + 1;
            proof {
                let p = tasks@.take(i as int);
                assert(p.drop_last() =~= tasks@.take(i - 1));
            }
        }
        assert(tasks@.take(n as int) =~= tasks@);
        let mut idx: usize = 0;
        while idx < n && !tasks[idx].running
            invariant
                n == tasks@.len(),
                idx <= n,
                forall|k: int| 0 <= k < idx ==> !(#[trigger] tasks@[k]).running,
            decreases n - idx,
        {
            idx = idx + 1;
        }
        proof {
            lemma_first_running_at(tasks@, idx as int);
        }
        let mut check: Option<StatusCheck> = None;
        if idx < n {
            let rid = tasks[idx].id;
            let relapsed = tasks[idx].elapsed_secs;
            if self.running_task_id.is_none() {
                self.running_task_id = Some(rid);
                self.timer_started_at = Some(now);
            }
            let same = match self.running_task_id {
                Some(r) => r == rid,
                None => false,
            };
            if same {
                check = Some(StatusCheck { task_id: rid, listed_elapsed: relapsed });
            }
        }
        let mut cached: Vec<Task> = Vec::new();
        let mut j: usize = 0;
        while j < n
            invariant
                n == tasks@.len(),
                j <= n,
                cached@ == tasks@.take(j as int).map_values(|t: Task| cached_form(t)),
            decreases n - j,
        {
            let t = &tasks[j];
            cached.push(
                Task {
                    id: t.id,
                    name: t.name.clone(),
                    budget_secs: t.budget_secs,
                    elapsed_secs: 0,
                    running: false,
                },
            );
            j = j + 1;
            assert(cached@ =~= tasks@.take(j as int).map_values(|t: Task| cached_form(t)));
        }
        self.cached_tasks = cached;
        check
    }

    /// Whether the status correction stays within `i64`.
    pub open spec fn status_fits(check: Option<StatusCheck>, status: Option<ApiStatus>) -> bool {
        match (check, status) {
            (Some(c), Some(s)) => i64::MIN <= c.listed_elapsed - status_live(s) <= i64::MAX,
            _ => true,
        }
    }

    /// Whether `finish_sync_at` stays within `i64` for these answers.
    pub fn status_fits_exec(check: &Option<StatusCheck>, status: &Option<ApiStatus>) -> (r: bool)
        ensures
            r == Self::status_fits(*check, *status),
    {
        match (check, status) {
            (Some(c), Some(s)) => {
                let live: i64 = match s.elapsed_seconds {
                    Some(e) => e,
                    None => 0,
                };
                let d: i128 = c.listed_elapsed as i128 - live as i128;
                i64::MIN as i128 <= d && d <= i64::MAX as i128
            },
            _ => true,
        }
    }

    /// Ends a sync at `now`: when a status check was asked for and the server
    /// answered, the running task's base becomes the listed elapsed seconds minus
    /// the seconds of the server's current entry (which the list already counts);
    /// the sync time becomes `now`.
    pub fn finish_sync_at(
        &mut self,
        check: Option<StatusCheck>,
        status: Option<ApiStatus>,
        now: Instant,
    )
        requires
            Self::status_fits(check, status),
        ensures
            Self::finish_outcome(old(self), final(self), check, status, now),
            old(self).well_formed() ==> final(self).well_formed(),
    {
        match (&check, &status) {
            (Some(c), Some(s)) => {
                let live: i64 = match s.elapsed_seconds {
                    Some(e) => e,
                    None => 0,
                };
                if self.base_elapsed.contains_key(&c.task_id) {
                    self.base_elapsed.insert(c.task_id, c.listed_elapsed - live);
                }
            },
            _ => {},
        }
        self.last_sync_at = Some(now);
    }

    /// `sync_tasks_at` on the current clock; fails with `ClockUnavailable` (and
    /// nothing changes) when it cannot be read.
    pub fn sync_tasks(&mut self, tasks: Vec<Task>) -> (r: Result<Option<StatusCheck>, TimeError>)
        ensures
            match r {
                Ok(check) => exists|now: Instant|
                    #[trigger] Self::sync_outcome(old(self), final(self), tasks@, now, check),
                Err(e) => e == TimeError::ClockUnavailable && final(self).same_as(old(self)),
            },
            old(self).well_formed() ==> final(self).well_formed(),
    {
        match now() {
            Some(t) => Ok(self.sync_tasks_at(tasks, t)),
            None => Err(TimeError::ClockUnavailable),
        }
    }

    /// `finish_sync_at` on the current clock; fails with `ClockUnavailable` (and
    /// nothing changes) when it cannot be read.
    pub fn finish_sync(&mut self, check: Option<StatusCheck>, status: Option<ApiStatus>) -> (r:
        Result<(), TimeError>)
        requires
            Self::status_fits(check, status),
        ensures
            match r {
                Ok(()) => exists|now: Instant|
                    #[trigger] Self::finish_outcome(old(self), final(self), check, status, now),
                Err(e) => e == TimeError::ClockUnavailable && final(self).same_as(old(self)),
            },
            old(self).well_formed() ==> final(self).well_formed(),
    {
        match now() {
            Some(t) => {
                self.finish_sync_at(check, status, t);
                Ok(())
            },
            None => Err(TimeError::ClockUnavailable),
        }
    }

    /// The running task with the name to report it by: its cached name, or
    /// `Task <id>` when the cache does not hold it; none when no timer runs.
    pub fn running_task_label(&self) -> (r: Option<(i64, String)>)
        ensures
            match self.running_task_id {
                Some(id) => r matches Some((rid, name)) && rid == id && name@ == task_label(
                    self.cached_tasks@,
                    id,
                ),
                None => r is None,
            },
    {
        match self.running_task_id {
            None => None,
            Some(id) => {
                let n = self.cached_tasks.len();
                let mut i: usize = 0;
                while i < n && self.cached_tasks[i].id != id
                    invariant
                        n == self.cached_tasks@.len(),
                        i <= n,
                        forall|k: int| 0 <= k < i ==> (#[trigger] self.cached_tasks@[k]).id != id,
                    decreases n - i,
                {
                    i = i + 1;
                }
                proof {
                    lemma_first_with_id_at(self.cached_tasks@, id, i as int);
                }
                if i < n {
                    Some((id, self.cached_tasks[i].name.clone()))
                } else {
                    let mut out: Vec<char> = Vec::new();
                    out.push('T');
                    out.push('a');
                    out.push('s');
                    out.push('k');
                    out.push(' ');
                    push_decimal(id, &mut out);
                    Some((id, string_from_chars(&out)))
                }
            },
        }
    }

    /// A confirmed start records its instant, and so reads the clock.
    pub open spec fn completion_reads_clock(call: RemoteCall, outcome: Result<(), String>) -> bool {
        outcome is Ok && call is Start
    }

    /// `complete_call_at` on the current clock, read only for a confirmed start;
    /// fails with `ClockUnavailable` (and nothing changes) when it cannot be read.
    pub fn complete_call(&mut self, call: RemoteCall, outcome: Result<(), String>) -> (r: Result<
        TimerStep,
        TimeError,
    >)
        ensures
            match r {
                Ok(step) => exists|now: Instant|
                    #[trigger] Self::complete_outcome(
                        old(self),
                        final(self),
                        call,
                        outcome,
                        now,
                        step,
                    ),
                Err(e) => {
                    &&& e == TimeError::ClockUnavailable
                    &&& Self::completion_reads_clock(call, outcome)
                    &&& final(self).same_as(old(self))
                },
            },
            old(self).well_formed() ==> final(self).well_formed(),
    {
        let reads = outcome.is_ok() && match call {
            RemoteCall::Start { .. } => true,
            RemoteCall::Stop { .. } => false,
        };
        let at = match Self::instant_for(reads) {
            Some(t) => t,
            None => return Err(TimeError::ClockUnavailable),
        };
        Ok(self.complete_call_at(call, outcome, at))
    }
}

/// The shown elapsed time of a task never goes down as the clock moves on.
pub proof fn lemma_shown_elapsed_monotone(s: TimerStateInner, t: Task, now1: Instant, now2: Instant)
    requires
        now1@ <= now2@,
    ensures
        s.shown_elapsed(t, now1) <= s.shown_elapsed(t, now2),
{
    if s.running_task_id == Some(t.id) {
        if let Some(st) = s.timer_started_at {
            if now1@ - st@ >= 0 {
                vstd::arithmetic::div_mod::lemma_div_is_ordered(
                    now1@ - st@,
                    now2@ - st@,
                    1_000_000_000,
                );
            } else if now2@ - st@ >= 0 {
                vstd::arithmetic::div_mod::lemma_div_pos_is_pos(now2@ - st@, 1_000_000_000);
            }
        }
    }
}

/// Stopping a timer keeps the time it shows: once the server confirmed the stop
/// begun at `now`, the task shows (at any later instant) what it showed at `now`,
/// when its base was recorded or its listed elapsed value is zero.
pub proof fn lemma_stop_keeps_shown_elapsed(
    s0: TimerStateInner,
    s1: TimerStateInner,
    s2: TimerStateInner,
    t: Task,
    now: Instant,
    later: Instant,
    step: TimerStep,
    step2: TimerStep,
)
    requires
        s0.well_formed(),
        s0.running_task_id == Some(t.id),
        s0.base_elapsed@.contains_key(t.id) || t.elapsed_secs == 0,
        s0.stop_fits(now),
        TimerStateInner::stop_outcome(&s0, &s1, now, step),
        TimerStateInner::complete_outcome(
            &s1,
            &s2,
            RemoteCall::Stop { task_id: t.id, then_start: None },
            Ok(()),
            later,
            step2,
        ),
    ensures
        s2.running_task_id is None,
        s2.shown_elapsed(t, later) == s0.shown_elapsed(t, now),
        step2 == TimerStep::Done(Ok(())),
{
}

/// A start confirmed at `start` and a stop begun at `stop` and confirmed credit
/// the task exactly the whole seconds between them, and leave no timer running.
pub proof fn lemma_start_stop_credits_run(
    s0: TimerStateInner,
    s1: TimerStateInner,
    s2: TimerStateInner,
    s3: TimerStateInner,
    task_id: i64,
    start: Instant,
    stop: Instant,
    done: Instant,
    step: TimerStep,
    step2: TimerStep,
)
    requires
        s0.running_task_id is None,
        TimerStateInner::complete_outcome(
            &s0,
            &s1,
            RemoteCall::Start { task_id },
            Ok(()),
            start,
            TimerStep::Done(Ok(())),
        ),
        s1.stop_fits(stop),
        TimerStateInner::stop_outcome(&s1, &s2, stop, step),
        TimerStateInner::complete_outcome(
            &s2,
            &s3,
            RemoteCall::Stop { task_id, then_start: None },
            Ok(()),
            done,
            step2,
        ),
    ensures
        s3.running_task_id is None,
        s3.timer_started_at is None,
        s3.base_elapsed@ == s0.base_elapsed@.insert(
            task_id,
            (s0.base_or(task_id, 0) + running_seconds(stop@, start@)) as i64,
        ),
        s3.cached_tasks@ == s0.cached_tasks@,
{
}

/// Resuming after an idle period credits the idle seconds: once the server
/// confirmed the start at `now`, the task shows its former base plus `idle_secs`.
pub proof fn lemma_resume_credits_idle(
    s0: TimerStateInner,
    s1: TimerStateInner,
    s2: TimerStateInner,
    t: Task,
    idle_secs: int,
    now: Instant,
    step: TimerStep,
)
    requires
        s0.resume_fits(t.id, idle_secs),
        s1.same_but_base(&s0),
        s1.base_elapsed@ == s0.base_elapsed@.insert(t.id, (s0.base_or(t.id, 0) + idle_secs) as i64),
        TimerStateInner::complete_outcome(
            &s1,
            &s2,
            RemoteCall::Start { task_id: t.id },
            Ok(()),
            now,
            step,
        ),
    ensures
        s2.running_task_id == Some(t.id),
        s2.shown_elapsed(t, now) == s0.base_or(t.id, 0) + idle_secs,
{
}

/// Only the running task gains the seconds of the current run: a task that is
/// not running shows its recorded base (or its listed seconds when none is
/// recorded), whatever the clock says, and is shown as not running.
pub proof fn lemma_idle_task_shows_its_base(s: TimerStateInner, t: Task, now: Instant)
    requires
        s.running_task_id != Some(t.id),
    ensures
        s.shown(t, now).elapsed_secs == if s.base_elapsed@.contains_key(t.id) {
            s.base_elapsed@[t.id]
        } else {
            t.elapsed_secs
        },
        !s.shown(t, now).running,
        s.shown(t, now).id == t.id,
{
}

/// The running task shows its recorded base (or listed seconds) plus the whole
/// seconds since its timer started, none while the clock reads earlier.
pub proof fn lemma_running_task_shows_its_run(s: TimerStateInner, t: Task, now: Instant)
    requires
        s.running_task_id == Some(t.id),
        s.timer_started_at is Some,
    ensures
        s.shown_elapsed(t, now) == (if s.base_elapsed@.contains_key(t.id) {
            s.base_elapsed@[t.id] as int
        } else {
            t.elapsed_secs as int
        }) + if now@ >= s.timer_started_at.unwrap()@ {
            (now@ - s.timer_started_at.unwrap()@) / 1_000_000_000
        } else {
            0
        },
        s.shown(t, now).running,
{
}

} // verus!
