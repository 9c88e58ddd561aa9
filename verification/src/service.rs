use std::collections::VecDeque;
use vstd::prelude::*;

use crate::clock::{elapsed_since, in_clock_range, now, running_seconds, Instant, TimeError, NANOS_PER_SEC};
use crate::decimal::{decimal_text, parse_u32, parse_u32_spec, push_decimal};
use crate::models::{IdleEvent, Task};
use crate::timer::{first_running, lemma_first_running_at};
use crate::text::{chars_of, push_str, range_equals, string_from_chars};

verus! {

/// The token every request to the local service must carry.
pub const REQUEST_TOKEN: &'static str = "timez-local";

/// The command-line flag that names the process the service watches.
pub const PARENT_PID_FLAG: &'static str = "--parent-pid";

/// Whether a request carries the service's token.
pub fn is_authorized(token: &str) -> (r: bool)
    ensures
        r == (token@ == REQUEST_TOKEN@),
{
    let t = chars_of(token);
    let expected = chars_of(REQUEST_TOKEN);
    let r = range_equals(&t, 0, t.len(), &expected);
    assert(t@.subrange(0, t@.len() as int) =~= t@);
    r
}

/// The value after the first `--parent-pid` among `a`, read as a `u32`.
pub open spec fn pid_after_flag(a: Seq<String>) -> Option<u32>
    decreases a.len(),
{
    if a.len() == 0 {
        None
    } else if a[0]@ == PARENT_PID_FLAG@ {
        if a.len() >= 2 {
            parse_u32_spec(a[1]@)
        } else {
            None
        }
    } else {
        pid_after_flag(a.skip(1))
    }
}

/// The parent process id given on a command line (the program name first):
/// the value after the first `--parent-pid`, when it reads as a `u32`.
pub open spec fn parent_pid_of(args: Seq<String>) -> Option<u32> {
    if args.len() == 0 {
        None
    } else {
        pid_after_flag(args.skip(1))
    }
}

proof fn lemma_pid_after_flag_at(a: Seq<String>, i: int)
    requires
        0 <= i <= a.len(),
        forall|k: int| 0 <= k < i ==> (#[trigger] a[k])@ != PARENT_PID_FLAG@,
    ensures
        pid_after_flag(a) == pid_after_flag(a.skip(i)),
    decreases i,
{
    if i > 0 {
        let t = a.skip(1);
        assert forall|k: int| 0 <= k < i - 1 implies (#[trigger] t[k])@ != PARENT_PID_FLAG@ by {
            assert(t[k] == a[k + 1]);
        }
        lemma_pid_after_flag_at(t, i - 1);
        assert(t.skip(i - 1) =~= a.skip(i));
    } else {
        assert(a.skip(0) =~= a);
    }
}

/// Reads the `--parent-pid` argument from the whole command line (see `parent_pid_of`).
pub fn parent_pid_from_args(args: &Vec<String>) -> (r: Option<u32>)
    ensures
        r == parent_pid_of(args@),
{
    let n = args.len();
    if n == 0 {
        return None;
    }
    let flag = chars_of(PARENT_PID_FLAG);
    let ghost rest = args@.skip(1);
    let mut i: usize = 1;
    while i < n
        invariant
            n == args@.len(),
            1 <= i <= n,
            rest == args@.skip(1),
            flag@ == PARENT_PID_FLAG@,
            pid_after_flag(rest) == pid_after_flag(args@.skip(i as int)),
        decreases n - i,
    {
        let a = chars_of(args[i].as_str());
        let is_flag = range_equals(&a, 0, a.len(), &flag);
        assert(a@.subrange(0, a@.len() as int) =~= a@);
        let ghost cur = args@.skip(i as int);
        assert(cur[0] == args@[i as int]);
        if is_flag {
            if i + 1 < n {
                let value = chars_of(args[i + 1].as_str());
                assert(cur[1] == args@[i + 1]);
                return parse_u32(&value);
            }
            return None;
        }
        assert(cur.skip(1) =~= args@.skip(i + 1));
        i = i + 1;
    }
    None
}

/// The `/proc` entry of a process.
pub fn proc_path(pid: u32) -> (r: String)
    ensures
        r@ == "/proc/"@ + decimal_text(pid as int),
{
    let mut out: Vec<char> = Vec::new();
    push_str(&mut out, "/proc/");
    push_decimal(pid as i64, &mut out);
    string_from_chars(&out)
}

/// Remembers whether the timer ran at the last look, to notice it stopping.
#[derive(Clone, Debug, PartialEq, Eq)]
pub struct RunningWatch {
    pub last_running: bool,
}

impl RunningWatch {
    /// Nothing ran before.
    pub fn new() -> (w: Self)
        ensures
            !w.last_running,
    {
        RunningWatch { last_running: false }
    }

    /// Takes the latest running state; true when the timer ran at the last look
    /// and no longer does.
    pub fn observe(&mut self, running: bool) -> (stopped: bool)
        ensures
            stopped == (old(self).last_running && !running),
            final(self).last_running == running,
    {
        let stopped = self.last_running && !running;
        self.last_running = running;
        stopped
    }
}

/// The idle threshold of the idle-time service, in seconds.
pub const SERVICE_IDLE_THRESHOLD_SECS: u64 = 60;

/// What a poll of the idle-time service asks of the caller.
#[derive(Clone, Debug, PartialEq, Eq)]
pub enum IdlePoll {
    /// Nothing to do.
    Quiet,
    /// The threshold is reached: find the running task, stop it, and report it
    /// with `pause_at`.
    CheckRunning,
}

/// The idle-time service's watcher: it pauses the running task when the user
/// leaves and queues an idle event when the user comes back.
#[derive(Debug)]
pub struct QueuedIdleWatch {
    pub is_idle: bool,
    pub idle_started_at: Option<Instant>,
    pub paused_task: Option<Task>,
    pub pending: VecDeque<IdleEvent>,
}

impl QueuedIdleWatch {
    /// Nothing paused, nothing queued.
    pub fn new() -> (w: Self)
        ensures
            !w.is_idle,
            w.idle_started_at is None,
            w.paused_task is None,
            w.pending@.len() == 0,
    {
        QueuedIdleWatch {
            is_idle: false,
            idle_started_at: None,
            paused_task: None,
            pending: VecDeque::new(),
        }
    }

    /// The event queued when the user comes back at `now`, if a task was paused.
    pub open spec fn back_event(&self, now: Instant) -> Option<IdleEvent> {
        match (self.paused_task, self.idle_started_at) {
            (Some(t), Some(s)) => Some(
                IdleEvent {
                    idle_duration_secs: running_seconds(now@, s@) as i64,
                    task_id: t.id,
                    task_name: t.name,
                },
            ),
            _ => None,
        }
    }

    /// A poll that ends an idle period with a paused task: only then is the
    /// clock read.
    pub open spec fn queues_event(&self, idle_ms: u64) -> bool {
        idle_ms / 1000 < 3 && self.is_idle && self.paused_task is Some
            && self.idle_started_at is Some
    }

    /// What one poll at `now` does (see `poll_at`).
    pub open spec fn poll_outcome(
        old: &Self,
        new: &Self,
        idle_ms: u64,
        now: Instant,
        r: IdlePoll,
    ) -> bool {
        &&& idle_ms / 1000 < 3 && old.is_idle ==> {
            &&& r == IdlePoll::Quiet
            &&& !new.is_idle
            &&& new.idle_started_at is None
            &&& new.paused_task is None
            &&& new.pending@ == match old.back_event(now) {
                Some(e) => old.pending@.push(e),
                None => old.pending@,
            }
        }
        &&& idle_ms / 1000 < 3 && !old.is_idle ==> r == IdlePoll::Quiet && *new == *old
        &&& idle_ms / 1000 >= 3 ==> *new == *old && r == if !old.is_idle && idle_ms / 1000
            >= SERVICE_IDLE_THRESHOLD_SECS {
            IdlePoll::CheckRunning
        } else {
            IdlePoll::Quiet
        }
    }

    /// The start of an idle period begun at `now` after `idle_ms` milliseconds
    /// of idle time, in nanoseconds since the epoch.
    pub open spec fn idle_start(idle_ms: u64, now: Instant) -> int {
        now@ - (idle_ms / 1000) as int * NANOS_PER_SEC
    }

    /// What pausing for `running` at `now` does (see `pause_at`).
    pub open spec fn pause_outcome(
        old: &Self,
        new: &Self,
        running: Option<Task>,
        idle_ms: u64,
        now: Instant,
    ) -> bool {
        match running {
            Some(t) => {
                &&& new.is_idle
                &&& new.paused_task == Some(t)
                &&& new.idle_started_at matches Some(s) && s@ == Self::idle_start(idle_ms, now)
                &&& new.pending@ == old.pending@
            },
            None => *new == *old,
        }
    }

    /// One poll at `now` that found the system idle for `idle_ms` milliseconds:
    /// input within the last three seconds ends an idle period (queueing the
    /// paused task with the whole, non-negative seconds since the period began);
    /// reaching the threshold outside an idle period asks for the running task.
    pub fn poll_at(&mut self, idle_ms: u64, now: Instant) -> (r: IdlePoll)
        ensures
            Self::poll_outcome(old(self), final(self), idle_ms, now, r),
    {
        let secs: u64 = idle_ms / 1000;
        if secs < 3 {
            if self.is_idle {
                let task = self.paused_task.take();
                match (task, self.idle_started_at) {
                    (Some(t), Some(s)) => {
                        let secs_idle = elapsed_since(now, s);
                        self.pending.push_back(
                            IdleEvent {
                                idle_duration_secs: secs_idle,
                                task_id: t.id,
                                task_name: t.name,
                            },
                        );
                    },
                    _ => {},
                }
                self.is_idle = false;
                self.idle_started_at = None;
            }
            return IdlePoll::Quiet;
        }
        if !self.is_idle && secs >= SERVICE_IDLE_THRESHOLD_SECS {
            IdlePoll::CheckRunning
        } else {
            IdlePoll::Quiet
        }
    }

    /// Pausing for an idle time of `idle_ms` at `now` dates the idle period back
    /// to an instant chrono can represent (`chrono::TimeDelta::seconds` takes at
    /// most `i64::MAX / 1000`).
    pub open spec fn pause_fits(idle_ms: u64, now: Instant) -> bool {
        idle_ms / 1000 <= i64::MAX / 1000 && in_clock_range(Self::idle_start(idle_ms, now))
    }

    /// Whether `pause_at` stays within range (see `pause_fits`).
    pub fn pause_fits_exec(idle_ms: u64, now: Instant) -> (r: bool)
        ensures
            r == Self::pause_fits(idle_ms, now),
    {
        now.seconds_earlier(idle_ms / 1000).is_some()
    }

    /// Takes the running task found after `CheckRunning`: when there is one it is
    /// paused and an idle period starts, dated back by the idle seconds; else
    /// nothing changes.
    pub fn pause_at(&mut self, running: Option<Task>, idle_ms: u64, now: Instant)
        requires
            Self::pause_fits(idle_ms, now),
        ensures
            Self::pause_outcome(old(self), final(self), running, idle_ms, now),
    {
        match running {
            Some(t) => {
                let start = now.seconds_earlier(idle_ms / 1000).unwrap();
                self.paused_task = Some(t);
                self.idle_started_at = Some(start);
                self.is_idle = true;
            },
            None => {},
        }
    }

    /// `poll_at` on the current clock, read only when the poll queues an event.
    /// On an error (`ClockUnavailable`: the clock was needed and could not be
    /// read) nothing changes.
    pub fn poll(&mut self, idle_ms: u64) -> (r: Result<IdlePoll, TimeError>)
        ensures
            match r {
                Ok(p) => exists|now: Instant|
                    #[trigger] Self::poll_outcome(old(self), final(self), idle_ms, now, p),
                Err(e) => {
                    &&& e == TimeError::ClockUnavailable
                    &&& old(self).queues_event(idle_ms)
                    &&& *final(self) == *old(self)
                },
            },
    {
        let needs_clock = idle_ms / 1000 < 3 && self.is_idle && self.paused_task.is_some()
            && self.idle_started_at.is_some();
        if needs_clock {
            match now() {
                Some(t) => Ok(self.poll_at(idle_ms, t)),
                None => Err(TimeError::ClockUnavailable),
            }
        } else {
            let p = self.poll_at(idle_ms, Instant::epoch());
            Ok(p)
        }
    }

    /// `pause_at` on the current clock, read only when a task is to be paused.
    /// Nothing changes on an error: `ClockUnavailable` when the clock could not
    /// be read, `OutOfRange` when the start of the idle period would lie out of
    /// range (see `pause_fits`).
    pub fn pause(&mut self, running: Option<Task>, idle_ms: u64) -> (r: Result<(), TimeError>)
        ensures
            match r {
                Ok(()) => exists|now: Instant|
                    (running is Some ==> Self::pause_fits(idle_ms, now)) && #[trigger] Self::pause_outcome(
                        old(self),
                        final(self),
                        running,
                        idle_ms,
                        now,
                    ),
                Err(e) => {
                    &&& running is Some
                    &&& *final(self) == *old(self)
                    &&& e == TimeError::OutOfRange ==> exists|now: Instant|
                        !#[trigger] Self::pause_fits(idle_ms, now)
                },
            },
    {
        match running {
            None => {
                let epoch = Instant::epoch();
                assert(Self::pause_outcome(old(self), self, running, idle_ms, epoch));
                Ok(())
            },
            Some(t) => match now() {
                None => Err(TimeError::ClockUnavailable),
                Some(at) => {
                    if Self::pause_fits_exec(idle_ms, at) {
                        self.pause_at(Some(t), idle_ms, at);
                        Ok(())
                    } else {
                        Err(TimeError::OutOfRange)
                    }
                },
            },
        }
    }

    /// Hands out the oldest queued idle event.
    pub fn take_event(&mut self) -> (r: Option<IdleEvent>)
        ensures
            old(self).pending@.len() == 0 ==> r is None,
            old(self).pending@.len() == 0 ==> final(self).pending@ == old(self).pending@,
            old(self).pending@.len() > 0 ==> r == Some(old(self).pending@[0]),
            old(self).pending@.len() > 0 ==> final(self).pending@ == old(self).pending@.drop_first(),
            final(self).is_idle == old(self).is_idle,
            final(self).idle_started_at == old(self).idle_started_at,
            final(self).paused_task == old(self).paused_task,
    {
        self.pending.pop_front()
    }
}

/// The task the idle-time service pauses: the first task of the list that the
/// task service reports as running.
pub fn first_running_task(tasks: Vec<Task>) -> (r: Option<Task>)
    ensures
        r == first_running(tasks@),
{
    let n = tasks.len();
    let mut idx: usize = 0;
    while idx < n && !tasks[idx].running
        invariant
            n == tasks@.len(),
            idx <= n,
            forall|k: int| 0 <= k < idx ==> !(#[trigger] tasks@[k]).running,
        decreases n - idx,
    {
        idx = idx + 1;
    }
    proof {
        lemma_first_running_at(tasks@, idx as int);
    }
    if idx < n {
        let mut tasks = tasks;
        Some(tasks.remove(idx))
    } else {
        None
    }
}

proof fn lemma_first_running_exists(s: Seq<Task>)
    ensures
        first_running(s) is Some <==> exists|i: int| 0 <= i < s.len() && (#[trigger] s[i]).running,
        first_running(s) matches Some(t) ==> t.running,
    decreases s.len(),
{
    if s.len() > 0 && !s[0].running {
        let t = s.skip(1);
        lemma_first_running_exists(t);
        if exists|i: int| 0 <= i < s.len() && (#[trigger] s[i]).running {
            let i = choose|i: int| 0 <= i < s.len() && (#[trigger] s[i]).running;
            assert(t[i - 1] == s[i]);
        }
        if exists|i: int| 0 <= i < t.len() && (#[trigger] t[i]).running {
            let i = choose|i: int| 0 <= i < t.len() && (#[trigger] t[i]).running;
            assert(t[i] == s[i + 1]);
        }
    } else if s.len() > 0 {
        assert(s[0].running);
    }
}

/// The idle-time service pauses the first running task of the list it got, and
/// only when one runs: after the threshold is reached outside an idle period,
/// an idle period opens exactly when a listed task runs, with that task paused.
pub proof fn lemma_pauses_first_running(
    tasks: Seq<Task>,
    w0: QueuedIdleWatch,
    w1: QueuedIdleWatch,
    idle_ms: u64,
    now: Instant,
)
    requires
        !w0.is_idle,
        QueuedIdleWatch::pause_outcome(&w0, &w1, first_running(tasks), idle_ms, now),
    ensures
        w1.is_idle <==> exists|i: int| 0 <= i < tasks.len() && (#[trigger] tasks[i]).running,
        w1.is_idle ==> w1.paused_task == first_running(tasks) && first_running(tasks).unwrap().running,
        w1.pending@ == w0.pending@,
{
    lemma_first_running_exists(tasks);
}

/// The service reads back the parent pid the app passes it: a command line
/// `<program> --parent-pid <pid>` gives `pid`.
pub proof fn lemma_parent_pid_round_trip(args: Seq<String>, pid: u32)
    requires
        args.len() == 3,
        args[1]@ == PARENT_PID_FLAG@,
        args[2]@ == decimal_text(pid as int),
    ensures
        parent_pid_of(args) == Some(pid),
{
    let a = args.skip(1);
    assert(a[0] == args[1]);
    assert(a[1] == args[2]);
    crate::decimal::lemma_parse_decimal(pid);
}

} // verus!
