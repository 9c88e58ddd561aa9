use std::collections::HashMap;
use vstd::prelude::*;

use crate::clock::Instant;
use crate::models::{status_live, ApiStatus, ApiTask, SummaryReport, SummaryTask, Task};
use crate::timer::{first_running, with_listed, StatusCheck, TimerStateInner};

verus! {

broadcast use vstd::std_specs::hash::group_hash_axioms;

/// Seconds per task in a summary report, a later entry for the same task winning.
pub open spec fn summary_map(s: Seq<SummaryTask>) -> Map<i64, i64>
    decreases s.len(),
{
    if s.len() == 0 {
        Map::empty()
    } else {
        summary_map(s.drop_last()).insert(s.last().task_id, s.last().total_seconds)
    }
}

/// The seconds the summary (when the server gave one) records for task `id`, zero if none.
pub open spec fn summary_seconds(summary: Option<SummaryReport>, id: i64) -> int {
    match summary {
        Some(r) => if summary_map(r.tasks@).contains_key(id) {
            summary_map(r.tasks@)[id] as int
        } else {
            0
        },
        None => 0,
    }
}

/// The task the server's status runs (when it answered and reports a running
/// timer on a named task).
pub open spec fn status_running_id(status: Option<ApiStatus>) -> Option<i64> {
    match status {
        Some(s) => if s.running {
            match s.task {
                Some(t) => Some(t.id),
                None => None,
            }
        } else {
            None
        },
        None => None,
    }
}

/// The seconds of the server's running entry (zero when no timer runs).
pub open spec fn status_running_secs(status: Option<ApiStatus>) -> int {
    match status {
        Some(s) => if s.running {
            status_live(s)
        } else {
            0
        },
        None => 0,
    }
}

/// The elapsed seconds of a listed task: its summary seconds, plus the running
/// entry's seconds when it is the running task.
pub open spec fn merged_elapsed(
    t: ApiTask,
    summary: Option<SummaryReport>,
    status: Option<ApiStatus>,
) -> int {
    if status_running_id(status) == Some(t.id) {
        summary_seconds(summary, t.id) + status_running_secs(status)
    } else {
        summary_seconds(summary, t.id)
    }
}

/// A listed task completed with its elapsed seconds and running state.
pub open spec fn merged_task(
    t: ApiTask,
    summary: Option<SummaryReport>,
    status: Option<ApiStatus>,
) -> Task {
    Task {
        id: t.id,
        name: t.name,
        budget_secs: t.budget_secs,
        elapsed_secs: merged_elapsed(t, summary, status) as i64,
        running: status_running_id(status) == Some(t.id),
    }
}

/// Every merged elapsed value fits in an `i64`.
pub open spec fn merge_fits(
    tasks: Seq<ApiTask>,
    summary: Option<SummaryReport>,
    status: Option<ApiStatus>,
) -> bool {
    forall|i: int|
        0 <= i < tasks.len() ==> i64::MIN <= #[trigger] merged_elapsed(tasks[i], summary, status)
            <= i64::MAX
}

fn summary_table(summary: &Option<SummaryReport>) -> (m: HashMap<i64, i64>)
    ensures
        forall|id: i64| #[trigger]
            m@.contains_key(id) ==> summary_seconds(*summary, id) == m@[id] as int,
        forall|id: i64| !(#[trigger] m@.contains_key(id)) ==> summary_seconds(*summary, id) == 0,
{
    let mut m: HashMap<i64, i64> = HashMap::new();
    match summary {
        Some(r) => {
            let n = r.tasks.len();
            let mut i: usize = 0;
            while i < n
                invariant
                    n == r.tasks@.len(),
                    i <= n,
                    m@ == summary_map(r.tasks@.take(i as int)),
                decreases n - i,
            {
                m.insert(r.tasks[i].task_id, r.tasks[i].total_seconds);
                i = i + 1;
                assert(r.tasks@.take(i as int).drop_last() =~= r.tasks@.take(i - 1));
            }
            assert(r.tasks@.take(n as int) =~= r.tasks@);
        },
        None => {},
    }
    m
}

fn running_of(status: &Option<ApiStatus>) -> (r: (Option<i64>, i64))
    ensures
        r.0 == status_running_id(*status),
        r.1 == status_running_secs(*status),
{
    match status {
        Some(s) => if s.running {
            let id = match &s.task {
                Some(t) => Some(t.id),
                None => None,
            };
            let secs = match s.elapsed_seconds {
                Some(e) => e,
                None => 0,
            };
            (id, secs)
        } else {
            (None, 0)
        },
        None => (None, 0),
    }
}

/// Whether `merge_task_list` stays within `i64` for these answers.
pub fn merge_fits_exec(
    tasks: &Vec<ApiTask>,
    summary: &Option<SummaryReport>,
    status: &Option<ApiStatus>,
) -> (r: bool)
    ensures
        r == merge_fits(tasks@, *summary, *status),
{
    let table = summary_table(summary);
    let (rid, rsecs) = running_of(status);
    let n = tasks.len();
    let mut i: usize = 0;
    while i < n
        invariant
            n == tasks@.len(),
            i <= n,
            rid == status_running_id(*status),
            rsecs == status_running_secs(*status),
            forall|id: i64| #[trigger]
                table@.contains_key(id) ==> summary_seconds(*summary, id) == table@[id] as int,
            forall|id: i64|
                !(#[trigger] table@.contains_key(id)) ==> summary_seconds(*summary, id) == 0,
            forall|k: int|
                0 <= k < i ==> i64::MIN <= #[trigger] merged_elapsed(tasks@[k], *summary, *status)
                    <= i64::MAX,
        decreases n - i,
    {
        let t = &tasks[i];
        let base: i64 = match table.get(&t.id) {
            Some(v) => *v,
            None => 0,
        };
        let is_running = match rid {
            Some(r) => r == t.id,
            None => false,
        };
        if is_running {
            let sum: i128 = base as i128 + rsecs as i128;
            if sum < i64::MIN as i128 || sum > i64::MAX as i128 {
                assert(!(i64::MIN <= merged_elapsed(tasks@[i as int], *summary, *status)
                    <= i64::MAX));
                return false;
            }
        }
        i = i + 1;
    }
    true
}

/// Completes the server's task list with the elapsed seconds of its summary
/// report and the running state of its timer status; `summary` and `status` are
/// none when the server did not answer them.
pub fn merge_task_list(
    api_tasks: Vec<ApiTask>,
    summary: Option<SummaryReport>,
    status: Option<ApiStatus>,
) -> (r: Vec<Task>)
    requires
        merge_fits(api_tasks@, summary, status),
    ensures
        r@ == api_tasks@.map_values(|t: ApiTask| merged_task(t, summary, status)),
{
    let table = summary_table(&summary);
    let (rid, rsecs) = running_of(&status);
    let n = api_tasks.len();
    let mut out: Vec<Task> = Vec::new();
    let mut i: usize = 0;
    while i < n
        invariant
            n == api_tasks@.len(),
            i <= n,
            merge_fits(api_tasks@, summary, status),
            rid == status_running_id(status),
            rsecs == status_running_secs(status),
            forall|id: i64| #[trigger]
                table@.contains_key(id) ==> summary_seconds(summary, id) == table@[id] as int,
            forall|id: i64| !(#[trigger] table@.contains_key(id)) ==> summary_seconds(summary, id) == 0,
            out@ == api_tasks@.take(i as int).map_values(
                |t: ApiTask| merged_task(t, summary, status),
            ),
        decreases n - i,
    {
        let t = &api_tasks[i];
        let base: i64 = match table.get(&t.id) {
            Some(v) => *v,
            None => 0,
        };
        let is_running = match rid {
            Some(r) => r == t.id,
            None => false,
        };
        assert(i64::MIN <= merged_elapsed(api_tasks@[i as int], summary, status) <= i64::MAX);
        let elapsed = if is_running {
            base + rsecs
        } else {
            base
        };
        out.push(
            Task {
                id: t.id,
                name: t.name.clone(),
                budget_secs: t.budget_secs,
                elapsed_secs: elapsed,
                running: is_running,
            },
        );
        i = i + 1;
        assert(out@ =~= api_tasks@.take(i as int).map_values(
            |t: ApiTask| merged_task(t, summary, status),
        ));
    }
    assert(api_tasks@.take(n as int) =~= api_tasks@);
    out
}

/// Index of the last task with the largest elapsed seconds (the one
/// `Iterator::max_by_key` picks); expects a non-empty list.
pub open spec fn last_max_index(s: Seq<Task>) -> int
    decreases s.len(),
{
    if s.len() <= 1 {
        0
    } else {
        let j = last_max_index(s.drop_last());
        if s.last().elapsed_secs >= s[j].elapsed_secs {
            s.len() - 1
        } else {
            j
        }
    }
}

/// The task the tray's pause/resume item starts when no timer runs: the first
/// task marked running, else the last of those with the most elapsed seconds.
pub open spec fn toggle_choice(s: Seq<Task>) -> Option<i64> {
    match first_running(s) {
        Some(t) => Some(t.id),
        None => if s.len() == 0 {
            None
        } else {
            Some(s[last_max_index(s)].id)
        },
    }
}

proof fn lemma_last_max_index_bound(s: Seq<Task>)
    requires
        s.len() > 0,
    ensures
        0 <= last_max_index(s) < s.len(),
    decreases s.len(),
{
    if s.len() > 1 {
        lemma_last_max_index_bound(s.drop_last());
    }
}

/// What the tray's "Pause/Resume Task" item does once it asked for the timer
/// status.
#[derive(Clone, Copy, Debug, PartialEq, Eq)]
pub enum ToggleAction {
    /// The status could not be had: show the main window.
    ShowWindow,
    /// A timer runs: stop it.
    Stop,
    /// No timer runs: list the tasks and start the one `toggle_target` picks
    /// (or show the window when it picks none).
    PickTask,
}

/// The tray toggle's first decision, on whether a timer runs (none when the
/// status could not be had).
pub fn toggle_on_status(running: Option<bool>) -> (a: ToggleAction)
    ensures
        a == match running {
            None => ToggleAction::ShowWindow,
            Some(true) => ToggleAction::Stop,
            Some(false) => ToggleAction::PickTask,
        },
{
    match running {
        None => ToggleAction::ShowWindow,
        Some(true) => ToggleAction::Stop,
        Some(false) => ToggleAction::PickTask,
    }
}

/// Picks the task to start from the tray: see `toggle_choice`.
pub fn toggle_target(tasks: &Vec<Task>) -> (r: Option<i64>)
    ensures
        r == toggle_choice(tasks@),
{
    let n = tasks.len();
    let mut idx: usize = 0;
    while idx < n && !tasks[idx].running
        invariant
            n == tasks@.len(),
            idx <= n,
            forall|k: int| 0 <= k < idx ==> !(#[trigger] tasks@[k]).running,
        decreases n - idx,
    {
        idx = idx + 1;
    }
    proof {
        crate::timer::lemma_first_running_at(tasks@, idx as int);
    }
    if idx < n {
        return Some(tasks[idx].id);
    }
    if n == 0 {
        return None;
    }
    let mut best: usize = 0;
    let mut i: usize = 1;
    while i < n
        invariant
            n == tasks@.len(),
            1 <= i <= n,
            best < i,
            best == last_max_index(tasks@.take(i as int)),
        decreases n - i,
    {
        proof {
            let p = tasks@.take(i + 1);
            assert(p.drop_last() =~= tasks@.take(i as int));
            assert(p.last() == tasks@[i as int]);
            assert(p[best as int] == tasks@[best as int]);
        }
        if tasks[i].elapsed_secs >= tasks[best].elapsed_secs {
            best = i;
        }
        i = i + 1;
    }
    assert(tasks@.take(n as int) =~= tasks@);
    Some(tasks[best].id)
}

proof fn lemma_with_listed_contains(m: Map<i64, i64>, s: Seq<Task>, i: int)
    requires
        0 <= i < s.len(),
    ensures
        with_listed(m, s).contains_key(s[i].id),
    decreases s.len(),
{
    if i < s.len() - 1 {
        lemma_with_listed_contains(m, s.drop_last(), i);
        assert(s.drop_last()[i] == s[i]);
    }
}

proof fn lemma_first_running_index(s: Seq<Task>) -> (i: int)
    requires
        first_running(s) is Some,
    ensures
        0 <= i < s.len(),
        s[i] == first_running(s).unwrap(),
        s[i].running,
    decreases s.len(),
{
    if s[0].running {
        0
    } else {
        let j = lemma_first_running_index(s.skip(1));
        assert(s.skip(1)[j] == s[j + 1]);
        j + 1
    }
}

/// Syncing does not count the running entry twice: when the task list came from
/// `merge_task_list` (whose running task includes the server's current entry)
/// and the sync's status check is answered with the same status, the running
/// task's base ends up as its summary seconds alone; the local run adds the rest.
pub proof fn lemma_sync_does_not_double_count(
    api_tasks: Seq<ApiTask>,
    summary: Option<SummaryReport>,
    status: ApiStatus,
    s0: TimerStateInner,
    s1: TimerStateInner,
    s2: TimerStateInner,
    now1: Instant,
    now2: Instant,
    check: Option<StatusCheck>,
)
    requires
        merge_fits(api_tasks, summary, Some(status)),
        TimerStateInner::sync_outcome(
            &s0,
            &s1,
            api_tasks.map_values(|t: ApiTask| merged_task(t, summary, Some(status))),
            now1,
            check,
        ),
        TimerStateInner::status_fits(check, Some(status)),
        TimerStateInner::finish_outcome(&s1, &s2, check, Some(status), now2),
        check is Some,
    ensures
        s2.base_elapsed@[check.unwrap().task_id] == summary_seconds(summary, check.unwrap().task_id),
{
    let listed = api_tasks.map_values(|t: ApiTask| merged_task(t, summary, Some(status)));
    let c = check.unwrap();
    let i = lemma_first_running_index(listed);
    let r = listed[i];
    assert(r == merged_task(api_tasks[i], summary, Some(status)));
    assert(r.running);
    assert(c.task_id == r.id && c.listed_elapsed == r.elapsed_secs);
    assert(i64::MIN <= merged_elapsed(api_tasks[i], summary, Some(status)) <= i64::MAX);
    lemma_with_listed_contains(s0.base_elapsed@, listed, i);
    assert(s1.base_elapsed@.contains_key(c.task_id));
}

/// `k` is the first task of `tasks` that the server reports as running.
pub open spec fn is_first_running(tasks: Seq<Task>, k: int) -> bool {
    &&& 0 <= k < tasks.len()
    &&& tasks[k].running
    &&& forall|j: int| 0 <= j < k ==> !(#[trigger] tasks[j]).running
}

/// What a sync does with the server's running task, for any prior local state:
/// with no local timer it adopts the server's first running task; a local
/// timer keeps running; and the status check is asked for exactly when the
/// task running locally after the sync is the server's first running task (so
/// its current entry can be taken out of its base). Without a running task on
/// the server nothing is adopted and no check is asked for.
pub proof fn lemma_sync_checks_running_task(
    s0: TimerStateInner,
    s1: TimerStateInner,
    tasks: Seq<Task>,
    now: Instant,
    check: Option<StatusCheck>,
    k: int,
)
    requires
        TimerStateInner::sync_outcome(&s0, &s1, tasks, now, check),
        is_first_running(tasks, k),
    ensures
        s0.running_task_id is None ==> s1.running_task_id == Some(tasks[k].id)
            && s1.timer_started_at == Some(now),
        s0.running_task_id is Some ==> s1.running_task_id == s0.running_task_id
            && s1.timer_started_at == s0.timer_started_at,
        s1.running_task_id == Some(tasks[k].id) <==> check == Some(
            StatusCheck { task_id: tasks[k].id, listed_elapsed: tasks[k].elapsed_secs },
        ),
        s1.running_task_id != Some(tasks[k].id) <==> check is None,
{
    crate::timer::lemma_first_running_at(tasks, k);
}

/// Without a running task in the list, a sync adopts nothing and asks for no
/// status check.
pub proof fn lemma_sync_without_running_task(
    s0: TimerStateInner,
    s1: TimerStateInner,
    tasks: Seq<Task>,
    now: Instant,
    check: Option<StatusCheck>,
)
    requires
        TimerStateInner::sync_outcome(&s0, &s1, tasks, now, check),
        forall|j: int| 0 <= j < tasks.len() ==> !(#[trigger] tasks[j]).running,
    ensures
        check is None,
        s1.running_task_id == s0.running_task_id,
        s1.timer_started_at == s0.timer_started_at,
{
    crate::timer::lemma_first_running_at(tasks, tasks.len() as int);
}

/// Sync then status, for any prior local state: when the task running locally
/// after the sync is the server's first running task, the status answer leaves
/// that task's base at its listed seconds less the server's current entry, so
/// the entry the list already counts is not counted again by the local run.
pub proof fn lemma_sync_then_status(
    s0: TimerStateInner,
    s1: TimerStateInner,
    s2: TimerStateInner,
    tasks: Seq<Task>,
    status: ApiStatus,
    now1: Instant,
    now2: Instant,
    check: Option<StatusCheck>,
    k: int,
)
    requires
        TimerStateInner::sync_outcome(&s0, &s1, tasks, now1, check),
        is_first_running(tasks, k),
        s1.running_task_id == Some(tasks[k].id),
        TimerStateInner::status_fits(check, Some(status)),
        TimerStateInner::finish_outcome(&s1, &s2, check, Some(status), now2),
    ensures
        s2.base_elapsed@[tasks[k].id] == tasks[k].elapsed_secs - status_live(status),
        s2.running_task_id == Some(tasks[k].id),
        s2.timer_started_at == s1.timer_started_at,
{
    lemma_sync_checks_running_task(s0, s1, tasks, now1, check, k);
    lemma_with_listed_contains(s0.base_elapsed@, tasks, k);
}

/// Syncing a merged task list never counts the running entry twice, whatever
/// the local state before: when the task running locally after the sync is the
/// server's running task, the status answer leaves its base at its summary
/// seconds alone.
pub proof fn lemma_sync_never_double_counts(
    api_tasks: Seq<ApiTask>,
    summary: Option<SummaryReport>,
    status: ApiStatus,
    s0: TimerStateInner,
    s1: TimerStateInner,
    s2: TimerStateInner,
    now1: Instant,
    now2: Instant,
    check: Option<StatusCheck>,
    k: int,
)
    requires
        merge_fits(api_tasks, summary, Some(status)),
        TimerStateInner::sync_outcome(
            &s0,
            &s1,
            api_tasks.map_values(|t: ApiTask| merged_task(t, summary, Some(status))),
            now1,
            check,
        ),
        is_first_running(api_tasks.map_values(|t: ApiTask| merged_task(t, summary, Some(status))), k),
        s1.running_task_id == Some(api_tasks[k].id),
        TimerStateInner::status_fits(check, Some(status)),
        TimerStateInner::finish_outcome(&s1, &s2, check, Some(status), now2),
    ensures
        s2.base_elapsed@[api_tasks[k].id] == summary_seconds(summary, api_tasks[k].id),
{
    let listed = api_tasks.map_values(|t: ApiTask| merged_task(t, summary, Some(status)));
    assert(listed[k] == merged_task(api_tasks[k], summary, Some(status)));
    lemma_sync_checks_running_task(s0, s1, listed, now1, check, k);
    lemma_sync_does_not_double_count(api_tasks, summary, status, s0, s1, s2, now1, now2, check);
}

/// The last index of a largest elapsed value: every task has at most its
/// seconds, and every later task has fewer.
proof fn lemma_last_max_index_is_last_max(s: Seq<Task>)
    requires
        s.len() > 0,
    ensures
        0 <= last_max_index(s) < s.len(),
        forall|j: int| 0 <= j < s.len() ==> (#[trigger] s[j]).elapsed_secs <= s[last_max_index(s)].elapsed_secs,
        forall|j: int| last_max_index(s) < j < s.len() ==> (#[trigger] s[j]).elapsed_secs < s[last_max_index(s)].elapsed_secs,
    decreases s.len(),
{
    if s.len() > 1 {
        let t = s.drop_last();
        lemma_last_max_index_is_last_max(t);
        assert forall|j: int| 0 <= j < t.len() implies #[trigger] s[j] == t[j] by {}
    }
}

/// What the tray starts: the first running task when one runs; else, for a
/// non-empty list, a task with the most elapsed seconds (the last of them, as
/// `max_by_key` picks); nothing for an empty list.
pub proof fn lemma_toggle_picks(tasks: Seq<Task>)
    ensures
        forall|k: int| crate::tasks::is_first_running(tasks, k) ==> toggle_choice(tasks) == Some(
            #[trigger] tasks[k].id,
        ),
        (forall|j: int| 0 <= j < tasks.len() ==> !(#[trigger] tasks[j]).running) && tasks.len()
            > 0 ==> exists|k: int|
            {
                &&& 0 <= k < tasks.len()
                &&& toggle_choice(tasks) == Some(#[trigger] tasks[k].id)
                &&& forall|j: int| 0 <= j < tasks.len() ==> (#[trigger] tasks[j]).elapsed_secs <= tasks[k].elapsed_secs
                &&& forall|j: int| k < j < tasks.len() ==> (#[trigger] tasks[j]).elapsed_secs < tasks[k].elapsed_secs
            },
        tasks.len() == 0 ==> toggle_choice(tasks) is None,
{
    assert forall|k: int| crate::tasks::is_first_running(tasks, k) implies toggle_choice(tasks) == Some(
        #[trigger] tasks[k].id,
    ) by {
        crate::timer::lemma_first_running_at(tasks, k);
    }
    if (forall|j: int| 0 <= j < tasks.len() ==> !(#[trigger] tasks[j]).running) && tasks.len() > 0 {
        crate::timer::lemma_first_running_at(tasks, tasks.len() as int);
        lemma_last_max_index_is_last_max(tasks);
        let k = last_max_index(tasks);
        assert(toggle_choice(tasks) == Some(tasks[k].id));
    }
    if tasks.len() == 0 {
        crate::timer::lemma_first_running_at(tasks, 0);
    }
}

} // verus!
