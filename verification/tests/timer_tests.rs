use timez_core::clock::{Instant, TimeError};
use timez_core::models::{ApiStatus, ApiStatusTask, Task};
use timez_core::timer::{RemoteCall, StatusCheck, TimerStateInner, TimerStep};

/// The instant `ms` milliseconds after the Unix epoch.
fn at(ms: i64) -> Instant {
    Instant::from_nanos(ms as i128 * 1_000_000).unwrap()
}

fn task(id: i64, name: &str, elapsed: i64, running: bool) -> Task {
    Task { id, name: name.to_string(), budget_secs: 28800, elapsed_secs: elapsed, running }
}

fn synced() -> TimerStateInner {
    let mut s = TimerStateInner::new();
    let check = s.sync_tasks_at(vec![task(1, "Design", 100, false), task(2, "Testing", 50, false)], at(1_000));
    assert_eq!(check, None);
    s.finish_sync_at(check, None, at(1_000));
    s
}

#[test]
fn new_state_is_empty() {
    let s = TimerStateInner::new();
    assert!(s.cached_tasks.is_empty());
    assert_eq!(s.running_task_id, None);
    assert_eq!(s.timer_started_at, None);
    assert_eq!(s.last_sync_at, None);
    assert!(s.base_elapsed.is_empty());
}

#[test]
fn sync_caches_list_and_bases() {
    let s = synced();
    assert_eq!(s.cached_tasks, vec![task(1, "Design", 0, false), task(2, "Testing", 0, false)]);
    assert_eq!(s.base_elapsed.get(&1), Some(&100));
    assert_eq!(s.base_elapsed.get(&2), Some(&50));
    assert_eq!(s.last_sync_at, Some(at(1_000)));
    assert_eq!(s.get_tasks_at(at(5_000)), vec![task(1, "Design", 100, false), task(2, "Testing", 50, false)]);
}

#[test]
fn sync_adopts_running_task_and_corrects_base() {
    let mut s = TimerStateInner::new();
    let check = s.sync_tasks_at(vec![task(1, "Design", 100, false), task(2, "Testing", 70, true)], at(10_000));
    assert_eq!(check, Some(StatusCheck { task_id: 2, listed_elapsed: 70 }));
    assert_eq!(s.running_task_id, Some(2));
    assert_eq!(s.timer_started_at, Some(at(10_000)));
    let status = ApiStatus {
        running: true,
        task: Some(ApiStatusTask { id: 2, name: "Testing".to_string() }),
        time_entry_id: Some(9),
        elapsed_seconds: Some(20),
    };
    assert!(TimerStateInner::status_fits_exec(&check, &Some(status.clone())));
    s.finish_sync_at(check, Some(status), at(10_500));
    assert_eq!(s.base_elapsed.get(&2), Some(&50));
    assert_eq!(s.last_sync_at, Some(at(10_500)));
    // 25.9 seconds later the running task shows 50 + 25.
    assert_eq!(s.get_tasks_at(at(35_900))[1], task(2, "Testing", 75, true));
}

#[test]
fn sync_keeps_a_different_local_timer() {
    let mut s = synced();
    assert_eq!(s.begin_start_at(1, at(2_000)), TimerStep::Call(RemoteCall::Start { task_id: 1 }));
    s.complete_call_at(RemoteCall::Start { task_id: 1 }, Ok(()), at(2_000));
    let check = s.sync_tasks_at(vec![task(1, "Design", 100, false), task(2, "Testing", 70, true)], at(3_000));
    assert_eq!(check, None);
    assert_eq!(s.running_task_id, Some(1));
    assert_eq!(s.timer_started_at, Some(at(2_000)));
}

#[test]
fn start_then_stop_credits_the_run() {
    let mut s = synced();
    let step = s.begin_start_at(1, at(5_000));
    assert_eq!(step, TimerStep::Call(RemoteCall::Start { task_id: 1 }));
    let step = s.complete_call_at(RemoteCall::Start { task_id: 1 }, Ok(()), at(5_000));
    assert_eq!(step, TimerStep::Done(Ok(())));
    assert_eq!(s.running_task_id, Some(1));
    assert_eq!(s.status_at(at(7_999)).current_entry_elapsed, 2);
    assert_eq!(s.get_tasks_at(at(65_000))[0], task(1, "Design", 160, true));
    let step = s.begin_stop_at(at(65_000));
    assert_eq!(step, TimerStep::Call(RemoteCall::Stop { task_id: 1, then_start: None }));
    assert_eq!(s.base_elapsed.get(&1), Some(&160));
    let step = s.complete_call_at(RemoteCall::Stop { task_id: 1, then_start: None }, Ok(()), at(65_100));
    assert_eq!(step, TimerStep::Done(Ok(())));
    assert_eq!(s.running_task_id, None);
    assert_eq!(s.timer_started_at, None);
    assert_eq!(s.get_tasks_at(at(900_000))[0], task(1, "Design", 160, false));
}

#[test]
fn starting_the_running_task_again_does_nothing() {
    let mut s = synced();
    s.begin_start_at(2, at(1_000));
    s.complete_call_at(RemoteCall::Start { task_id: 2 }, Ok(()), at(1_000));
    assert_eq!(s.begin_start_at(2, at(9_000)), TimerStep::Done(Ok(())));
    assert_eq!(s.base_elapsed.get(&2), Some(&50));
    assert_eq!(s.timer_started_at, Some(at(1_000)));
}

#[test]
fn switching_tasks_stops_then_starts() {
    let mut s = synced();
    s.begin_start_at(1, at(0));
    s.complete_call_at(RemoteCall::Start { task_id: 1 }, Ok(()), at(0));
    let step = s.begin_start_at(2, at(10_000));
    let call = RemoteCall::Stop { task_id: 1, then_start: Some(2) };
    assert_eq!(step, TimerStep::Call(call.clone()));
    assert_eq!(s.base_elapsed.get(&1), Some(&110));
    let step = s.complete_call_at(call, Ok(()), at(10_100));
    assert_eq!(step, TimerStep::Call(RemoteCall::Start { task_id: 2 }));
    let step = s.complete_call_at(RemoteCall::Start { task_id: 2 }, Ok(()), at(10_200));
    assert_eq!(step, TimerStep::Done(Ok(())));
    assert_eq!(s.running_task_id, Some(2));
    assert_eq!(s.timer_started_at, Some(at(10_200)));
}

#[test]
fn failed_server_call_keeps_state() {
    let mut s = synced();
    s.begin_start_at(1, at(0));
    s.complete_call_at(RemoteCall::Start { task_id: 1 }, Ok(()), at(0));
    s.begin_stop_at(at(3_000));
    let step = s.complete_call_at(
        RemoteCall::Stop { task_id: 1, then_start: None },
        Err("API error: offline".to_string()),
        at(3_100),
    );
    assert_eq!(step, TimerStep::Done(Err("API error: offline".to_string())));
    assert_eq!(s.running_task_id, Some(1));
    // The run was already credited before the server refused.
    assert_eq!(s.base_elapsed.get(&1), Some(&103));
}

#[test]
fn stop_without_timer_is_done() {
    let mut s = synced();
    assert_eq!(s.begin_stop_at(at(1_000)), TimerStep::Done(Ok(())));
}

#[test]
fn resume_adds_idle_seconds() {
    let mut s = synced();
    assert!(s.resume_fits_exec(1, 300));
    let step = s.begin_resume(1, 300);
    assert_eq!(step, TimerStep::Call(RemoteCall::Start { task_id: 1 }));
    assert_eq!(s.base_elapsed.get(&1), Some(&400));
    s.complete_call_at(RemoteCall::Start { task_id: 1 }, Ok(()), at(50_000));
    assert_eq!(s.get_tasks_at(at(50_000))[0], task(1, "Design", 400, true));
    // A task without a recorded base counts from zero.
    let step = s.begin_resume(7, 30);
    assert_eq!(step, TimerStep::Call(RemoteCall::Start { task_id: 7 }));
    assert_eq!(s.base_elapsed.get(&7), Some(&30));
}

#[test]
fn status_reports_running_timer() {
    let mut s = synced();
    let st = s.status_at(at(10_000));
    assert!(!st.running);
    assert_eq!(st.active_task_id, None);
    assert_eq!(st.current_entry_elapsed, 0);
    s.begin_start_at(2, at(1_000));
    s.complete_call_at(RemoteCall::Start { task_id: 2 }, Ok(()), at(1_000));
    let st = s.status_at(at(4_500));
    assert!(st.running);
    assert_eq!(st.active_task_id, Some(2));
    assert_eq!(st.current_entry_elapsed, 3);
    // A clock that went backwards counts as zero.
    assert_eq!(s.status_at(at(500)).current_entry_elapsed, 0);
}

#[test]
fn overflow_is_refused_by_the_checks() {
    let mut s = synced();
    s.base_elapsed.insert(1, i64::MAX);
    s.begin_start_at(1, at(0));
    s.complete_call_at(RemoteCall::Start { task_id: 1 }, Ok(()), at(0));
    assert!(!s.shown_fits_at(at(5_000)));
    assert!(s.shown_fits_at(at(500)));
    assert!(!s.stop_fits_at(at(5_000)));
    assert!(!s.resume_fits_exec(1, 1));
}

#[test]
fn clock_versions_run() {
    let mut s = synced();
    assert_eq!(s.get_tasks().unwrap().len(), 2);
    assert_eq!(s.status().unwrap().current_entry_elapsed, 0);
    assert_eq!(s.begin_stop(), Ok(TimerStep::Done(Ok(()))));
    assert_eq!(s.begin_start(1), Ok(TimerStep::Call(RemoteCall::Start { task_id: 1 })));
    assert_eq!(s.complete_call(RemoteCall::Start { task_id: 1 }, Ok(())), Ok(TimerStep::Done(Ok(()))));
    let started = s.timer_started_at.unwrap();
    assert!(started.nanos() > at(1_600_000_000_000).nanos());
    assert!(s.status().unwrap().running);
    assert_eq!(s.begin_stop(), Ok(TimerStep::Call(RemoteCall::Stop { task_id: 1, then_start: None })));
    assert_eq!(s.base_elapsed.get(&1), Some(&100));
    let check = s.sync_tasks(vec![task(3, "Docs", 5, false)]).unwrap();
    assert_eq!(s.finish_sync(check, None), Ok(()));
    assert!(s.last_sync_at.unwrap().nanos() >= started.nanos());
}

#[test]
fn clock_refusals_leave_state_alone() {
    let mut s = synced();
    s.base_elapsed.insert(1, i64::MAX);
    s.complete_call_at(RemoteCall::Start { task_id: 1 }, Ok(()), at(0));
    assert_eq!(s.get_tasks(), Err(TimeError::OutOfRange));
    assert_eq!(s.begin_stop(), Err(TimeError::OutOfRange));
    assert_eq!(s.begin_start(2), Err(TimeError::OutOfRange));
    assert_eq!(s.running_task_id, Some(1));
    assert_eq!(s.base_elapsed.get(&1), Some(&i64::MAX));
    assert_eq!(s.begin_start(1), Ok(TimerStep::Done(Ok(()))));
}

#[test]
fn running_task_label_uses_cache_or_id() {
    let mut s = synced();
    assert_eq!(s.running_task_label(), None);
    s.complete_call_at(RemoteCall::Start { task_id: 2 }, Ok(()), at(0));
    assert_eq!(s.running_task_label(), Some((2, "Testing".to_string())));
    s.complete_call_at(RemoteCall::Start { task_id: -42 }, Ok(()), at(0));
    assert_eq!(s.running_task_label(), Some((-42, "Task -42".to_string())));
}

#[test]
fn shown_elapsed_never_goes_down() {
    let mut s = synced();
    s.complete_call_at(RemoteCall::Start { task_id: 1 }, Ok(()), at(10_000));
    let mut last = i64::MIN;
    for now in [0, 9_999, 10_000, 10_999, 11_000, 500_000] {
        let shown = s.get_tasks_at(at(now))[0].elapsed_secs;
        assert!(shown >= last);
        last = shown;
    }
    assert_eq!(last, 590);
}
