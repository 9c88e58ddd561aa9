use timez_core::activity::{user_is_active, ActivityTracker};
use timez_core::clock::{Instant, TimeError};
use timez_core::idle::{IdleDecision, IdleMonitor};
use timez_core::models::{IdleEvent, Task};
use timez_core::service::{is_authorized, parent_pid_from_args, proc_path, IdlePoll, QueuedIdleWatch, RunningWatch};

/// The instant `ms` milliseconds after the Unix epoch.
fn at(ms: i64) -> Instant {
    Instant::from_nanos(ms as i128 * 1_000_000).unwrap()
}

#[test]
fn tracker_counts_polls() {
    let mut t = ActivityTracker::new_at(at(0));
    t.record_poll(false, true, at(2_000));
    t.record_poll(false, false, at(4_000));
    t.record_poll(true, true, at(6_000));
    assert_eq!(t.active_secs, 4);
    assert_eq!(t.idle_secs, 2);
    assert_eq!(t.last_activity_at, at(2_000));
    let s = t.stats();
    assert_eq!((s.active_secs, s.idle_secs, s.total_secs), (4, 2, 6));
    assert!(t.stats_fit());
    let fresh = ActivityTracker::new().unwrap();
    assert_eq!((fresh.active_secs, fresh.idle_secs), (0, 0));
    assert!(fresh.last_activity_at.nanos() > 0);
}

#[test]
fn tracker_counts_current_polls() {
    let mut t = ActivityTracker::new_at(at(0));
    assert_eq!(t.record_current_poll(false, 2_999), Ok(()));
    assert_eq!(t.active_secs, 2);
    assert!(t.last_activity_at.nanos() > at(1_600_000_000_000).nanos());
    let seen = t.last_activity_at;
    assert_eq!(t.record_current_poll(false, 3_000), Ok(()));
    assert_eq!(t.record_current_poll(true, 0), Ok(()));
    assert_eq!((t.active_secs, t.idle_secs, t.last_activity_at), (4, 2, seen));
    t.idle_secs = i64::MAX - 1;
    assert_eq!(t.record_current_poll(true, 0), Err(TimeError::OutOfRange));
    assert_eq!(t.idle_secs, i64::MAX - 1);
    assert!(!t.stats_fit());
    assert!(t.record_fits_exec(false));
    assert!(!t.record_fits_exec(true));
}

#[test]
fn activity_threshold_is_three_seconds() {
    assert!(user_is_active(0));
    assert!(user_is_active(2_999));
    assert!(!user_is_active(3_000));
    assert!(!user_is_active(u64::MAX));
}

#[test]
fn monitor_pauses_and_reports_return() {
    let mut m = IdleMonitor::new(60);
    assert_eq!(m.observe_at(1_500, at(2_000)), IdleDecision::Nothing);
    assert_eq!(m.observe_at(30_000, at(4_000)), IdleDecision::Nothing);
    assert_eq!(m.observe_at(61_999, at(1_000_000)), IdleDecision::WentIdle);
    assert!(m.is_idle);
    assert_eq!(m.idle_started_at, Some(at(1_000_000 - 61_000)));
    m.record_pause(5, "Design".to_string());
    assert_eq!(m.observe_at(120_000, at(1_058_000)), IdleDecision::Nothing);
    let d = m.observe_at(500, at(1_200_500));
    assert_eq!(
        d,
        IdleDecision::Returned(Some(IdleEvent { idle_duration_secs: 261, task_id: 5, task_name: "Design".to_string() }))
    );
    assert!(!m.is_idle);
    assert_eq!(m.paused_task_id, None);
    assert_eq!(m.paused_task_name, None);
}

#[test]
fn monitor_counts_whole_seconds_of_nanosecond_instants() {
    // Started at 10.0009 s, back at 11.0001 s: not a whole second apart.
    let mut m = IdleMonitor::new(3);
    let start = Instant::from_nanos(13_000_900_000).unwrap();
    assert_eq!(m.observe_at(3_000, start), IdleDecision::WentIdle);
    assert_eq!(m.idle_started_at, Some(Instant::from_nanos(10_000_900_000).unwrap()));
    m.record_pause(1, "A".to_string());
    let back = Instant::from_nanos(11_000_100_000).unwrap();
    match m.observe_at(0, back) {
        IdleDecision::Returned(Some(e)) => assert_eq!(e.idle_duration_secs, 0),
        other => panic!("unexpected {:?}", other),
    }
}

#[test]
fn monitor_without_running_task_reports_nothing() {
    let mut m = IdleMonitor::new(60);
    assert_eq!(m.observe_at(90_000, at(100_000)), IdleDecision::WentIdle);
    assert_eq!(m.observe_at(0, at(200_000)), IdleDecision::Returned(None));
    assert!(m.start_fits_exec(0, at(0)));
    assert!(!m.start_fits_exec(u64::MAX, at(0)));
    // Dated back to chrono's earliest instant at most.
    assert!(m.start_fits_exec(8_334_601_315_200_000, at(0)));
    assert!(!m.start_fits_exec(8_334_601_315_201_000, at(0)));
    assert!(m.start_fits_exec(8_334_601_315_201_000, at(1_000)));
}

#[test]
fn service_token_and_pid() {
    assert!(is_authorized("timez-local"));
    assert!(!is_authorized("timez"));
    let args: Vec<String> = ["svc", "--verbose", "--parent-pid", "4242"].iter().map(|s| s.to_string()).collect();
    assert_eq!(parent_pid_from_args(&args), Some(4242));
    let args: Vec<String> = ["svc", "--parent-pid", "x", "--parent-pid", "7"].iter().map(|s| s.to_string()).collect();
    assert_eq!(parent_pid_from_args(&args), None);
    let args: Vec<String> = ["--parent-pid", "7"].iter().map(|s| s.to_string()).collect();
    assert_eq!(parent_pid_from_args(&args), None);
    let args: Vec<String> = ["svc", "--parent-pid"].iter().map(|s| s.to_string()).collect();
    assert_eq!(parent_pid_from_args(&args), None);
    let pid: u32 = 4_294_967_295;
    let args = vec!["svc".to_string(), "--parent-pid".to_string(), pid.to_string()];
    assert_eq!(parent_pid_from_args(&args), Some(pid));
    assert_eq!(proc_path(17), "/proc/17");
    assert_eq!(proc_path(pid), "/proc/4294967295");
}

#[test]
fn running_watch_notices_stops() {
    let mut w = RunningWatch::new();
    assert!(!w.observe(false));
    assert!(!w.observe(true));
    assert!(w.observe(false));
    assert!(!w.observe(false));
}

#[test]
fn queued_watch_pauses_and_queues() {
    let mut w = QueuedIdleWatch::new();
    assert_eq!(w.poll_at(59_999, at(10_000)), IdlePoll::Quiet);
    assert_eq!(w.poll_at(60_000, at(10_000)), IdlePoll::CheckRunning);
    assert!(QueuedIdleWatch::pause_fits_exec(60_000, at(10_000)));
    w.pause_at(None, 60_000, at(10_000));
    assert!(!w.is_idle);
    let t = Task { id: 3, name: "Docs".to_string(), budget_secs: 1, elapsed_secs: 2, running: true };
    w.pause_at(Some(t), 60_000, at(100_000));
    assert_eq!(w.idle_started_at, Some(at(40_000)));
    assert_eq!(w.poll_at(90_000, at(130_000)), IdlePoll::Quiet);
    assert_eq!(w.poll_at(2_999, at(150_000)), IdlePoll::Quiet);
    assert!(!w.is_idle);
    assert_eq!(
        w.take_event(),
        Some(IdleEvent { idle_duration_secs: 110, task_id: 3, task_name: "Docs".to_string() })
    );
    assert_eq!(w.take_event(), None);
}

#[test]
fn queued_watch_clock_versions() {
    let mut w = QueuedIdleWatch::new();
    assert_eq!(w.poll(61_000), Ok(IdlePoll::CheckRunning));
    assert_eq!(w.pause(None, u64::MAX), Ok(()));
    assert!(!w.is_idle);
    let t = Task { id: 8, name: "Ops".to_string(), budget_secs: 1, elapsed_secs: 0, running: true };
    assert_eq!(w.pause(Some(t.clone()), u64::MAX), Err(TimeError::OutOfRange));
    assert!(!w.is_idle);
    assert_eq!(w.pause(Some(t.clone()), 61_000), Ok(()));
    assert!(w.is_idle);
    assert_eq!(w.paused_task, Some(t));
    assert_eq!(w.poll(61_000), Ok(IdlePoll::Quiet));
    assert_eq!(w.poll(0), Ok(IdlePoll::Quiet));
    let e = w.take_event().unwrap();
    assert_eq!(e.task_id, 8);
    assert!(e.idle_duration_secs >= 61);
}

#[test]
fn monitor_clock_version() {
    let mut m = IdleMonitor::new(60);
    assert_eq!(m.observe(10_000), Ok(IdleDecision::Nothing));
    assert_eq!(m.observe(u64::MAX), Err(TimeError::OutOfRange));
    assert!(!m.is_idle);
    assert_eq!(m.observe(70_000), Ok(IdleDecision::WentIdle));
    m.record_pause(1, "A".to_string());
    match m.observe(0) {
        Ok(IdleDecision::Returned(Some(e))) => {
            assert_eq!(e.task_id, 1);
            assert!(e.idle_duration_secs >= 70);
        }
        other => panic!("unexpected {:?}", other),
    }
}
