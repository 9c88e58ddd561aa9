use timez_core::clock::Instant;
use timez_core::models::{ApiStatus, ApiStatusTask, ApiTask, AuthTokenState, SummaryReport, SummaryTask, Task};
use timez_core::timer::TimerStateInner;
use timez_core::tasks::{merge_fits_exec, merge_task_list, toggle_target};

/// The instant `ms` milliseconds after the Unix epoch.
fn at(ms: i64) -> Instant {
    Instant::from_nanos(ms as i128 * 1_000_000).unwrap()
}

fn api(id: i64, name: &str) -> ApiTask {
    ApiTask { id, name: name.to_string(), budget_secs: 28800 }
}

fn summary(entries: &[(i64, i64)]) -> SummaryReport {
    SummaryReport {
        tasks: entries
            .iter()
            .map(|(id, secs)| SummaryTask { task_id: *id, task_name: format!("t{}", id), total_seconds: *secs })
            .collect(),
        total_seconds: entries.iter().map(|e| e.1).sum(),
    }
}

fn status(running: bool, id: Option<i64>, elapsed: Option<i64>) -> ApiStatus {
    ApiStatus {
        running,
        task: id.map(|id| ApiStatusTask { id, name: "x".to_string() }),
        time_entry_id: None,
        elapsed_seconds: elapsed,
    }
}

fn task(id: i64, name: &str, elapsed: i64, running: bool) -> Task {
    Task { id, name: name.to_string(), budget_secs: 28800, elapsed_secs: elapsed, running }
}

#[test]
fn auth_token_state_starts_signed_out() {
    assert_eq!(AuthTokenState::new().access_token, None);
}

#[test]
fn merge_adds_summary_and_running_entry() {
    let tasks = vec![api(1, "Design"), api(2, "Testing"), api(3, "Docs")];
    let sum = Some(summary(&[(1, 100), (2, 50), (1, 120)]));
    let st = Some(status(true, Some(2), Some(30)));
    assert!(merge_fits_exec(&tasks, &sum, &st));
    let merged = merge_task_list(tasks, sum, st);
    assert_eq!(
        merged,
        vec![task(1, "Design", 120, false), task(2, "Testing", 80, true), task(3, "Docs", 0, false)]
    );
}

#[test]
fn merge_without_answers() {
    let merged = merge_task_list(vec![api(4, "Ops")], None, None);
    assert_eq!(merged, vec![task(4, "Ops", 0, false)]);
    let merged = merge_task_list(vec![api(4, "Ops")], None, Some(status(false, Some(4), Some(9))));
    assert_eq!(merged, vec![task(4, "Ops", 0, false)]);
    let merged = merge_task_list(vec![api(4, "Ops")], None, Some(status(true, Some(4), None)));
    assert_eq!(merged, vec![task(4, "Ops", 0, true)]);
}

#[test]
fn merge_fit_check_detects_overflow() {
    let tasks = vec![api(1, "Design")];
    let sum = Some(summary(&[(1, i64::MAX)]));
    assert!(!merge_fits_exec(&tasks, &sum, &Some(status(true, Some(1), Some(1)))));
    assert!(merge_fits_exec(&tasks, &sum, &Some(status(true, Some(2), Some(1)))));
}

#[test]
fn toggle_prefers_running_then_largest() {
    assert_eq!(toggle_target(&vec![]), None);
    assert_eq!(
        toggle_target(&vec![task(1, "a", 5, false), task(2, "b", 1, true), task(3, "c", 9, true)]),
        Some(2)
    );
    assert_eq!(
        toggle_target(&vec![task(1, "a", 9, false), task(2, "b", 3, false), task(3, "c", 9, false)]),
        Some(3)
    );
    assert_eq!(toggle_target(&vec![task(1, "a", 9, false), task(2, "b", 3, false)]), Some(1));
}

#[test]
fn sync_of_merged_list_does_not_double_count() {
    let tasks = vec![api(1, "Design"), api(2, "Testing")];
    let sum = Some(summary(&[(1, 100), (2, 50)]));
    let st = status(true, Some(2), Some(30));
    let merged = merge_task_list(tasks, sum, Some(st.clone()));
    let mut s = TimerStateInner::new();
    let check = s.sync_tasks_at(merged, at(1_000));
    assert!(check.is_some());
    s.finish_sync_at(check, Some(st), at(1_200));
    assert_eq!(s.base_elapsed.get(&2), Some(&50));
    assert_eq!(s.get_tasks_at(at(11_000))[1], task(2, "Testing", 60, true));
}
