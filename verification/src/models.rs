use vstd::prelude::*;

verus! {

/// A task as the app shows it: its budget and the seconds tracked on it.
#[derive(Clone, Debug, PartialEq, Eq)]
pub struct Task {
    pub id: i64,
    pub name: String,
    pub budget_secs: i64,
    pub elapsed_secs: i64,
    pub running: bool,
}

/// Whether a timer runs, on which task, and for how long the current entry has run.
#[derive(Clone, Debug, PartialEq, Eq)]
pub struct TimerStatus {
    pub running: bool,
    pub active_task_id: Option<i64>,
    pub current_entry_elapsed: i64,
}

/// Reported when the user comes back after a timer was paused for inactivity.
#[derive(Clone, Debug, PartialEq, Eq)]
pub struct IdleEvent {
    pub idle_duration_secs: i64,
    pub task_id: i64,
    pub task_name: String,
}

/// Seconds counted as active and as idle by the activity tracker, and their sum.
#[derive(Clone, Debug, PartialEq, Eq)]
pub struct ActivityStats {
    pub active_secs: i64,
    pub idle_secs: i64,
    pub total_secs: i64,
}

/// The access token of the signed-in user, if any.
#[derive(Clone, Debug, PartialEq, Eq)]
pub struct AuthTokenState {
    pub access_token: Option<String>,
}

impl AuthTokenState {
    /// Nobody is signed in yet.
    pub fn new() -> (s: Self)
        ensures
            s.access_token is None,
    {
        AuthTokenState { access_token: None }
    }
}

/// A task as the server lists it; `budget_secs` is its hour budget (eight hours
/// when the server gives none) converted to seconds.
#[derive(Clone, Debug, PartialEq, Eq)]
pub struct ApiTask {
    pub id: i64,
    pub name: String,
    pub budget_secs: i64,
}

/// The task named in the server's timer status.
#[derive(Clone, Debug, PartialEq, Eq)]
pub struct ApiStatusTask {
    pub id: i64,
    pub name: String,
}

/// The server's view of the running timer.
#[derive(Clone, Debug, PartialEq, Eq)]
pub struct ApiStatus {
    pub running: bool,
    pub task: Option<ApiStatusTask>,
    pub time_entry_id: Option<i64>,
    pub elapsed_seconds: Option<i64>,
}

/// Seconds recorded on one task in the server's summary report.
#[derive(Clone, Debug, PartialEq, Eq)]
pub struct SummaryTask {
    pub task_id: i64,
    pub task_name: String,
    pub total_seconds: i64,
}

/// The server's summary report.
#[derive(Clone, Debug, PartialEq, Eq)]
pub struct SummaryReport {
    pub tasks: Vec<SummaryTask>,
    pub total_seconds: i64,
}

/// The seconds the server says its current entry has run (zero when it gives none).
pub open spec fn status_live(s: ApiStatus) -> int {
    match s.elapsed_seconds {
        Some(e) => e as int,
        None => 0,
    }
}

} // verus!
