use timez_core::clock::{instant_from_unix, Instant, MAX_TIMESTAMP_SECS, MIN_INSTANT_NANOS};
use timez_core::models::Task;
use timez_core::oauth::{callback_page, read_callback, CallbackOutcome};
use timez_core::service::first_running_task;
use timez_core::tasks::{toggle_on_status, ToggleAction};

fn content_length(page: &str) -> usize {
    let line = page.lines().find(|l| l.starts_with("Content-Length: ")).unwrap();
    line["Content-Length: ".len()..].parse().unwrap()
}

fn body(page: &str) -> &str {
    &page[page.find("\r\n\r\n").unwrap() + 4..]
}

#[test]
fn refused_sign_in_gets_a_failure_page() {
    let outcome = read_callback("GET /?error=access_denied&code=abc HTTP/1.1\r\nHost: 127.0.0.1\r\n\r\n");
    let page = callback_page(&outcome).unwrap();
    assert_eq!(outcome.into_result(), Err("OAuth error: access_denied".to_string()));
    assert!(page.starts_with("HTTP/1.1 200 OK\r\nContent-Type: text/html\r\n"));
    assert!(page.contains("\r\nConnection: close\r\n\r\n"));
    assert!(body(&page).contains("Authentication Failed"));
    assert!(body(&page).contains("Error: access_denied"));
    assert_eq!(content_length(&page), body(&page).len());
}

#[test]
fn code_gets_a_success_page() {
    let outcome = read_callback("GET /?code=4%2F0AbC&scope=email HTTP/1.1\r\n\r\n");
    let page = callback_page(&outcome).unwrap();
    assert_eq!(outcome.into_result(), Ok("4/0AbC".to_string()));
    assert!(page.starts_with("HTTP/1.1 200 OK\r\n"));
    assert!(body(&page).contains("Authentication Successful"));
    assert_eq!(content_length(&page), body(&page).len());
    assert_eq!(content_length(&page), 267);
}

#[test]
fn content_length_counts_bytes() {
    // `%E9` reads as U+00E9, two bytes in UTF-8.
    let outcome = read_callback("GET /?error=%E9 HTTP/1.1\r\n\r\n");
    assert_eq!(outcome, CallbackOutcome::Denied("\u{e9}".to_string()));
    let page = callback_page(&outcome).unwrap();
    assert_eq!(content_length(&page), body(&page).len());
    let ascii = callback_page(&CallbackOutcome::Denied("e".to_string())).unwrap();
    assert_eq!(content_length(&page), content_length(&ascii) + 1);
}

#[test]
fn no_code_gets_no_page() {
    assert_eq!(callback_page(&CallbackOutcome::NoCode), None);
    let outcome = read_callback("GET /?scope=email HTTP/1.1\r\n\r\n");
    assert_eq!(callback_page(&outcome), None);
    assert_eq!(outcome.into_result(), Err("No authorization code in callback".to_string()));
}

#[test]
fn unix_time_becomes_chrono_instants() {
    assert_eq!(instant_from_unix(5, 7).unwrap().nanos(), 5_000_000_007);
    assert_eq!(instant_from_unix(1_700_000_000, 999_999_999).unwrap().nanos(), 1_700_000_000_999_999_999);
    assert!(instant_from_unix(MAX_TIMESTAMP_SECS as u64, 0).is_some());
    assert!(instant_from_unix(MAX_TIMESTAMP_SECS as u64 + 1, 0).is_none());
    // Seconds beyond `i64::MAX` are taken `as i64`, as chrono's `Utc::now` takes them.
    assert_eq!(instant_from_unix(u64::MAX, 0).unwrap().nanos(), -1_000_000_000);
    assert!(Instant::from_nanos(MIN_INSTANT_NANOS).is_some());
}

fn task(id: i64, running: bool) -> Task {
    Task { id, name: format!("T{id}"), budget_secs: 0, elapsed_secs: 0, running }
}

#[test]
fn idle_service_pauses_the_first_running_task() {
    assert_eq!(first_running_task(vec![task(1, false), task(2, true), task(3, true)]), Some(task(2, true)));
    assert_eq!(first_running_task(vec![task(1, false)]), None);
    assert_eq!(first_running_task(vec![]), None);
}

#[test]
fn tray_toggle_decides_on_the_status() {
    assert_eq!(toggle_on_status(None), ToggleAction::ShowWindow);
    assert_eq!(toggle_on_status(Some(true)), ToggleAction::Stop);
    assert_eq!(toggle_on_status(Some(false)), ToggleAction::PickTask);
}
