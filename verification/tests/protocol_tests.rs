use timez_core::models::{ActivityStats, IdleEvent, Task, TimerStatus};
use timez_core::protocol::{
    accept_request, decode_activity, decode_auth_response, decode_auth_user, decode_idle_event, decode_status,
    decode_tasks, decode_unit, idle_service_route, is_shutdown, open_reply, reply, startup_expired, startup_step,
    Admission, IdleServiceRoute, Request, RequestEnvelope, ResponseData, ResponseEnvelope, StartupStep,
};

type Data = ResponseData<String, u32>;

fn envelope(token: &str, request: Request) -> RequestEnvelope {
    RequestEnvelope { token: token.to_string(), request }
}

#[test]
fn requests_are_taken_in_or_refused() {
    let r: Admission<String, u32> = accept_request(Err("expected value at line 1".to_string()));
    match r {
        Admission::Refuse(env) => {
            assert!(!env.ok);
            assert_eq!(env.data, None);
            assert_eq!(env.error, Some("Invalid request: expected value at line 1".to_string()));
        }
        other => panic!("unexpected {:?}", other),
    }
    let r: Admission<String, u32> = accept_request(Ok(envelope("wrong", Request::ListTasks)));
    match r {
        Admission::Refuse(env) => assert_eq!(env.error, Some("Unauthorized request".to_string())),
        other => panic!("unexpected {:?}", other),
    }
    let r: Admission<String, u32> = accept_request(Ok(envelope("timez-local", Request::StartTimer { task_id: 4 })));
    match r {
        Admission::Handle { request, shutdown } => {
            assert_eq!(request, Request::StartTimer { task_id: 4 });
            assert!(!shutdown);
        }
        other => panic!("unexpected {:?}", other),
    }
    let r: Admission<String, u32> = accept_request(Ok(envelope("timez-local", Request::Shutdown)));
    match r {
        Admission::Handle { request, shutdown } => {
            assert_eq!(request, Request::Shutdown);
            assert!(shutdown);
        }
        other => panic!("unexpected {:?}", other),
    }
    assert!(is_shutdown(&Request::Shutdown));
    assert!(!is_shutdown(&Request::Logout));
}

#[test]
fn replies_carry_payload_or_error() {
    let ok: ResponseEnvelope<String, u32> = reply(Ok(ResponseData::Unit));
    assert_eq!(ok, ResponseEnvelope { ok: true, data: Some(ResponseData::Unit), error: None });
    let err: ResponseEnvelope<String, u32> = reply(Err("Not signed in".to_string()));
    assert_eq!(err, ResponseEnvelope { ok: false, data: None, error: Some("Not signed in".to_string()) });
    assert_eq!(open_reply(ok), Ok(ResponseData::Unit));
    assert_eq!(open_reply(err), Err::<Data, String>("Not signed in".to_string()));
    let bare: ResponseEnvelope<String, u32> = ResponseEnvelope { ok: false, data: None, error: None };
    assert_eq!(open_reply(bare), Err("Unknown service error".to_string()));
    let empty: ResponseEnvelope<String, u32> = ResponseEnvelope { ok: true, data: None, error: None };
    assert_eq!(open_reply(empty), Err("Missing response payload".to_string()));
}

#[test]
fn payloads_decode_to_their_kind() {
    let t = Task { id: 1, name: "Design".to_string(), budget_secs: 10, elapsed_secs: 2, running: true };
    let st = TimerStatus { running: true, active_task_id: Some(1), current_entry_elapsed: 5 };
    let act = ActivityStats { active_secs: 4, idle_secs: 2, total_secs: 6 };
    let ev = IdleEvent { idle_duration_secs: 70, task_id: 1, task_name: "Design".to_string() };
    let unexpected = "Unexpected service response".to_string();
    assert_eq!(decode_tasks(Data::Tasks(vec![t.clone()])), Ok(vec![t]));
    assert_eq!(decode_tasks(Data::Unit).unwrap_err(), unexpected);
    assert_eq!(decode_status(Data::Status(st.clone())), Ok(st));
    assert_eq!(decode_status(Data::Unit).unwrap_err(), unexpected);
    assert_eq!(decode_activity(Data::Activity(act.clone())), Ok(act));
    assert_eq!(decode_activity(Data::Tasks(vec![])).unwrap_err(), unexpected);
    assert_eq!(decode_auth_response(Data::AuthResponse("{\"access_token\":\"x\"}".to_string())), Ok("{\"access_token\":\"x\"}".to_string()));
    assert_eq!(decode_auth_response(Data::AuthUser(3)).unwrap_err(), unexpected);
    assert_eq!(decode_auth_user(Data::AuthUser(3)), Ok(3));
    assert_eq!(decode_auth_user(Data::Unit).unwrap_err(), unexpected);
    assert_eq!(decode_idle_event(Data::IdleEvent(Some(ev.clone()))), Ok(Some(ev)));
    assert_eq!(decode_idle_event(Data::IdleEvent(None)), Ok(None));
    assert_eq!(decode_idle_event(Data::Unit).unwrap_err(), unexpected);
    assert_eq!(decode_unit(Data::Unit), Ok(()));
    assert_eq!(decode_unit(Data::IdleEvent(None)).unwrap_err(), unexpected);
}

#[test]
fn idle_service_serves_events_and_shutdown_only() {
    assert_eq!(idle_service_route(&Request::TakeIdleEvent), IdleServiceRoute::TakeEvent);
    assert_eq!(idle_service_route(&Request::Shutdown), IdleServiceRoute::Acknowledge);
    assert_eq!(
        idle_service_route(&Request::ListTasks),
        IdleServiceRoute::Refuse("Unsupported request for idle-time service".to_string())
    );
}

#[test]
fn startup_waits_thirty_seconds() {
    assert!(!startup_expired(29_999));
    assert!(startup_expired(30_000));
    assert_eq!(startup_step(0, None, false), StartupStep::Retry);
    assert_eq!(startup_step(100, None, true), StartupStep::Ready);
    assert_eq!(
        startup_step(200, Some("exit status: 1".to_string()), false),
        StartupStep::Failed("Service exited during startup with status exit status: 1".to_string())
    );
    assert_eq!(
        startup_step(30_000, Some("exit status: 1".to_string()), true),
        StartupStep::Failed("Service did not start in time".to_string())
    );
}
