use vstd::prelude::*;

use crate::models::{ActivityStats, IdleEvent, Task, TimerStatus};
use crate::service::is_authorized;

verus! {

/// A request to the local service.
#[derive(Clone, Debug, PartialEq, Eq)]
pub enum Request {
    ListTasks,
    StartTimer { task_id: i64 },
    StopTimer,
    GetStatus,
    AddIdleTime { task_id: i64, duration_secs: i64 },
    DiscardIdleTime { task_id: i64 },
    RefreshTasks,
    GetActivityStats,
    GoogleLogin { google_id_token: String },
    StartGoogleAuth { client_id: String, client_secret: String },
    ValidateToken { token: String },
    Logout,
    TakeIdleEvent,
    Shutdown,
}

/// A request with the token it carries.
#[derive(Clone, Debug, PartialEq, Eq)]
pub struct RequestEnvelope {
    pub token: String,
    pub request: Request,
}

/// The payload of a successful reply; `A` is the backend's sign-in answer and
/// `U` its description of the user, both carried as they came.
#[derive(Clone, Debug, PartialEq, Eq)]
pub enum ResponseData<A, U> {
    Tasks(Vec<Task>),
    Status(TimerStatus),
    Activity(ActivityStats),
    AuthResponse(A),
    AuthUser(U),
    IdleEvent(Option<IdleEvent>),
    Unit,
}

/// A reply: a payload when `ok`, else an error message.
#[derive(Clone, Debug, PartialEq, Eq)]
pub struct ResponseEnvelope<A, U> {
    pub ok: bool,
    pub data: Option<ResponseData<A, U>>,
    pub error: Option<String>,
}

/// The error of a reply that carries the wrong kind of payload.
pub open spec fn unexpected_text() -> Seq<char> {
    "Unexpected service response"@
}

/// A failed reply with the given message.
pub open spec fn failed<A, U>(env: ResponseEnvelope<A, U>, message: Seq<char>) -> bool {
    &&& !env.ok
    &&& env.data is None
    &&& env.error matches Some(e) && e@ == message
}

/// Whether a request asks the service to end.
pub fn is_shutdown(request: &Request) -> (r: bool)
    ensures
        r == (*request is Shutdown),
{
    match request {
        Request::Shutdown => true,
        _ => false,
    }
}

fn unexpected() -> (e: String)
    ensures
        e@ == unexpected_text(),
{
    String::from_str("Unexpected service response")
}

/// `env` is the reply to a request handled with `result`.
pub open spec fn replies<A, U>(
    result: Result<ResponseData<A, U>, String>,
    env: ResponseEnvelope<A, U>,
) -> bool {
    match result {
        Ok(d) => env.ok && env.data == Some(d) && env.error is None,
        Err(e) => !env.ok && env.data is None && env.error == Some(e),
    }
}

/// `r` is what a caller takes from the reply `env` (see `open_reply`).
pub open spec fn opens_to<A, U>(
    env: ResponseEnvelope<A, U>,
    r: Result<ResponseData<A, U>, String>,
) -> bool {
    &&& !env.ok ==> match env.error {
        Some(e) => r == Err::<ResponseData<A, U>, String>(e),
        None => r matches Err(m) && m@ == "Unknown service error"@,
    }
    &&& env.ok ==> match env.data {
        Some(d) => r == Ok::<ResponseData<A, U>, String>(d),
        None => r matches Err(m) && m@ == "Missing response payload"@,
    }
}

/// The reply to a handled request: its payload, or its error.
pub fn reply<A, U>(result: Result<ResponseData<A, U>, String>) -> (env: ResponseEnvelope<A, U>)
    ensures
        replies(result, env),
{
    match result {
        Ok(d) => ResponseEnvelope { ok: true, data: Some(d), error: None },
        Err(e) => ResponseEnvelope { ok: false, data: None, error: Some(e) },
    }
}

/// What the service does with a line it read: answer it at once (and go on), or
/// handle the request (ending the service afterwards when `shutdown`).
#[derive(Debug)]
pub enum Admission<A, U> {
    Refuse(ResponseEnvelope<A, U>),
    Handle { request: Request, shutdown: bool },
}

/// Takes in a request whose line was parsed into `parsed` (or failed to parse,
/// with the parser's message): an unreadable line is refused with
/// `Invalid request: <message>`, a wrong token with `Unauthorized request`;
/// anything else is handled.
pub fn accept_request<A, U>(parsed: Result<RequestEnvelope, String>) -> (r: Admission<A, U>)
    ensures
        match parsed {
            Err(m) => r matches Admission::Refuse(env) && failed(env, "Invalid request: "@ + m@),
            Ok(envelope) => if envelope.token@ == crate::service::REQUEST_TOKEN@ {
                r matches Admission::Handle { request, shutdown } && request == envelope.request
                    && shutdown == (envelope.request is Shutdown)
            } else {
                r matches Admission::Refuse(env) && failed(env, "Unauthorized request"@)
            },
        },
{
    match parsed {
        Err(m) => {
            let mut e = String::from_str("Invalid request: ");
            e.append(m.as_str());
            Admission::Refuse(ResponseEnvelope { ok: false, data: None, error: Some(e) })
        },
        Ok(envelope) => {
            if is_authorized(envelope.token.as_str()) {
                let shutdown = is_shutdown(&envelope.request);
                Admission::Handle { request: envelope.request, shutdown }
            } else {
                let e = String::from_str("Unauthorized request");
                Admission::Refuse(ResponseEnvelope { ok: false, data: None, error: Some(e) })
            }
        },
    }
}

/// What the caller takes from a reply: the payload of a success; else the
/// reply's error (`Unknown service error` when it gives none). A success
/// without a payload is `Missing response payload`.
pub fn open_reply<A, U>(env: ResponseEnvelope<A, U>) -> (r: Result<ResponseData<A, U>, String>)
    ensures
        opens_to(env, r),
{
    if !env.ok {
        match env.error {
            Some(e) => Err(e),
            None => Err(String::from_str("Unknown service error")),
        }
    } else {
        match env.data {
            Some(d) => Ok(d),
            None => Err(String::from_str("Missing response payload")),
        }
    }
}

/// What a handler returns is what the caller gets: the reply to a request
/// handled with `result`, opened by the caller, gives `result` back.
pub proof fn lemma_reply_round_trip<A, U>(
    result: Result<ResponseData<A, U>, String>,
    env: ResponseEnvelope<A, U>,
    r: Result<ResponseData<A, U>, String>,
)
    requires
        replies(result, env),
        opens_to(env, r),
    ensures
        r == result,
{
}

/// The task list of a reply; any other payload is unexpected.
pub fn decode_tasks<A, U>(data: ResponseData<A, U>) -> (r: Result<Vec<Task>, String>)
    ensures
        match data {
            ResponseData::Tasks(v) => r == Ok::<Vec<Task>, String>(v),
            _ => r matches Err(e) && e@ == unexpected_text(),
        },
{
    match data {
        ResponseData::Tasks(v) => Ok(v),
        _ => Err(unexpected()),
    }
}

/// The timer status of a reply; any other payload is unexpected.
pub fn decode_status<A, U>(data: ResponseData<A, U>) -> (r: Result<TimerStatus, String>)
    ensures
        match data {
            ResponseData::Status(s) => r == Ok::<TimerStatus, String>(s),
            _ => r matches Err(e) && e@ == unexpected_text(),
        },
{
    match data {
        ResponseData::Status(s) => Ok(s),
        _ => Err(unexpected()),
    }
}

/// The activity counts of a reply; any other payload is unexpected.
pub fn decode_activity<A, U>(data: ResponseData<A, U>) -> (r: Result<ActivityStats, String>)
    ensures
        match data {
            ResponseData::Activity(s) => r == Ok::<ActivityStats, String>(s),
            _ => r matches Err(e) && e@ == unexpected_text(),
        },
{
    match data {
        ResponseData::Activity(s) => Ok(s),
        _ => Err(unexpected()),
    }
}

/// The sign-in answer of a reply; any other payload is unexpected.
pub fn decode_auth_response<A, U>(data: ResponseData<A, U>) -> (r: Result<A, String>)
    ensures
        match data {
            ResponseData::AuthResponse(a) => r == Ok::<A, String>(a),
            _ => r matches Err(e) && e@ == unexpected_text(),
        },
{
    match data {
        ResponseData::AuthResponse(a) => Ok(a),
        _ => Err(unexpected()),
    }
}

/// The user of a reply; any other payload is unexpected.
pub fn decode_auth_user<A, U>(data: ResponseData<A, U>) -> (r: Result<U, String>)
    ensures
        match data {
            ResponseData::AuthUser(u) => r == Ok::<U, String>(u),
            _ => r matches Err(e) && e@ == unexpected_text(),
        },
{
    match data {
        ResponseData::AuthUser(u) => Ok(u),
        _ => Err(unexpected()),
    }
}

/// The idle event (if any) of a reply; any other payload is unexpected.
pub fn decode_idle_event<A, U>(data: ResponseData<A, U>) -> (r: Result<Option<IdleEvent>, String>)
    ensures
        match data {
            ResponseData::IdleEvent(e) => r == Ok::<Option<IdleEvent>, String>(e),
            _ => r matches Err(e) && e@ == unexpected_text(),
        },
{
    match data {
        ResponseData::IdleEvent(e) => Ok(e),
        _ => Err(unexpected()),
    }
}

/// A reply without payload; any payload is unexpected.
pub fn decode_unit<A, U>(data: ResponseData<A, U>) -> (r: Result<(), String>)
    ensures
        match data {
            ResponseData::Unit => r == Ok::<(), String>(()),
            _ => r matches Err(e) && e@ == unexpected_text(),
        },
{
    match data {
        ResponseData::Unit => Ok(()),
        _ => Err(unexpected()),
    }
}

/// How the idle-time service answers a request.
#[derive(Debug, PartialEq, Eq)]
pub enum IdleServiceRoute {
    /// Hand out the oldest queued idle event.
    TakeEvent,
    /// Answer with no payload (and end, for a shutdown).
    Acknowledge,
    /// Refuse with this message.
    Refuse(String),
}

/// The idle-time service serves idle events and shutdowns, and refuses the rest
/// with `Unsupported request for idle-time service`.
pub fn idle_service_route(request: &Request) -> (r: IdleServiceRoute)
    ensures
        match *request {
            Request::TakeIdleEvent => r == IdleServiceRoute::TakeEvent,
            Request::Shutdown => r == IdleServiceRoute::Acknowledge,
            _ => r matches IdleServiceRoute::Refuse(m) && m@
                == "Unsupported request for idle-time service"@,
        },
{
    match request {
        Request::TakeIdleEvent => IdleServiceRoute::TakeEvent,
        Request::Shutdown => IdleServiceRoute::Acknowledge,
        _ => IdleServiceRoute::Refuse(String::from_str("Unsupported request for idle-time service")),
    }
}

/// Milliseconds the shell waits for a service it started.
pub const STARTUP_TIMEOUT_MS: u64 = 30_000;

/// Milliseconds between two looks at a starting service.
pub const STARTUP_RETRY_MS: u64 = 100;

/// What the shell does next while a service it started comes up.
#[derive(Debug, PartialEq, Eq)]
pub enum StartupStep {
    /// The service answers.
    Ready,
    /// Give up with this error.
    Failed(String),
    /// Look again after `STARTUP_RETRY_MS`.
    Retry,
}

/// Whether the wait for a starting service is over after `elapsed_ms`.
pub fn startup_expired(elapsed_ms: u64) -> (r: bool)
    ensures
        r == (elapsed_ms >= STARTUP_TIMEOUT_MS),
{
    elapsed_ms >= STARTUP_TIMEOUT_MS
}

/// One look at a starting service, `elapsed_ms` after it was started: past the
/// deadline the wait fails (`Service did not start in time`); a process that
/// exited (with the status text `exited`) fails the start; a service that
/// accepts a connection is ready; else the shell looks again.
pub fn startup_step(elapsed_ms: u64, exited: Option<String>, connected: bool) -> (s: StartupStep)
    ensures
        elapsed_ms >= STARTUP_TIMEOUT_MS ==> (s matches StartupStep::Failed(m) && m@
            == "Service did not start in time"@),
        elapsed_ms < STARTUP_TIMEOUT_MS ==> match exited {
            Some(st) => s matches StartupStep::Failed(m) && m@
                == "Service exited during startup with status "@ + st@,
            None => s == if connected {
                StartupStep::Ready
            } else {
                StartupStep::Retry
            },
        },
{
    if startup_expired(elapsed_ms) {
        return StartupStep::Failed(String::from_str("Service did not start in time"));
    }
    match exited {
        Some(st) => {
            let mut m = String::from_str("Service exited during startup with status ");
            m.append(st.as_str());
            StartupStep::Failed(m)
        },
        None => if connected {
            StartupStep::Ready
        } else {
            StartupStep::Retry
        },
    }
}

} // verus!
