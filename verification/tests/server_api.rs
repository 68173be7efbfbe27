//! The parts of the API that are easiest to get wrong: the auth check, the error
//! contract, and one round trip through the dispatch table.

use meetily_server::auth::LoginRequest;
use meetily_server::dispatch::{accepts, resume};
use meetily_server::json::{Json, Number};
use meetily_server::protocol::{Action, Outcome, Step};
use meetily_server::routes::{answer, Answer, Endpoint};
use meetily_server::state::{ServerConfig, ServerState, NANOS_PER_SECOND};

const PASSWORD: &str = "test-password";

fn state_with_auth() -> ServerState {
    ServerState::new(
        "/data".to_string(),
        ServerConfig {
            password: Some(PASSWORD.to_string()),
            cookie_secure: false,
            session_ttl: 60 * NANOS_PER_SECOND,
            ollama_endpoint: None,
        },
        "parakeet-tdt".to_string(),
    )
}

fn open_state() -> ServerState {
    ServerState::new("/data".to_string(), ServerConfig::default(), "parakeet-tdt".to_string())
}

/// A database that holds meetings with their transcripts, in memory.
struct Database {
    meetings: Vec<(String, String, Vec<Json>)>,
}

impl Database {
    fn new() -> Self {
        Database { meetings: Vec::new() }
    }

    fn perform(&mut self, action: Action) -> Outcome {
        match action {
            Action::ListMeetings => Outcome::Values {
                rows: self
                    .meetings
                    .iter()
                    .map(|(id, title, _)| {
                        Json::object()
                            .with("id", Json::text(id))
                            .with("title", Json::text(title))
                            .with("created_at", Json::text("2026-01-01"))
                    })
                    .collect(),
            },
            Action::SaveTranscript { title, segments, .. } => {
                let Json::Array(segments) = segments else {
                    return Outcome::Rejected { error: "expected a sequence".to_string() };
                };
                let id = format!("meeting-{}", self.meetings.len());
                let rows = segments
                    .iter()
                    .map(|s| {
                        Json::object()
                            .with("id", s.pick("id"))
                            .with("meeting_id", Json::text(&id))
                            .with("transcript", s.pick("text"))
                            .with("timestamp", s.pick("timestamp"))
                            .with("audio_start_time", s.pick("audio_start_time"))
                            .with("audio_end_time", s.pick("audio_end_time"))
                            .with("duration", s.pick("duration"))
                    })
                    .collect();
                self.meetings.push((id.clone(), title, rows));
                Outcome::Text { value: id }
            }
            Action::PageTranscripts { id, limit, offset } => {
                match self.meetings.iter().find(|m| m.0 == id) {
                    Some((_, _, rows)) => Outcome::Page {
                        rows: rows
                            .iter()
                            .skip(offset as usize)
                            .take(limit as usize)
                            .cloned()
                            .collect(),
                        total: rows.len() as i64,
                    },
                    None => Outcome::Failed { error: "no such meeting".to_string() },
                }
            }
            _ => Outcome::Failed { error: "not in this database".to_string() },
        }
    }
}

/// `POST /api/invoke/<cmd>`.
fn post_invoke(
    state: &mut ServerState,
    database: &mut Database,
    cmd: &str,
    body: Json,
    cookie: Option<&str>,
) -> Answer {
    if let Err(e) = state.guard(Endpoint::Invoke, cookie, NANOS_PER_SECOND) {
        return answer(Err(e));
    }
    let mut step = state.invoke(cmd, Some(body));
    loop {
        match step {
            Step::Reply { result, .. } => return answer(result),
            Step::Perform { action, pending, .. } => {
                let outcome = database.perform(action);
                assert!(accepts(&pending, &outcome));
                step = resume(state, pending, outcome);
            }
        }
    }
}

fn shown(json: &Json) -> String {
    format!("{:?}", json)
}

#[test]
fn rejects_unauthenticated_requests() {
    let mut state = state_with_auth();
    let mut database = Database::new();

    let response =
        post_invoke(&mut state, &mut database, "api_get_meetings", Json::object(), None);

    assert_eq!(response.status, 401);
    assert_eq!(response.body.pick("error").as_str().as_deref(), Some("Not authenticated"));
}

#[test]
fn rejects_a_wrong_password() {
    let mut state = state_with_auth();

    let response = state.login(&LoginRequest { password: "nope".to_string() }, 0);

    let error = response.err().expect("an error");
    assert_eq!(error.status, 401);
}

#[test]
fn login_then_save_and_read_a_meeting() {
    let mut state = state_with_auth();
    let mut database = Database::new();

    // 1. Log in and keep the session cookie.
    let response = state
        .login(&LoginRequest { password: PASSWORD.to_string() }, 0)
        .ok()
        .expect("response");
    let cookie = response
        .set_cookie
        .as_deref()
        .and_then(|v| v.split(';').next())
        .expect("session cookie")
        .to_string();

    // 2. An empty database lists no meetings.
    let response = post_invoke(
        &mut state,
        &mut database,
        "api_get_meetings",
        Json::object(),
        Some(&cookie),
    );
    assert_eq!(response.status, 200);
    assert_eq!(shown(&response.body.pick("ok")), shown(&Json::Array(vec![])));

    // 3. Save a transcript the way the frontend does.
    let response = post_invoke(
        &mut state,
        &mut database,
        "api_save_transcript",
        Json::object()
            .with("meetingTitle", Json::text("Weekly Sync"))
            .with("folderPath", Json::Null)
            .with(
                "transcripts",
                Json::Array(vec![Json::object()
                    .with("id", Json::text("seg_0"))
                    .with("text", Json::text("hello there"))
                    .with("timestamp", Json::text("00:00:00"))
                    .with("audio_start_time", Json::Number(Number::Float(0.0f64.to_bits())))
                    .with("audio_end_time", Json::Number(Number::Float(1.5f64.to_bits())))
                    .with("duration", Json::Number(Number::Float(1.5f64.to_bits())))]),
            ),
        Some(&cookie),
    );
    assert_eq!(response.status, 200);
    let saved = response.body;
    let meeting_id = saved.pick("ok").pick("meeting_id").as_str().expect("meeting id");
    assert!(meeting_id.starts_with("meeting-"), "got {}", meeting_id);

    // 4. It comes back, and the transcript column is renamed to `text` for the UI.
    let response = post_invoke(
        &mut state,
        &mut database,
        "api_get_meetings",
        Json::object(),
        Some(&cookie),
    );
    let list = response.body.pick("ok");
    let first = list.item(0).expect("a meeting");
    assert_eq!(first.pick("title").as_str().as_deref(), Some("Weekly Sync"));

    let response = post_invoke(
        &mut state,
        &mut database,
        "api_get_meeting_transcripts",
        Json::object()
            .with("meetingId", Json::text(&meeting_id))
            .with("limit", Json::integer(10))
            .with("offset", Json::integer(0)),
        Some(&cookie),
    );
    let page = response.body.pick("ok");
    assert_eq!(page.pick("total_count").as_i64(), Some(1));
    assert_eq!(shown(&page.pick("has_more")), shown(&Json::Bool(false)));
    let transcripts = page.pick("transcripts");
    let row = transcripts.item(0).expect("a transcript");
    assert_eq!(row.pick("text").as_str().as_deref(), Some("hello there"));
    assert!(row.get("transcript").is_none());
    assert_eq!(row.pick("duration").as_number(), Some(Number::Float(1.5f64.to_bits())));
}

#[test]
fn unknown_commands_are_reported_not_swallowed() {
    let mut state = open_state();
    let mut database = Database::new();

    let response =
        post_invoke(&mut state, &mut database, "definitely_not_a_command", Json::object(), None);

    assert_eq!(response.status, 404);
    let error = response.body.pick("error").as_str().unwrap_or_default();
    assert!(
        error.contains("definitely_not_a_command"),
        "the error should name the command, got {}",
        error
    );
    assert_eq!(
        error,
        "Command `definitely_not_a_command` is not available in the self-hosted web build"
    );
}

#[test]
fn auth_status_reports_whether_a_password_is_set() {
    let mut state = open_state();

    let body = state.auth_status(None, 0);
    assert_eq!(shown(&body.pick("authRequired")), shown(&Json::Bool(false)));
    assert_eq!(shown(&body.pick("authenticated")), shown(&Json::Bool(true)));
}

#[test]
fn a_failing_database_is_the_servers_fault() {
    let mut state = open_state();
    let mut database = Database::new();
    let response = post_invoke(
        &mut state,
        &mut database,
        "api_search_transcripts",
        Json::object().with("query", Json::text("x")),
        None,
    );
    assert_eq!(response.status, 500);
    assert_eq!(
        response.body.pick("error").as_str().as_deref(),
        Some("not in this database")
    );
}

#[test]
fn segments_that_cannot_be_read_are_the_requests_fault() {
    let mut state = open_state();
    let mut database = Database::new();
    let response = post_invoke(
        &mut state,
        &mut database,
        "api_save_transcript",
        Json::object()
            .with("meetingTitle", Json::text("x"))
            .with("transcripts", Json::text("no list")),
        None,
    );
    assert_eq!(response.status, 400);
    assert_eq!(
        response.body.pick("error").as_str().as_deref(),
        Some(
            "Invalid transcript data format: expected a sequence. Please check the data structure."
        )
    );
}

#[test]
fn only_the_login_is_open_to_strangers() {
    let mut state = state_with_auth();
    for endpoint in [
        Endpoint::Invoke,
        Endpoint::Events,
        Endpoint::Upload,
        Endpoint::Audio,
        Endpoint::Logout,
    ] {
        assert!(endpoint.protected());
        let error = state.guard(endpoint, None, 0).err().expect("an error");
        assert_eq!((error.status, error.message.as_str()), (401, "Not authenticated"));
    }
    for endpoint in [Endpoint::Login, Endpoint::AuthStatus] {
        assert!(!endpoint.protected());
        assert!(state.guard(endpoint, None, 0).is_ok());
    }
}

#[test]
fn endpoints_have_their_paths_and_methods() {
    let table = [
        (Endpoint::Invoke, "/api/invoke/:cmd", "Post"),
        (Endpoint::Events, "/api/events", "Get"),
        (Endpoint::Upload, "/api/upload", "Post"),
        (Endpoint::Audio, "/api/audio/:session_id", "Get"),
        (Endpoint::Logout, "/api/logout", "Post"),
        (Endpoint::Login, "/api/login", "Post"),
        (Endpoint::AuthStatus, "/api/auth/status", "Get"),
    ];
    for (endpoint, path, method) in table {
        assert_eq!(endpoint.path(), path);
        assert_eq!(format!("{:?}", endpoint.method()), method);
    }
}

#[test]
fn a_command_without_a_body_has_null_arguments() {
    let state = open_state();
    match state.invoke("api_get_meeting", None) {
        Step::Reply { result: Err(e), .. } => {
            assert_eq!(e.status, 400);
            assert_eq!(e.message, "missing required argument `meetingId`");
        }
        _ => panic!("there should be an error"),
    }
}
