//! What each command asks for, and what it answers.

use meetily_server::args::{is_within_one, is_within_two};
use meetily_server::commands::{find_command, Command};
use meetily_server::dispatch::{accepts, dispatch, dispatch_with, resume};
use meetily_server::error::ApiError;
use meetily_server::events::EventEnvelope;
use meetily_server::json::{Json, Number};
use meetily_server::protocol::{
    Action, Catalog, Engine, ModelEntry, Outcome, Pending, Step, Template,
};
use meetily_server::state::{ServerConfig, ServerState};

fn state() -> ServerState {
    ServerState::new("/data".to_string(), ServerConfig::default(), "tdt-v3".to_string())
}

fn state_with_endpoint() -> ServerState {
    ServerState::new(
        "/data".to_string(),
        ServerConfig {
            ollama_endpoint: Some("http://ollama:11434".to_string()),
            ..ServerConfig::default()
        },
        "tdt-v3".to_string(),
    )
}

fn shown(json: &Json) -> String {
    format!("{:?}", json)
}

fn text(s: &str) -> String {
    s.to_string()
}

fn failed(error: &str) -> Outcome {
    Outcome::Failed { error: text(error) }
}

/// Begins a command that asks for an action without telling anything.
fn begin(state: &ServerState, name: &str, args: &Json) -> (Action, Pending) {
    match dispatch_with(state, name, args, "fresh") {
        Step::Perform { events, action, pending } => {
            assert!(events.is_empty());
            (action, pending)
        }
        Step::Reply { .. } => panic!("{} should ask for something", name),
    }
}

fn go_on(state: &ServerState, pending: Pending, outcome: Outcome) -> Step {
    assert!(accepts(&pending, &outcome));
    resume(state, pending, outcome)
}

/// What a command is answered without asking for anything.
fn at_once(name: &str, args: &Json) -> Result<Json, ApiError> {
    result(dispatch_with(&state(), name, args, "fresh"))
}

fn result(step: Step) -> Result<Json, ApiError> {
    match step {
        Step::Reply { result, .. } => result,
        Step::Perform { .. } => panic!("there should be an answer"),
    }
}

fn asked(step: Step) -> (Action, Pending) {
    match step {
        Step::Perform { action, pending, .. } => (action, pending),
        Step::Reply { .. } => panic!("something should be asked for"),
    }
}

fn value(step: Step) -> String {
    shown(&result(step).ok().expect("a value"))
}

fn error(step: Step) -> (u16, String) {
    let e = result(step).err().expect("an error");
    (e.status, e.message)
}

fn told(events: &[EventEnvelope]) -> Vec<(String, String)> {
    events.iter().map(|e| (e.event.clone(), shown(&e.payload))).collect()
}

fn success(message: &str) -> Json {
    Json::object().with("status", Json::text("success")).with("message", Json::text(message))
}

fn note(message: &str) -> Json {
    Json::object().with("message", Json::text(message))
}

fn meeting_args() -> Json {
    Json::object().with("meetingId", Json::text("m1"))
}

#[test]
fn names_stand_for_commands() {
    assert_eq!(find_command("api_get_meetings"), Some(Command::GetMeetings));
    assert_eq!(
        find_command("parakeet_load_model"),
        Some(Command::LoadModel(Engine::Parakeet))
    );
    assert_eq!(find_command("whisper_init"), Some(Command::Init(Engine::Whisper)));
    assert_eq!(find_command("parakeet_retry_download"), Some(Command::RetryParakeetDownload));
    assert_eq!(find_command("API_GET_MEETINGS"), None);
    assert_eq!(find_command(""), None);
}

#[test]
fn missing_arguments_are_named() {
    for (name, key) in [
        ("api_get_meeting", "meetingId"),
        ("api_get_meeting_metadata", "meetingId"),
        ("api_get_meeting_transcripts", "meetingId"),
        ("api_save_transcript", "meetingTitle"),
        ("api_delete_meeting", "meetingId"),
        ("api_save_meeting_title", "meetingId"),
        ("api_search_transcripts", "query"),
        ("api_save_model_config", "provider"),
        ("api_save_transcript_config", "provider"),
        ("api_get_api_key", "provider"),
        ("api_get_transcript_api_key", "provider"),
        ("api_save_custom_openai_config", "endpoint"),
        ("api_test_custom_openai_connection", "endpoint"),
        ("api_get_summary", "meetingId"),
        ("api_process_transcript", "text"),
        ("api_cancel_summary", "meetingId"),
        ("api_save_meeting_summary", "meetingId"),
        ("delete_ollama_model", "modelName"),
        ("whisper_load_model", "modelName"),
        ("parakeet_download_model", "modelName"),
        ("parakeet_retry_download", "modelName"),
        ("whisper_cancel_download", "modelName"),
        ("parakeet_delete_corrupted_model", "modelName"),
    ] {
        for args in [Json::Null, Json::object(), Json::object().with(key, Json::integer(3))] {
            let e = at_once(name, &args).err().expect("an error");
            assert_eq!(e.status, 400, "{}", name);
            assert_eq!(e.message, format!("missing required argument `{}`", key));
        }
    }
    let page = meeting_args().with("limit", Json::text("10"));
    let e = at_once("api_get_meeting_transcripts", &page).err().expect("an error");
    assert_eq!(e.message, "missing required argument `limit`");
    let page = meeting_args().with("limit", Json::integer(10));
    let e = at_once("api_get_meeting_transcripts", &page).err().expect("an error");
    assert_eq!(e.message, "missing required argument `offset`");
}

#[test]
fn meetings_are_found_or_not() {
    let s = state();
    for name in ["api_get_meeting", "api_get_meeting_metadata"] {
        let (action, pending) = begin(&s, name, &meeting_args());
        match (name, &action) {
            ("api_get_meeting", Action::FindMeeting { id }) => assert_eq!(id, "m1"),
            (_, Action::FindMeetingMetadata { id }) => assert_eq!(id, "m1"),
            _ => panic!("another action"),
        }
        let found = Json::object().with("id", Json::text("m1"));
        let step =
            go_on(&s, pending, Outcome::MaybeValue { value: Some(found.clone()) });
        assert_eq!(value(step), shown(&found));
        let (_, pending) = begin(&s, name, &meeting_args());
        let step = go_on(&s, pending, Outcome::MaybeValue { value: None });
        assert_eq!(error(step), (404, text("Meeting not found: m1")));
        let (_, pending) = begin(&s, name, &meeting_args());
        assert_eq!(error(go_on(&s, pending, failed("disk"))), (500, text("disk")));
    }
}

#[test]
fn pages_say_whether_there_is_more() {
    let s = state();
    let args = meeting_args().with("limit", Json::integer(2)).with("offset", Json::integer(3));
    let (action, pending) = begin(&s, "api_get_meeting_transcripts", &args);
    assert!(matches!(action, Action::PageTranscripts { limit: 2, offset: 3, .. }));
    let row = Json::object().with("id", Json::text("t")).with("transcript", Json::text("hi"));
    let rows = vec![row.clone(), row.clone()];
    let page =
        result(go_on(&s, pending, Outcome::Page { rows, total: 6 })).ok().expect("a page");
    assert_eq!(shown(&page.pick("has_more")), shown(&Json::Bool(true)));
    assert_eq!(page.pick("total_count").as_i64(), Some(6));
    let transcripts = page.pick("transcripts");
    let wire = transcripts.item(1).expect("a row");
    assert_eq!(wire.pick("text").as_str().as_deref(), Some("hi"));
    assert!(wire.get("timestamp").expect("a field").is_null());
    assert!(wire.get("duration").is_none());
    let (_, pending) = begin(&s, "api_get_meeting_transcripts", &args);
    let page = result(go_on(&s, pending, Outcome::Page { rows: vec![row], total: 4 }))
        .ok()
        .expect("a page");
    assert_eq!(shown(&page.pick("has_more")), shown(&Json::Bool(false)));
}

#[test]
fn the_last_page_of_all_does_not_overflow() {
    let s = state();
    let args =
        meeting_args().with("limit", Json::integer(1)).with("offset", Json::integer(i64::MAX));
    let (_, pending) = begin(&s, "api_get_meeting_transcripts", &args);
    let page = result(go_on(
        &s,
        pending,
        Outcome::Page { rows: vec![Json::Null], total: i64::MAX },
    ))
    .ok()
    .expect("a page");
    assert_eq!(shown(&page.pick("has_more")), shown(&Json::Bool(false)));
}

#[test]
fn meetings_are_deleted_and_renamed() {
    let s = state();
    let (action, pending) = begin(&s, "api_delete_meeting", &meeting_args());
    assert!(matches!(action, Action::DeleteMeeting { .. }));
    assert_eq!(
        value(go_on(&s, pending, Outcome::Flag { value: true })),
        shown(&success("Meeting deleted successfully"))
    );
    let (_, pending) = begin(&s, "api_delete_meeting", &meeting_args());
    assert_eq!(
        error(go_on(&s, pending, Outcome::Flag { value: false })),
        (404, text("Meeting not found or could not be deleted: m1"))
    );
    let args = meeting_args().with("title", Json::text("New"));
    let (action, pending) = begin(&s, "api_save_meeting_title", &args);
    match action {
        Action::RenameMeeting { id, title } => assert_eq!((id.as_str(), title.as_str()), ("m1", "New")),
        _ => panic!("another action"),
    }
    assert_eq!(
        value(go_on(&s, pending, Outcome::Flag { value: true })),
        shown(&note("Meeting title saved successfully"))
    );
    let (_, pending) = begin(&s, "api_save_meeting_title", &args);
    assert_eq!(
        error(go_on(&s, pending, Outcome::Flag { value: false })),
        (404, text("No meeting found with id m1"))
    );
}

#[test]
fn model_settings_are_shown_with_their_key() {
    let s = state();
    let (action, pending) = begin(&s, "api_get_model_config", &Json::Null);
    assert!(matches!(action, Action::LoadModelConfig));
    assert_eq!(
        value(go_on(&s, pending, Outcome::MaybeValue { value: None })),
        shown(&Json::Null)
    );
    let stored = Json::object()
        .with("provider", Json::text("openai"))
        .with("model", Json::text("gpt"))
        .with("whisperModel", Json::text("base"))
        .with("ollamaEndpoint", Json::text("http://stored"));
    let expected = |key: Json, endpoint: &str| {
        shown(
            &Json::object()
                .with("provider", Json::text("openai"))
                .with("model", Json::text("gpt"))
                .with("whisperModel", Json::text("base"))
                .with("apiKey", key)
                .with("ollamaEndpoint", Json::text(endpoint)),
        )
    };
    let (_, pending) = begin(&s, "api_get_model_config", &Json::Null);
    let (action, pending) =
        asked(go_on(&s, pending, Outcome::MaybeValue { value: Some(stored.clone()) }));
    match action {
        Action::LoadApiKey { provider } => assert_eq!(provider, "openai"),
        _ => panic!("another action"),
    }
    let step = go_on(&s, pending, Outcome::MaybeText { value: Some(text("k")) });
    assert_eq!(value(step), expected(Json::text("k"), "http://stored"));

    // A key that cannot be read is not shown, and a configured endpoint goes first.
    let s = state_with_endpoint();
    let (_, pending) = begin(&s, "api_get_model_config", &Json::Null);
    let (_, pending) = asked(go_on(&s, pending, Outcome::MaybeValue { value: Some(stored) }));
    let step = go_on(&s, pending, failed("locked"));
    assert_eq!(value(step), expected(Json::Null, "http://ollama:11434"));
}

#[test]
fn model_settings_are_stored_with_their_key() {
    let s = state();
    let args = Json::object()
        .with("provider", Json::text("openai"))
        .with("model", Json::text("gpt"))
        .with("whisperModel", Json::text("base"))
        .with("apiKey", Json::text("k"));
    let done = shown(&success("Model configuration saved successfully"));
    let (action, pending) = begin(&s, "api_save_model_config", &args);
    match action {
        Action::StoreModelConfig { provider, model, whisper_model, ollama_endpoint } => {
            assert_eq!(provider, "openai");
            assert_eq!(model, "gpt");
            assert_eq!(whisper_model, "base");
            assert_eq!(ollama_endpoint, None);
        }
        _ => panic!("another action"),
    }
    let (action, pending) = asked(go_on(&s, pending, Outcome::Done));
    match action {
        Action::StoreApiKey { provider, key } => {
            assert_eq!((provider.as_str(), key.as_str()), ("openai", "k"))
        }
        _ => panic!("another action"),
    }
    assert_eq!(value(go_on(&s, pending, Outcome::Done)), done);

    // A blank key, and the key of a custom endpoint, are not stored here.
    for (provider, key) in [("openai", "  "), ("custom-openai", "k")] {
        let args = Json::object()
            .with("provider", Json::text(provider))
            .with("model", Json::text("gpt"))
            .with("whisperModel", Json::text("base"))
            .with("apiKey", Json::text(key));
        let (_, pending) = begin(&s, "api_save_model_config", &args);
        assert_eq!(value(go_on(&s, pending, Outcome::Done)), done);
    }
}

#[test]
fn transcription_settings_default_to_parakeet() {
    let s = state();
    let (action, pending) = begin(&s, "api_get_transcript_config", &Json::Null);
    assert!(matches!(action, Action::LoadTranscriptConfig));
    let config = |provider: &str, model: &str, key: Json| {
        shown(
            &Json::object()
                .with("provider", Json::text(provider))
                .with("model", Json::text(model))
                .with("apiKey", key),
        )
    };
    assert_eq!(
        value(go_on(&s, pending, Outcome::MaybeValue { value: None })),
        config("parakeet", "tdt-v3", Json::Null)
    );
    let stored = Json::object()
        .with("provider", Json::text("deepgram"))
        .with("model", Json::text("nova"));
    for (outcome, key) in [
        (Outcome::MaybeText { value: Some(text("k")) }, Json::text("k")),
        (Outcome::MaybeText { value: None }, Json::Null),
        (failed("x"), Json::Null),
    ] {
        let (_, pending) = begin(&s, "api_get_transcript_config", &Json::Null);
        let (action, pending) =
            asked(go_on(&s, pending, Outcome::MaybeValue { value: Some(stored.clone()) }));
        assert!(matches!(action, Action::LoadTranscriptApiKey { .. }));
        assert_eq!(value(go_on(&s, pending, outcome)), config("deepgram", "nova", key));
    }
}

#[test]
fn transcription_settings_are_stored() {
    let s = state();
    let args = |key: &str| {
        Json::object()
            .with("provider", Json::text("deepgram"))
            .with("model", Json::text("nova"))
            .with("apiKey", Json::text(key))
    };
    let done = shown(&success("Transcript configuration saved successfully"));
    let (action, pending) = begin(&s, "api_save_transcript_config", &args(" "));
    assert!(matches!(action, Action::StoreTranscriptConfig { .. }));
    assert_eq!(value(go_on(&s, pending, Outcome::Done)), done);
    let (_, pending) = begin(&s, "api_save_transcript_config", &args("k"));
    let (action, pending) = asked(go_on(&s, pending, Outcome::Done));
    assert!(matches!(action, Action::StoreTranscriptApiKey { .. }));
    assert_eq!(value(go_on(&s, pending, Outcome::Done)), done);
}

#[test]
fn keys_are_texts() {
    let s = state();
    let args = Json::object().with("provider", Json::text("openai"));
    for name in ["api_get_api_key", "api_get_transcript_api_key"] {
        let (_, pending) = begin(&s, name, &args);
        let step = go_on(&s, pending, Outcome::MaybeText { value: Some(text("k")) });
        assert_eq!(value(step), shown(&Json::text("k")));
        let (_, pending) = begin(&s, name, &args);
        let step = go_on(&s, pending, Outcome::MaybeText { value: None });
        assert_eq!(value(step), shown(&Json::text("")));
    }
}

fn custom(key: &str, value: Json) -> Json {
    let fields = [
        ("endpoint", Json::text(" http://x ")),
        ("model", Json::text(" m ")),
        ("temperature", Json::Number(Number::Float(0.7f64.to_bits()))),
        ("topP", Json::integer(1)),
        ("maxTokens", Json::integer(100)),
        ("apiKey", Json::text("k")),
    ];
    let mut args = Json::object();
    for (name, field) in fields {
        args = args.with(name, if name == key { value.clone() } else { field });
    }
    args
}

#[test]
fn custom_endpoints_are_checked() {
    let float = |f: f64| Json::Number(Number::Float(f.to_bits()));
    for (key, bad, message) in [
        ("endpoint", Json::text("  "), "Endpoint URL is required"),
        ("model", Json::text(" "), "Model name is required"),
        ("endpoint", Json::text("ftp://x"), "Endpoint must start with http:// or https://"),
        ("endpoint", Json::text(" http://x"), "Endpoint must start with http:// or https://"),
        ("temperature", float(2.5), "Temperature must be between 0.0 and 2.0"),
        ("temperature", float(-0.1), "Temperature must be between 0.0 and 2.0"),
        ("temperature", Json::integer(-1), "Temperature must be between 0.0 and 2.0"),
        ("topP", float(1.01), "Top P must be between 0.0 and 1.0"),
        ("topP", Json::integer(2), "Top P must be between 0.0 and 1.0"),
        ("maxTokens", Json::integer(0), "Max tokens must be at least 1"),
    ] {
        let args = if key == "endpoint" {
            custom(key, bad)
        } else {
            let fixed = custom(key, bad);
            let Json::Object(mut fields) = fixed else { panic!("no object") };
            fields[0].1 = Json::text("http://x");
            Json::Object(fields)
        };
        let e = at_once("api_save_custom_openai_config", &args).err().expect("an error");
        assert_eq!((e.status, e.message.as_str()), (400, message));
    }
    let s = state();
    let args = custom("endpoint", Json::text("https://x/ "));
    let (action, pending) = begin(&s, "api_save_custom_openai_config", &args);
    match action {
        Action::StoreCustomOpenAi { config } => {
            assert_eq!(config.endpoint, "https://x/");
            assert_eq!(config.model, "m");
            assert_eq!(config.api_key.as_deref(), Some("k"));
            assert_eq!(config.max_tokens, Some(100));
            assert_eq!(config.temperature, Some(Number::Float(0.7f64.to_bits())));
            assert_eq!(config.top_p, Some(Number::Unsigned(1)));
        }
        _ => panic!("another action"),
    }
    assert_eq!(
        value(go_on(&s, pending, Outcome::Done)),
        shown(&success("Custom OpenAI configuration saved successfully"))
    );
}

#[test]
fn ranges_are_those_of_single_precision() {
    let tiny = f64::from_bits(1);
    for f in [
        0.0,
        -0.0,
        tiny,
        -tiny,
        -1e-46,
        -1e-45,
        -7.006492321624085e-46,
        -7.006492321624086e-46,
        0.5,
        1.0,
        1.0 + 2f64.powi(-24),
        1.0 + 2f64.powi(-24) + 2f64.powi(-52),
        1.00000001,
        1.0000001,
        1.9999999999,
        2.0,
        2.0 + 2f64.powi(-23),
        2.0 + 2f64.powi(-23) + 2f64.powi(-51),
        2.0000001,
        2.000001,
        3.0,
        -1.0,
        1e300,
        f64::INFINITY,
        f64::NEG_INFINITY,
        f64::NAN,
        -f64::NAN,
    ] {
        let n = Number::Float(f.to_bits());
        assert_eq!(is_within_one(n), (0.0..=1.0).contains(&(f as f32)), "for {}", f);
        assert_eq!(is_within_two(n), (0.0..=2.0).contains(&(f as f32)), "for {}", f);
    }
    for k in [i64::MIN, -2, -1] {
        assert!(!is_within_two(Number::Signed(k)));
    }
    for k in [0u64, 1, 2, 3, u64::MAX] {
        assert_eq!(is_within_one(Number::Unsigned(k)), k <= 1);
        assert_eq!(is_within_two(Number::Unsigned(k)), k <= 2);
    }
}

fn chat_args(endpoint: &str) -> Json {
    Json::object()
        .with("endpoint", Json::text(endpoint))
        .with("model", Json::text("m"))
        .with("apiKey", Json::text("k"))
}

#[test]
fn custom_endpoints_are_probed() {
    let s = state();
    let e = at_once("api_test_custom_openai_connection", &chat_args("x")).err().expect("an error");
    assert_eq!(
        (e.status, e.message.as_str()),
        (400, "Endpoint must start with http:// or https://")
    );
    let name = "api_test_custom_openai_connection";
    let (action, pending) = begin(&s, name, &chat_args("http://x/v1//"));
    match action {
        Action::PostChat { url, body, bearer } => {
            assert_eq!(url, "http://x/v1/chat/completions");
            assert_eq!(bearer.as_deref(), Some("k"));
            let message =
                Json::object().with("role", Json::text("user")).with("content", Json::text("Hi"));
            assert_eq!(
                shown(&body),
                shown(
                    &Json::object()
                        .with("model", Json::text("m"))
                        .with("messages", Json::Array(vec![message]))
                        .with("max_tokens", Json::integer(5))
                )
            );
        }
        _ => panic!("another action"),
    }
    let (action, pending) = asked(go_on(
        &s,
        pending,
        Outcome::Answer { status: 200, body: text("{}") },
    ));
    match action {
        Action::ParseJson { text } => assert_eq!(text, "{}"),
        _ => panic!("another action"),
    }
    let step = go_on(&s, pending, Outcome::Parsed { value: Json::object() });
    assert_eq!(
        error(step),
        (
            400,
            text(
                "Endpoint is reachable but doesn't appear to be OpenAI-compatible. Response is \
                 missing 'choices' array or 'message.content' / 'message.reasoning_content' field."
            )
        )
    );
}

#[test]
fn a_usable_endpoint_is_reported() {
    let s = state();
    let name = "api_test_custom_openai_connection";
    for key in ["content", "reasoning_content"] {
        let (_, pending) = begin(&s, name, &chat_args("https://x"));
        let (_, pending) =
            asked(go_on(&s, pending, Outcome::Answer { status: 201, body: text("b") }));
        let choice = Json::object().with("message", Json::object().with(key, Json::Null));
        let answer = Json::object().with("choices", Json::Array(vec![choice]));
        let step = go_on(&s, pending, Outcome::Parsed { value: answer });
        assert_eq!(
            value(step),
            shown(
                &success("Connection successful and response validated")
                    .with("http_status", Json::integer(201))
            )
        );
    }
}

#[test]
fn an_unusable_endpoint_is_reported() {
    let s = state();
    let name = "api_test_custom_openai_connection";
    for (outcome, message) in [
        (Outcome::TimedOut, "Connection timed out. Please check the endpoint URL."),
        (
            Outcome::Unreachable,
            "Could not connect to endpoint. Please verify the URL is correct and the server is running.",
        ),
        (failed("tls"), "Connection failed: tls"),
        (
            Outcome::Answer { status: 401, body: text("no") },
            "Connection failed with status 401: no",
        ),
        (
            Outcome::Answer { status: 300, body: text("") },
            "Connection failed with status 300: ",
        ),
    ] {
        let (_, pending) = begin(&s, name, &chat_args("https://x"));
        assert_eq!(error(go_on(&s, pending, outcome)), (400, text(message)));
    }
    let (_, pending) = begin(&s, name, &chat_args("https://x"));
    let (_, pending) = asked(go_on(
        &s,
        pending,
        Outcome::Answer { status: 299, body: text("<html>") },
    ));
    let step = go_on(&s, pending, Outcome::Rejected { error: text("expected value") });
    assert_eq!(
        error(step),
        (
            400,
            text(
                "Endpoint is reachable but returned invalid JSON: expected value. Response: <html>"
            )
        )
    );
}

#[test]
fn summaries_are_shown() {
    let s = state();
    let (action, pending) = begin(&s, "api_get_summary", &meeting_args());
    assert!(matches!(action, Action::FindMeetingMetadata { .. }));
    let meeting = Json::object().with("title", Json::text("Sync"));
    let (action, pending) =
        asked(go_on(&s, pending, Outcome::MaybeValue { value: Some(meeting) }));
    assert!(matches!(action, Action::LoadSummary { .. }));
    let process = Json::object()
        .with("status", Json::text("COMPLETED"))
        .with("start_time", Json::text("a"))
        .with("end_time", Json::text("b"))
        .with("result", Json::text("{\"markdown\":1}"))
        .with("error", Json::Null);
    let (action, pending) =
        asked(go_on(&s, pending, Outcome::MaybeValue { value: Some(process) }));
    match action {
        Action::ParseJson { text } => assert_eq!(text, "{\"markdown\":1}"),
        _ => panic!("another action"),
    }
    let data = Json::object().with("markdown", Json::integer(1));
    let step = go_on(&s, pending, Outcome::Parsed { value: data.clone() });
    assert_eq!(
        value(step),
        shown(
            &Json::object()
                .with("status", Json::text("completed"))
                .with("meetingName", Json::text("Sync"))
                .with("meeting_id", Json::text("m1"))
                .with("start", Json::text("a"))
                .with("end", Json::text("b"))
                .with("data", data)
                .with("error", Json::Null)
        )
    );
}

#[test]
fn summaries_that_are_not_there_are_idle() {
    let s = state();
    let idle = |status: &str| {
        shown(
            &Json::object()
                .with("status", Json::text(status))
                .with("meetingName", Json::Null)
                .with("meeting_id", Json::text("m1"))
                .with("start", Json::Null)
                .with("end", Json::Null)
                .with("data", Json::Null)
                .with("error", Json::Null),
        )
    };
    let (_, pending) = begin(&s, "api_get_summary", &meeting_args());
    let (_, pending) = asked(go_on(&s, pending, failed("x")));
    let step = go_on(&s, pending, Outcome::MaybeValue { value: None });
    assert_eq!(value(step), idle("idle"));
    // A process without a status, and one whose result is no text.
    let (_, pending) = begin(&s, "api_get_summary", &meeting_args());
    let (_, pending) = asked(go_on(&s, pending, Outcome::MaybeValue { value: None }));
    let step = go_on(&s, pending, Outcome::MaybeValue { value: Some(Json::object()) });
    assert_eq!(value(step), idle("idle"));
    // A result that is not JSON is no data.
    let (_, pending) = begin(&s, "api_get_summary", &meeting_args());
    let (_, pending) = asked(go_on(&s, pending, Outcome::MaybeValue { value: None }));
    let process = Json::object()
        .with("status", Json::text("Failed"))
        .with("result", Json::text("oops"));
    let (_, pending) = asked(go_on(&s, pending, Outcome::MaybeValue { value: Some(process) }));
    let step = go_on(&s, pending, Outcome::Rejected { error: text("x") });
    assert_eq!(value(step), idle("failed"));
    // A meeting that cannot be converted is an error.
    let (_, pending) = begin(&s, "api_get_summary", &meeting_args());
    let step = go_on(&s, pending, Outcome::Rejected { error: text("bad row") });
    assert_eq!(error(step), (500, text("bad row")));
}

#[test]
fn transcripts_are_processed() {
    let s = state();
    let args = Json::object()
        .with("text", Json::text("words"))
        .with("model", Json::text("ollama"))
        .with("modelName", Json::text("gemma"));
    let (action, pending) = begin(&s, "api_process_transcript", &args);
    match action {
        Action::ResetProcess { id } => assert_eq!(id, "meeting-fresh"),
        _ => panic!("another action"),
    }
    let (action, pending) = asked(go_on(&s, pending, Outcome::Done));
    match action {
        Action::StoreTranscriptData { id, text, provider, model, chunk_size, overlap } => {
            assert_eq!(id, "meeting-fresh");
            assert_eq!((text.as_str(), provider.as_str()), ("words", "ollama"));
            assert_eq!((model.as_str(), chunk_size, overlap), ("gemma", 40_000, 1_000));
        }
        _ => panic!("another action"),
    }
    let (action, pending) = asked(go_on(&s, pending, Outcome::Done));
    match action {
        Action::StartSummary { job } => {
            assert_eq!(job.meeting_id, "meeting-fresh");
            assert_eq!(job.custom_prompt, "");
            assert_eq!(job.template_id, "daily_standup");
            assert_eq!(job.summary_language, None);
        }
        _ => panic!("another action"),
    }
    let step = go_on(&s, pending, Outcome::Done);
    assert_eq!(
        value(step),
        shown(
            &note("Summary generation started").with("process_id", Json::text("meeting-fresh"))
        )
    );
}

#[test]
fn transcripts_are_processed_as_asked() {
    let s = state();
    let args = Json::object()
        .with("text", Json::text("words"))
        .with("model", Json::text("openai"))
        .with("modelName", Json::text("gpt"))
        .with("meetingId", Json::text("m1"))
        .with("chunkSize", Json::integer(4_294_967_297))
        .with("overlap", Json::integer(-1))
        .with("customPrompt", Json::text("short"))
        .with("templateId", Json::text("retro"))
        .with("summaryLanguage", Json::text("ko"));
    let (_, pending) = begin(&s, "api_process_transcript", &args);
    let (action, pending) = asked(go_on(&s, pending, Outcome::Done));
    // Numbers beyond 32 bits are cut down.
    assert!(matches!(action, Action::StoreTranscriptData { chunk_size: 1, overlap: -1, .. }));
    let (action, _) = asked(go_on(&s, pending, Outcome::Done));
    match action {
        Action::StartSummary { job } => {
            assert_eq!(job.meeting_id, "m1");
            assert_eq!(job.custom_prompt, "short");
            assert_eq!(job.template_id, "retro");
            assert_eq!(job.summary_language.as_deref(), Some("ko"));
        }
        _ => panic!("another action"),
    }
}

#[test]
fn fresh_meetings_get_a_uuid() {
    let s = state();
    let args = Json::object()
        .with("text", Json::text("words"))
        .with("model", Json::text("ollama"))
        .with("modelName", Json::text("gemma"));
    let mut seen: Vec<String> = Vec::new();
    for _ in 0..3 {
        match asked(dispatch(&s, "api_process_transcript", &args)).0 {
            Action::ResetProcess { id } => {
                let id = id.strip_prefix("meeting-").expect("a prefix").to_string();
                assert_eq!(id.len(), 36);
                assert_eq!(id.as_bytes()[14], b'4');
                assert!(!seen.contains(&id));
                seen.push(id);
            }
            _ => panic!("another action"),
        }
    }
}

#[test]
fn summaries_are_cancelled_and_stored() {
    let s = state();
    let (action, pending) = begin(&s, "api_cancel_summary", &meeting_args());
    assert!(matches!(action, Action::CancelProcess { .. }));
    assert_eq!(
        value(go_on(&s, pending, Outcome::Done)),
        shown(
            &note("Summary generation cancelled successfully")
                .with("meeting_id", Json::text("m1"))
        )
    );
    let e = at_once("api_save_meeting_summary", &meeting_args()).err().expect("an error");
    assert_eq!(e.message, "missing required argument `summary`");
    let args = meeting_args().with("summary", Json::object());
    let (action, pending) = begin(&s, "api_save_meeting_summary", &args);
    assert!(matches!(action, Action::StoreSummary { .. }));
    assert_eq!(
        value(go_on(&s, pending, Outcome::Flag { value: true })),
        shown(&note("Meeting summary saved successfully"))
    );
    let (_, pending) = begin(&s, "api_save_meeting_summary", &args);
    assert_eq!(
        error(go_on(&s, pending, Outcome::Flag { value: false })),
        (404, text("Meeting not found or can't convert the json"))
    );
}

#[test]
fn templates_are_listed() {
    let s = state();
    let (action, pending) = begin(&s, "api_list_templates", &Json::Null);
    assert!(matches!(action, Action::ListTemplates));
    let list = vec![Template { id: text("a"), name: text("A"), description: text("first") }];
    assert_eq!(
        value(go_on(&s, pending, Outcome::Templates { list })),
        shown(&Json::Array(vec![Json::object()
            .with("id", Json::text("a"))
            .with("name", Json::text("A"))
            .with("description", Json::text("first"))]))
    );
}

#[test]
fn catalogs_are_listed() {
    let s = state();
    let args = Json::object().with("apiKey", Json::text("k"));
    for (name, wanted, key) in [
        ("get_openai_models", Catalog::OpenAi, Some("k")),
        ("get_anthropic_models", Catalog::Anthropic, Some("k")),
        ("get_groq_models", Catalog::Groq, Some("k")),
        ("get_openrouter_models", Catalog::OpenRouter, None),
    ] {
        let (action, pending) = begin(&s, name, &args);
        match action {
            Action::ListCatalog { catalog, api_key } => {
                assert_eq!(catalog, wanted);
                assert_eq!(api_key.as_deref(), key);
            }
            _ => panic!("another action"),
        }
        let models = Json::Array(vec![Json::text("x")]);
        assert_eq!(
            value(go_on(&s, pending, Outcome::Value { value: models.clone() })),
            shown(&models)
        );
    }
}

#[test]
fn ollama_is_asked_where_it_listens() {
    let asked_of = |state: &ServerState, args: &Json| {
        let first = match begin(state, "get_ollama_models", args).0 {
            Action::ListOllamaModels { endpoint } => endpoint,
            _ => panic!("another action"),
        };
        let with_name = match args {
            Json::Object(fields) => {
                let mut fields = fields.iter().map(|(k, v)| (k.clone(), v.clone())).collect::<Vec<_>>();
                fields.push((text("modelName"), Json::text("gemma")));
                Json::Object(fields)
            }
            _ => panic!("no object"),
        };
        match begin(state, "delete_ollama_model", &with_name).0 {
            Action::DeleteOllamaModel { name, endpoint } => {
                assert_eq!(name, "gemma");
                assert_eq!(endpoint, first);
            }
            _ => panic!("another action"),
        }
        first
    };
    let named = Json::object().with("endpoint", Json::text("http://mine"));
    assert_eq!(asked_of(&state(), &Json::object()), None);
    assert_eq!(asked_of(&state(), &named).as_deref(), Some("http://mine"));
    let s = state_with_endpoint();
    assert_eq!(asked_of(&s, &Json::object()).as_deref(), Some("http://ollama:11434"));
    assert_eq!(asked_of(&s, &named).as_deref(), Some("http://mine"));
}

#[test]
fn commands_that_need_nothing_are_answered_at_once() {
    let nothing = Json::Null;
    let fallback =
        Json::object().with("language", Json::Null).with("storage", Json::text("local_fallback"));
    let preferences = Json::object()
        .with("save_folder", Json::text("/data/recordings"))
        .with("auto_save", Json::Bool(true))
        .with("file_format", Json::text("mp4"))
        .with("preferred_mic_device", Json::Null)
        .with("preferred_system_device", Json::Null);
    for (name, expected) in [
        ("api_get_meeting_summary_language", fallback.clone()),
        ("api_save_meeting_summary_language", fallback),
        ("api_get_auto_generate_setting", Json::Bool(true)),
        ("whisper_init", Json::Null),
        ("parakeet_init", Json::Null),
        ("get_database_directory", Json::text("/data")),
        ("get_default_recordings_folder_path", Json::text("/data/recordings")),
        ("get_recording_preferences", preferences),
        ("set_recording_preferences", Json::Null),
        ("set_notification_settings", Json::Null),
        ("set_language_preference", Json::Null),
        ("get_notification_settings", Json::Null),
        ("check_first_launch", Json::Bool(false)),
        ("check_default_legacy_database", Json::Null),
        ("detect_legacy_database", Json::Null),
        ("check_homebrew_database", Json::Null),
        ("builtin_ai_list_models", Json::Array(vec![])),
        ("builtin_ai_is_model_ready", Json::Bool(false)),
        ("builtin_ai_get_model_info", Json::Null),
        ("builtin_ai_get_available_summary_model", Json::Null),
    ] {
        let value = at_once(name, &nothing).ok().expect("a value");
        assert_eq!(shown(&value), shown(&expected), "{}", name);
    }
}

#[test]
fn a_fresh_database_is_announced_in_any_case() {
    let s = state();
    for outcome in [Outcome::Done, failed("locked")] {
        let (action, pending) = begin(&s, "initialize_fresh_database", &Json::Null);
        match action {
            Action::StoreTranscriptConfig { provider, model } => {
                assert_eq!((provider.as_str(), model.as_str()), ("parakeet", "tdt-v3"))
            }
            _ => panic!("another action"),
        }
        match go_on(&s, pending, outcome) {
            Step::Reply { events, result } => {
                assert_eq!(told(&events), vec![(text("database-initialized"), text("Null"))]);
                assert_eq!(shown(&result.ok().expect("a value")), "Null");
            }
            _ => panic!("there should be an answer"),
        }
    }
}

fn model(name: &str, available: bool, quantization: &str) -> ModelEntry {
    ModelEntry { name: text(name), available, quantization: text(quantization) }
}

#[test]
fn engines_say_what_they_have() {
    let s = state();
    for prefix in ["whisper", "parakeet"] {
        let (action, pending) = begin(&s, &format!("{}_is_model_loaded", prefix), &Json::Null);
        assert!(matches!(action, Action::IsModelLoaded { .. }));
        let step = go_on(&s, pending, Outcome::Flag { value: true });
        assert_eq!(value(step), shown(&Json::Bool(true)));

        let (_, pending) = begin(&s, &format!("{}_get_current_model", prefix), &Json::Null);
        let step = go_on(&s, pending, Outcome::MaybeText { value: None });
        assert_eq!(value(step), shown(&Json::Null));

        let (_, pending) = begin(&s, &format!("{}_get_models_directory", prefix), &Json::Null);
        let step = go_on(&s, pending, Outcome::Text { value: text("/data/models") });
        assert_eq!(value(step), shown(&Json::text("/data/models")));

        let (_, pending) = begin(&s, &format!("{}_get_available_models", prefix), &Json::Null);
        assert_eq!(error(go_on(&s, pending, failed("io"))), (500, text("io")));

        let name = format!("{}_has_available_models", prefix);
        for (outcome, expected) in [
            (Outcome::Models { list: vec![model("a", false, ""), model("b", true, "")] }, true),
            (Outcome::Models { list: vec![model("a", false, "")] }, false),
            (Outcome::Models { list: vec![] }, false),
            (failed("io"), false),
        ] {
            let (_, pending) = begin(&s, &name, &Json::Null);
            assert_eq!(value(go_on(&s, pending, outcome)), shown(&Json::Bool(expected)));
        }
    }
}

#[test]
fn models_are_loaded_in_public() {
    let s = state();
    let args = Json::object().with("modelName", Json::text("base"));
    let named = shown(&args);
    for (name, lead) in [("whisper_load_model", ""), ("parakeet_load_model", "parakeet-")] {
        for error in [None, Some("no memory")] {
            let (started, pending) = match dispatch_with(&s, name, &args, "fresh") {
                Step::Perform { events, pending, .. } => (told(&events), pending),
                Step::Reply { .. } => panic!("something should be asked for"),
            };
            assert_eq!(started, vec![(format!("{}model-loading-started", lead), named.clone())]);
            let outcome = match error {
                None => Outcome::Done,
                Some(e) => failed(e),
            };
            match (go_on(&s, pending, outcome), error) {
                (Step::Reply { events, result }, None) => {
                    assert_eq!(
                        told(&events),
                        vec![(format!("{}model-loading-completed", lead), named.clone())]
                    );
                    assert!(result.is_ok());
                }
                (Step::Reply { events, result }, Some(e)) => {
                    let payload = Json::object()
                        .with("modelName", Json::text("base"))
                        .with("error", Json::text(e));
                    assert_eq!(
                        told(&events),
                        vec![(format!("{}model-loading-failed", lead), shown(&payload))]
                    );
                    let refused = result.err().expect("an error");
                    assert_eq!((refused.status, refused.message.as_str()), (500, e));
                }
                _ => panic!("there should be an answer"),
            }
        }
    }
}

#[test]
fn ready_models_are_chosen() {
    let s = state();
    let (action, pending) = begin(&s, "parakeet_validate_model_ready", &Json::Null);
    assert!(matches!(action, Action::CurrentModel { engine: Engine::Parakeet }));
    let step = go_on(&s, pending, Outcome::MaybeText { value: Some(text("now")) });
    assert_eq!(value(step), shown(&Json::text("now")));
    for (name, expected) in
        [("parakeet_validate_model_ready", "c"), ("whisper_validate_model_ready", "b")]
    {
        let (_, pending) = begin(&s, name, &Json::Null);
        let (action, pending) = asked(go_on(&s, pending, Outcome::MaybeText { value: None }));
        assert!(matches!(action, Action::DiscoverModels { .. }));
        let list = vec![
            model("a", false, "Int8"),
            model("b", true, "Fp32"),
            model("c", true, "Int8"),
            model("d", true, "Int8"),
        ];
        let (action, pending) = asked(go_on(&s, pending, Outcome::Models { list }));
        match action {
            Action::LoadModel { name, .. } => assert_eq!(name, expected),
            _ => panic!("another action"),
        }
        assert_eq!(value(go_on(&s, pending, Outcome::Done)), shown(&Json::text(expected)));
    }
}

#[test]
fn engines_without_models_are_not_ready() {
    let s = state();
    for (name, message) in [
        (
            "whisper_validate_model_ready",
            "No Whisper models are available. Please download a model to enable transcription.",
        ),
        (
            "parakeet_validate_model_ready",
            "No Parakeet models are available. Please download a model to enable fast transcription.",
        ),
    ] {
        let (_, pending) = begin(&s, name, &Json::Null);
        let (_, pending) = asked(go_on(&s, pending, Outcome::MaybeText { value: None }));
        let list = vec![model("a", false, "Int8")];
        assert_eq!(
            error(go_on(&s, pending, Outcome::Models { list })),
            (400, text(message))
        );
    }
}

#[test]
fn downloads_are_started_stopped_and_removed() {
    let s = state();
    let args = Json::object().with("modelName", Json::text("base"));
    for (name, wanted) in [
        ("whisper_download_model", Engine::Whisper),
        ("parakeet_download_model", Engine::Parakeet),
        ("parakeet_retry_download", Engine::Parakeet),
    ] {
        let (action, pending) = begin(&s, name, &args);
        match action {
            Action::StartDownload { engine, name } => {
                assert_eq!((engine, name.as_str()), (wanted, "base"))
            }
            _ => panic!("another action"),
        }
        assert_eq!(value(go_on(&s, pending, Outcome::Done)), shown(&Json::Null));
    }
    let (_, pending) = begin(&s, "whisper_cancel_download", &args);
    assert!(matches!(
        go_on(&s, pending, Outcome::Done),
        Step::Reply { events, .. } if events.is_empty()
    ));
    let (_, pending) = begin(&s, "parakeet_cancel_download", &args);
    match go_on(&s, pending, Outcome::Done) {
        Step::Reply { events, .. } => {
            let payload = Json::object()
                .with("modelName", Json::text("base"))
                .with("progress", Json::integer(0))
                .with("status", Json::text("cancelled"));
            assert_eq!(
                told(&events),
                vec![(text("parakeet-model-download-progress"), shown(&payload))]
            );
        }
        _ => panic!("there should be an answer"),
    }
    let (_, pending) = begin(&s, "whisper_delete_corrupted_model", &args);
    let step = go_on(&s, pending, Outcome::Text { value: text("gone") });
    assert_eq!(value(step), shown(&Json::text("gone")));
}

#[test]
fn outcomes_of_the_wrong_kind_are_noticed() {
    let s = state();
    let (_, pending) = begin(&s, "api_get_meetings", &Json::Null);
    assert!(!accepts(&pending, &Outcome::Done));
    assert!(!accepts(&pending, &Outcome::Flag { value: true }));
    assert!(accepts(&pending, &failed("x")));
    let (_, pending) = begin(&s, "whisper_is_model_loaded", &Json::Null);
    assert!(!accepts(&pending, &failed("x")));
}

/// Outcomes of every kind, one of which a waiting command can get.
fn outcomes() -> Vec<Outcome> {
    vec![
        Outcome::Done,
        Outcome::Flag { value: true },
        Outcome::Text { value: text("t") },
        Outcome::MaybeText { value: None },
        Outcome::Value { value: Json::Null },
        Outcome::MaybeValue {
            value: Some(Json::object().with("result", Json::text("{}"))),
        },
        Outcome::Values { rows: vec![] },
        Outcome::Page { rows: vec![], total: 0 },
        Outcome::Answer { status: 200, body: text("{}") },
        Outcome::Parsed { value: Json::Null },
        Outcome::Templates { list: vec![] },
        Outcome::Models { list: vec![model("a", true, "Int8")] },
    ]
}

#[test]
fn every_command_is_answered_after_three_actions() {
    let s = state();
    let args = Json::object()
        .with("meetingId", Json::text("m1"))
        .with("limit", Json::integer(1))
        .with("offset", Json::integer(0))
        .with("meetingTitle", Json::text("t"))
        .with("title", Json::text("t"))
        .with("query", Json::text("q"))
        .with("provider", Json::text("openai"))
        .with("model", Json::text("m"))
        .with("whisperModel", Json::text("w"))
        .with("apiKey", Json::text("k"))
        .with("endpoint", Json::text("http://x"))
        .with("text", Json::text("t"))
        .with("modelName", Json::text("n"))
        .with("summary", Json::object());
    let mut longest: usize = 0;
    for name in [
        "api_get_meetings",
        "api_get_meeting",
        "api_get_meeting_metadata",
        "api_get_meeting_transcripts",
        "api_save_transcript",
        "api_delete_meeting",
        "api_save_meeting_title",
        "api_search_transcripts",
        "api_get_model_config",
        "api_save_model_config",
        "api_get_transcript_config",
        "api_save_transcript_config",
        "api_get_api_key",
        "api_get_transcript_api_key",
        "api_get_custom_openai_config",
        "api_save_custom_openai_config",
        "api_test_custom_openai_connection",
        "api_get_summary",
        "api_process_transcript",
        "api_cancel_summary",
        "api_save_meeting_summary",
        "api_list_templates",
        "get_ollama_models",
        "delete_ollama_model",
        "get_openai_models",
        "get_anthropic_models",
        "get_groq_models",
        "get_openrouter_models",
        "whisper_get_available_models",
        "whisper_has_available_models",
        "whisper_load_model",
        "whisper_is_model_loaded",
        "whisper_get_current_model",
        "whisper_get_models_directory",
        "whisper_validate_model_ready",
        "whisper_download_model",
        "whisper_cancel_download",
        "whisper_delete_corrupted_model",
        "parakeet_get_available_models",
        "parakeet_has_available_models",
        "parakeet_load_model",
        "parakeet_is_model_loaded",
        "parakeet_get_current_model",
        "parakeet_get_models_directory",
        "parakeet_validate_model_ready",
        "parakeet_download_model",
        "parakeet_retry_download",
        "parakeet_cancel_download",
        "parakeet_delete_corrupted_model",
        "initialize_fresh_database",
    ] {
        let mut step = dispatch_with(&s, name, &args, "fresh");
        let mut actions: usize = 0;
        while let Step::Perform { pending, .. } = step {
            actions += 1;
            let outcome = outcomes()
                .into_iter()
                .find(|o| accepts(&pending, o))
                .expect("an outcome that fits");
            step = resume(&s, pending, outcome);
        }
        assert!((1..=3).contains(&actions), "{} took {}", name, actions);
        longest = longest.max(actions);
    }
    assert_eq!(longest, 3);
}

#[test]
fn fields_are_found_again() {
    let o = Json::object().with("a", Json::integer(1)).with("b", Json::Null);
    assert_eq!(o.pick("a").as_i64(), Some(1));
    assert!(o.get("b").expect("a field").is_null());
    assert!(o.get("c").is_none());
    assert!(Json::Array(vec![]).get("a").is_none());
    assert_eq!(shown(&o.with("a", Json::integer(2)).pick("a")), shown(&Json::integer(1)));
}

#[test]
fn whole_numbers_are_read_within_their_range() {
    assert_eq!(Json::integer(i64::MIN).as_i64(), Some(i64::MIN));
    assert_eq!(Json::count(i64::MAX as u64).as_i64(), Some(i64::MAX));
    assert_eq!(Json::count(i64::MAX as u64 + 1).as_i64(), None);
    assert_eq!(Json::Number(Number::Float(1.0f64.to_bits())).as_i64(), None);
    assert_eq!(Json::text("1").as_i64(), None);
}
