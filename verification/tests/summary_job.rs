//! The background job that makes a summary.

use meetily_server::jobs::{
    job_accepts, means_cancelled, CustomServer, JobAction, JobOutcome, JobPhase, JobStep,
    ProviderKind, SummaryRequest,
};
use meetily_server::json::Json;
use meetily_server::protocol::SummaryJob;
use meetily_server::state::{ServerConfig, ServerState};

fn text(s: &str) -> String {
    s.to_string()
}

fn state(endpoint: Option<&str>) -> ServerState {
    ServerState::new(
        text("/data"),
        ServerConfig { ollama_endpoint: endpoint.map(text), ..ServerConfig::default() },
        text("model"),
    )
}

fn job() -> SummaryJob {
    SummaryJob {
        meeting_id: text("m1"),
        text: text("words"),
        provider_id: text("openai"),
        model_name: text("gpt"),
        custom_prompt: text("short"),
        template_id: text("retro"),
        summary_language: Some(text("ko")),
    }
}

fn asked(step: JobStep) -> (JobAction, JobPhase) {
    match step {
        JobStep::Perform { action, phase } => (action, phase),
        JobStep::Over => panic!("something should be asked for"),
    }
}

fn go_on(state: &ServerState, phase: JobPhase, outcome: JobOutcome) -> JobStep {
    assert!(job_accepts(&phase, &outcome));
    job().resume(state, phase, outcome)
}

fn failed(error: &str) -> JobOutcome {
    JobOutcome::Failed { error: text(error) }
}

/// Takes a job from its provider to the request that it makes.
fn request(
    state: &ServerState,
    kind: ProviderKind,
    key: Option<&str>,
    setting: Option<Json>,
    custom: Option<CustomServer>,
) -> SummaryRequest {
    let (action, phase) = asked(job().run());
    match action {
        JobAction::ParseProvider { id } => assert_eq!(id, "openai"),
        _ => panic!("another action"),
    }
    let (mut action, mut phase) = asked(go_on(state, phase, JobOutcome::Provider { kind }));
    if kind == ProviderKind::Cloud {
        match action {
            JobAction::LoadApiKey { provider } => assert_eq!(provider, "openai"),
            _ => panic!("another action"),
        }
        (action, phase) =
            asked(go_on(state, phase, JobOutcome::MaybeText { value: key.map(text) }));
    }
    assert!(matches!(action, JobAction::LoadModelConfig));
    let (action, phase) = asked(go_on(state, phase, JobOutcome::MaybeValue { value: setting }));
    assert!(matches!(action, JobAction::LoadCustomOpenAi));
    let (action, phase) = asked(go_on(state, phase, JobOutcome::MaybeCustom { config: custom }));
    match action {
        JobAction::LoadTemplate { id } => assert_eq!(id, "retro"),
        _ => panic!("another action"),
    }
    match asked(go_on(state, phase, JobOutcome::Done)).0 {
        JobAction::Generate { request } => request,
        _ => panic!("another action"),
    }
}

fn stored_endpoint() -> Json {
    Json::object().with("ollamaEndpoint", Json::text("http://stored"))
}

fn custom_server(key: Option<&str>) -> CustomServer {
    CustomServer { endpoint: text("http://custom"), api_key: key.map(text) }
}

#[test]
fn a_cloud_provider_gets_its_key() {
    let r = request(&state(None), ProviderKind::Cloud, Some("k"), None, None);
    assert_eq!(r.provider, ProviderKind::Cloud);
    assert_eq!((r.provider_id.as_str(), r.model_name.as_str()), ("openai", "gpt"));
    assert_eq!((r.api_key.as_str(), r.token_threshold), ("k", 100_000));
    assert_eq!((r.text.as_str(), r.custom_prompt.as_str()), ("words", "short"));
    assert_eq!(r.template_id, "retro");
    assert_eq!(r.summary_language.as_deref(), Some("ko"));
    assert_eq!((r.ollama_endpoint, r.custom_endpoint), (None, None));
    let r = request(&state(None), ProviderKind::Cloud, None, None, Some(custom_server(Some("c"))));
    assert_eq!(r.api_key, "");
    assert_eq!(r.custom_endpoint.as_deref(), Some("http://custom"));
}

#[test]
fn ollama_needs_no_key() {
    let r = request(&state(None), ProviderKind::Ollama, None, Some(stored_endpoint()), None);
    assert_eq!((r.api_key.as_str(), r.token_threshold), ("", 24_000));
    assert_eq!(r.ollama_endpoint.as_deref(), Some("http://stored"));
    let configured = state(Some("http://ollama:11434"));
    let r = request(&configured, ProviderKind::Ollama, None, Some(stored_endpoint()), None);
    assert_eq!(r.ollama_endpoint.as_deref(), Some("http://ollama:11434"));
}

#[test]
fn a_custom_server_brings_its_own_key() {
    let s = state(None);
    let kind = ProviderKind::CustomOpenAi;
    let r = request(&s, kind, None, None, Some(custom_server(Some("c"))));
    assert_eq!((r.api_key.as_str(), r.token_threshold), ("c", 24_000));
    assert_eq!(r.custom_endpoint.as_deref(), Some("http://custom"));
    let r = request(&s, kind, None, None, Some(custom_server(None)));
    assert_eq!(r.api_key, "");
    let r = request(&s, kind, None, None, None);
    assert_eq!((r.api_key.as_str(), r.custom_endpoint), ("", None));
}

#[test]
fn the_bundled_model_is_refused() {
    let s = state(None);
    let (_, phase) = asked(job().run());
    let outcome = JobOutcome::Provider { kind: ProviderKind::BuiltInAi };
    let (action, phase) = asked(go_on(&s, phase, outcome));
    match action {
        JobAction::FailProcess { id, error } => {
            assert_eq!(id, "m1");
            assert_eq!(
                error,
                "The bundled local model is not available in the self-hosted server. Pick Ollama \
                 or a cloud provider in Settings."
            );
        }
        _ => panic!("another action"),
    }
    assert!(matches!(go_on(&s, phase, failed("locked")), JobStep::Over));
}

#[test]
fn failures_are_written_down() {
    let s = state(None);
    let request = || request(&state(None), ProviderKind::Ollama, None, None, None);
    for phase in [
        JobPhase::Provider,
        JobPhase::Key { kind: ProviderKind::Cloud },
        JobPhase::Setting { kind: ProviderKind::Cloud, api_key: text("k") },
        JobPhase::Custom {
            kind: ProviderKind::Cloud,
            api_key: text("k"),
            ollama_endpoint: None,
        },
        JobPhase::Template { request: request() },
        JobPhase::Summary,
    ] {
        let (action, phase) = asked(go_on(&s, phase, failed("boom")));
        match action {
            JobAction::FailProcess { id, error } => {
                assert_eq!((id.as_str(), error.as_str()), ("m1", "boom"))
            }
            _ => panic!("another action"),
        }
        assert!(matches!(go_on(&s, phase, JobOutcome::Done), JobStep::Over));
    }
}

fn generated(s: &ServerState) -> JobPhase {
    let outcome = JobOutcome::Summary { markdown: text("# Sync"), chunk_count: 3 };
    let (action, phase) = asked(go_on(s, JobPhase::Summary, outcome));
    match action {
        JobAction::LoadProcess { id } => assert_eq!(id, "m1"),
        _ => panic!("another action"),
    }
    phase
}

fn process(status: &str) -> JobOutcome {
    JobOutcome::MaybeValue { value: Some(Json::object().with("status", Json::text(status))) }
}

#[test]
fn cancelled_summaries_are_discarded() {
    let s = state(None);
    for status in ["cancelled", "CANCELLED", "Cancelled"] {
        assert!(matches!(go_on(&s, generated(&s), process(status)), JobStep::Over));
    }
    assert!(means_cancelled("cancelled"));
    assert!(!means_cancelled("canceled"));
}

#[test]
fn summaries_are_stored() {
    let s = state(None);
    for seen in [
        process("processing"),
        JobOutcome::MaybeValue { value: Some(Json::object()) },
        JobOutcome::MaybeValue { value: None },
        failed("locked"),
    ] {
        let (action, phase) = asked(go_on(&s, generated(&s), seen));
        match action {
            JobAction::ExtractName { markdown } => assert_eq!(markdown, "# Sync"),
            _ => panic!("another action"),
        }
        let (action, phase) =
            asked(go_on(&s, phase, JobOutcome::MaybeText { value: Some(text("Sync")) }));
        match action {
            JobAction::NameMeeting { id, name } => {
                assert_eq!((id.as_str(), name.as_str()), ("m1", "Sync"))
            }
            _ => panic!("another action"),
        }
        let (action, phase) = asked(go_on(&s, phase, failed("locked")));
        match action {
            JobAction::CompleteProcess { id, result, chunk_count } => {
                assert_eq!((id.as_str(), chunk_count), ("m1", 3));
                let expected = Json::object().with("markdown", Json::text("# Sync"));
                assert_eq!(format!("{:?}", result), format!("{:?}", expected));
            }
            _ => panic!("another action"),
        }
        assert!(matches!(go_on(&s, phase, failed("full")), JobStep::Over));
    }
}

#[test]
fn a_summary_without_a_name_is_stored_at_once() {
    let s = state(None);
    let (_, phase) = asked(go_on(&s, generated(&s), process("processing")));
    let (action, _) = asked(go_on(&s, phase, JobOutcome::MaybeText { value: None }));
    assert!(matches!(action, JobAction::CompleteProcess { .. }));
}

#[test]
fn wrong_outcomes_are_noticed() {
    assert!(!job_accepts(&JobPhase::Provider, &JobOutcome::Done));
    assert!(!job_accepts(&JobPhase::Summary, &JobOutcome::MaybeText { value: None }));
    let phase = JobPhase::Name { markdown: text("x"), chunk_count: 1 };
    assert!(!job_accepts(&phase, &failed("x")));
}
