//! Events about engines, and running an utterance through one.

use meetily_server::engines::{choose_model, download_finished_event, download_progress_event};
use meetily_server::json::Json;
use meetily_server::protocol::{Engine, ModelEntry, Outcome};
use meetily_server::transcription::{
    engine_accepts, resume_transcription, transcribe, EngineAction, EnginePhase, EngineStep,
};

fn shown(json: &Json) -> String {
    format!("{:?}", json)
}

fn model(name: &str, available: bool, quantization: &str) -> ModelEntry {
    ModelEntry {
        name: name.to_string(),
        available,
        quantization: quantization.to_string(),
    }
}

fn asked(step: EngineStep) -> (EngineAction, EnginePhase) {
    match step {
        EngineStep::Perform { action, phase } => (action, phase),
        EngineStep::Reply { .. } => panic!("something should be asked for"),
    }
}

fn result(step: EngineStep) -> Result<String, String> {
    match step {
        EngineStep::Reply { result } => result,
        EngineStep::Perform { .. } => panic!("there should be a result"),
    }
}

fn go_on(language: &Option<String>, phase: EnginePhase, outcome: Outcome) -> EngineStep {
    assert!(engine_accepts(phase, &outcome));
    resume_transcription(language, phase, outcome)
}

fn settings(provider: &str) -> Outcome {
    Outcome::MaybeValue { value: Some(Json::object().with("provider", Json::text(provider))) }
}

#[test]
fn downloads_are_told() {
    let e = download_progress_event(Engine::Whisper, "base", 40);
    assert_eq!(e.event, "model-download-progress");
    assert_eq!(
        shown(&e.payload),
        shown(
            &Json::object()
                .with("modelName", Json::text("base"))
                .with("progress", Json::integer(40))
        )
    );
    for (percent, status) in [(0, "downloading"), (99, "downloading"), (100, "completed")] {
        let e = download_progress_event(Engine::Parakeet, "tdt", percent);
        assert_eq!(e.event, "parakeet-model-download-progress");
        assert_eq!(e.payload.pick("progress").as_i64(), Some(percent as i64));
        assert_eq!(e.payload.pick("status").as_str().as_deref(), Some(status));
    }
    let e = download_finished_event(Engine::Whisper, "base", None);
    assert_eq!(e.event, "model-download-complete");
    assert!(e.payload.get("error").is_none());
    let e = download_finished_event(Engine::Parakeet, "tdt", Some("offline".to_string()));
    assert_eq!(e.event, "parakeet-model-download-error");
    assert_eq!(e.payload.pick("error").as_str().as_deref(), Some("offline"));
    assert_eq!(e.payload.pick("modelName").as_str().as_deref(), Some("tdt"));
}

#[test]
fn events_are_framed() {
    let e = download_finished_event(Engine::Whisper, "base", None);
    assert_eq!(
        shown(&e.to_json()),
        shown(
            &Json::object()
                .with("event", Json::text("model-download-complete"))
                .with("payload", Json::object().with("modelName", Json::text("base")))
        )
    );
}

#[test]
fn chosen_models_are_available() {
    let none = vec![model("a", false, "Int8")];
    let mixed = vec![model("a", false, "Int8"), model("b", true, "Fp32")];
    let both = vec![model("b", true, "Fp32"), model("c", true, "Int8")];
    for engine in [Engine::Whisper, Engine::Parakeet] {
        assert_eq!(choose_model(engine, &none), None);
        assert_eq!(choose_model(engine, &mixed).as_deref(), Some("b"));
    }
    assert_eq!(choose_model(Engine::Whisper, &both).as_deref(), Some("b"));
    assert_eq!(choose_model(Engine::Parakeet, &both).as_deref(), Some("c"));
}

#[test]
fn settings_select_the_engine() {
    for (outcome, expected) in [
        (settings("localWhisper"), Engine::Whisper),
        (settings("parakeet"), Engine::Parakeet),
        (settings("deepgram"), Engine::Parakeet),
        (Outcome::MaybeValue { value: Some(Json::object()) }, Engine::Parakeet),
        (Outcome::MaybeValue { value: None }, Engine::Parakeet),
        (Outcome::Failed { error: "x".to_string() }, Engine::Parakeet),
    ] {
        let (action, phase) = asked(transcribe());
        assert!(matches!(action, EngineAction::LoadTranscriptConfig));
        let (action, phase) = asked(go_on(&None, phase, outcome));
        assert!(matches!(action, EngineAction::AwaitTurn));
        assert_eq!(phase, EnginePhase::Turn { engine: expected });
    }
}

#[test]
fn a_loaded_engine_listens() {
    let language = Some("ko".to_string());
    for (engine, told) in [(Engine::Whisper, Some("ko")), (Engine::Parakeet, None)] {
        let (action, phase) =
            asked(go_on(&language, EnginePhase::Turn { engine }, Outcome::Done));
        assert!(matches!(action, EngineAction::IsModelLoaded { .. }));
        let (action, phase) = asked(go_on(&language, phase, Outcome::Flag { value: true }));
        match action {
            EngineAction::Transcribe { engine: e, language: l } => {
                assert_eq!(e, engine);
                assert_eq!(l.as_deref(), told);
            }
            _ => panic!("another action"),
        }
        let step = go_on(&language, phase, Outcome::Text { value: " hi ".to_string() });
        assert_eq!(result(step), Ok(" hi ".to_string()));
    }
}

#[test]
fn a_model_is_loaded_first() {
    let engine = Engine::Parakeet;
    let (action, phase) = asked(go_on(
        &None,
        EnginePhase::Loaded { engine },
        Outcome::Flag { value: false },
    ));
    assert!(matches!(action, EngineAction::DiscoverModels { .. }));
    // The first that is available, however it is stored.
    let list =
        vec![model("a", false, "Int8"), model("b", true, "Fp32"), model("c", true, "Int8")];
    let (action, phase) = asked(go_on(&None, phase, Outcome::Models { list }));
    match action {
        EngineAction::LoadModel { name, .. } => assert_eq!(name, "b"),
        _ => panic!("another action"),
    }
    let (action, phase) = asked(go_on(&None, phase, Outcome::Done));
    assert!(matches!(action, EngineAction::Transcribe { .. }));
    let step = go_on(&None, phase, Outcome::Failed { error: "crash".to_string() });
    assert_eq!(result(step), Err("crash".to_string()));
}

#[test]
fn what_stops_a_transcription_is_said() {
    let failed = |e: &str| Outcome::Failed { error: e.to_string() };
    for (engine, message) in [
        (Engine::Whisper, "No Whisper models are available. Download one in Settings."),
        (Engine::Parakeet, "No Parakeet models are available. Download one in Settings."),
    ] {
        let step =
            go_on(&None, EnginePhase::Models { engine }, Outcome::Models { list: vec![] });
        assert_eq!(result(step), Err(message.to_string()));
        let step = go_on(&None, EnginePhase::Turn { engine }, failed("closed"));
        assert_eq!(result(step), Err("transcription queue closed: closed".to_string()));
        for phase in [EnginePhase::Models { engine }, EnginePhase::Loading { engine }] {
            assert_eq!(result(go_on(&None, phase, failed("io"))), Err("io".to_string()));
        }
        assert!(!engine_accepts(EnginePhase::Loaded { engine }, &failed("io")));
    }
}
