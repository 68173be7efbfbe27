//! Live recordings.

use meetily_server::events::EventEnvelope;
use meetily_server::json::{Json, Number};
use meetily_server::live::{
    Control, LiveAction, LiveEvent, LiveRun, LiveSession, LiveStep, Timing, CONFIDENCE,
};
use meetily_server::segmenter::Utterance;
use meetily_server::state::{ServerConfig, ServerState};

fn text(s: &str) -> String {
    s.to_string()
}

fn state() -> ServerState {
    ServerState::new(text("/data"), ServerConfig::default(), text("model"))
}

fn float(f: f64) -> Number {
    Number::Float(f.to_bits())
}

fn timing(start: f64, end: f64) -> Timing {
    Timing { start: float(start), end: float(end), duration: float(end - start) }
}

fn told(events: &[EventEnvelope]) -> Vec<(String, String)> {
    events.iter().map(|e| (e.event.clone(), format!("{:?}", e.payload))).collect()
}

fn names(events: &[EventEnvelope]) -> Vec<&str> {
    events.iter().map(|e| e.event.as_str()).collect()
}

fn control(kind: &str, language: Option<&str>) -> LiveEvent {
    LiveEvent::Control {
        control: Control { kind: text(kind), meeting_name: None, language: language.map(text) },
    }
}

fn audio(bytes: Vec<u8>) -> LiveEvent {
    LiveEvent::Audio { bytes }
}

fn heard(words: &str) -> LiveEvent {
    LiveEvent::Told { result: Ok(text(words)), timing: timing(0.0, 1.0) }
}

fn step(run: &mut LiveRun, s: &mut ServerState, event: LiveEvent) -> LiveStep {
    assert!(run.accepts(&event));
    run.step(s, event, quiet)
}

fn receives(step: &LiveStep) -> bool {
    step.events.is_empty() && matches!(step.action, LiveAction::Receive)
}

fn transcribes(step: LiveStep) -> (Utterance<u32>, Option<String>) {
    match step.action {
        LiveAction::Transcribe { utterance, language } => (utterance, language),
        _ => panic!("an utterance should be transcribed"),
    }
}

/// A second and a half of speech, and enough silence to end it.
fn speech() -> Vec<u8> {
    let mut bytes = pcm(8_192, 24_200);
    bytes.extend(pcm(0, 16_000));
    bytes
}

/// Samples are quiet where they are small.
fn quiet(bits: &[u32]) -> bool {
    bits.iter().all(|b| f32::from_bits(*b).abs() < 0.006)
}

fn pcm(value: i16, samples: usize) -> Vec<u8> {
    value.to_le_bytes().repeat(samples)
}

#[test]
fn confidence_is_a_double() {
    assert_eq!(f64::from_bits(CONFIDENCE), 0.85);
}

#[test]
fn a_recording_begins_in_public() {
    let mut s = state();
    let (run, events) = LiveRun::begin_at(&mut s, text("id"), "01_02_26_03_04_05");
    let payload = Json::object()
        .with("message", Json::text("Recording started"))
        .with(
            "devices",
            Json::Array(vec![
                Json::text("Browser Microphone"),
                Json::text("Browser System Audio"),
            ]),
        )
        .with("workers", Json::integer(1));
    assert_eq!(told(&events), vec![(text("recording-started"), format!("{:?}", payload))]);
    let mut run = run;
    let step = step(&mut run, &mut s, LiveEvent::Closed);
    assert!(matches!(step.action, LiveAction::Over));
    let stopped = Json::object()
        .with("message", Json::text("Recording stopped"))
        .with("meeting_name", Json::text("Meeting 01_02_26_03_04_05"));
    assert_eq!(
        told(&step.events),
        vec![
            (text("transcription-complete"), text("Null")),
            (text("recording-stopped"), format!("{:?}", stopped)),
        ]
    );
}

#[test]
fn recordings_are_named_after_the_time() {
    let mut s = state();
    let (mut run, _) = LiveRun::begin(&mut s, text("id"));
    let events = step(&mut run, &mut s, LiveEvent::Closed).events;
    let name = events[1].payload.pick("meeting_name").as_str().expect("a name");
    let stamp = name.strip_prefix("Meeting ").expect("a prefix");
    assert_eq!(stamp.len(), 17);
    for (i, c) in stamp.chars().enumerate() {
        assert_eq!(c == '_', i % 3 == 2);
        assert!(c == '_' || c.is_ascii_digit());
    }
}

#[test]
fn utterances_are_told_in_order() {
    let mut session = LiveSession {
        meeting_name: text("Meeting"),
        sequence: 0,
        speech_announced: false,
    };
    assert!(session.tell_at(&Ok(text("  ")), "10:00:00", timing(0.0, 1.0)).is_empty());
    let events = session.tell_at(&Ok(text(" hello ")), "10:00:01", timing(1.0, 2.5));
    let update = Json::object()
        .with("text", Json::text("hello"))
        .with("timestamp", Json::text("10:00:01"))
        .with("source", Json::text("Audio"))
        .with("sequence_id", Json::integer(0))
        .with("chunk_start_time", Json::Number(float(1.0)))
        .with("is_partial", Json::Bool(false))
        .with("confidence", Json::Number(float(0.85)))
        .with("audio_start_time", Json::Number(float(1.0)))
        .with("audio_end_time", Json::Number(float(2.5)))
        .with("duration", Json::Number(float(1.5)));
    let detected = Json::object().with("message", Json::text("Speech activity detected"));
    assert_eq!(
        told(&events),
        vec![
            (text("speech-detected"), format!("{:?}", detected)),
            (text("transcript-update"), format!("{:?}", update)),
        ]
    );
    let events = session.tell_at(&Err(text("crash")), "10:00:02", timing(2.5, 3.0));
    let failed = Json::object()
        .with("error", Json::text("crash"))
        .with("userMessage", Json::text("crash"))
        .with("actionable", Json::Bool(false));
    assert_eq!(told(&events), vec![(text("transcription-error"), format!("{:?}", failed))]);
    let events = session.tell_at(&Ok(text("again")), "10:00:03", timing(3.0, 4.0));
    assert_eq!(names(&events), vec!["transcript-update"]);
    assert_eq!(events[0].payload.pick("sequence_id").as_i64(), Some(1));
    assert_eq!((session.sequence, session.speech_announced), (2, true));
}

#[test]
fn sequence_numbers_wrap() {
    let mut session = LiveSession {
        meeting_name: text("Meeting"),
        sequence: u64::MAX,
        speech_announced: true,
    };
    let events = session.emit_utterance(&Ok(text("x")), timing(0.0, 1.0));
    assert_eq!(
        events[0].payload.pick("sequence_id").as_number(),
        Some(Number::Unsigned(u64::MAX))
    );
    assert_eq!(session.sequence, 0);
    let clock = events[0].payload.pick("timestamp").as_str().expect("a time");
    assert_eq!(clock.len(), 8);
    for (i, c) in clock.chars().enumerate() {
        assert_eq!(c == ':', i % 3 == 2);
        assert!(c == ':' || c.is_ascii_digit());
    }
}

#[test]
fn control_frames_set_the_language() {
    let mut s = state();
    let (mut run, _) = LiveRun::begin(&mut s, text("id"));
    for event in [
        control("start", Some("ko")),
        control("start", Some("  ")),
        control("start", None),
        control("pause", Some("en")),
        // Readable, but without a type.
        control("", None),
        LiveEvent::Other,
    ] {
        assert!(receives(&step(&mut run, &mut s, event)));
    }
    let (_, language) = transcribes(step(&mut run, &mut s, audio(speech())));
    assert_eq!(language.as_deref(), Some("ko"));
}

#[test]
fn audio_is_split_into_utterances() {
    let mut s = state();
    let (mut run, _) = LiveRun::begin(&mut s, text("id"));
    let (first, language) = transcribes(step(&mut run, &mut s, audio(speech())));
    assert_eq!((first.start, language), (0, None));
    assert_eq!(f32::from_bits(first.samples[0]), 0.25);
    // No frame is taken before it has been told.
    assert!(!run.accepts(&audio(vec![])));
    assert!(!run.accepts(&LiveEvent::Closed));
    let told = step(&mut run, &mut s, heard("hi"));
    assert_eq!(names(&told.events), vec!["speech-detected", "transcript-update"]);
    assert!(matches!(told.action, LiveAction::Receive));
    assert!(!run.accepts(&heard("again")));
    assert!(receives(&step(&mut run, &mut s, audio(pcm(8_192, 8_000)))));
    // What is left when the recording stops is told before it is said to have stopped.
    let (last, _) = transcribes(step(&mut run, &mut s, control("stop", None)));
    assert_eq!((last.start, last.end), (first.end, 48_200));
    assert_eq!(s.live_meeting("id").is_some(), true);
    let end = step(&mut run, &mut s, heard("bye"));
    assert_eq!(
        names(&end.events),
        vec!["transcript-update", "transcription-complete", "recording-stopped"]
    );
    assert!(matches!(end.action, LiveAction::Over));
    assert_eq!(s.live_meeting("id"), None);
}

#[test]
fn several_utterances_are_told_one_after_the_other() {
    let mut s = state();
    let (mut run, _) = LiveRun::begin(&mut s, text("id"));
    let mut bytes = speech();
    bytes.extend(speech());
    let (first, _) = transcribes(step(&mut run, &mut s, audio(bytes)));
    let (second, _) = transcribes(step(&mut run, &mut s, heard("one")));
    assert!(first.end <= second.start);
    let told = step(&mut run, &mut s, heard("two"));
    assert_eq!(names(&told.events), vec!["transcript-update"]);
    assert_eq!(told.events[0].payload.pick("sequence_id").as_i64(), Some(1));
    assert!(matches!(told.action, LiveAction::Receive));
}

#[test]
fn nothing_is_heard_after_the_end() {
    for end in [control("stop", Some("en")), LiveEvent::Closed, LiveEvent::Unreadable] {
        let mut s = state();
        let (mut run, _) = LiveRun::begin(&mut s, text("id"));
        assert!(receives(&step(&mut run, &mut s, audio(pcm(8_192, 8_000)))));
        transcribes(step(&mut run, &mut s, end));
        assert!(!run.accepts(&audio(speech())));
        assert!(!run.accepts(&control("start", None)));
        let last = step(&mut run, &mut s, heard("bye"));
        assert!(matches!(last.action, LiveAction::Over));
        assert!(!run.accepts(&audio(speech())));
        assert!(!run.accepts(&heard("more")));
        assert_eq!(s.live_meeting("id"), None);
    }
}

#[test]
fn a_frame_that_cannot_be_read_ends_the_recording() {
    let mut s = state();
    let (mut run, _) = LiveRun::begin(&mut s, text("id"));
    let end = step(&mut run, &mut s, LiveEvent::Unreadable);
    assert_eq!(names(&end.events), vec!["transcription-complete", "recording-stopped"]);
    assert!(matches!(end.action, LiveAction::Over));
    assert_eq!(s.live_meeting("id"), None);
}

#[test]
fn a_broken_connection_is_told() {
    let mut s = state();
    let (mut run, _) = LiveRun::begin(&mut s, text("id"));
    let end = step(&mut run, &mut s, LiveEvent::Broken { error: text("reset") });
    let payload = Json::object()
        .with("error", Json::text("reset"))
        .with(
            "userMessage",
            Json::text("Live transcription stopped unexpectedly. Check the server logs."),
        )
        .with("actionable", Json::Bool(false));
    assert_eq!(told(&end.events), vec![(text("transcription-error"), format!("{:?}", payload))]);
    assert!(matches!(end.action, LiveAction::Over));
}

#[test]
fn the_time_of_day_is_told() {
    let mut s = state();
    let (mut run, _) = LiveRun::begin_at(&mut s, text("id"), "1");
    transcribes(run.step_at(&mut s, audio(speech()), "09:00:00", quiet));
    let told = run.step_at(&mut s, heard("hi"), "10:00:00", quiet);
    assert_eq!(
        told.events[1].payload.pick("timestamp").as_str().as_deref(),
        Some("10:00:00")
    );
}

#[test]
fn recordings_are_cleaned_up() {
    let mut s = state();
    assert_eq!(s.live_meeting("a"), None);
    let (mut a, _) = LiveRun::begin_at(&mut s, text("a"), "1");
    let (mut b, _) = LiveRun::begin_at(&mut s, text("b"), "2");
    assert_eq!(s.live_meeting("a").as_deref(), Some("Meeting 1"));
    assert_eq!(s.live_meeting("b").as_deref(), Some("Meeting 2"));
    step(&mut a, &mut s, LiveEvent::Broken { error: text("reset") });
    assert_eq!(s.live_meeting("a"), None);
    assert_eq!(s.live_meeting("b").as_deref(), Some("Meeting 2"));
    step(&mut b, &mut s, control("stop", None));
    assert_eq!(s.live_meeting("b"), None);
}
