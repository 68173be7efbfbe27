//! Uploads, and the job that transcribes them.

use meetily_server::error::ApiError;
use meetily_server::imports::{ImportAction, ImportJob, ImportOutcome, ImportStep};
use meetily_server::json::{Json, Number};
use meetily_server::live::Timing;
use meetily_server::state::{ServerConfig, ServerState};
use meetily_server::upload::{
    file_extension, part_kind, stage_as, Part, PartKind, Staging, Upload, UploadForm,
};

fn text(s: &str) -> String {
    s.to_string()
}

fn state() -> ServerState {
    ServerState::new(text("/data"), ServerConfig::default(), text("model"))
}

fn shown(json: &Json) -> String {
    format!("{:?}", json)
}

#[test]
fn parts_are_told_apart_by_name() {
    assert_eq!(part_kind(Some("file")), PartKind::File);
    assert_eq!(part_kind(Some("meeting_name")), PartKind::MeetingName);
    assert_eq!(part_kind(Some("File")), PartKind::Other);
    assert_eq!(part_kind(Some("")), PartKind::Other);
    assert_eq!(part_kind(None), PartKind::Other);
}

#[test]
fn files_are_staged_in_one_directory() {
    let s = state();
    for (name, expected) in [
        (Some("talk.mp3"), "/data/uploads/fresh.mp3"),
        (Some("talk"), "/data/uploads/fresh.wav"),
        (None, "/data/uploads/fresh.wav"),
        (Some("../../etc/x.M4A"), "/data/uploads/fresh.M4A"),
        (Some("x.a b"), "/data/uploads/fresh.a_b"),
        (Some("x."), "/data/uploads/fresh.untitled"),
        (Some(".hidden"), "/data/uploads/fresh.wav"),
    ] {
        assert_eq!(stage_as(&s, name, b"data", "fresh").ok().as_deref(), Some(expected));
    }
}

fn file(name: &str, bytes: &[u8]) -> Part {
    Part::File { file_name: Some(text(name)), bytes: bytes.to_vec(), unsupported: None }
}

/// A file whose extension the decoder does not support.
fn foreign(name: &str, bytes: &[u8]) -> Part {
    Part::File {
        file_name: Some(text(name)),
        bytes: bytes.to_vec(),
        unsupported: Some(format!("cannot decode {}", file_extension(Some(name)))),
    }
}

fn name(words: Option<&str>) -> Part {
    Part::MeetingName { text: words.map(text) }
}

/// Takes a part under a name that says when it came.
fn take(form: &mut UploadForm, part: Part, fresh: &str) -> Result<Option<Staging>, ApiError> {
    form.on_part_as(&state(), part, fresh)
}

#[test]
fn staged_names_are_fresh() {
    let s = state();
    let mut form = UploadForm::new();
    let mut paths: Vec<String> = Vec::new();
    for _ in 0..2 {
        let staging = form.on_part(&s, file("x.wav", b"data")).ok().flatten().expect("a file");
        assert_eq!(staging.bytes, b"data");
        assert_eq!(staging.replaced.as_ref(), paths.last());
        paths.push(staging.path);
    }
    assert_ne!(paths[0], paths[1]);
    let staged = paths[0].strip_prefix("/data/uploads/").expect("the directory");
    assert_eq!(staged.len(), 40);
    assert!(staged.ends_with(".wav"));
    assert_eq!(staged.as_bytes()[14], b'4');
}

#[test]
fn an_empty_file_is_refused() {
    let e = stage_as(&state(), None, b"", "fresh").err().expect("an error");
    assert_eq!((e.status, e.message.as_str()), (400, "Uploaded file is empty"));
    // Anywhere in the form, and it leaves the form as it was.
    let mut form = UploadForm::new();
    assert!(take(&mut form, file("x.wav", b"data"), "a").is_ok());
    let e = take(&mut form, file("y.wav", b""), "b").err().expect("an error");
    assert_eq!((e.status, e.message.as_str()), (400, "Uploaded file is empty"));
    assert_eq!(form.abandon().as_deref(), Some("/data/uploads/a.wav"));
}

#[test]
fn an_extension_that_the_decoder_does_not_support_is_refused() {
    // With the decoder's reason, and it leaves the form as it was.
    let mut form = UploadForm::new();
    assert!(take(&mut form, file("x.wav", b"data"), "a").is_ok());
    let e = take(&mut form, foreign("notes.txt", b"data"), "b").err().expect("an error");
    assert_eq!((e.status, e.message.as_str()), (400, "cannot decode txt"));
    // Without content it is refused for that.
    let e = take(&mut form, foreign("notes.txt", b""), "c").err().expect("an error");
    assert_eq!((e.status, e.message.as_str()), (400, "Uploaded file is empty"));
    assert_eq!(form.abandon().as_deref(), Some("/data/uploads/a.wav"));
}

#[test]
fn the_decoder_is_asked_about_the_staged_extension() {
    for (name, expected) in [
        (Some("talk.mp3"), "mp3"),
        (Some("talk"), "wav"),
        (None, "wav"),
        (Some("x.M4A"), "M4A"),
        (Some("x.a b"), "a_b"),
    ] {
        assert_eq!(file_extension(name), expected);
    }
}

#[test]
fn a_part_that_cannot_be_read_is_refused() {
    let mut form = UploadForm::new();
    let part = Part::Broken { error: text("incomplete") };
    let e = take(&mut form, part, "a").err().expect("an error");
    assert_eq!((e.status, e.message.as_str()), (400, "incomplete"));
    assert_eq!(form.abandon(), None);
}

#[test]
fn a_form_without_a_file_is_refused() {
    let mut form = UploadForm::new();
    assert!(take(&mut form, name(Some("Sync")), "a").ok().expect("taken").is_none());
    let e = form.finish().err().expect("an error");
    assert_eq!((e.status, e.message.as_str()), (400, "Missing `file` field"));
}

#[test]
fn a_complete_form_is_answered_with_the_id() {
    let mut form = UploadForm::new();
    assert!(take(&mut form, file("a.wav", b"data"), "a").is_ok());
    assert!(take(&mut form, Part::Other, "b").ok().expect("taken").is_none());
    assert!(take(&mut form, name(Some("M")), "c").is_ok());
    let upload = form.finish_at("01_02_26_03_04_05", "fresh").ok().expect("an upload");
    assert_eq!(upload.path, "/data/uploads/a.wav");
    assert_eq!(upload.meeting_name, "M");
    assert_eq!(upload.meeting_id, "meeting-fresh");
    assert_eq!(
        shown(&upload.reply()),
        shown(
            &Json::object()
                .with("ok", Json::object().with("meeting_id", Json::text("meeting-fresh")))
        )
    );
}

#[test]
fn meetings_get_fresh_ids() {
    let mut ids: Vec<String> = Vec::new();
    for _ in 0..2 {
        let mut form = UploadForm::new();
        assert!(take(&mut form, file("a.wav", b"data"), "a").is_ok());
        ids.push(form.finish().ok().expect("an upload").meeting_id);
    }
    assert_ne!(ids[0], ids[1]);
    assert!(ids.iter().all(|id| id.starts_with("meeting-") && id.len() == 44));
}

#[test]
fn a_meeting_without_a_name_is_named_after_the_time() {
    for names in [vec![], vec![Some(" ")], vec![Some("Sync"), None], vec![Some("Sync"), Some("")]] {
        let mut form = UploadForm::new();
        for words in names {
            assert!(take(&mut form, name(words), "a").is_ok());
        }
        assert!(take(&mut form, file("a.wav", b"data"), "a").is_ok());
        let upload = form.finish_at("01_02_26_03_04_05", "fresh").ok().expect("an upload");
        assert_eq!(upload.meeting_name, "Import 01_02_26_03_04_05");
    }
    let mut form = UploadForm::new();
    assert!(take(&mut form, file("a.wav", b"data"), "a").is_ok());
    let upload = form.finish().ok().expect("an upload");
    assert_eq!(upload.meeting_name.len(), "Import 01_02_26_03_04_05".len());
}

#[test]
fn no_staged_file_is_forgotten() {
    let mut form = UploadForm::new();
    let mut replaced: Vec<Option<String>> = Vec::new();
    for fresh in ["a", "b", "c"] {
        let staging = take(&mut form, file("x.mp3", b"data"), fresh).ok().flatten();
        replaced.push(staging.expect("a file").replaced);
    }
    assert_eq!(
        replaced,
        vec![None, Some(text("/data/uploads/a.mp3")), Some(text("/data/uploads/b.mp3"))]
    );
    assert_eq!(form.abandon().as_deref(), Some("/data/uploads/c.mp3"));
    assert_eq!(UploadForm::new().abandon(), None);
}

fn job() -> (ImportJob, ImportStep) {
    ImportJob::start(Upload {
        path: text("/data/uploads/a.wav"),
        meeting_id: text("meeting-1"),
        meeting_name: text("Sync"),
    })
}

fn go_on(job: &mut ImportJob, outcome: ImportOutcome) -> ImportStep {
    assert!(job.accepts(&outcome));
    job.resume(outcome)
}

fn float(f: f64) -> Number {
    Number::Float(f.to_bits())
}

fn heard(words: &str, start: f64, end: f64) -> ImportOutcome {
    ImportOutcome::Heard {
        text: text(words),
        seconds: start as u64,
        timing: Timing { start: float(start), end: float(end), duration: float(end - start) },
    }
}

fn failed(error: &str) -> ImportOutcome {
    ImportOutcome::Failed { error: text(error) }
}

fn progress(percent: i64) -> Vec<(String, String)> {
    let payload = Json::object()
        .with("meeting_name", Json::text("Sync"))
        .with("progress", Json::integer(percent));
    vec![(text("upload-progress"), shown(&payload))]
}

fn broken(error: &str) -> Vec<(String, String)> {
    let payload = Json::object()
        .with("error", Json::text(error))
        .with("userMessage", Json::text(error))
        .with("actionable", Json::Bool(false));
    vec![(text("transcription-error"), shown(&payload))]
}

fn told(step: &ImportStep) -> Vec<(String, String)> {
    step.events.iter().map(|e| (e.event.clone(), shown(&e.payload))).collect()
}

fn segment(id: &str, words: &str, clock: &str, start: f64, end: f64) -> Json {
    Json::object()
        .with("id", Json::text(id))
        .with("text", Json::text(words))
        .with("timestamp", Json::text(clock))
        .with("audio_start_time", Json::Number(float(start)))
        .with("audio_end_time", Json::Number(float(end)))
        .with("duration", Json::Number(float(end - start)))
}

fn is_transcribe(step: &ImportStep, wanted: usize) -> bool {
    matches!(step.action, Some(ImportAction::Transcribe { index }) if index == wanted)
}

fn removes(step: &ImportStep) -> bool {
    match &step.action {
        Some(ImportAction::Remove { path }) => path == "/data/uploads/a.wav",
        _ => false,
    }
}

#[test]
fn a_file_is_transcribed() {
    let (mut job, step) = job();
    match step.action {
        Some(ImportAction::Decode { path }) => assert_eq!(path, "/data/uploads/a.wav"),
        _ => panic!("another action"),
    }
    let step = go_on(&mut job, ImportOutcome::Decoded { total: 3 });
    assert!(step.events.is_empty() && is_transcribe(&step, 0));
    let step = go_on(&mut job, heard(" one ", 0.5, 2.0));
    assert!(is_transcribe(&step, 1));
    assert_eq!(told(&step), progress(33));
    let step = go_on(&mut job, heard("  ", 3.0, 4.0));
    assert!(is_transcribe(&step, 2));
    assert_eq!(told(&step), progress(66));
    let step = go_on(&mut job, heard("three", 65.0, 66.0));
    assert_eq!(told(&step), progress(100));
    match &step.action {
        Some(ImportAction::Save { id, title, segments }) => {
            assert_eq!((id.as_str(), title.as_str()), ("meeting-1", "Sync"));
            assert_eq!(
                shown(segments),
                shown(&Json::Array(vec![
                    segment("seg_0", "one", "00:00:00", 0.5, 2.0),
                    segment("seg_2", "three", "00:01:05", 65.0, 66.0),
                ]))
            );
        }
        _ => panic!("another action"),
    }
    let step = go_on(&mut job, ImportOutcome::Saved);
    let payload = Json::object()
        .with("meeting_id", Json::text("meeting-1"))
        .with("meeting_name", Json::text("Sync"))
        .with("segments", Json::integer(2));
    assert_eq!(told(&step), vec![(text("upload-complete"), shown(&payload))]);
    assert!(removes(&step));
    let step = go_on(&mut job, ImportOutcome::Done);
    assert!(step.events.is_empty() && step.action.is_none());
    assert!(!job.accepts(&ImportOutcome::Done));
}

#[test]
fn a_file_without_speech_is_an_error() {
    let (mut job, _) = job();
    let step = go_on(&mut job, ImportOutcome::Decoded { total: 0 });
    assert_eq!(told(&step), broken("No speech found in the uploaded audio"));
    assert!(removes(&step));
}

#[test]
fn a_file_that_cannot_be_decoded_is_an_error() {
    let (mut job, _) = job();
    let step = go_on(&mut job, failed("no codec"));
    assert_eq!(told(&step), broken("no codec"));
    assert!(removes(&step));
    assert!(go_on(&mut job, ImportOutcome::Done).action.is_none());
}

#[test]
fn partial_transcripts_are_kept() {
    for saved in [ImportOutcome::Saved, failed("full")] {
        let (mut job, _) = job();
        go_on(&mut job, ImportOutcome::Decoded { total: 3 });
        go_on(&mut job, heard("one", 0.0, 1.0));
        let step = go_on(&mut job, failed("crash"));
        assert!(step.events.is_empty());
        match &step.action {
            Some(ImportAction::Save { id, segments, .. }) => {
                assert_eq!(id, "meeting-1");
                assert_eq!(
                    shown(segments),
                    shown(&Json::Array(vec![segment("seg_0", "one", "00:00:00", 0.0, 1.0)]))
                );
            }
            _ => panic!("another action"),
        }
        let step = go_on(&mut job, saved);
        assert_eq!(told(&step), broken("crash"));
        assert!(removes(&step));
    }
}

#[test]
fn a_transcription_that_fails_at_once_saves_nothing() {
    let (mut job, _) = job();
    go_on(&mut job, ImportOutcome::Decoded { total: 2 });
    go_on(&mut job, heard(" ", 0.0, 1.0));
    let step = go_on(&mut job, failed("crash"));
    assert_eq!(told(&step), broken("crash"));
    assert!(removes(&step));
}

#[test]
fn a_meeting_that_cannot_be_saved_is_an_error() {
    let (mut job, _) = job();
    go_on(&mut job, ImportOutcome::Decoded { total: 1 });
    go_on(&mut job, heard("one", 0.0, 1.0));
    let step = go_on(&mut job, failed("full"));
    assert_eq!(told(&step), broken("full"));
    assert!(removes(&step));
}
