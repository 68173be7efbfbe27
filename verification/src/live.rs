//! A live recording: the browser streams PCM over a WebSocket, and every utterance
//! that is heard in it is told to all browsers.
//!
//! Like a command, a recording is a conversation: [`LiveRun::begin`] begins it, and
//! [`LiveRun::step`] says each time what is to be told and what comes next: a frame, a
//! transcription, or nothing any more.

use vstd::prelude::*;

use crate::events::{event, events_view, no_events, one_event, two_events, EventEnvelope, EventView};
use crate::json::{fields_are_found_again, whole, Json, JsonView, Number};
use crate::outside::{digit_pairs, local_time, CLOCK_FORMAT, STAMP_FORMAT};
use crate::pcm::{pcm16_to_f32, samples_of};
use crate::segmenter::{
    flushed, fresh_segmenter, heard, judges, listed, pushed, total_judge, utterances_view,
    Segmenter, SegmenterView, Utterance, UtteranceView,
};
use crate::state::{ServerState, ServerView};
use crate::text::{
    blank, blank_means_all_white_space, is_blank, join2, same_text, trim, trimmed, white_space,
};

verus! {

/// What is told of a recording while it runs.
pub struct LiveSession {
    pub meeting_name: String,
    /// The number of the next transcript.
    pub sequence: u64,
    /// Whether it has been told that there is speech at all.
    pub speech_announced: bool,
}

/// What a [`LiveSession`] holds.
pub struct LiveView {
    pub meeting_name: Seq<char>,
    pub sequence: u64,
    pub speech_announced: bool,
}

impl View for LiveSession {
    type V = LiveView;

    open spec fn view(&self) -> LiveView {
        LiveView {
            meeting_name: self.meeting_name@,
            sequence: self.sequence,
            speech_announced: self.speech_announced,
        }
    }
}

/// A control frame that could be read. It may lack a type, which is then empty.
pub struct Control {
    pub kind: String,
    pub meeting_name: Option<String>,
    pub language: Option<String>,
}

/// What a [`Control`] holds.
pub struct ControlView {
    pub kind: Seq<char>,
    pub meeting_name: Option<Seq<char>>,
    pub language: Option<Seq<char>>,
}

impl View for Control {
    type V = ControlView;

    open spec fn view(&self) -> ControlView {
        ControlView {
            kind: self.kind@,
            meeting_name: self.meeting_name.deep_view(),
            language: self.language.deep_view(),
        }
    }
}

/// When an utterance was spoken, in seconds from the start of the stream.
#[derive(Debug, Clone, Copy, PartialEq, Eq, Structural)]
pub struct Timing {
    pub start: Number,
    pub end: Number,
    pub duration: Number,
}

/// How sure the engines are, which they do not say: the bits of the double 0.85.
pub const CONFIDENCE: u64 = 0x3feb_3333_3333_3333;

// ---------------------------------------------------------------------------
// What is told of an utterance
// ---------------------------------------------------------------------------

/// It is told once that there is speech.
pub open spec fn speech_detected() -> EventView {
    EventView {
        event: "speech-detected"@,
        payload: JsonView::object().with("message"@, JsonView::Text("Speech activity detected"@)),
    }
}

/// An utterance with its text.
pub open spec fn transcript_update(
    text: Seq<char>,
    clock: Seq<char>,
    sequence: u64,
    timing: Timing,
) -> EventView {
    EventView {
        event: "transcript-update"@,
        payload: JsonView::object().with("text"@, JsonView::Text(trimmed(text))).with(
            "timestamp"@,
            JsonView::Text(clock),
        ).with("source"@, JsonView::Text("Audio"@)).with(
            "sequence_id"@,
            whole(sequence as int),
        ).with(
            "chunk_start_time"@,
            JsonView::Number(timing.start),
        ).with("is_partial"@, JsonView::Bool(false)).with(
            "confidence"@,
            JsonView::Number(Number::Float(CONFIDENCE)),
        ).with("audio_start_time"@, JsonView::Number(timing.start)).with(
            "audio_end_time"@,
            JsonView::Number(timing.end),
        ).with("duration"@, JsonView::Number(timing.duration)),
    }
}

/// A transcription that failed, with what the user is told.
pub open spec fn transcription_error(error: Seq<char>, message: Seq<char>) -> EventView {
    EventView {
        event: "transcription-error"@,
        payload: JsonView::object().with("error"@, JsonView::Text(error)).with(
            "userMessage"@,
            JsonView::Text(message),
        ).with("actionable"@, JsonView::Bool(false)),
    }
}

pub(crate) fn transcription_error_event(error: &str, message: &str) -> (e: EventEnvelope)
    ensures
        e@ == transcription_error(error@, message@),
{
    event(
        "transcription-error",
        Json::object().with("error", Json::text(error)).with(
            "userMessage",
            Json::text(message),
        ).with(
            "actionable",
            Json::Bool(false),
        ),
    )
}

/// What a transcription brought: a text, or the reason why there is none.
pub open spec fn heard_view(result: Result<String, String>) -> Result<Seq<char>, Seq<char>> {
    match result {
        Ok(text) => Ok(text@),
        Err(error) => Err(error@),
    }
}

/// The session once an utterance has been told: a text that is not blank takes the
/// next number.
pub open spec fn session_after(s: LiveView, result: Result<Seq<char>, Seq<char>>) -> LiveView {
    match result {
        Ok(text) if !blank(text) => LiveView {
            meeting_name: s.meeting_name,
            sequence: if s.sequence == u64::MAX {
                0
            } else {
                (s.sequence + 1) as u64
            },
            speech_announced: true,
        },
        _ => s,
    }
}

/// What is told of an utterance: its text, unless that is blank, and before the first
/// text that there is speech; or why it could not be transcribed.
pub open spec fn told(
    s: LiveView,
    result: Result<Seq<char>, Seq<char>>,
    clock: Seq<char>,
    timing: Timing,
) -> Seq<EventView> {
    match result {
        Ok(text) => if blank(text) {
            Seq::empty()
        } else if s.speech_announced {
            seq![transcript_update(text, clock, s.sequence, timing)]
        } else {
            seq![speech_detected(), transcript_update(text, clock, s.sequence, timing)]
        },
        Err(error) => seq![transcription_error(error, error)],
    }
}

impl LiveSession {
    /// Tells of an utterance, at this time of day.
    pub fn tell_at(
        &mut self,
        result: &Result<String, String>,
        clock: &str,
        timing: Timing,
    ) -> (events: Vec<EventEnvelope>)
        ensures
            final(self)@ == session_after(old(self)@, heard_view(*result)),
            events_view(events@) == told(old(self)@, heard_view(*result), clock@, timing),
    {
        match result {
            Ok(text) => {
                if is_blank(text.as_str()) {
                    return no_events();
                }
                let sequence: u64 = self.sequence;
                let announced: bool = self.speech_announced;
                self.sequence = if sequence == u64::MAX {
                    0
                } else {
                    sequence + 1
                };
                self.speech_announced = true;
                let update = event(
                    "transcript-update",
                    Json::object().with("text", Json::Text(trim(text.as_str()))).with(
                        "timestamp",
                        Json::text(clock),
                    ).with("source", Json::text("Audio")).with(
                        "sequence_id",
                        Json::count(sequence),
                    ).with(
                        "chunk_start_time",
                        Json::Number(timing.start),
                    ).with("is_partial", Json::Bool(false)).with(
                        "confidence",
                        Json::Number(Number::Float(CONFIDENCE)),
                    ).with("audio_start_time", Json::Number(timing.start)).with(
                        "audio_end_time",
                        Json::Number(timing.end),
                    ).with("duration", Json::Number(timing.duration)),
                );
                if announced {
                    one_event(update)
                } else {
                    let detected = event(
                        "speech-detected",
                        Json::object().with("message", Json::text("Speech activity detected")),
                    );
                    two_events(detected, update)
                }
            },
            Err(error) => one_event(transcription_error_event(error.as_str(), error.as_str())),
        }
    }

    /// Tells of an utterance.
    pub fn emit_utterance(
        &mut self,
        result: &Result<String, String>,
        timing: Timing,
    ) -> (events: Vec<EventEnvelope>)
        ensures
            final(self)@ == session_after(old(self)@, heard_view(*result)),
            exists|clock: Seq<char>| #[trigger]
                digit_pairs(clock, 3, ':') && events_view(events@) == told(
                    old(self)@,
                    heard_view(*result),
                    clock,
                    timing,
                ),
    {
        let clock = local_time(CLOCK_FORMAT);
        assert(digit_pairs(clock@, 3, ':'));
        self.tell_at(result, clock.as_str(), timing)
    }
}

// ---------------------------------------------------------------------------
// The run
// ---------------------------------------------------------------------------

/// What a recording waits for.
#[derive(Debug, Clone, Copy, PartialEq, Eq, Structural)]
pub enum LivePhase {
    /// The next frame.
    Receiving,
    /// What the transcription of an utterance brings.
    Transcribing,
    /// Nothing any more.
    Over,
}

/// A recording that is running.
pub struct LiveRun {
    id: String,
    session: LiveSession,
    segmenter: Segmenter<u32>,
    language: Option<String>,
    waiting: Vec<Utterance<u32>>,
    ending: bool,
    phase: LivePhase,
}

/// What a [`LiveRun`] holds. Samples are the bits of singles.
#[verifier::ext_equal]
pub struct LiveRunView {
    pub id: Seq<char>,
    pub session: LiveView,
    pub segmenter: SegmenterView<u32>,
    pub language: Option<Seq<char>>,
    /// The utterances that are to be transcribed before anything else happens.
    pub waiting: Seq<UtteranceView<u32>>,
    /// Whether no more frames are taken.
    pub ending: bool,
    pub phase: LivePhase,
}

impl View for LiveRun {
    type V = LiveRunView;

    closed spec fn view(&self) -> LiveRunView {
        LiveRunView {
            id: self.id@,
            session: self.session@,
            segmenter: self.segmenter@,
            language: self.language.deep_view(),
            waiting: utterances_view(self.waiting@),
            ending: self.ending,
            phase: self.phase,
        }
    }
}

/// What happens to a recording.
pub enum LiveEvent {
    /// A binary frame: PCM.
    Audio { bytes: Vec<u8> },
    /// A text frame that could be read.
    Control { control: Control },
    /// A text frame that could not be read.
    Unreadable,
    /// A frame that means nothing here.
    Other,
    /// A close frame, or the end of the stream.
    Closed,
    /// The connection broke off, for a reason.
    Broken { error: String },
    /// What the transcription of an utterance brought, and when it was spoken.
    Told { result: Result<String, String>, timing: Timing },
}

/// What a [`LiveEvent`] holds.
pub enum LiveEventView {
    Audio { bytes: Seq<u8> },
    Control { control: ControlView },
    Unreadable,
    Other,
    Closed,
    Broken { error: Seq<char> },
    Told { result: Result<Seq<char>, Seq<char>>, timing: Timing },
}

impl View for LiveEvent {
    type V = LiveEventView;

    open spec fn view(&self) -> LiveEventView {
        match *self {
            LiveEvent::Audio { bytes } => LiveEventView::Audio { bytes: bytes@ },
            LiveEvent::Control { control } => LiveEventView::Control { control: control@ },
            LiveEvent::Unreadable => LiveEventView::Unreadable,
            LiveEvent::Other => LiveEventView::Other,
            LiveEvent::Closed => LiveEventView::Closed,
            LiveEvent::Broken { error } => LiveEventView::Broken { error: error@ },
            LiveEvent::Told { result, timing } => LiveEventView::Told {
                result: heard_view(result),
                timing,
            },
        }
    }
}

/// What a recording asks for.
pub enum LiveAction {
    /// The next frame.
    Receive,
    /// The transcription of an utterance.
    Transcribe { utterance: Utterance<u32>, language: Option<String> },
    /// Nothing any more: the connection is closed.
    Over,
}

/// What a [`LiveAction`] holds.
pub enum LiveActionView {
    Receive,
    Transcribe { utterance: UtteranceView<u32>, language: Option<Seq<char>> },
    Over,
}

impl View for LiveAction {
    type V = LiveActionView;

    open spec fn view(&self) -> LiveActionView {
        match *self {
            LiveAction::Receive => LiveActionView::Receive,
            LiveAction::Transcribe { utterance, language } => LiveActionView::Transcribe {
                utterance: utterance@,
                language: language.deep_view(),
            },
            LiveAction::Over => LiveActionView::Over,
        }
    }
}

/// What the browsers are told, and what comes next.
pub struct LiveStep {
    pub events: Vec<EventEnvelope>,
    pub action: LiveAction,
}

/// What a [`LiveStep`] holds.
pub struct LiveStepView {
    pub events: Seq<EventView>,
    pub action: LiveActionView,
}

impl View for LiveStep {
    type V = LiveStepView;

    open spec fn view(&self) -> LiveStepView {
        LiveStepView { events: events_view(self.events@), action: self.action@ }
    }
}

/// The name of the meeting that a recording makes.
pub open spec fn live_name(stamp: Seq<char>) -> Seq<char> {
    "Meeting "@ + stamp
}

/// A recording that has just begun.
pub open spec fn run_begun(id: Seq<char>, stamp: Seq<char>) -> LiveRunView {
    LiveRunView {
        id,
        session: LiveView { meeting_name: live_name(stamp), sequence: 0, speech_announced: false },
        segmenter: fresh_segmenter(),
        language: None,
        waiting: Seq::empty(),
        ending: false,
        phase: LivePhase::Receiving,
    }
}

/// The server once a recording has been entered.
pub open spec fn entered(server: ServerView, id: Seq<char>, stamp: Seq<char>) -> ServerView {
    ServerView { live: server.live.insert(id, live_name(stamp)), ..server }
}

/// The server after a step of a recording: one that is over is not entered any more.
pub open spec fn left(server: ServerView, id: Seq<char>, action: LiveActionView) -> ServerView {
    if action is Over {
        ServerView { live: server.live.remove(id), ..server }
    } else {
        server
    }
}

/// It is told that a recording has begun.
pub open spec fn recording_started() -> EventView {
    EventView {
        event: "recording-started"@,
        payload: JsonView::object().with("message"@, JsonView::Text("Recording started"@)).with(
            "devices"@,
            JsonView::Array(
                Seq::<JsonView>::empty().push(JsonView::Text("Browser Microphone"@)).push(
                    JsonView::Text("Browser System Audio"@),
                ),
            ),
        ).with("workers"@, whole(1)),
    }
}

/// It is told that all of a recording has been transcribed.
pub open spec fn transcription_complete() -> EventView {
    EventView { event: "transcription-complete"@, payload: JsonView::Null }
}

/// It is told that a recording has stopped.
pub open spec fn recording_stopped(meeting_name: Seq<char>) -> EventView {
    EventView {
        event: "recording-stopped"@,
        payload: JsonView::object().with("message"@, JsonView::Text("Recording stopped"@)).with(
            "meeting_name"@,
            JsonView::Text(meeting_name),
        ),
    }
}

/// It is told that a recording broke off.
pub open spec fn recording_failed(error: Seq<char>) -> EventView {
    transcription_error(
        error,
        "Live transcription stopped unexpectedly. Check the server logs."@,
    )
}

fn browser_devices() -> (out: Json)
    ensures
        out@ == JsonView::Array(
            Seq::<JsonView>::empty().push(JsonView::Text("Browser Microphone"@)).push(
                JsonView::Text("Browser System Audio"@),
            ),
        ),
{
    let mut list: Vec<Json> = Vec::new();
    list.push(Json::text("Browser Microphone"));
    list.push(Json::text("Browser System Audio"));
    let out = Json::array(list);
    assert(out@->Array_0 =~= Seq::<JsonView>::empty().push(
        JsonView::Text("Browser Microphone"@),
    ).push(JsonView::Text("Browser System Audio"@)));
    out
}

/// A language to go by from now on, where a control frame names one.
pub open spec fn language_after(
    language: Option<Seq<char>>,
    control: Option<Seq<char>>,
) -> Option<Seq<char>> {
    match control {
        Some(l) if !blank(l) => Some(l),
        _ => language,
    }
}

/// Whether an event ends a recording: a stop, a close, the end of the stream, or a text
/// frame that cannot be read.
pub open spec fn ends_recording(event: LiveEventView) -> bool {
    match event {
        LiveEventView::Control { control } => control.kind == "stop"@,
        LiveEventView::Unreadable => true,
        LiveEventView::Closed => true,
        _ => false,
    }
}

/// Whether an event makes it matter what is quiet: there is audio to be split, or what is
/// left of it to be closed out.
pub open spec fn needs_judge(event: LiveEventView) -> bool {
    event is Audio || ends_recording(event)
}

impl LiveRunView {
    /// What holds of every recording: its segmenter is sound, and while it receives
    /// frames there is nothing left to be transcribed.
    pub open spec fn well_formed(self) -> bool {
        &&& self.segmenter.well_formed()
        &&& self.phase == LivePhase::Receiving ==> !self.ending && self.waiting.len() == 0
    }

    /// Whether an event can happen now: frames come while they are waited for, and so do
    /// transcriptions. All the samples together can be counted.
    pub open spec fn fits(self, event: LiveEventView) -> bool {
        match self.phase {
            LivePhase::Receiving => match event {
                LiveEventView::Told { .. } => false,
                LiveEventView::Audio { bytes } => self.segmenter.fed() + bytes.len() / 2
                    <= usize::MAX,
                _ => true,
            },
            LivePhase::Transcribing => event is Told,
            LivePhase::Over => false,
        }
    }

    /// What comes next: an utterance that waits is transcribed; otherwise a recording
    /// that is ending is over, and another one receives.
    pub open spec fn onward(self, events: Seq<EventView>) -> (LiveRunView, LiveStepView) {
        if self.waiting.len() > 0 {
            (
                LiveRunView {
                    waiting: self.waiting.drop_first(),
                    phase: LivePhase::Transcribing,
                    ..self
                },
                LiveStepView {
                    events,
                    action: LiveActionView::Transcribe {
                        utterance: self.waiting[0],
                        language: self.language,
                    },
                },
            )
        } else if self.ending {
            (
                LiveRunView { phase: LivePhase::Over, ..self },
                LiveStepView {
                    events: events.push(transcription_complete()).push(
                        recording_stopped(self.session.meeting_name),
                    ),
                    action: LiveActionView::Over,
                },
            )
        } else {
            (
                LiveRunView { phase: LivePhase::Receiving, ..self },
                LiveStepView { events, action: LiveActionView::Receive },
            )
        }
    }

    /// The recording with what is left of the stream closed out, and no more frames
    /// taken.
    pub open spec fn closed_out(self, quiet: spec_fn(Seq<u32>) -> bool) -> LiveRunView {
        LiveRunView {
            segmenter: flushed(quiet, self.segmenter).0,
            waiting: flushed(quiet, self.segmenter).1,
            ending: true,
            ..self
        }
    }

    /// What a recording does with an event, at this time of day. The utterances that
    /// audio ends are transcribed and told one after the other, and so is what is left
    /// when the recording ends.
    pub open spec fn stepped(
        self,
        quiet: spec_fn(Seq<u32>) -> bool,
        event: LiveEventView,
        clock: Seq<char>,
    ) -> (LiveRunView, LiveStepView) {
        match event {
            LiveEventView::Audio { bytes } => {
                let (segmenter, utterances) = pushed(quiet, self.segmenter, samples_of(bytes));
                LiveRunView { segmenter, waiting: utterances, ..self }.onward(Seq::empty())
            },
            LiveEventView::Control { control } => if control.kind == "stop"@ {
                self.closed_out(quiet).onward(Seq::empty())
            } else if control.kind == "start"@ {
                LiveRunView {
                    language: language_after(self.language, control.language),
                    ..self
                }.onward(Seq::empty())
            } else {
                self.onward(Seq::empty())
            },
            LiveEventView::Unreadable => self.closed_out(quiet).onward(Seq::empty()),
            LiveEventView::Closed => self.closed_out(quiet).onward(Seq::empty()),
            LiveEventView::Other => self.onward(Seq::empty()),
            LiveEventView::Broken { error } => (
                LiveRunView { ending: true, phase: LivePhase::Over, ..self },
                LiveStepView {
                    events: seq![recording_failed(error)],
                    action: LiveActionView::Over,
                },
            ),
            LiveEventView::Told { result, timing } => LiveRunView {
                session: session_after(self.session, result),
                ..self
            }.onward(told(self.session, result, clock, timing)),
        }
    }
}

impl LiveRun {
    /// Begins a recording under an id, at this time, and enters it.
    pub fn begin_at(state: &mut ServerState, id: String, stamp: &str) -> (begun: (
        LiveRun,
        Vec<EventEnvelope>,
    ))
        ensures
            begun.0@ == run_begun(id@, stamp@),
            begun.0@.well_formed(),
            events_view(begun.1@) == seq![recording_started()],
            final(state)@ == entered(old(state)@, id@, stamp@),
    {
        let name = join2("Meeting ", stamp);
        state.register_live(id.clone(), name.clone());
        let started = event(
            "recording-started",
            Json::object().with("message", Json::text("Recording started")).with(
                "devices",
                browser_devices(),
            ).with("workers", Json::count(1)),
        );
        let run = LiveRun {
            id,
            session: LiveSession { meeting_name: name, sequence: 0, speech_announced: false },
            segmenter: Segmenter::new(),
            language: None,
            waiting: Vec::new(),
            ending: false,
            phase: LivePhase::Receiving,
        };
        assert(run@ =~= run_begun(id@, stamp@));
        (run, one_event(started))
    }

    /// Begins a recording under an id and enters it. The next frame comes first.
    pub fn begin(state: &mut ServerState, id: String) -> (begun: (LiveRun, Vec<EventEnvelope>))
        ensures
            begun.0@.well_formed(),
            events_view(begun.1@) == seq![recording_started()],
            exists|stamp: Seq<char>| #[trigger]
                digit_pairs(stamp, 6, '_') && begun.0@ == run_begun(id@, stamp) && final(state)@
                    == entered(old(state)@, id@, stamp),
    {
        let stamp = local_time(STAMP_FORMAT);
        assert(digit_pairs(stamp@, 6, '_'));
        LiveRun::begin_at(state, id, stamp.as_str())
    }

    /// Whether an event can happen now.
    pub fn accepts(&self, event: &LiveEvent) -> (r: bool)
        requires
            self@.well_formed(),
        ensures
            r == self@.fits(event@),
    {
        match (self.phase, event) {
            (LivePhase::Receiving, LiveEvent::Told { .. }) => false,
            (LivePhase::Receiving, LiveEvent::Audio { bytes }) => bytes.len() / 2 <= usize::MAX
                - self.segmenter.fed(),
            (LivePhase::Receiving, _) => true,
            (LivePhase::Transcribing, LiveEvent::Told { .. }) => true,
            _ => false,
        }
    }

    fn on_audio<Q: Fn(&[u32]) -> bool>(&mut self, bytes: &[u8], quiet: Q)
        requires
            total_judge(quiet),
            old(self)@.segmenter.well_formed(),
            old(self)@.segmenter.fed() + bytes@.len() / 2 <= usize::MAX,
        ensures
            final(self)@.segmenter.well_formed(),
            final(self)@ == (LiveRunView {
                segmenter: final(self)@.segmenter,
                waiting: final(self)@.waiting,
                ..old(self)@
            }),
            forall|q: spec_fn(Seq<u32>) -> bool| #[trigger]
                judges(quiet, q) ==> (final(self)@.segmenter, final(self)@.waiting) == pushed(
                    q,
                    old(self)@.segmenter,
                    samples_of(bytes@),
                ),
    {
        let samples = pcm16_to_f32(bytes);
        self.waiting = self.segmenter.push(samples.as_slice(), quiet);
    }

    fn on_language(&mut self, language: &Option<String>)
        ensures
            final(self)@ == (LiveRunView {
                language: language_after(old(self)@.language, language.deep_view()),
                ..old(self)@
            }),
    {
        if let Some(language) = language {
            if !is_blank(language.as_str()) {
                self.language = Some(language.clone());
            }
        }
    }

    fn close_out<Q: Fn(&[u32]) -> bool>(&mut self, quiet: Q)
        requires
            total_judge(quiet),
            old(self)@.segmenter.well_formed(),
        ensures
            final(self)@.segmenter.well_formed(),
            final(self)@ == (LiveRunView {
                segmenter: old(self)@.segmenter.drained(),
                waiting: final(self)@.waiting,
                ending: true,
                ..old(self)@
            }),
            forall|q: spec_fn(Seq<u32>) -> bool| #[trigger]
                judges(quiet, q) ==> final(self)@ == old(self)@.closed_out(q),
    {
        let ghost before = self@;
        let mut waiting: Vec<Utterance<u32>> = Vec::new();
        let left = self.segmenter.flush(quiet);
        let ghost found = listed(left);
        if let Some(utterance) = left {
            waiting.push(utterance);
        }
        assert(utterances_view(waiting@) =~= found);
        self.waiting = waiting;
        self.ending = true;
        assert forall|q: spec_fn(Seq<u32>) -> bool| #[trigger] judges(quiet, q) implies self@
            == before.closed_out(q) by {
            assert(self@ =~= before.closed_out(q));
        }
    }

    fn go_on(&mut self, state: &mut ServerState, events: Vec<EventEnvelope>) -> (step: LiveStep)
        requires
            old(self)@.segmenter.well_formed(),
        ensures
            final(self)@.well_formed(),
            (final(self)@, step@) == old(self)@.onward(events_view(events@)),
            final(state)@ == left(old(state)@, old(self)@.id, step@.action),
    {
        let ghost before = self@;
        let ghost waiting = self.waiting@;
        if self.waiting.len() > 0 {
            let utterance = self.waiting.remove(0);
            self.phase = LivePhase::Transcribing;
            assert(utterances_view(self.waiting@) =~= utterances_view(waiting).drop_first());
            LiveStep {
                events,
                action: LiveAction::Transcribe { utterance, language: self.language.clone() },
            }
        } else if self.ending {
            self.phase = LivePhase::Over;
            state.unregister_live(self.id.as_str());
            let mut all = events;
            all.push(event("transcription-complete", Json::Null));
            all.push(
                event(
                    "recording-stopped",
                    Json::object().with("message", Json::text("Recording stopped")).with(
                        "meeting_name",
                        Json::text(self.session.meeting_name.as_str()),
                    ),
                ),
            );
            assert(events_view(all@) =~= events_view(events@).push(transcription_complete()).push(
                recording_stopped(before.session.meeting_name),
            ));
            LiveStep { events: all, action: LiveAction::Over }
        } else {
            self.phase = LivePhase::Receiving;
            LiveStep { events, action: LiveAction::Receive }
        }
    }

    fn break_off(&mut self, state: &mut ServerState, error: &str) -> (step: LiveStep)
        requires
            old(self)@.segmenter.well_formed(),
        ensures
            final(self)@.well_formed(),
            final(self)@ == (LiveRunView {
                ending: true,
                phase: LivePhase::Over,
                ..old(self)@
            }),
            step@ == (LiveStepView {
                events: seq![recording_failed(error@)],
                action: LiveActionView::Over,
            }),
            final(state)@ == left(old(state)@, old(self)@.id, LiveActionView::Over),
    {
        self.ending = true;
        self.phase = LivePhase::Over;
        state.unregister_live(self.id.as_str());
        let failed = transcription_error_event(
            error,
            "Live transcription stopped unexpectedly. Check the server logs.",
        );
        LiveStep { events: one_event(failed), action: LiveAction::Over }
    }

    /// Hands a recording an event, at this time of day. `quiet` says whether a stretch of
    /// samples is quiet.
    pub fn step_at<Q: Fn(&[u32]) -> bool>(
        &mut self,
        state: &mut ServerState,
        event: LiveEvent,
        clock: &str,
        quiet: Q,
    ) -> (step: LiveStep)
        requires
            total_judge(quiet),
            old(self)@.well_formed(),
            old(self)@.fits(event@),
        ensures
            final(self)@.well_formed(),
            final(state)@ == left(old(state)@, old(self)@.id, step@.action),
            ends_recording(event@) ==> final(self)@.ending && !(step@.action is Receive),
            forall|q: spec_fn(Seq<u32>) -> bool| #[trigger]
                judges(quiet, q) ==> (final(self)@, step@) == old(self)@.stepped(
                    q,
                    event@,
                    clock@,
                ),
            !needs_judge(event@) ==> forall|q: spec_fn(Seq<u32>) -> bool|
                (final(self)@, step@) == #[trigger] old(self)@.stepped(q, event@, clock@),
    {
        match event {
            LiveEvent::Audio { bytes } => {
                self.on_audio(bytes.as_slice(), quiet);
                self.go_on(state, no_events())
            },
            LiveEvent::Control { control } => {
                if same_text(control.kind.as_str(), "stop") {
                    self.close_out(quiet);
                } else if same_text(control.kind.as_str(), "start") {
                    self.on_language(&control.language);
                }
                self.go_on(state, no_events())
            },
            LiveEvent::Unreadable => {
                self.close_out(quiet);
                self.go_on(state, no_events())
            },
            LiveEvent::Closed => {
                self.close_out(quiet);
                self.go_on(state, no_events())
            },
            LiveEvent::Other => self.go_on(state, no_events()),
            LiveEvent::Broken { error } => self.break_off(state, error.as_str()),
            LiveEvent::Told { result, timing } => {
                let events = self.session.tell_at(&result, clock, timing);
                self.go_on(state, events)
            },
        }
    }

    /// Hands a recording an event. `quiet` says whether a stretch of samples is quiet.
    pub fn step<Q: Fn(&[u32]) -> bool>(
        &mut self,
        state: &mut ServerState,
        event: LiveEvent,
        quiet: Q,
    ) -> (step: LiveStep)
        requires
            total_judge(quiet),
            old(self)@.well_formed(),
            old(self)@.fits(event@),
        ensures
            final(self)@.well_formed(),
            final(state)@ == left(old(state)@, old(self)@.id, step@.action),
            ends_recording(event@) ==> final(self)@.ending && !(step@.action is Receive),
            exists|clock: Seq<char>| #[trigger]
                digit_pairs(clock, 3, ':') && (forall|q: spec_fn(Seq<u32>) -> bool| #[trigger]
                    judges(quiet, q) ==> (final(self)@, step@) == old(self)@.stepped(
                        q,
                        event@,
                        clock,
                    )) && (!needs_judge(event@) ==> forall|q: spec_fn(Seq<u32>) -> bool|
                    (final(self)@, step@) == #[trigger] old(self)@.stepped(q, event@, clock)),
    {
        let clock = local_time(CLOCK_FORMAT);
        assert(digit_pairs(clock@, 3, ':'));
        self.step_at(state, event, clock.as_str(), quiet)
    }
}

// ---------------------------------------------------------------------------
// What holds of every recording
// ---------------------------------------------------------------------------

/// One utterance: what its transcription brought, and when.
pub struct Spoken {
    pub result: Result<Seq<char>, Seq<char>>,
    pub clock: Seq<char>,
    pub timing: Timing,
}

/// Whether an utterance has a text.
pub open spec fn has_text(u: Spoken) -> bool {
    match u.result {
        Ok(text) => !blank(text),
        Err(_) => false,
    }
}

/// What is told of utterances, one after the other, and the session after them.
pub open spec fn all_told(s: LiveView, spoken: Seq<Spoken>) -> (LiveView, Seq<EventView>)
    decreases spoken.len(),
{
    if spoken.len() == 0 {
        (s, Seq::empty())
    } else {
        let (t, events) = all_told(s, spoken.drop_last());
        let u = spoken.last();
        (session_after(t, u.result), events + told(t, u.result, u.clock, u.timing))
    }
}

/// The events of one name.
pub open spec fn named_events(events: Seq<EventView>, name: Seq<char>) -> Seq<EventView> {
    events.filter(|e: EventView| e.event == name)
}

proof fn lemma_named_pushed(events: Seq<EventView>, name: Seq<char>, e: EventView)
    ensures
        named_events(events.push(e), name) == if e.event == name {
            named_events(events, name).push(e)
        } else {
            named_events(events, name)
        },
{
    reveal(Seq::filter);
    assert(events.push(e).drop_last() =~= events);
}

/// No utterance is lost or told twice: the texts are told in the order in which they
/// were spoken, numbered from zero without a gap, and that there is speech is told
/// exactly once, if there is any.
pub proof fn texts_are_told_in_order(s: LiveView, spoken: Seq<Spoken>)
    requires
        s.sequence == 0,
        !s.speech_announced,
        spoken.len() <= u64::MAX,
    ensures
        ({
            let (t, events) = all_told(s, spoken);
            let texts = spoken.filter(|u: Spoken| has_text(u));
            let updates = named_events(events, "transcript-update"@);
            &&& t.sequence == texts.len()
            &&& t.speech_announced == (texts.len() > 0)
            &&& named_events(events, "speech-detected"@).len() == if texts.len() > 0 {
                1nat
            } else {
                0
            }
            &&& updates.len() == texts.len()
            &&& texts.len() <= spoken.len()
            &&& forall|k: int|
                0 <= k < updates.len() ==> #[trigger] updates[k] == transcript_update(
                    texts[k].result->Ok_0,
                    texts[k].clock,
                    k as u64,
                    texts[k].timing,
                )
        }),
    decreases spoken.len(),
{
    reveal(Seq::filter);
    reveal_strlit("speech-detected");
    reveal_strlit("transcript-update");
    reveal_strlit("transcription-error");
    if spoken.len() > 0 {
        texts_are_told_in_order(s, spoken.drop_last());
        let (t, events) = all_told(s, spoken.drop_last());
        let u = spoken.last();
        let all = all_told(s, spoken).1;
        let update = transcript_update(u.result->Ok_0, u.clock, t.sequence, u.timing);
        let failed = transcription_error(u.result->Err_0, u.result->Err_0);
        assert("speech-detected"@.len() == 15 && "transcript-update"@.len() == 17
            && "transcription-error"@.len() == 19);
        if has_text(u) {
            if t.speech_announced {
                assert(all =~= events.push(update));
            } else {
                assert(all =~= events.push(speech_detected()).push(update));
                lemma_named_pushed(events, "transcript-update"@, speech_detected());
                lemma_named_pushed(events, "speech-detected"@, speech_detected());
            }
            let before = if t.speech_announced {
                events
            } else {
                events.push(speech_detected())
            };
            lemma_named_pushed(before, "transcript-update"@, update);
            lemma_named_pushed(before, "speech-detected"@, update);
        } else if u.result is Err {
            assert(all =~= events.push(failed));
            lemma_named_pushed(events, "transcript-update"@, failed);
            lemma_named_pushed(events, "speech-detected"@, failed);
        } else {
            assert(all =~= events);
        }
    } else {
        assert(named_events(Seq::empty(), "speech-detected"@).len() == 0);
    }
}

/// An event of a recording, and the time of day at which it happens.
pub struct LiveInput {
    pub event: LiveEventView,
    pub clock: Seq<char>,
}

/// A recording from its beginning up to now: where it stands, the server, everything that
/// was told, and the utterances whose transcription was asked for.
pub struct LiveTrace {
    pub run: LiveRunView,
    pub server: ServerView,
    pub told: Seq<EventView>,
    pub asked: Seq<UtteranceView<u32>>,
}

/// A recording that has just begun.
pub open spec fn trace_begun(server: ServerView, id: Seq<char>, stamp: Seq<char>) -> LiveTrace {
    LiveTrace {
        run: run_begun(id, stamp),
        server: entered(server, id, stamp),
        told: seq![recording_started()],
        asked: Seq::empty(),
    }
}

/// A recording after one more event.
pub open spec fn trace_stepped(
    quiet: spec_fn(Seq<u32>) -> bool,
    trace: LiveTrace,
    input: LiveInput,
) -> LiveTrace {
    let (run, step) = trace.run.stepped(quiet, input.event, input.clock);
    LiveTrace {
        run,
        server: left(trace.server, trace.run.id, step.action),
        told: trace.told + step.events,
        asked: match step.action {
            LiveActionView::Transcribe { utterance, .. } => trace.asked.push(utterance),
            _ => trace.asked,
        },
    }
}

/// A recording after these events.
pub open spec fn trace_after(
    quiet: spec_fn(Seq<u32>) -> bool,
    trace: LiveTrace,
    inputs: Seq<LiveInput>,
) -> LiveTrace
    decreases inputs.len(),
{
    if inputs.len() == 0 {
        trace
    } else {
        trace_stepped(quiet, trace_after(quiet, trace, inputs.drop_last()), inputs.last())
    }
}

/// Whether each of these events can happen when its turn comes.
pub open spec fn all_happen(
    quiet: spec_fn(Seq<u32>) -> bool,
    trace: LiveTrace,
    inputs: Seq<LiveInput>,
) -> bool
    decreases inputs.len(),
{
    inputs.len() > 0 ==> all_happen(quiet, trace, inputs.drop_last()) && trace_after(
        quiet,
        trace,
        inputs.drop_last(),
    ).run.fits(inputs.last().event)
}

/// What the transcriptions among these events brought, in order.
pub open spec fn spoken_in(inputs: Seq<LiveInput>) -> Seq<Spoken>
    decreases inputs.len(),
{
    if inputs.len() == 0 {
        Seq::empty()
    } else {
        match inputs.last().event {
            LiveEventView::Told { result, timing } => spoken_in(inputs.drop_last()).push(
                Spoken { result, clock: inputs.last().clock, timing },
            ),
            _ => spoken_in(inputs.drop_last()),
        }
    }
}

/// The samples in the audio among these events, piece by piece.
pub open spec fn audio_in(inputs: Seq<LiveInput>) -> Seq<Seq<u32>>
    decreases inputs.len(),
{
    if inputs.len() == 0 {
        Seq::empty()
    } else {
        match inputs.last().event {
            LiveEventView::Audio { bytes } => audio_in(inputs.drop_last()).push(samples_of(bytes)),
            _ => audio_in(inputs.drop_last()),
        }
    }
}

/// Whether the connection breaks off among these events.
pub open spec fn breaks_off(inputs: Seq<LiveInput>) -> bool {
    exists|i: int| 0 <= i < inputs.len() && (#[trigger] inputs[i]).event is Broken
}

/// The utterances in a recording, and the one that its end leads to, if any.
pub open spec fn utterances_in(
    quiet: spec_fn(Seq<u32>) -> bool,
    pieces: Seq<Seq<u32>>,
    ended: bool,
) -> Seq<UtteranceView<u32>> {
    let (segmenter, utterances) = heard(quiet, pieces);
    if ended {
        utterances + flushed(quiet, segmenter).1
    } else {
        utterances
    }
}

/// How a recording stands: the utterances in it that are not transcribed yet wait, and
/// what was told is that it began, then what each transcription brought, and in the end
/// that it stopped.
spec fn stands(
    quiet: spec_fn(Seq<u32>) -> bool,
    begun: LiveTrace,
    inputs: Seq<LiveInput>,
) -> bool {
    let now = trace_after(quiet, begun, inputs);
    let run = now.run;
    let (session, told) = all_told(begun.run.session, spoken_in(inputs));
    let segmenter = heard(quiet, audio_in(inputs)).0;
    let name = begun.run.session.meeting_name;
    &&& run.id == begun.run.id
    &&& run.session == session
    &&& run.session.meeting_name == name
    &&& run.segmenter == if run.ending {
        segmenter.drained()
    } else {
        segmenter
    }
    &&& now.asked + run.waiting == utterances_in(quiet, audio_in(inputs), run.ending)
    &&& now.asked.len() == spoken_in(inputs).len() + if run.phase == LivePhase::Transcribing {
        1nat
    } else {
        0
    }
    &&& run.phase == LivePhase::Receiving ==> !run.ending && run.waiting.len() == 0
    &&& run.phase == LivePhase::Over ==> run.ending && run.waiting.len() == 0
    &&& now.told == if run.phase == LivePhase::Over {
        (begun.told + told).push(transcription_complete()).push(recording_stopped(name))
    } else {
        begun.told + told
    }
    &&& now.server == if run.phase == LivePhase::Over {
        ServerView { live: begun.server.live.remove(run.id), ..begun.server }
    } else {
        begun.server
    }
}

proof fn lemma_stands(
    quiet: spec_fn(Seq<u32>) -> bool,
    server: ServerView,
    id: Seq<char>,
    stamp: Seq<char>,
    inputs: Seq<LiveInput>,
)
    requires
        all_happen(quiet, trace_begun(server, id, stamp), inputs),
        !breaks_off(inputs),
    ensures
        stands(quiet, trace_begun(server, id, stamp), inputs),
    decreases inputs.len(),
{
    let begun = trace_begun(server, id, stamp);
    if inputs.len() == 0 {
        assert(begun.told + Seq::<EventView>::empty() =~= begun.told);
        assert(begun.asked + begun.run.waiting =~= Seq::<UtteranceView<u32>>::empty());
    } else {
        let front = inputs.drop_last();
        let last = inputs.last();
        assert(!breaks_off(front)) by {
            if breaks_off(front) {
                let i = choose|i: int| 0 <= i < front.len() && (#[trigger] front[i]).event is Broken;
                assert(inputs[i].event is Broken);
            }
        }
        lemma_stands(quiet, server, id, stamp, front);
        let before = trace_after(quiet, begun, front);
        let now = trace_after(quiet, begun, inputs);
        assert(inputs[inputs.len() - 1] == last);
        lemma_step_stands(quiet, begun, inputs, before, now);
    }
}

proof fn lemma_step_stands(
    quiet: spec_fn(Seq<u32>) -> bool,
    begun: LiveTrace,
    inputs: Seq<LiveInput>,
    before: LiveTrace,
    now: LiveTrace,
)
    requires
        inputs.len() > 0,
        stands(quiet, begun, inputs.drop_last()),
        before == trace_after(quiet, begun, inputs.drop_last()),
        now == trace_after(quiet, begun, inputs),
        before.run.fits(inputs.last().event),
        !(inputs.last().event is Broken),
    ensures
        stands(quiet, begun, inputs),
{
    let front = inputs.drop_last();
    let last = inputs.last();
    let run = before.run;
    let (session, told_before) = all_told(begun.run.session, spoken_in(front));
    // What the event leaves to be transcribed, and what it makes told, before it is
    // settled what comes next.
    let (mid, fresh) = match last.event {
        LiveEventView::Told { result, timing } => (
            LiveRunView { session: session_after(run.session, result), ..run },
            told(run.session, result, last.clock, timing),
        ),
        LiveEventView::Audio { bytes } => {
            let (segmenter, utterances) = pushed(quiet, run.segmenter, samples_of(bytes));
            (LiveRunView { segmenter, waiting: utterances, ..run }, Seq::empty())
        },
        LiveEventView::Control { control } => (
            if control.kind == "stop"@ {
                run.closed_out(quiet)
            } else if control.kind == "start"@ {
                LiveRunView {
                    language: language_after(run.language, control.language),
                    ..run
                }
            } else {
                run
            },
            Seq::empty(),
        ),
        LiveEventView::Other => (run, Seq::empty()),
        _ => (run.closed_out(quiet), Seq::empty()),
    };
    assert(run.stepped(quiet, last.event, last.clock) == mid.onward(fresh));
    // The session and what it tells.
    let (session_now, told_now) = all_told(begun.run.session, spoken_in(inputs));
    assert(mid.session == session_now && told_now == told_before + fresh) by {
        if last.event is Told {
            assert(spoken_in(inputs).drop_last() =~= spoken_in(front));
        } else {
            assert(told_before + Seq::<EventView>::empty() =~= told_before);
        }
    }
    assert(begun.told + told_before + fresh =~= begun.told + (told_before + fresh));
    // The utterances.
    let pieces = audio_in(inputs);
    assert(before.asked + mid.waiting == utterances_in(quiet, pieces, mid.ending) && mid.segmenter
        == if mid.ending {
        heard(quiet, pieces).0.drained()
    } else {
        heard(quiet, pieces).0
    }) by {
        match last.event {
            LiveEventView::Audio { bytes } => {
                assert(pieces.drop_last() =~= audio_in(front));
                assert(before.asked + run.waiting =~= before.asked);
            },
            _ => {
                assert(before.asked + Seq::<UtteranceView<u32>>::empty() =~= before.asked);
                if ends_recording(last.event) {
                    assert(before.asked + run.waiting =~= before.asked);
                }
            },
        }
    }
    // What comes next.
    if mid.waiting.len() > 0 {
        assert(now.asked == before.asked.push(mid.waiting[0]));
        assert(before.asked.push(mid.waiting[0]) + mid.waiting.drop_first() =~= before.asked
            + mid.waiting);
        assert(before.told + fresh =~= begun.told + told_now);
    } else if mid.ending {
        assert(before.told + fresh.push(transcription_complete()).push(
            recording_stopped(mid.session.meeting_name),
        ) =~= (begun.told + told_now).push(transcription_complete()).push(
            recording_stopped(mid.session.meeting_name),
        ));
    } else {
        assert(before.told + fresh =~= begun.told + told_now);
    }
}

/// A recording that ends without breaking off tells first that it began, then what the
/// transcription of each utterance brought, and last that all is transcribed and that it
/// stopped. The utterances are those of its audio, in order, with the one that its end
/// leads to last; none of them is left out.
pub proof fn recordings_are_told_from_beginning_to_end(
    quiet: spec_fn(Seq<u32>) -> bool,
    server: ServerView,
    id: Seq<char>,
    stamp: Seq<char>,
    inputs: Seq<LiveInput>,
)
    requires
        all_happen(quiet, trace_begun(server, id, stamp), inputs),
        !breaks_off(inputs),
        trace_after(quiet, trace_begun(server, id, stamp), inputs).run.phase == LivePhase::Over,
    ensures
        ({
            let end = trace_after(quiet, trace_begun(server, id, stamp), inputs);
            let spoken = spoken_in(inputs);
            &&& end.told == (seq![recording_started()] + all_told(
                run_begun(id, stamp).session,
                spoken,
            ).1).push(transcription_complete()).push(recording_stopped(live_name(stamp)))
            &&& end.asked == utterances_in(quiet, audio_in(inputs), true)
            &&& spoken.len() == end.asked.len()
        }),
{
    lemma_stands(quiet, server, id, stamp, inputs);
    let end = trace_after(quiet, trace_begun(server, id, stamp), inputs);
    assert(end.asked + end.run.waiting =~= end.asked);
}

/// Nothing is processed once a recording has been ended, by a stop, a close, the end of
/// the stream or a text frame that cannot be read: what has been heard is transcribed and
/// told, and no other event can happen any more.
pub proof fn nothing_is_heard_after_the_end(
    quiet: spec_fn(Seq<u32>) -> bool,
    run: LiveRunView,
    event: LiveEventView,
    clock: Seq<char>,
    later: LiveEventView,
)
    requires
        run.well_formed(),
        run.fits(event),
        run.ending || ends_recording(event) || event is Broken,
    ensures
        ({
            let (next, step) = run.stepped(quiet, event, clock);
            &&& next.ending
            &&& next.phase != LivePhase::Receiving
            &&& !(step.action is Receive)
            &&& next.fits(later) ==> later is Told
            &&& event is Broken ==> next.phase == LivePhase::Over
        }),
{
}

/// Each transcription brings a recording that is ending closer to its end.
pub proof fn endings_come_to_an_end(
    quiet: spec_fn(Seq<u32>) -> bool,
    run: LiveRunView,
    event: LiveEventView,
    clock: Seq<char>,
)
    requires
        run.well_formed(),
        run.fits(event),
        run.ending,
    ensures
        ({
            let (next, step) = run.stepped(quiet, event, clock);
            &&& run.waiting.len() == 0 ==> step.action is Over
            &&& run.waiting.len() > 0 ==> next.waiting.len() == run.waiting.len() - 1
        }),
{
}

proof fn lemma_over_is_left(
    quiet: spec_fn(Seq<u32>) -> bool,
    server: ServerView,
    id: Seq<char>,
    stamp: Seq<char>,
    inputs: Seq<LiveInput>,
)
    requires
        all_happen(quiet, trace_begun(server, id, stamp), inputs),
    ensures
        ({
            let begun = trace_begun(server, id, stamp);
            let now = trace_after(quiet, begun, inputs);
            &&& now.run.id == id
            &&& now.server == left(
                begun.server,
                id,
                if now.run.phase == LivePhase::Over {
                    LiveActionView::Over
                } else {
                    LiveActionView::Receive
                },
            )
        }),
    decreases inputs.len(),
{
    if inputs.len() > 0 {
        lemma_over_is_left(quiet, server, id, stamp, inputs.drop_last());
    }
}

/// However a recording ends, also where it breaks off, it is cleaned up: its id is entered
/// while it runs and not any more once it is over, and the other recordings are as they
/// were before it began.
pub proof fn recordings_are_cleaned_up(
    quiet: spec_fn(Seq<u32>) -> bool,
    server: ServerView,
    id: Seq<char>,
    stamp: Seq<char>,
    inputs: Seq<LiveInput>,
    other: Seq<char>,
)
    requires
        all_happen(quiet, trace_begun(server, id, stamp), inputs),
        other != id,
    ensures
        ({
            let now = trace_after(quiet, trace_begun(server, id, stamp), inputs);
            &&& now.server.live.contains_key(id) <==> now.run.phase != LivePhase::Over
            &&& now.server.live.contains_key(other) == server.live.contains_key(other)
            &&& server.live.contains_key(other) ==> now.server.live[other] == server.live[other]
        }),
{
    lemma_over_is_left(quiet, server, id, stamp, inputs);
}

/// The language that an event names, where it is a frame that starts a recording and names
/// one.
pub open spec fn named_language(event: LiveEventView) -> Option<Seq<char>> {
    match event {
        LiveEventView::Control { control } => match control.language {
            Some(language) if control.kind == "start"@ && !blank(language) => Some(language),
            _ => None,
        },
        _ => None,
    }
}

/// The language that was named last among these events.
pub open spec fn language_in(inputs: Seq<LiveInput>) -> Option<Seq<char>>
    decreases inputs.len(),
{
    if inputs.len() == 0 {
        None
    } else {
        match named_language(inputs.last().event) {
            Some(language) => Some(language),
            None => language_in(inputs.drop_last()),
        }
    }
}

proof fn lemma_language_so_far(
    quiet: spec_fn(Seq<u32>) -> bool,
    server: ServerView,
    id: Seq<char>,
    stamp: Seq<char>,
    inputs: Seq<LiveInput>,
)
    requires
        all_happen(quiet, trace_begun(server, id, stamp), inputs),
    ensures
        trace_after(quiet, trace_begun(server, id, stamp), inputs).run.language == language_in(
            inputs,
        ),
    decreases inputs.len(),
{
    if inputs.len() > 0 {
        reveal_strlit("start");
        reveal_strlit("stop");
        assert("start"@.len() == 5 && "stop"@.len() == 4);
        lemma_language_so_far(quiet, server, id, stamp, inputs.drop_last());
    }
}

/// Every utterance of a recording is transcribed in the language that the browser named
/// last before it, or in none where it has named none: what was heard or told before does
/// not matter.
pub proof fn utterances_are_heard_in_the_language_named_last(
    quiet: spec_fn(Seq<u32>) -> bool,
    server: ServerView,
    id: Seq<char>,
    stamp: Seq<char>,
    inputs: Seq<LiveInput>,
)
    requires
        inputs.len() > 0,
        all_happen(quiet, trace_begun(server, id, stamp), inputs),
    ensures
        ({
            let before = trace_after(quiet, trace_begun(server, id, stamp), inputs.drop_last());
            let (_, step) = before.run.stepped(quiet, inputs.last().event, inputs.last().clock);
            step.action matches LiveActionView::Transcribe { language, .. } ==> language
                == language_in(inputs)
        }),
{
    lemma_language_so_far(quiet, server, id, stamp, inputs);
    lemma_language_so_far(quiet, server, id, stamp, inputs.drop_last());
    reveal_strlit("start");
    reveal_strlit("stop");
    assert("start"@.len() == 5 && "stop"@.len() == 4);
}

/// Nothing that a browser sends is lost on the way: a recording receives as long as it has
/// nothing to transcribe and was not ended; otherwise it transcribes the utterance that
/// came first; and it is over once it was ended and nothing is left, or broke off.
pub proof fn recordings_transcribe_before_they_go_on(
    quiet: spec_fn(Seq<u32>) -> bool,
    run: LiveRunView,
    event: LiveEventView,
    clock: Seq<char>,
)
    requires
        run.well_formed(),
        run.fits(event),
    ensures
        ({
            let (next, step) = run.stepped(quiet, event, clock);
            let waiting = match event {
                LiveEventView::Audio { bytes } => pushed(quiet, run.segmenter, samples_of(bytes)).1,
                LiveEventView::Told { .. } => run.waiting,
                _ => if ends_recording(event) {
                    flushed(quiet, run.segmenter).1
                } else {
                    Seq::empty()
                },
            };
            if event is Broken {
                step.action is Over
            } else if waiting.len() > 0 {
                &&& step.action matches LiveActionView::Transcribe { utterance, .. } && utterance
                    == waiting[0]
                &&& next.waiting == waiting.drop_first()
            } else if run.ending || ends_recording(event) {
                step.action is Over
            } else {
                step.action is Receive
            }
        }),
{
}

/// An event ends a recording exactly where it is a `stop`, a close, the end of the stream
/// or a text frame that cannot be read.
pub proof fn recordings_end_when_they_are_stopped(
    quiet: spec_fn(Seq<u32>) -> bool,
    run: LiveRunView,
    event: LiveEventView,
    clock: Seq<char>,
)
    requires
        run.well_formed(),
        run.phase == LivePhase::Receiving,
        run.fits(event),
    ensures
        run.stepped(quiet, event, clock).0.ending <==> (event is Closed || event is Unreadable
            || event is Broken || (event matches LiveEventView::Control { control } && control.kind
            == "stop"@)),
{
}

/// What is told of a text: the text without white space around it, when it was told and
/// when it was spoken, and its number.
pub proof fn updates_say_what_was_heard(
    text: Seq<char>,
    clock: Seq<char>,
    sequence: u64,
    timing: Timing,
)
    ensures
        ({
            let update = transcript_update(text, clock, sequence, timing);
            let payload = update.payload;
            &&& update.event == "transcript-update"@
            &&& payload.get("text"@) == Some(JsonView::Text(trimmed(text)))
            &&& payload.get("timestamp"@) == Some(JsonView::Text(clock))
            &&& payload.get("source"@) == Some(JsonView::Text("Audio"@))
            &&& payload.get("sequence_id"@) == Some(JsonView::Number(Number::Unsigned(sequence)))
            &&& payload.get("chunk_start_time"@) == Some(JsonView::Number(timing.start))
            &&& payload.get("is_partial"@) == Some(JsonView::Bool(false))
            &&& payload.get("confidence"@) == Some(
                JsonView::Number(Number::Float(0x3feb_3333_3333_3333)),
            )
            &&& payload.get("audio_start_time"@) == Some(JsonView::Number(timing.start))
            &&& payload.get("audio_end_time"@) == Some(JsonView::Number(timing.end))
            &&& payload.get("duration"@) == Some(JsonView::Number(timing.duration))
        }),
{
    reveal_strlit("text");
    reveal_strlit("timestamp");
    reveal_strlit("source");
    reveal_strlit("sequence_id");
    reveal_strlit("chunk_start_time");
    reveal_strlit("is_partial");
    reveal_strlit("confidence");
    reveal_strlit("audio_start_time");
    reveal_strlit("audio_end_time");
    reveal_strlit("duration");
    assert("text"@.len() == 4 && "timestamp"@.len() == 9 && "source"@.len() == 6 && "sequence_id"@.len() == 11 && "chunk_start_time"@.len() == 16 && "is_partial"@.len() == 10 && "confidence"@.len() == 10 && "audio_start_time"@.len() == 16 && "audio_end_time"@.len() == 14 && "duration"@.len() == 8);
    assert("is_partial"@[0] != "confidence"@[0]);
    assert("chunk_start_time"@[0] != "audio_start_time"@[0]);
    let o0 = JsonView::object();
    let o1 = o0.with("text"@, JsonView::Text(trimmed(text)));
    let o2 = o1.with("timestamp"@, JsonView::Text(clock));
    let o3 = o2.with("source"@, JsonView::Text("Audio"@));
    let o4 = o3.with("sequence_id"@, whole(sequence as int));
    let o5 = o4.with("chunk_start_time"@, JsonView::Number(timing.start));
    let o6 = o5.with("is_partial"@, JsonView::Bool(false));
    let o7 = o6.with("confidence"@, JsonView::Number(Number::Float(CONFIDENCE)));
    let o8 = o7.with("audio_start_time"@, JsonView::Number(timing.start));
    let o9 = o8.with("audio_end_time"@, JsonView::Number(timing.end));
    fields_are_found_again(o0, "text"@, JsonView::Text(trimmed(text)));
    fields_are_found_again(o1, "timestamp"@, JsonView::Text(clock));
    fields_are_found_again(o2, "source"@, JsonView::Text("Audio"@));
    fields_are_found_again(o3, "sequence_id"@, whole(sequence as int));
    fields_are_found_again(o4, "chunk_start_time"@, JsonView::Number(timing.start));
    fields_are_found_again(o5, "is_partial"@, JsonView::Bool(false));
    fields_are_found_again(o6, "confidence"@, JsonView::Number(Number::Float(CONFIDENCE)));
    fields_are_found_again(o7, "audio_start_time"@, JsonView::Number(timing.start));
    fields_are_found_again(o8, "audio_end_time"@, JsonView::Number(timing.end));
    fields_are_found_again(o9, "duration"@, JsonView::Number(timing.duration));
}

/// A failure is told with its reason, and with what the user is to read of it.
pub proof fn errors_say_what_went_wrong(error: Seq<char>, message: Seq<char>)
    ensures
        ({
            let told = transcription_error(error, message);
            &&& told.event == "transcription-error"@
            &&& told.payload.get("error"@) == Some(JsonView::Text(error))
            &&& told.payload.get("userMessage"@) == Some(JsonView::Text(message))
            &&& told.payload.get("actionable"@) == Some(JsonView::Bool(false))
        }),
{
    reveal_strlit("error");
    reveal_strlit("userMessage");
    reveal_strlit("actionable");
    assert("error"@.len() == 5 && "userMessage"@.len() == 11 && "actionable"@.len() == 10);
    let o0 = JsonView::object();
    let o1 = o0.with("error"@, JsonView::Text(error));
    let o2 = o1.with("userMessage"@, JsonView::Text(message));
    fields_are_found_again(o0, "error"@, JsonView::Text(error));
    fields_are_found_again(o1, "userMessage"@, JsonView::Text(message));
    fields_are_found_again(o2, "actionable"@, JsonView::Bool(false));
}

/// A transcription that fails is told once, and changes nothing else; one that brings a
/// blank text is not told at all.
pub proof fn failed_transcriptions_are_told(
    s: LiveView,
    result: Result<Seq<char>, Seq<char>>,
    clock: Seq<char>,
    timing: Timing,
)
    ensures
        match result {
            Err(error) => {
                &&& session_after(s, result) == s
                &&& told(s, result, clock, timing).len() == 1
                &&& told(s, result, clock, timing)[0].event == "transcription-error"@
                &&& told(s, result, clock, timing)[0].payload.get("error"@) == Some(
                    JsonView::Text(error),
                )
                &&& told(s, result, clock, timing)[0].payload.get("userMessage"@) == Some(
                    JsonView::Text(error),
                )
            },
            Ok(text) => blank(text) <==> told(s, result, clock, timing).len() == 0,
        },
{
    if let Err(error) = result {
        errors_say_what_went_wrong(error, error);
    }
}

/// A recording is told to begin with what it records from, and to stop under its name, which
/// says when it began; one that breaks off is told with the reason.
pub proof fn recordings_are_told_by_name(stamp: Seq<char>, error: Seq<char>)
    ensures
        recording_started().event == "recording-started"@,
        recording_started().payload.get("message"@) == Some(JsonView::Text("Recording started"@)),
        recording_started().payload.get("devices"@) matches Some(JsonView::Array(devices))
            && devices.len() == 2 && devices[0] == JsonView::Text("Browser Microphone"@)
            && devices[1] == JsonView::Text("Browser System Audio"@),
        recording_stopped(live_name(stamp)).event == "recording-stopped"@,
        recording_stopped(live_name(stamp)).payload.get("meeting_name"@) == Some(
            JsonView::Text("Meeting "@ + stamp),
        ),
        transcription_complete().event == "transcription-complete"@,
        recording_failed(error).event == "transcription-error"@,
        recording_failed(error).payload.get("error"@) == Some(JsonView::Text(error)),
{
    errors_say_what_went_wrong(
        error,
        "Live transcription stopped unexpectedly. Check the server logs."@,
    );
    let devices = JsonView::Array(
        Seq::<JsonView>::empty().push(JsonView::Text("Browser Microphone"@)).push(
            JsonView::Text("Browser System Audio"@),
        ),
    );
    reveal_strlit("message");
    reveal_strlit("devices");
    reveal_strlit("workers");
    assert("message"@.len() == 7 && "devices"@.len() == 7 && "workers"@.len() == 7);
    assert("message"@[0] != "devices"@[0]);
    assert("message"@[0] != "workers"@[0]);
    assert("devices"@[0] != "workers"@[0]);
    let o0 = JsonView::object();
    let o1 = o0.with("message"@, JsonView::Text("Recording started"@));
    let o2 = o1.with("devices"@, devices);
    fields_are_found_again(o0, "message"@, JsonView::Text("Recording started"@));
    fields_are_found_again(o1, "devices"@, devices);
    fields_are_found_again(o2, "workers"@, whole(1));
    reveal_strlit("message");
    reveal_strlit("meeting_name");
    assert("message"@.len() == 7 && "meeting_name"@.len() == 12);
    let p0 = JsonView::object();
    let p1 = p0.with("message"@, JsonView::Text("Recording stopped"@));
    fields_are_found_again(p0, "message"@, JsonView::Text("Recording stopped"@));
    fields_are_found_again(p1, "meeting_name"@, JsonView::Text(live_name(stamp)));
}

/// Events and actions are seen whole: nothing of them is lost on the way.
pub proof fn live_events_and_actions_are_seen_whole(
    bytes: Vec<u8>,
    control: Control,
    error: String,
    result: Result<String, String>,
    timing: Timing,
    utterance: Utterance<u32>,
    language: Option<String>,
)
    ensures
        (LiveEvent::Audio { bytes })@ == (LiveEventView::Audio { bytes: bytes@ }),
        (LiveEvent::Control { control })@ == (LiveEventView::Control { control: control@ }),
        control@.kind == control.kind@,
        control@.language == control.language.deep_view(),
        control@.meeting_name == control.meeting_name.deep_view(),
        LiveEvent::Unreadable@ is Unreadable,
        LiveEvent::Other@ is Other,
        LiveEvent::Closed@ is Closed,
        (LiveEvent::Broken { error })@ == (LiveEventView::Broken { error: error@ }),
        (LiveEvent::Told { result, timing })@ == (LiveEventView::Told {
            result: match result {
                Ok(text) => Ok(text@),
                Err(e) => Err(e@),
            },
            timing,
        }),
        (LiveAction::Transcribe { utterance, language })@ == (LiveActionView::Transcribe {
            utterance: utterance@,
            language: language.deep_view(),
        }),
        utterance@.samples == utterance.samples@,
        utterance@.start == utterance.start,
        utterance@.end == utterance.end,
        LiveAction::Receive@ is Receive,
        LiveAction::Over@ is Over,
{
}

/// A recording that breaks off is told once, with the reason, and then nothing any more.
pub proof fn recordings_that_break_off_are_told(
    quiet: spec_fn(Seq<u32>) -> bool,
    run: LiveRunView,
    error: Seq<char>,
    clock: Seq<char>,
)
    ensures
        ({
            let (next, step) = run.stepped(quiet, LiveEventView::Broken { error }, clock);
            &&& next.phase == LivePhase::Over
            &&& step.action is Over
            &&& step.events.len() == 1
            &&& step.events[0].event == "transcription-error"@
            &&& step.events[0].payload.get("error"@) == Some(JsonView::Text(error))
            &&& step.events[0].payload.get("userMessage"@) == Some(
                JsonView::Text("Live transcription stopped unexpectedly. Check the server logs."@),
            )
        }),
{
    errors_say_what_went_wrong(
        error,
        "Live transcription stopped unexpectedly. Check the server logs."@,
    );
}

/// While a recording receives, every frame is taken, as long as the samples can be counted;
/// while it transcribes, what that brings; and once it is over, nothing.
pub proof fn every_frame_is_taken(run: LiveRunView, event: LiveEventView)
    ensures
        run.phase == LivePhase::Receiving ==> (run.fits(event) <==> match event {
            LiveEventView::Told { .. } => false,
            LiveEventView::Audio { bytes } => run.segmenter.consumed + run.segmenter.buffer.len()
                + bytes.len() / 2 <= usize::MAX,
            _ => true,
        }),
        run.phase == LivePhase::Transcribing ==> (run.fits(event) <==> event is Told),
        run.phase == LivePhase::Over ==> !run.fits(event),
{
}

/// A control frame that neither starts nor stops a recording changes nothing, and neither
/// does a frame that means nothing here; and one that starts it changes its language alone.
pub proof fn other_frames_change_nothing(
    quiet: spec_fn(Seq<u32>) -> bool,
    run: LiveRunView,
    event: LiveEventView,
    clock: Seq<char>,
)
    requires
        run.well_formed(),
        run.phase == LivePhase::Receiving,
        event is Other || (event matches LiveEventView::Control { control } && control.kind
            != "stop"@),
    ensures
        ({
            let (next, step) = run.stepped(quiet, event, clock);
            &&& step.events.len() == 0
            &&& step.action is Receive
            &&& next.session == run.session
            &&& next.segmenter == run.segmenter
            &&& next.waiting.len() == 0
            &&& next.id == run.id
            &&& next.language == match named_language(event) {
                Some(language) => Some(language),
                None => run.language,
            }
        }),
{
}

/// It is told that there is speech before the first text is told, and not again.
pub proof fn speech_is_told_before_the_first_text(
    s: LiveView,
    text: Seq<char>,
    clock: Seq<char>,
    timing: Timing,
)
    requires
        exists|i: int| 0 <= i < text.len() && !white_space(#[trigger] text[i]),
    ensures
        ({
            let events = told(s, Ok(text), clock, timing);
            let update = events.last();
            &&& if s.speech_announced {
                events.len() == 1
            } else {
                events.len() == 2 && events[0].event == "speech-detected"@ && events[0].payload.get(
                    "message"@,
                ) == Some(JsonView::Text("Speech activity detected"@))
            }
            &&& update.event == "transcript-update"@
            &&& update.payload.get("text"@) == Some(JsonView::Text(trimmed(text)))
            &&& update.payload.get("sequence_id"@) == Some(
                JsonView::Number(Number::Unsigned(s.sequence)),
            )
            &&& update.payload.get("audio_start_time"@) == Some(JsonView::Number(timing.start))
            &&& update.payload.get("audio_end_time"@) == Some(JsonView::Number(timing.end))
            &&& session_after(s, Ok(text)).speech_announced
            &&& s.sequence < u64::MAX ==> session_after(s, Ok(text)).sequence == s.sequence + 1
            &&& session_after(s, Ok(text)).meeting_name == s.meeting_name
        }),
{
    blank_means_all_white_space(text);
    updates_say_what_was_heard(text, clock, s.sequence, timing);
    fields_are_found_again(
        JsonView::object(),
        "message"@,
        JsonView::Text("Speech activity detected"@),
    );
}

/// A recording begins afresh: nothing was heard or told yet, no language is named, and it is
/// entered under its id with a name that says when it began.
pub proof fn recordings_begin_afresh(server: ServerView, id: Seq<char>, stamp: Seq<char>)
    ensures
        ({
            let run = run_begun(id, stamp);
            &&& run.id == id
            &&& run.session.sequence == 0
            &&& !run.session.speech_announced
            &&& run.session.meeting_name == "Meeting "@ + stamp
            &&& run.segmenter.consumed == 0 && run.segmenter.buffer.len() == 0
            &&& run.segmenter.silence_run == 0
            &&& run.language is None
            &&& run.waiting.len() == 0
            &&& !run.ending
            &&& run.phase == LivePhase::Receiving
            &&& entered(server, id, stamp).live.contains_key(id)
            &&& entered(server, id, stamp).live[id] == "Meeting "@ + stamp
            &&& entered(server, id, stamp).sessions == server.sessions
        }),
{
}

} // verus!
