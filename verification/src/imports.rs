//! The background job that transcribes an uploaded file.
//!
//! Like a command, the job is a conversation: [`ImportJob::start`] gives its first
//! action, and [`ImportJob::resume`] the next one each time an action has been
//! performed. Where a transcription fails, the segments before it are saved all the
//! same. However the job ends, the file is removed.

use vstd::prelude::*;

use crate::events::{event, events_view, no_events, one_event, EventEnvelope, EventView};
use crate::json::{fields_are_found_again, json_views, whole, Json, JsonView, Number};
use crate::live::{
    errors_say_what_went_wrong, transcription_error, transcription_error_event, Timing,
};
use crate::text::{
    all_digits, blank, decimal, decimal2, decimal_digits, decimals_read_back, is_blank, join2, join3,
    number_in, padded_decimals_read_back, trim, trimmed, two_digits,
};
use crate::upload::Upload;
use vstd::string::*;

verus! {

// ---------------------------------------------------------------------------
// Clock times
// ---------------------------------------------------------------------------

/// Seconds as hours, minutes and seconds.
pub open spec fn clock_text(seconds: u64) -> Seq<char> {
    two_digits((seconds / 3600) as nat) + ":"@ + two_digits((seconds % 3600 / 60) as nat) + ":"@
        + two_digits((seconds % 60) as nat)
}

pub fn format_clock(seconds: u64) -> (out: String)
    ensures
        out@ == clock_text(seconds),
{
    let hours = decimal2((seconds / 3600) as u128);
    let minutes = decimal2((seconds % 3600 / 60) as u128);
    let rest = decimal2((seconds % 60) as u128);
    let mut out = join3(hours.as_str(), ":", minutes.as_str());
    out.append(":");
    out.append(rest.as_str());
    out
}

// ---------------------------------------------------------------------------
// What the job asks for, and what comes of it
// ---------------------------------------------------------------------------

/// What the job asks of the world outside. `S` stands for texts and `J` for JSON
/// values.
pub enum ImportActionOf<S, J> {
    /// Decode a file and find the stretches of speech in it.
    Decode { path: S },
    /// Transcribe one of them.
    Transcribe { index: usize },
    /// Save a meeting under an id, with these segments.
    Save { id: S, title: S, segments: J },
    /// Remove a file.
    Remove { path: S },
}

pub type ImportAction = ImportActionOf<String, Json>;

pub type ImportActionView = ImportActionOf<Seq<char>, JsonView>;

/// What an action of the job holds.
pub open spec fn import_action_view(action: ImportAction) -> ImportActionView {
    match action {
        ImportActionOf::Decode { path } => ImportActionOf::Decode { path: path@ },
        ImportActionOf::Transcribe { index } => ImportActionOf::Transcribe { index },
        ImportActionOf::Save { id, title, segments } => ImportActionOf::Save {
            id: id@,
            title: title@,
            segments: segments@,
        },
        ImportActionOf::Remove { path } => ImportActionOf::Remove { path: path@ },
    }
}

/// What came of an action of the job. `S` stands for texts.
pub enum ImportOutcomeOf<S> {
    /// It was done, or it could not be and that does not matter.
    Done,
    /// It could not be done, for a reason.
    Failed { error: S },
    /// So many stretches of speech were found.
    Decoded { total: usize },
    /// A stretch of speech was transcribed. It begins so many whole seconds into the
    /// file.
    Heard { text: S, seconds: u64, timing: Timing },
    /// The meeting was saved.
    Saved,
}

pub type ImportOutcome = ImportOutcomeOf<String>;

pub type ImportOutcomeView = ImportOutcomeOf<Seq<char>>;

/// What an outcome holds.
pub open spec fn import_outcome_view(outcome: ImportOutcome) -> ImportOutcomeView {
    match outcome {
        ImportOutcomeOf::Done => ImportOutcomeOf::Done,
        ImportOutcomeOf::Failed { error } => ImportOutcomeOf::Failed { error: error@ },
        ImportOutcomeOf::Decoded { total } => ImportOutcomeOf::Decoded { total },
        ImportOutcomeOf::Heard { text, seconds, timing } => ImportOutcomeOf::Heard {
            text: text@,
            seconds,
            timing,
        },
        ImportOutcomeOf::Saved => ImportOutcomeOf::Saved,
    }
}

/// What the job is waiting for.
#[derive(Debug, Clone, Copy, PartialEq, Eq, Structural)]
pub enum ImportPhase {
    Decoding,
    Transcribing { index: usize },
    Saving,
    Removing,
    Over,
}

/// The job: the file, the meeting that it becomes, and how far it has got.
pub struct ImportJob {
    path: String,
    meeting_id: String,
    meeting_name: String,
    total: usize,
    segments: Vec<Json>,
    failure: Option<String>,
    phase: ImportPhase,
}

/// What an [`ImportJob`] holds.
#[verifier::ext_equal]
pub struct ImportView {
    pub path: Seq<char>,
    pub meeting_id: Seq<char>,
    pub meeting_name: Seq<char>,
    pub total: usize,
    pub segments: Seq<JsonView>,
    /// Why the transcription broke off, where it did.
    pub failure: Option<Seq<char>>,
    pub phase: ImportPhase,
}

impl View for ImportJob {
    type V = ImportView;

    closed spec fn view(&self) -> ImportView {
        ImportView {
            path: self.path@,
            meeting_id: self.meeting_id@,
            meeting_name: self.meeting_name@,
            total: self.total,
            segments: json_views(self.segments@),
            failure: self.failure.deep_view(),
            phase: self.phase,
        }
    }
}

/// What the browsers are told, and what is to be done next, if anything.
pub struct ImportStep {
    pub events: Vec<EventEnvelope>,
    pub action: Option<ImportAction>,
}

/// What an [`ImportStep`] holds.
pub struct ImportStepView {
    pub events: Seq<EventView>,
    pub action: Option<ImportActionView>,
}

impl View for ImportStep {
    type V = ImportStepView;

    open spec fn view(&self) -> ImportStepView {
        ImportStepView {
            events: events_view(self.events@),
            action: match self.action {
                Some(a) => Some(import_action_view(a)),
                None => None,
            },
        }
    }
}

// ---------------------------------------------------------------------------
// What the job does
// ---------------------------------------------------------------------------

/// A stretch of speech as the meeting is saved with it.
pub open spec fn segment(index: usize, text: Seq<char>, seconds: u64, timing: Timing) -> JsonView {
    JsonView::object().with("id"@, JsonView::Text("seg_"@ + decimal_digits(index as nat))).with(
        "text"@,
        JsonView::Text(trimmed(text)),
    ).with("timestamp"@, JsonView::Text(clock_text(seconds))).with(
        "audio_start_time"@,
        JsonView::Number(timing.start),
    ).with("audio_end_time"@, JsonView::Number(timing.end)).with(
        "duration"@,
        JsonView::Number(timing.duration),
    )
}

fn make_segment(index: usize, text: &str, seconds: u64, timing: Timing) -> (out: Json)
    ensures
        out@ == segment(index, text@, seconds, timing),
{
    let number = decimal(index as u128);
    Json::object().with("id", Json::Text(join2("seg_", number.as_str()))).with(
        "text",
        Json::Text(trim(text)),
    ).with("timestamp", Json::Text(format_clock(seconds))).with(
        "audio_start_time",
        Json::Number(timing.start),
    ).with("audio_end_time", Json::Number(timing.end)).with(
        "duration",
        Json::Number(timing.duration),
    )
}

/// How much of the file has been transcribed once this stretch has been, in percent.
pub open spec fn percent(index: usize, total: usize) -> int {
    (index + 1) * 100 / total as int
}

/// It is told how much has been transcribed.
pub open spec fn upload_progress(meeting_name: Seq<char>, progress: int) -> EventView {
    EventView {
        event: "upload-progress"@,
        payload: JsonView::object().with("meeting_name"@, JsonView::Text(meeting_name)).with(
            "progress"@,
            whole(progress),
        ),
    }
}

/// It is told that the meeting is there.
pub open spec fn upload_complete(
    meeting_id: Seq<char>,
    meeting_name: Seq<char>,
    segments: int,
) -> EventView {
    EventView {
        event: "upload-complete"@,
        payload: JsonView::object().with("meeting_id"@, JsonView::Text(meeting_id)).with(
            "meeting_name"@,
            JsonView::Text(meeting_name),
        ).with("segments"@, whole(segments)),
    }
}

/// The job at its start.
pub open spec fn import_begun(
    path: Seq<char>,
    meeting_id: Seq<char>,
    meeting_name: Seq<char>,
) -> ImportView {
    ImportView {
        path,
        meeting_id,
        meeting_name,
        total: 0,
        segments: Seq::empty(),
        failure: None,
        phase: ImportPhase::Decoding,
    }
}

impl ImportView {
    /// The job is done with the file, which is removed.
    pub open spec fn removing(self, events: Seq<EventView>) -> (ImportView, ImportStepView) {
        (
            ImportView { phase: ImportPhase::Removing, ..self },
            ImportStepView {
                events,
                action: Some(ImportActionOf::Remove { path: self.path }),
            },
        )
    }

    /// The job failed: that is told, and the file is removed.
    pub open spec fn failed(self, error: Seq<char>) -> (ImportView, ImportStepView) {
        self.removing(seq![transcription_error(error, error)])
    }

    /// The segments are saved.
    pub open spec fn saving(self, events: Seq<EventView>) -> (ImportView, ImportStepView) {
        (
            ImportView { phase: ImportPhase::Saving, ..self },
            ImportStepView {
                events,
                action: Some(
                    ImportActionOf::Save {
                        id: self.meeting_id,
                        title: self.meeting_name,
                        segments: JsonView::Array(self.segments),
                    },
                ),
            },
        )
    }

    /// The stretch of speech at `index` is transcribed.
    pub open spec fn transcribing(self, index: usize, events: Seq<EventView>) -> (
        ImportView,
        ImportStepView,
    ) {
        (
            ImportView { phase: ImportPhase::Transcribing { index }, ..self },
            ImportStepView { events, action: Some(ImportActionOf::Transcribe { index }) },
        )
    }

    /// A text has been heard: it becomes a segment unless it is blank, and the next
    /// stretch is transcribed, or all of them are saved.
    pub open spec fn heard(self, index: usize, text: Seq<char>, seconds: u64, timing: Timing) -> (
        ImportView,
        ImportStepView,
    ) {
        let job = ImportView {
            segments: if blank(text) {
                self.segments
            } else {
                self.segments.push(segment(index, text, seconds, timing))
            },
            ..self
        };
        let events = seq![upload_progress(self.meeting_name, percent(index, self.total))];
        if index + 1 < self.total {
            job.transcribing((index + 1) as usize, events)
        } else {
            job.saving(events)
        }
    }

    /// A stretch could not be transcribed: what was heard before it is saved first,
    /// if there is anything.
    pub open spec fn broken_off(self, error: Seq<char>) -> (ImportView, ImportStepView) {
        if self.segments.len() == 0 {
            self.failed(error)
        } else {
            ImportView { failure: Some(error), ..self }.saving(Seq::empty())
        }
    }

    /// The meeting is saved: that is told, or why it is not complete.
    pub open spec fn saved(self) -> (ImportView, ImportStepView) {
        match self.failure {
            Some(error) => self.failed(error),
            None => self.removing(
                seq![
                    upload_complete(
                        self.meeting_id,
                        self.meeting_name,
                        self.segments.len() as int,
                    ),
                ],
            ),
        }
    }

    /// What holds of every job: it transcribes what is there to be transcribed.
    pub open spec fn well_formed(self) -> bool {
        self.phase matches ImportPhase::Transcribing { index } ==> index < self.total
    }

    /// The outcomes that the job can get.
    pub open spec fn fits(self, outcome: ImportOutcomeView) -> bool {
        match self.phase {
            ImportPhase::Decoding => outcome is Decoded || outcome is Failed,
            ImportPhase::Transcribing { .. } => outcome is Heard || outcome is Failed,
            ImportPhase::Saving => outcome is Saved || outcome is Failed,
            ImportPhase::Removing => outcome is Done,
            ImportPhase::Over => false,
        }
    }

    /// What the job does with an outcome.
    pub open spec fn resumed(self, outcome: ImportOutcomeView) -> (ImportView, ImportStepView) {
        match (self.phase, outcome) {
            (ImportPhase::Decoding, ImportOutcomeOf::Decoded { total }) => if total == 0 {
                self.failed("No speech found in the uploaded audio"@)
            } else {
                ImportView { total, ..self }.transcribing(0, Seq::empty())
            },
            (
                ImportPhase::Transcribing { index },
                ImportOutcomeOf::Heard { text, seconds, timing },
            ) => self.heard(index, text, seconds, timing),
            (ImportPhase::Transcribing { index }, ImportOutcomeOf::Failed { error }) =>
                self.broken_off(error),
            (ImportPhase::Saving, ImportOutcomeOf::Saved) => self.saved(),
            (ImportPhase::Saving, ImportOutcomeOf::Failed { error }) => self.failed(
                match self.failure {
                    Some(first) => first,
                    None => error,
                },
            ),
            (ImportPhase::Removing, ImportOutcomeOf::Done) => (
                ImportView { phase: ImportPhase::Over, ..self },
                ImportStepView { events: Seq::empty(), action: None },
            ),
            (_, ImportOutcomeOf::Failed { error }) => self.failed(error),
            _ => arbitrary(),
        }
    }
}

impl ImportJob {
    /// Begins the job.
    pub fn start(upload: Upload) -> (begun: (ImportJob, ImportStep))
        ensures
            begun.0@ == import_begun(upload.path@, upload.meeting_id@, upload.meeting_name@),
            begun.0@.well_formed(),
            begun.1@ == (ImportStepView {
                events: Seq::empty(),
                action: Some(ImportActionOf::Decode { path: upload.path@ }),
            }),
    {
        let path = upload.path.clone();
        let job = ImportJob {
            path: upload.path,
            meeting_id: upload.meeting_id,
            meeting_name: upload.meeting_name,
            total: 0,
            segments: Vec::new(),
            failure: None,
            phase: ImportPhase::Decoding,
        };
        assert(job@ =~= import_begun(upload.path@, upload.meeting_id@, upload.meeting_name@));
        (job, ImportStep { events: no_events(), action: Some(ImportAction::Decode { path }) })
    }

    /// Whether the job can get this outcome.
    pub fn accepts(&self, outcome: &ImportOutcome) -> (r: bool)
        ensures
            r == self@.fits(import_outcome_view(*outcome)),
    {
        match (self.phase, outcome) {
            (ImportPhase::Decoding, ImportOutcomeOf::Decoded { .. }) => true,
            (ImportPhase::Decoding, ImportOutcomeOf::Failed { .. }) => true,
            (ImportPhase::Transcribing { .. }, ImportOutcomeOf::Heard { .. }) => true,
            (ImportPhase::Transcribing { .. }, ImportOutcomeOf::Failed { .. }) => true,
            (ImportPhase::Saving, ImportOutcomeOf::Saved) => true,
            (ImportPhase::Saving, ImportOutcomeOf::Failed { .. }) => true,
            (ImportPhase::Removing, ImportOutcomeOf::Done) => true,
            _ => false,
        }
    }

    fn remove(&mut self, events: Vec<EventEnvelope>) -> (step: ImportStep)
        ensures
            (final(self)@, step@) == old(self)@.removing(events_view(events@)),
    {
        self.phase = ImportPhase::Removing;
        ImportStep { events, action: Some(ImportAction::Remove { path: self.path.clone() }) }
    }

    fn fail(&mut self, error: &str) -> (step: ImportStep)
        ensures
            (final(self)@, step@) == old(self)@.failed(error@),
    {
        self.remove(one_event(transcription_error_event(error, error)))
    }

    fn save(&mut self, events: Vec<EventEnvelope>) -> (step: ImportStep)
        ensures
            (final(self)@, step@) == old(self)@.saving(events_view(events@)),
    {
        self.phase = ImportPhase::Saving;
        let mut list: Vec<Json> = Vec::new();
        let mut i: usize = 0;
        while i < self.segments.len()
            invariant
                i <= self.segments@.len(),
                list@.len() == i,
                forall|k: int| 0 <= k < i ==> (#[trigger] list@[k])@ == self.segments@[k]@,
            decreases self.segments@.len() - i,
        {
            list.push(self.segments[i].clone());
            i += 1;
        }
        assert(json_views(list@) =~= json_views(self.segments@));
        ImportStep {
            events,
            action: Some(
                ImportAction::Save {
                    id: self.meeting_id.clone(),
                    title: self.meeting_name.clone(),
                    segments: Json::array(list),
                },
            ),
        }
    }

    fn transcribe(&mut self, index: usize, events: Vec<EventEnvelope>) -> (step: ImportStep)
        ensures
            (final(self)@, step@) == old(self)@.transcribing(index, events_view(events@)),
    {
        self.phase = ImportPhase::Transcribing { index };
        ImportStep { events, action: Some(ImportAction::Transcribe { index }) }
    }

    fn on_heard(&mut self, index: usize, text: &str, seconds: u64, timing: Timing) -> (step:
        ImportStep)
        requires
            index < old(self)@.total,
        ensures
            (final(self)@, step@) == old(self)@.heard(index, text@, seconds, timing),
    {
        let ghost before = self@;
        if !is_blank(text) {
            self.segments.push(make_segment(index, text, seconds, timing));
            assert(self@.segments =~= before.segments.push(segment(index, text@, seconds, timing)));
        }
        proof {
            lemma_percent(index, self.total);
        }
        let progress: u64 = ((index as u128 + 1) * 100 / self.total as u128) as u64;
        let events = one_event(
            event(
                "upload-progress",
                Json::object().with("meeting_name", Json::text(self.meeting_name.as_str())).with(
                    "progress",
                    Json::count(progress),
                ),
            ),
        );
        if index + 1 < self.total {
            self.transcribe(index + 1, events)
        } else {
            self.save(events)
        }
    }

    fn on_saved(&mut self) -> (step: ImportStep)
        ensures
            (final(self)@, step@) == old(self)@.saved(),
    {
        match self.failure.clone() {
            Some(error) => self.fail(error.as_str()),
            None => {
                let complete = event(
                    "upload-complete",
                    Json::object().with("meeting_id", Json::text(self.meeting_id.as_str())).with(
                        "meeting_name",
                        Json::text(self.meeting_name.as_str()),
                    ).with("segments", Json::count(self.segments.len() as u64)),
                );
                self.remove(one_event(complete))
            },
        }
    }

    fn on_broken_off(&mut self, error: String) -> (step: ImportStep)
        ensures
            (final(self)@, step@) == old(self)@.broken_off(error@),
    {
        if self.segments.len() == 0 {
            self.fail(error.as_str())
        } else {
            self.failure = Some(error);
            self.save(no_events())
        }
    }

    /// Hands the job the outcome of its action.
    pub fn resume(&mut self, outcome: ImportOutcome) -> (step: ImportStep)
        requires
            old(self)@.well_formed(),
            old(self)@.fits(import_outcome_view(outcome)),
        ensures
            final(self)@.well_formed(),
            (final(self)@, step@) == old(self)@.resumed(import_outcome_view(outcome)),
    {
        match (self.phase, outcome) {
            (ImportPhase::Decoding, ImportOutcomeOf::Decoded { total }) => if total == 0 {
                self.fail("No speech found in the uploaded audio")
            } else {
                self.total = total;
                self.transcribe(0, no_events())
            },
            (
                ImportPhase::Transcribing { index },
                ImportOutcomeOf::Heard { text, seconds, timing },
            ) => self.on_heard(index, text.as_str(), seconds, timing),
            (ImportPhase::Transcribing { .. }, ImportOutcomeOf::Failed { error }) =>
                self.on_broken_off(error),
            (ImportPhase::Saving, ImportOutcomeOf::Saved) => self.on_saved(),
            (ImportPhase::Saving, ImportOutcomeOf::Failed { error }) => match self.failure.clone() {
                Some(first) => self.fail(first.as_str()),
                None => self.fail(error.as_str()),
            },
            (ImportPhase::Removing, ImportOutcomeOf::Done) => {
                self.phase = ImportPhase::Over;
                ImportStep { events: no_events(), action: None }
            },
            (_, ImportOutcomeOf::Failed { error }) => self.fail(error.as_str()),
            _ => vstd::pervasive::unreached(),
        }
    }
}

proof fn lemma_percent(index: usize, total: usize)
    requires
        index < total,
    ensures
        0 <= percent(index, total) <= 100,
        (index + 1) * 100 <= u128::MAX,
{
    let n: int = (index + 1) * 100;
    let t: int = total as int;
    assert(n <= 100 * t);
    assert(0 <= n / t <= 100) by (nonlinear_arith)
        requires
            0 <= n <= 100 * t,
            t > 0,
    ;
}

// ---------------------------------------------------------------------------
// What holds of every import
// ---------------------------------------------------------------------------

/// Progress never runs backwards, never beyond a hundred, and ends at a hundred.
pub proof fn progress_runs_up_to_a_hundred(earlier: usize, later: usize, total: usize)
    requires
        earlier <= later < total,
    ensures
        0 <= percent(earlier, total) <= percent(later, total) <= 100,
        later + 1 == total ==> percent(later, total) == 100,
{
    lemma_percent(earlier, total);
    lemma_percent(later, total);
    let a: int = (earlier + 1) * 100;
    let b: int = (later + 1) * 100;
    let t: int = total as int;
    assert(a / t <= b / t) by (nonlinear_arith)
        requires
            0 <= a <= b,
            t > 0,
    ;
    if later + 1 == total {
        assert(100 * t / t == 100) by (nonlinear_arith)
            requires
                t > 0,
        ;
    }
}

/// The meeting is saved, and told, under the id that the browser was given: the job never
/// changes it, saves under no other, and tells no other.
pub proof fn imports_keep_the_id_that_was_answered(job: ImportView, outcome: ImportOutcomeView)
    requires
        job.well_formed(),
        job.fits(outcome),
    ensures
        job.resumed(outcome).0.meeting_id == job.meeting_id,
        job.resumed(outcome).0.meeting_name == job.meeting_name,
        job.resumed(outcome).1.action matches Some(ImportActionOf::Save { id, title, .. }) ==> id
            == job.meeting_id && title == job.meeting_name,
        job.phase == ImportPhase::Saving && outcome is Saved && job.failure is None
            ==> job.resumed(outcome).1.events == seq![
            upload_complete(job.meeting_id, job.meeting_name, job.segments.len() as int),
        ],
{
}

/// How many more actions the job may ask for once the file is decoded, with the one
/// that it waits for.
pub open spec fn import_actions_left(job: ImportView) -> int {
    match job.phase {
        ImportPhase::Decoding => job.total + 3,
        ImportPhase::Transcribing { index } => job.total - index + 2,
        ImportPhase::Saving => 2,
        ImportPhase::Removing => 1,
        ImportPhase::Over => 0,
    }
}

/// Once the file is decoded, every outcome brings the job closer to its end.
pub proof fn every_import_ends(job: ImportView, outcome: ImportOutcomeView)
    requires
        job.well_formed(),
        job.fits(outcome),
        job.phase != ImportPhase::Decoding,
    ensures
        job.resumed(outcome).0.well_formed(),
        0 <= import_actions_left(job.resumed(outcome).0) < import_actions_left(job),
{
}

/// However the job ends, the file is removed: it is over only after it has asked for
/// that, and it never asks for the removal of another file.
pub proof fn imported_files_are_removed(job: ImportView, outcome: ImportOutcomeView)
    requires
        job.well_formed(),
        job.fits(outcome),
    ensures
        job.resumed(outcome).0.path == job.path,
        job.resumed(outcome).1.action is None <==> job.phase == ImportPhase::Removing,
        job.resumed(outcome).0.phase == ImportPhase::Removing <==> job.resumed(outcome).1.action
            == Some(ImportActionOf::<Seq<char>, JsonView>::Remove { path: job.path }),
        job.resumed(outcome).0.phase == ImportPhase::Over ==> job.phase == ImportPhase::Removing,
{
}

/// A stretch of speech that has been transcribed.
pub struct Stretch {
    pub text: Seq<char>,
    pub seconds: u64,
    pub timing: Timing,
}

/// The outcomes that these stretches are.
pub open spec fn heard_all(stretches: Seq<Stretch>) -> Seq<ImportOutcomeView> {
    Seq::new(
        stretches.len(),
        |i: int|
            ImportOutcomeOf::Heard {
                text: stretches[i].text,
                seconds: stretches[i].seconds,
                timing: stretches[i].timing,
            },
    )
}

/// The segments that these stretches become: those that are not blank, in order, each
/// under the number of its stretch.
pub open spec fn segments_of(stretches: Seq<Stretch>) -> Seq<JsonView>
    decreases stretches.len(),
{
    if stretches.len() == 0 {
        Seq::empty()
    } else {
        let before = segments_of(stretches.drop_last());
        let last = stretches.last();
        if blank(last.text) {
            before
        } else {
            before.push(
                segment((stretches.len() - 1) as usize, last.text, last.seconds, last.timing),
            )
        }
    }
}

/// The job once it has been handed these outcomes.
pub open spec fn import_after(job: ImportView, outcomes: Seq<ImportOutcomeView>) -> ImportView
    decreases outcomes.len(),
{
    if outcomes.len() == 0 {
        job
    } else {
        import_after(job, outcomes.drop_last()).resumed(outcomes.last()).0
    }
}

/// The job once the file is decoded.
pub open spec fn import_decoded(
    path: Seq<char>,
    meeting_id: Seq<char>,
    meeting_name: Seq<char>,
    total: usize,
) -> ImportView {
    import_begun(path, meeting_id, meeting_name).resumed(ImportOutcomeOf::Decoded { total }).0
}

proof fn lemma_heard_so_far(
    path: Seq<char>,
    meeting_id: Seq<char>,
    meeting_name: Seq<char>,
    total: usize,
    stretches: Seq<Stretch>,
)
    requires
        stretches.len() < total,
    ensures
        import_after(import_decoded(path, meeting_id, meeting_name, total), heard_all(stretches)) == (
        ImportView {
            path,
            meeting_id,
            meeting_name,
            total,
            segments: segments_of(stretches),
            failure: None,
            phase: ImportPhase::Transcribing { index: stretches.len() as usize },
        }),
    decreases stretches.len(),
{
    let begun = import_decoded(path, meeting_id, meeting_name, total);
    if stretches.len() > 0 {
        lemma_heard_so_far(path, meeting_id, meeting_name, total, stretches.drop_last());
        assert(heard_all(stretches).drop_last() =~= heard_all(stretches.drop_last()));
    }
}

/// Every text that is heard in a file is saved, in the order in which it was spoken and
/// under the number of its stretch: once the last of them has been heard, the meeting is
/// saved with all of them.
pub proof fn imports_keep_every_text(
    path: Seq<char>,
    meeting_id: Seq<char>,
    meeting_name: Seq<char>,
    stretches: Seq<Stretch>,
)
    requires
        0 < stretches.len() <= usize::MAX,
    ensures
        ({
            let begun = import_decoded(path, meeting_id, meeting_name, stretches.len() as usize);
            let job = import_after(begun, heard_all(stretches.drop_last()));
            job.resumed(heard_all(stretches).last()).1.action == Some(
                ImportActionOf::Save {
                    id: meeting_id,
                    title: meeting_name,
                    segments: JsonView::Array(segments_of(stretches)),
                },
            )
        }),
{
    let total = stretches.len() as usize;
    lemma_heard_so_far(path, meeting_id, meeting_name, total, stretches.drop_last());
}

/// Where a transcription fails, what was heard before it is kept: the meeting is saved
/// with it, and only then is the failure told.
pub proof fn partial_transcripts_are_kept(
    path: Seq<char>,
    meeting_id: Seq<char>,
    meeting_name: Seq<char>,
    total: usize,
    stretches: Seq<Stretch>,
    error: Seq<char>,
)
    requires
        stretches.len() < total,
        segments_of(stretches).len() > 0,
    ensures
        ({
            let begun = import_decoded(path, meeting_id, meeting_name, total);
            let job = import_after(begun, heard_all(stretches));
            let (saving, save) = job.resumed(ImportOutcomeOf::Failed { error });
            let (_, told) = saving.resumed(ImportOutcomeOf::Saved);
            &&& save.action == Some(
                ImportActionOf::Save {
                    id: meeting_id,
                    title: meeting_name,
                    segments: JsonView::Array(segments_of(stretches)),
                },
            )
            &&& told.events == seq![transcription_error(error, error)]
        }),
{
    lemma_heard_so_far(path, meeting_id, meeting_name, total, stretches);
}

/// The second that a clock time stands for: hours, minutes and seconds, read from the end.
pub open spec fn clock_seconds(clock: Seq<char>) -> int {
    let n = clock.len() as int;
    3600 * number_in(clock.take(n - 6)) + 60 * number_in(clock.subrange(n - 5, n - 3)) + number_in(
        clock.skip(n - 2),
    )
}

/// Whether a text is a clock time: at least two digits of hours, two of minutes and two of
/// seconds, with colons in between and no more than 59 minutes and seconds.
pub open spec fn clock_time(clock: Seq<char>) -> bool {
    let n = clock.len() as int;
    &&& n >= 8
    &&& clock[n - 6] == ':' && clock[n - 3] == ':'
    &&& all_digits(clock.take(n - 6))
    &&& all_digits(clock.subrange(n - 5, n - 3))
    &&& all_digits(clock.skip(n - 2))
    &&& number_in(clock.subrange(n - 5, n - 3)) < 60
    &&& number_in(clock.skip(n - 2)) < 60
}

/// A clock time says which second it is, and never starts over.
pub proof fn clocks_tell_the_second(seconds: u64)
    ensures
        clock_time(clock_text(seconds)),
        clock_seconds(clock_text(seconds)) == seconds,
{
    let hours = two_digits((seconds / 3600) as nat);
    let minutes = two_digits((seconds % 3600 / 60) as nat);
    let rest = two_digits((seconds % 60) as nat);
    padded_decimals_read_back((seconds / 3600) as nat);
    padded_decimals_read_back((seconds % 3600 / 60) as nat);
    padded_decimals_read_back((seconds % 60) as nat);
    reveal_strlit(":");
    let clock = clock_text(seconds);
    let n = clock.len() as int;
    assert(clock.take(n - 6) =~= hours);
    assert(clock.subrange(n - 5, n - 3) =~= minutes);
    assert(clock.skip(n - 2) =~= rest);
}

/// Whether a segment shows a stretch of speech: under the number of the stretch, with its
/// text, the second at which it begins, and its times.
pub open spec fn shows(segment: JsonView, index: int, stretch: Stretch) -> bool {
    &&& segment.get("id"@) matches Some(JsonView::Text(id)) && id.len() > 4 && id.take(4)
        == "seg_"@ && all_digits(id.skip(4)) && number_in(id.skip(4)) == index
    &&& segment.get("text"@) == Some(JsonView::Text(trimmed(stretch.text)))
    &&& segment.get("timestamp"@) matches Some(JsonView::Text(clock)) && clock_time(clock)
        && clock_seconds(clock) == stretch.seconds
    &&& segment.get("audio_start_time"@) == Some(JsonView::Number(stretch.timing.start))
    &&& segment.get("audio_end_time"@) == Some(JsonView::Number(stretch.timing.end))
    &&& segment.get("duration"@) == Some(JsonView::Number(stretch.timing.duration))
}

proof fn lemma_segment_shows(index: usize, text: Seq<char>, seconds: u64, timing: Timing)
    ensures
        shows(segment(index, text, seconds, timing), index as int, Stretch {
            text,
            seconds,
            timing,
        }),
{
    clocks_tell_the_second(seconds);
    let clock = clock_text(seconds);
    decimals_read_back(index as nat);
    reveal_strlit("seg_");
    let id = "seg_"@ + decimal_digits(index as nat);
    assert(id.take(4) =~= "seg_"@);
    assert(id.skip(4) =~= decimal_digits(index as nat));
    reveal_strlit("id");
    reveal_strlit("text");
    reveal_strlit("timestamp");
    reveal_strlit("audio_start_time");
    reveal_strlit("audio_end_time");
    reveal_strlit("duration");
    assert("id"@.len() == 2 && "text"@.len() == 4 && "timestamp"@.len() == 9 && "audio_start_time"@.len() == 16 && "audio_end_time"@.len() == 14 && "duration"@.len() == 8);
    let o0 = JsonView::object();
    let o1 = o0.with("id"@, JsonView::Text("seg_"@ + decimal_digits(index as nat)));
    let o2 = o1.with("text"@, JsonView::Text(trimmed(text)));
    let o3 = o2.with("timestamp"@, JsonView::Text(clock));
    let o4 = o3.with("audio_start_time"@, JsonView::Number(timing.start));
    let o5 = o4.with("audio_end_time"@, JsonView::Number(timing.end));
    fields_are_found_again(o0, "id"@, JsonView::Text("seg_"@ + decimal_digits(index as nat)));
    fields_are_found_again(o1, "text"@, JsonView::Text(trimmed(text)));
    fields_are_found_again(o2, "timestamp"@, JsonView::Text(clock));
    fields_are_found_again(o3, "audio_start_time"@, JsonView::Number(timing.start));
    fields_are_found_again(o4, "audio_end_time"@, JsonView::Number(timing.end));
    fields_are_found_again(o5, "duration"@, JsonView::Number(timing.duration));
}

/// How many of the first stretches have a text.
pub open spec fn texts_among(stretches: Seq<Stretch>, first: int) -> nat
    decreases first,
{
    if first <= 0 {
        0
    } else {
        texts_among(stretches, first - 1) + if blank(stretches[first - 1].text) {
            0nat
        } else {
            1
        }
    }
}

/// Whether segments show these stretches: those that have a text, all of them, in order.
pub open spec fn all_shown(segments: Seq<JsonView>, stretches: Seq<Stretch>) -> bool {
    &&& segments.len() == texts_among(stretches, stretches.len() as int)
    &&& forall|i: int|
        0 <= i < stretches.len() && !blank((#[trigger] stretches[i]).text) ==> texts_among(
            stretches,
            i,
        ) < segments.len() && shows(segments[texts_among(stretches, i) as int], i, stretches[i])
}

proof fn lemma_texts_among(shorter: Seq<Stretch>, stretches: Seq<Stretch>, first: int)
    requires
        0 <= first <= shorter.len(),
        shorter.is_prefix_of(stretches),
    ensures
        texts_among(shorter, first) == texts_among(stretches, first),
    decreases first,
{
    if first > 0 {
        lemma_texts_among(shorter, stretches, first - 1);
        assert(stretches.subrange(0, shorter.len() as int)[first - 1] == stretches[first - 1]);
    }
}

proof fn lemma_all_shown(stretches: Seq<Stretch>)
    requires
        stretches.len() <= usize::MAX,
    ensures
        all_shown(segments_of(stretches), stretches),
    decreases stretches.len(),
{
    if stretches.len() > 0 {
        let front = stretches.drop_last();
        let last = stretches.last();
        let segments = segments_of(stretches);
        lemma_all_shown(front);
        assert(front.is_prefix_of(stretches));
        lemma_texts_among(front, stretches, front.len() as int);
        lemma_segment_shows(
            (stretches.len() - 1) as usize,
            last.text,
            last.seconds,
            last.timing,
        );
        assert forall|i: int|
            0 <= i < stretches.len() && !blank((#[trigger] stretches[i]).text) implies texts_among(
            stretches,
            i,
        ) < segments.len() && shows(segments[texts_among(stretches, i) as int], i, stretches[i]) by {
            if i < front.len() {
                lemma_texts_among(front, stretches, i);
                assert(front[i] == stretches[i]);
                assert(texts_among(front, i) < segments_of(front).len());
            } else {
                assert(stretches[i] == last);
            }
        }
    }
}

/// What a meeting is saved with is what was heard in the file: every stretch that has a
/// text is there, in the order in which it was spoken, with its text, its times and the
/// second at which it begins, however long the file is. And so it is where the
/// transcription breaks off, with what was heard until then.
pub proof fn saved_segments_show_what_was_heard(
    path: Seq<char>,
    meeting_id: Seq<char>,
    meeting_name: Seq<char>,
    total: usize,
    stretches: Seq<Stretch>,
    error: Seq<char>,
)
    requires
        0 < stretches.len() <= total,
    ensures
        ({
            let begun = import_decoded(path, meeting_id, meeting_name, total);
            let whole_file = import_after(begun, heard_all(stretches.drop_last())).resumed(
                heard_all(stretches).last(),
            ).1.action;
            let part = import_after(begun, heard_all(stretches)).resumed(
                ImportOutcomeOf::Failed { error },
            ).1.action;
            if stretches.len() == total {
                whole_file matches Some(ImportActionOf::Save { id, title, segments }) && id
                    == meeting_id && title == meeting_name && (segments matches JsonView::Array(list)
                    && all_shown(list, stretches))
            } else if texts_among(stretches, stretches.len() as int) > 0 {
                part matches Some(ImportActionOf::Save { id, title, segments }) && id == meeting_id
                    && title == meeting_name && (segments matches JsonView::Array(list)
                    && all_shown(list, stretches))
            } else {
                part == Some(ImportActionOf::<Seq<char>, JsonView>::Remove { path })
            }
        }),
{
    lemma_all_shown(stretches);
    lemma_heard_so_far(path, meeting_id, meeting_name, total, stretches.drop_last());
    if stretches.len() < total {
        lemma_heard_so_far(path, meeting_id, meeting_name, total, stretches);
    }
}

/// Later stretches never show an earlier time.
pub proof fn timestamps_never_go_back(earlier: u64, later: u64)
    requires
        earlier <= later,
    ensures
        clock_seconds(clock_text(earlier)) <= clock_seconds(clock_text(later)),
{
    clocks_tell_the_second(earlier);
    clocks_tell_the_second(later);
}

/// After each stretch it is told, under the meeting's name, how many percent of the file
/// have been transcribed, rounded down; and the stretch after it comes next, if any.
pub proof fn progress_is_told_after_every_stretch(
    job: ImportView,
    index: usize,
    text: Seq<char>,
    seconds: u64,
    timing: Timing,
)
    requires
        job.phase == (ImportPhase::Transcribing { index }),
        index < job.total,
    ensures
        ({
            let step = job.resumed(ImportOutcomeOf::Heard { text, seconds, timing }).1;
            &&& step.events.len() == 1
            &&& step.events[0].event == "upload-progress"@
            &&& step.events[0].payload.get("meeting_name"@) == Some(
                JsonView::Text(job.meeting_name),
            )
            &&& step.events[0].payload.get("progress"@) matches Some(
                JsonView::Number(Number::Unsigned(p)),
            ) && p * job.total <= 100 * (index + 1) < (p + 1) * job.total
            &&& if index + 1 == job.total {
                step.action is Some && step.action->0 is Save
            } else {
                step.action == Some(
                    ImportActionOf::<Seq<char>, JsonView>::Transcribe {
                        index: (index + 1) as usize,
                    },
                )
            }
        }),
{
    let name = job.meeting_name;
    let p = percent(index, job.total);
    lemma_percent(index, job.total);
    let n: int = (index + 1) * 100;
    let t: int = job.total as int;
    assert(p * t <= n < (p + 1) * t) by (nonlinear_arith)
        requires
            p == n / t,
            t > 0,
    ;
    reveal_strlit("meeting_name");
    reveal_strlit("progress");
    assert("meeting_name"@.len() == 12 && "progress"@.len() == 8);
    let o0 = JsonView::object();
    let o1 = o0.with("meeting_name"@, JsonView::Text(name));
    fields_are_found_again(o0, "meeting_name"@, JsonView::Text(name));
    fields_are_found_again(o1, "progress"@, whole(percent(index, job.total)));
}

/// Once the meeting is saved, it is told under which id and name, and with how many
/// segments; a file without speech, or one that cannot be decoded, is told to be an error.
pub proof fn the_end_of_an_import_is_told(job: ImportView, error: Seq<char>)
    requires
        job.failure is None,
        job.segments.len() <= u64::MAX,
    ensures
        job.phase == ImportPhase::Saving ==> {
            let step = job.resumed(ImportOutcomeOf::Saved).1;
            &&& step.events.len() == 1
            &&& step.events[0].event == "upload-complete"@
            &&& step.events[0].payload.get("meeting_id"@) == Some(JsonView::Text(job.meeting_id))
            &&& step.events[0].payload.get("meeting_name"@) == Some(
                JsonView::Text(job.meeting_name),
            )
            &&& step.events[0].payload.get("segments"@) == Some(
                JsonView::Number(Number::Unsigned(job.segments.len() as u64)),
            )
        },
        job.phase == ImportPhase::Decoding || job.phase == ImportPhase::Saving ==> {
            let step = job.resumed(ImportOutcomeOf::Failed { error }).1;
            &&& step.events.len() == 1
            &&& step.events[0].event == "transcription-error"@
            &&& step.events[0].payload.get("error"@) == Some(JsonView::Text(error))
        },
        job.phase == ImportPhase::Decoding ==> {
            let step = job.resumed(ImportOutcomeOf::Decoded { total: 0 }).1;
            &&& step.events.len() == 1
            &&& step.events[0].event == "transcription-error"@
            &&& step.events[0].payload.get("error"@) == Some(
                JsonView::Text("No speech found in the uploaded audio"@),
            )
        },
        forall|total: usize|
            job.phase == ImportPhase::Decoding && total > 0 ==> (#[trigger] job.resumed(
                ImportOutcomeOf::Decoded { total },
            )).1.action == Some(ImportActionOf::<Seq<char>, JsonView>::Transcribe { index: 0 }),
{
    errors_say_what_went_wrong(error, error);
    errors_say_what_went_wrong(
        "No speech found in the uploaded audio"@,
        "No speech found in the uploaded audio"@,
    );
    reveal_strlit("meeting_id");
    reveal_strlit("meeting_name");
    reveal_strlit("segments");
    assert("meeting_id"@.len() == 10 && "meeting_name"@.len() == 12 && "segments"@.len() == 8);
    let o0 = JsonView::object();
    let o1 = o0.with("meeting_id"@, JsonView::Text(job.meeting_id));
    let o2 = o1.with("meeting_name"@, JsonView::Text(job.meeting_name));
    fields_are_found_again(o0, "meeting_id"@, JsonView::Text(job.meeting_id));
    fields_are_found_again(o1, "meeting_name"@, JsonView::Text(job.meeting_name));
    fields_are_found_again(o2, "segments"@, whole(job.segments.len() as int));
}

/// Outcomes and actions are seen whole: nothing of them is lost on the way.
pub proof fn import_outcomes_and_actions_are_seen_whole(
    text: String,
    seconds: u64,
    timing: Timing,
    total: usize,
    index: usize,
    title: String,
    segments: Json,
)
    ensures
        import_outcome_view(ImportOutcomeOf::Done) is Done,
        import_outcome_view(ImportOutcomeOf::Saved) is Saved,
        import_outcome_view(ImportOutcomeOf::Failed { error: text }) == (ImportOutcomeOf::Failed {
            error: text@,
        }),
        import_outcome_view(ImportOutcomeOf::Decoded { total }) == (ImportOutcomeOf::<
            Seq<char>,
        >::Decoded { total }),
        import_outcome_view(ImportOutcomeOf::Heard { text, seconds, timing }) == (
        ImportOutcomeOf::Heard { text: text@, seconds, timing }),
        import_action_view(ImportActionOf::Decode { path: text }) == (ImportActionOf::<
            Seq<char>,
            JsonView,
        >::Decode { path: text@ }),
        import_action_view(ImportActionOf::Transcribe { index }) == (ImportActionOf::<
            Seq<char>,
            JsonView,
        >::Transcribe { index }),
        import_action_view(ImportActionOf::Save { id: text, title, segments }) == (
        ImportActionOf::Save { id: text@, title: title@, segments: segments@ }),
        import_action_view(ImportActionOf::Remove { path: text }) == (ImportActionOf::<
            Seq<char>,
            JsonView,
        >::Remove { path: text@ }),
{
}

/// Where the transcription broke off and what was heard until then cannot be saved either,
/// the first of the two reasons is told.
pub proof fn the_first_failure_is_told(job: ImportView, first: Seq<char>, error: Seq<char>)
    requires
        job.phase == ImportPhase::Saving,
        job.failure == Some(first),
    ensures
        ({
            let step = job.resumed(ImportOutcomeOf::Failed { error }).1;
            &&& step.events.len() == 1
            &&& step.events[0].event == "transcription-error"@
            &&& step.events[0].payload.get("error"@) == Some(JsonView::Text(first))
        }),
        ({
            let step = job.resumed(ImportOutcomeOf::Saved).1;
            &&& step.events.len() == 1
            &&& step.events[0].event == "transcription-error"@
            &&& step.events[0].payload.get("error"@) == Some(JsonView::Text(first))
        }),
{
    errors_say_what_went_wrong(first, first);
}

/// Whatever an action of the job can bring is taken: a file is decoded, a stretch is heard
/// and a meeting is saved, or they are not; and the removal of a file is over in any case.
pub proof fn import_outcomes_are_taken(
    job: ImportView,
    outcome: ImportOutcomeView,
)
    requires
        job.well_formed(),
    ensures
        job.phase == ImportPhase::Decoding && (outcome is Decoded || outcome is Failed)
            ==> job.fits(outcome),
        job.phase is Transcribing && (outcome is Heard || outcome is Failed) ==> job.fits(outcome),
        job.phase == ImportPhase::Saving && (outcome is Saved || outcome is Failed) ==> job.fits(
            outcome,
        ),
        job.phase == ImportPhase::Removing && outcome is Done ==> job.fits(outcome),
        job.fits(outcome) ==> job.resumed(outcome).0.well_formed(),
{
}

} // verus!
