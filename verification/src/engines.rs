//! Commands about the transcription engines and their models.

use vstd::prelude::*;

use crate::args::{req_str, with_text};
use crate::error::{bad_request_error, internal_error, ApiError};
use crate::events::{event, one_event, EventEnvelope, EventView};
use crate::json::{whole, Json, JsonView};
use crate::protocol::{
    models_view, perform, performing, refuse, refused, replied, reply, Action, ActionOf, Engine,
    ModelEntry, ModelView, Pending, PendingOf, Step, StepView,
};
use crate::text::{owned, same_text};

verus! {

// ---------------------------------------------------------------------------
// Events
// ---------------------------------------------------------------------------

/// `{"modelName": name}`.
pub open spec fn named(name: Seq<char>) -> JsonView {
    JsonView::object().with("modelName"@, JsonView::Text(name))
}

fn named_model(name: &str) -> (out: Json)
    ensures
        out@ == named(name@),
{
    Json::object().with("modelName", Json::text(name))
}

/// The event that a model is being loaded.
pub open spec fn loading_started(engine: Engine, name: Seq<char>) -> EventView {
    EventView {
        event: match engine {
            Engine::Whisper => "model-loading-started"@,
            Engine::Parakeet => "parakeet-model-loading-started"@,
        },
        payload: named(name),
    }
}

fn loading_started_event(engine: Engine, name: &str) -> (e: EventEnvelope)
    ensures
        e@ == loading_started(engine, name@),
{
    match engine {
        Engine::Whisper => event("model-loading-started", named_model(name)),
        Engine::Parakeet => event("parakeet-model-loading-started", named_model(name)),
    }
}

/// The event that a model has been loaded.
pub open spec fn loading_completed(engine: Engine, name: Seq<char>) -> EventView {
    EventView {
        event: match engine {
            Engine::Whisper => "model-loading-completed"@,
            Engine::Parakeet => "parakeet-model-loading-completed"@,
        },
        payload: named(name),
    }
}

fn loading_completed_event(engine: Engine, name: &str) -> (e: EventEnvelope)
    ensures
        e@ == loading_completed(engine, name@),
{
    match engine {
        Engine::Whisper => event("model-loading-completed", named_model(name)),
        Engine::Parakeet => event("parakeet-model-loading-completed", named_model(name)),
    }
}

/// The event that a model could not be loaded.
pub open spec fn loading_failed(engine: Engine, name: Seq<char>, error: Seq<char>) -> EventView {
    EventView {
        event: match engine {
            Engine::Whisper => "model-loading-failed"@,
            Engine::Parakeet => "parakeet-model-loading-failed"@,
        },
        payload: named(name).with("error"@, JsonView::Text(error)),
    }
}

fn loading_failed_event(engine: Engine, name: &str, error: &str) -> (e: EventEnvelope)
    ensures
        e@ == loading_failed(engine, name@, error@),
{
    let payload = named_model(name).with("error", Json::text(error));
    match engine {
        Engine::Whisper => event("model-loading-failed", payload),
        Engine::Parakeet => event("parakeet-model-loading-failed", payload),
    }
}

/// The event that a download has come so far.
pub open spec fn download_progress(engine: Engine, name: Seq<char>, percent: u8) -> EventView {
    match engine {
        Engine::Whisper => EventView {
            event: "model-download-progress"@,
            payload: named(name).with("progress"@, whole(percent as int)),
        },
        Engine::Parakeet => EventView {
            event: "parakeet-model-download-progress"@,
            payload: named(name).with("progress"@, whole(percent as int)).with(
                "status"@,
                JsonView::Text(
                    if percent >= 100 {
                        "completed"@
                    } else {
                        "downloading"@
                    },
                ),
            ),
        },
    }
}

/// The event that a download has come so far.
pub fn download_progress_event(engine: Engine, name: &str, percent: u8) -> (e: EventEnvelope)
    ensures
        e@ == download_progress(engine, name@, percent),
{
    let payload = named_model(name).with("progress", Json::count(percent as u64));
    match engine {
        Engine::Whisper => event("model-download-progress", payload),
        Engine::Parakeet => {
            let status = if percent >= 100 {
                "completed"
            } else {
                "downloading"
            };
            event(
                "parakeet-model-download-progress",
                payload.with("status", Json::text(status)),
            )
        },
    }
}

/// The event that a download has ended, well or with an error.
pub open spec fn download_finished(
    engine: Engine,
    name: Seq<char>,
    error: Option<Seq<char>>,
) -> EventView {
    match error {
        None => EventView {
            event: match engine {
                Engine::Whisper => "model-download-complete"@,
                Engine::Parakeet => "parakeet-model-download-complete"@,
            },
            payload: named(name),
        },
        Some(e) => EventView {
            event: match engine {
                Engine::Whisper => "model-download-error"@,
                Engine::Parakeet => "parakeet-model-download-error"@,
            },
            payload: named(name).with("error"@, JsonView::Text(e)),
        },
    }
}

/// The event that a download has ended, well or with an error.
pub fn download_finished_event(engine: Engine, name: &str, error: Option<String>) -> (e:
    EventEnvelope)
    ensures
        e@ == download_finished(engine, name@, error.deep_view()),
{
    match error {
        None => match engine {
            Engine::Whisper => event("model-download-complete", named_model(name)),
            Engine::Parakeet => event("parakeet-model-download-complete", named_model(name)),
        },
        Some(text) => {
            let payload = named_model(name).with("error", Json::Text(text));
            match engine {
                Engine::Whisper => event("model-download-error", payload),
                Engine::Parakeet => event("parakeet-model-download-error", payload),
            }
        },
    }
}

/// The event that a Parakeet download was stopped.
pub open spec fn download_stopped(name: Seq<char>) -> EventView {
    EventView {
        event: "parakeet-model-download-progress"@,
        payload: named(name).with("progress"@, whole(0)).with(
            "status"@,
            JsonView::Text("cancelled"@),
        ),
    }
}

// ---------------------------------------------------------------------------
// Loading
// ---------------------------------------------------------------------------

pub open spec fn load_model_step(engine: Engine, args: JsonView) -> StepView {
    with_text(
        args,
        "modelName"@,
        |name: Seq<char>|
            StepView::Perform {
                events: seq![loading_started(engine, name)],
                action: ActionOf::LoadModel { engine, name },
                pending: PendingOf::Loading { engine, name },
            },
    )
}

pub fn load_model(engine: Engine, args: &Json) -> (step: Step)
    ensures
        step@ == load_model_step(engine, args@),
{
    match req_str(args, "modelName") {
        Ok(name) => Step::Perform {
            events: one_event(loading_started_event(engine, name.as_str())),
            action: Action::LoadModel { engine, name: name.clone() },
            pending: Pending::Loading { engine, name },
        },
        Err(e) => refuse(e),
    }
}

/// What is said once a model was to be loaded: the browsers hear of it, and so
/// does the one that asked.
pub open spec fn model_loaded(
    engine: Engine,
    name: Seq<char>,
    error: Option<Seq<char>>,
) -> StepView {
    match error {
        None => StepView::Reply {
            events: seq![loading_completed(engine, name)],
            result: Ok(JsonView::Null),
        },
        Some(e) => StepView::Reply {
            events: seq![loading_failed(engine, name, e)],
            result: Err(internal_error(e)),
        },
    }
}

pub fn answer_loaded(engine: Engine, name: &str, error: Option<String>) -> (step: Step)
    ensures
        step@ == model_loaded(engine, name@, error.deep_view()),
{
    match error {
        None => Step::Reply {
            events: one_event(loading_completed_event(engine, name)),
            result: Ok(Json::Null),
        },
        Some(e) => Step::Reply {
            events: one_event(loading_failed_event(engine, name, e.as_str())),
            result: Err(ApiError::internal(e)),
        },
    }
}

// ---------------------------------------------------------------------------
// Choosing
// ---------------------------------------------------------------------------

/// The first model at or after `from` that is available and, where a
/// `quantization` is given, stored that way.
pub open spec fn first_available(
    models: Seq<ModelView>,
    quantization: Option<Seq<char>>,
    from: int,
) -> Option<Seq<char>>
    decreases models.len() - from,
{
    if from < 0 || from >= models.len() {
        None
    } else if models[from].available && (quantization is None || models[from].quantization
        == quantization->0) {
        Some(models[from].name)
    } else {
        first_available(models, quantization, from + 1)
    }
}

/// The model that an engine loads by itself: the first one that is available;
/// for Parakeet the first of those that is quantized to eight bits, where there
/// is one.
pub open spec fn chosen_model(engine: Engine, models: Seq<ModelView>) -> Option<Seq<char>> {
    match engine {
        Engine::Whisper => first_available(models, None, 0),
        Engine::Parakeet => match first_available(models, Some("Int8"@), 0) {
            Some(name) => Some(name),
            None => first_available(models, None, 0),
        },
    }
}

pub(crate) fn find_available(models: &Vec<ModelEntry>, quantization: Option<&str>) -> (name: Option<
    String,
>)
    ensures
        name.deep_view() == first_available(
            models_view(models@),
            match quantization {
                Some(q) => Some(q@),
                None => None,
            },
            0,
        ),
{
    let ghost views = models_view(models@);
    let ghost wanted = match quantization {
        Some(q) => Some(q@),
        None => None,
    };
    let mut i: usize = 0;
    while i < models.len()
        invariant
            i <= models@.len(),
            views == models_view(models@),
            wanted == (match quantization {
                Some(q) => Some(q@),
                None => None,
            }),
            first_available(views, wanted, 0) == first_available(views, wanted, i as int),
        decreases models@.len() - i,
    {
        let m = &models[i];
        assert(views[i as int] == m@);
        let fits: bool = match quantization {
            Some(q) => same_text(m.quantization.as_str(), q),
            None => true,
        };
        if m.available && fits {
            return Some(m.name.clone());
        }
        i += 1;
    }
    None
}

pub fn choose_model(engine: Engine, models: &Vec<ModelEntry>) -> (name: Option<String>)
    ensures
        name.deep_view() == chosen_model(engine, models_view(models@)),
{
    match engine {
        Engine::Whisper => find_available(models, None),
        Engine::Parakeet => match find_available(models, Some("Int8")) {
            Some(name) => Some(name),
            None => find_available(models, None),
        },
    }
}

/// Some model is available exactly when a first one is.
pub proof fn first_available_finds_any(models: Seq<ModelView>, from: int)
    requires
        0 <= from <= models.len(),
    ensures
        first_available(models, None, from) is Some <==> exists|i: int|
            from <= i < models.len() && (#[trigger] models[i]).available,
    decreases models.len() - from,
{
    if from < models.len() && !models[from].available {
        first_available_finds_any(models, from + 1);
    }
}

/// The model that is chosen is one of those that are available.
pub proof fn chosen_models_are_available(engine: Engine, models: Seq<ModelView>)
    ensures
        chosen_model(engine, models) matches Some(name) ==> exists|i: int|
            0 <= i < models.len() && (#[trigger] models[i]).available && models[i].name == name,
        chosen_model(engine, models) is None <==> forall|i: int|
            0 <= i < models.len() ==> !(#[trigger] models[i]).available,
{
    first_available_finds_any(models, 0);
    lemma_first_available_is_available(models, None, 0);
    lemma_first_available_is_available(models, Some("Int8"@), 0);
}

proof fn lemma_first_available_is_available(
    models: Seq<ModelView>,
    quantization: Option<Seq<char>>,
    from: int,
)
    requires
        0 <= from <= models.len(),
    ensures
        first_available(models, quantization, from) matches Some(name) ==> exists|i: int|
            from <= i < models.len() && (#[trigger] models[i]).available && models[i].name == name,
    decreases models.len() - from,
{
    if from < models.len() {
        lemma_first_available_is_available(models, quantization, from + 1);
    }
}

/// Whether any model is available.
pub open spec fn any_available(models: Seq<ModelView>) -> bool {
    exists|i: int| 0 <= i < models.len() && (#[trigger] models[i]).available
}

pub fn has_available(models: &Vec<ModelEntry>) -> (r: bool)
    ensures
        r == any_available(models_view(models@)),
{
    proof {
        first_available_finds_any(models_view(models@), 0);
    }
    find_available(models, None).is_some()
}

/// A model that is loaded is ready; otherwise one is looked for.
pub open spec fn current_model_found(engine: Engine, current: Option<Seq<char>>) -> StepView {
    match current {
        Some(name) => replied(JsonView::Text(name)),
        None => performing(
            ActionOf::DiscoverModels { engine },
            PendingOf::ReadyModels { engine },
        ),
    }
}

pub fn on_current_model(engine: Engine, current: Option<String>) -> (step: Step)
    ensures
        step@ == current_model_found(engine, current.deep_view()),
{
    match current {
        Some(name) => reply(Json::Text(name)),
        None => perform(Action::DiscoverModels { engine }, Pending::ReadyModels { engine }),
    }
}

/// The model that is chosen is loaded; where there is none, that is said.
pub open spec fn models_discovered(engine: Engine, models: Seq<ModelView>) -> StepView {
    match chosen_model(engine, models) {
        Some(name) => performing(
            ActionOf::LoadModel { engine, name },
            PendingOf::ReadyLoaded { name },
        ),
        None => refused(
            bad_request_error(
                match engine {
                    Engine::Whisper =>
                        "No Whisper models are available. Please download a model to enable transcription."@,
                    Engine::Parakeet =>
                        "No Parakeet models are available. Please download a model to enable fast transcription."@,
                },
            ),
        ),
    }
}

pub fn on_models(engine: Engine, models: &Vec<ModelEntry>) -> (step: Step)
    ensures
        step@ == models_discovered(engine, models_view(models@)),
{
    match choose_model(engine, models) {
        Some(name) => perform(
            Action::LoadModel { engine, name: name.clone() },
            Pending::ReadyLoaded { name },
        ),
        None => refuse(
            ApiError::bad_request(
                match engine {
                    Engine::Whisper => owned(
                        "No Whisper models are available. Please download a model to enable transcription.",
                    ),
                    Engine::Parakeet => owned(
                        "No Parakeet models are available. Please download a model to enable fast transcription.",
                    ),
                },
            ),
        ),
    }
}

// ---------------------------------------------------------------------------
// Downloads
// ---------------------------------------------------------------------------

pub open spec fn download_model_step(engine: Engine, args: JsonView) -> StepView {
    with_text(
        args,
        "modelName"@,
        |name: Seq<char>|
            performing(ActionOf::StartDownload { engine, name }, PendingOf::Nothing),
    )
}

pub fn download_model(engine: Engine, args: &Json) -> (step: Step)
    ensures
        step@ == download_model_step(engine, args@),
{
    match req_str(args, "modelName") {
        Ok(name) => perform(Action::StartDownload { engine, name }, Pending::Nothing),
        Err(e) => refuse(e),
    }
}

pub open spec fn cancel_download_step(engine: Engine, args: JsonView) -> StepView {
    with_text(
        args,
        "modelName"@,
        |name: Seq<char>|
            performing(
                ActionOf::CancelDownload { engine, name },
                PendingOf::DownloadCancelled { engine, name },
            ),
    )
}

pub fn cancel_download(engine: Engine, args: &Json) -> (step: Step)
    ensures
        step@ == cancel_download_step(engine, args@),
{
    match req_str(args, "modelName") {
        Ok(name) => perform(
            Action::CancelDownload { engine, name: name.clone() },
            Pending::DownloadCancelled { engine, name },
        ),
        Err(e) => refuse(e),
    }
}

/// What is said once a download was stopped. Of a Parakeet download the browsers
/// hear, too.
pub open spec fn download_was_cancelled(engine: Engine, name: Seq<char>) -> StepView {
    match engine {
        Engine::Whisper => replied(JsonView::Null),
        Engine::Parakeet => StepView::Reply {
            events: seq![download_stopped(name)],
            result: Ok(JsonView::Null),
        },
    }
}

pub fn answer_download_cancelled(engine: Engine, name: &str) -> (step: Step)
    ensures
        step@ == download_was_cancelled(engine, name@),
{
    match engine {
        Engine::Whisper => reply(Json::Null),
        Engine::Parakeet => Step::Reply {
            events: one_event(
                event(
                    "parakeet-model-download-progress",
                    named_model(name).with("progress", Json::count(0)).with(
                        "status",
                        Json::text("cancelled"),
                    ),
                ),
            ),
            result: Ok(Json::Null),
        },
    }
}

pub open spec fn delete_model_step(engine: Engine, args: JsonView) -> StepView {
    with_text(
        args,
        "modelName"@,
        |name: Seq<char>|
            performing(ActionOf::DeleteModel { engine, name }, PendingOf::PlainText),
    )
}

pub fn delete_model(engine: Engine, args: &Json) -> (step: Step)
    ensures
        step@ == delete_model_step(engine, args@),
{
    match req_str(args, "modelName") {
        Ok(name) => perform(Action::DeleteModel { engine, name }, Pending::PlainText),
        Err(e) => refuse(e),
    }
}

} // verus!
