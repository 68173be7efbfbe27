//! What commands exchange with the world outside: actions that they ask for,
//! outcomes that come back, and what they wait for in between.

use vstd::prelude::*;

use crate::error::{result_view, ApiError, ApiErrorView};
use crate::events::{events_view, no_events, EventEnvelope, EventView};
use crate::json::{json_views, Json, JsonView, Number};

verus! {

/// A transcription engine.
#[derive(Debug, Clone, Copy, PartialEq, Eq, Structural)]
pub enum Engine {
    Whisper,
    Parakeet,
}

/// A provider whose models can be listed.
#[derive(Debug, Clone, Copy, PartialEq, Eq, Structural)]
pub enum Catalog {
    OpenAi,
    Anthropic,
    Groq,
    OpenRouter,
}

/// The settings of an OpenAI-compatible endpoint.
pub struct CustomOpenAiOf<S> {
    pub endpoint: S,
    pub api_key: Option<S>,
    pub model: S,
    pub max_tokens: Option<i32>,
    pub temperature: Option<Number>,
    pub top_p: Option<Number>,
}

pub type CustomOpenAi = CustomOpenAiOf<String>;

pub open spec fn custom_open_ai_view(c: CustomOpenAi) -> CustomOpenAiOf<Seq<char>> {
    CustomOpenAiOf {
        endpoint: c.endpoint@,
        api_key: c.api_key.deep_view(),
        model: c.model@,
        max_tokens: c.max_tokens,
        temperature: c.temperature,
        top_p: c.top_p,
    }
}

/// A summary that is made in the background.
pub struct SummaryJobOf<S> {
    pub meeting_id: S,
    pub text: S,
    pub provider_id: S,
    pub model_name: S,
    pub custom_prompt: S,
    pub template_id: S,
    pub summary_language: Option<S>,
}

pub type SummaryJob = SummaryJobOf<String>;

pub open spec fn summary_job_view(j: SummaryJob) -> SummaryJobOf<Seq<char>> {
    SummaryJobOf {
        meeting_id: j.meeting_id@,
        text: j.text@,
        provider_id: j.provider_id@,
        model_name: j.model_name@,
        custom_prompt: j.custom_prompt@,
        template_id: j.template_id@,
        summary_language: j.summary_language.deep_view(),
    }
}

/// What a command asks of the world outside: the database, the engines, the
/// providers of models. `S` stands for texts and `J` for JSON values.
pub enum ActionOf<S, J> {
    /// Every meeting.
    ListMeetings,
    /// One meeting with its transcripts.
    FindMeeting { id: S },
    /// One meeting without its transcripts.
    FindMeetingMetadata { id: S },
    /// A page of the transcripts of a meeting, and how many there are in all.
    PageTranscripts { id: S, limit: i64, offset: i64 },
    /// Save a new meeting. Segments that are not transcript segments are rejected.
    SaveTranscript { title: S, segments: J, folder: Option<S> },
    /// Delete a meeting; whether there was one.
    DeleteMeeting { id: S },
    /// Give a meeting a title; whether there was one.
    RenameMeeting { id: S, title: S },
    /// The transcripts that match.
    SearchTranscripts { query: S },
    /// The stored model settings.
    LoadModelConfig,
    /// Store model settings.
    StoreModelConfig { provider: S, model: S, whisper_model: S, ollama_endpoint: Option<S> },
    /// The API key of a provider.
    LoadApiKey { provider: S },
    /// Store the API key of a provider.
    StoreApiKey { provider: S, key: S },
    /// The stored transcription settings.
    LoadTranscriptConfig,
    /// Store transcription settings.
    StoreTranscriptConfig { provider: S, model: S },
    /// The API key of a transcription provider.
    LoadTranscriptApiKey { provider: S },
    /// Store the API key of a transcription provider.
    StoreTranscriptApiKey { provider: S, key: S },
    /// The stored settings of an OpenAI-compatible endpoint.
    LoadCustomOpenAi,
    /// Store the settings of an OpenAI-compatible endpoint.
    StoreCustomOpenAi { config: CustomOpenAiOf<S> },
    /// Post a body to a chat endpoint.
    PostChat { url: S, body: J, bearer: Option<S> },
    /// Parse a text as JSON.
    ParseJson { text: S },
    /// The summary process of a meeting.
    LoadSummary { id: S },
    /// Create the summary process of a meeting, or start it afresh.
    ResetProcess { id: S },
    /// Store what a summary is made of.
    StoreTranscriptData { id: S, text: S, provider: S, model: S, chunk_size: i32, overlap: i32 },
    /// Start a summary in the background.
    StartSummary { job: SummaryJobOf<S> },
    /// Mark the summary process of a meeting as cancelled.
    CancelProcess { id: S },
    /// Store the summary of a meeting; whether that could be done.
    StoreSummary { id: S, summary: J },
    /// The summary templates.
    ListTemplates,
    /// The models of an Ollama server.
    ListOllamaModels { endpoint: Option<S> },
    /// Delete a model of an Ollama server.
    DeleteOllamaModel { name: S, endpoint: Option<S> },
    /// The models of a provider.
    ListCatalog { catalog: Catalog, api_key: Option<S> },
    /// The models of an engine, as the browser is shown them.
    ListModels { engine: Engine },
    /// The models of an engine.
    DiscoverModels { engine: Engine },
    /// Load a model.
    LoadModel { engine: Engine, name: S },
    /// Whether a model is loaded.
    IsModelLoaded { engine: Engine },
    /// The model that is loaded.
    CurrentModel { engine: Engine },
    /// Where the models lie.
    ModelsDirectory { engine: Engine },
    /// Start to download a model in the background.
    StartDownload { engine: Engine, name: S },
    /// Stop a download.
    CancelDownload { engine: Engine, name: S },
    /// Delete a model; what is to be said of it.
    DeleteModel { engine: Engine, name: S },
}

pub type Action = ActionOf<String, Json>;

pub type ActionView = ActionOf<Seq<char>, JsonView>;

/// What an action holds.
pub open spec fn action_view(value: Action) -> ActionView {
    match value {
        ActionOf::ListMeetings => ActionOf::ListMeetings,
        ActionOf::FindMeeting { id } => ActionOf::FindMeeting { id: id@ },
        ActionOf::FindMeetingMetadata { id } => ActionOf::FindMeetingMetadata { id: id@ },
        ActionOf::PageTranscripts { id, limit, offset } => ActionOf::PageTranscripts {
            id: id@,
            limit,
            offset,
        },
        ActionOf::SaveTranscript { title, segments, folder } => ActionOf::SaveTranscript {
            title: title@,
            segments: segments@,
            folder: folder.deep_view(),
        },
        ActionOf::DeleteMeeting { id } => ActionOf::DeleteMeeting { id: id@ },
        ActionOf::RenameMeeting { id, title } => ActionOf::RenameMeeting { id: id@, title: title@ },
        ActionOf::SearchTranscripts { query } => ActionOf::SearchTranscripts { query: query@ },
        ActionOf::LoadModelConfig => ActionOf::LoadModelConfig,
        ActionOf::StoreModelConfig { provider, model, whisper_model, ollama_endpoint } => ActionOf::StoreModelConfig {
            provider: provider@,
            model: model@,
            whisper_model: whisper_model@,
            ollama_endpoint: ollama_endpoint.deep_view(),
        },
        ActionOf::LoadApiKey { provider } => ActionOf::LoadApiKey { provider: provider@ },
        ActionOf::StoreApiKey { provider, key } => ActionOf::StoreApiKey {
            provider: provider@,
            key: key@,
        },
        ActionOf::LoadTranscriptConfig => ActionOf::LoadTranscriptConfig,
        ActionOf::StoreTranscriptConfig { provider, model } => ActionOf::StoreTranscriptConfig {
            provider: provider@,
            model: model@,
        },
        ActionOf::LoadTranscriptApiKey { provider } => ActionOf::LoadTranscriptApiKey {
            provider: provider@,
        },
        ActionOf::StoreTranscriptApiKey { provider, key } => ActionOf::StoreTranscriptApiKey {
            provider: provider@,
            key: key@,
        },
        ActionOf::LoadCustomOpenAi => ActionOf::LoadCustomOpenAi,
        ActionOf::StoreCustomOpenAi { config } => ActionOf::StoreCustomOpenAi {
            config: custom_open_ai_view(config),
        },
        ActionOf::PostChat { url, body, bearer } => ActionOf::PostChat {
            url: url@,
            body: body@,
            bearer: bearer.deep_view(),
        },
        ActionOf::ParseJson { text } => ActionOf::ParseJson { text: text@ },
        ActionOf::LoadSummary { id } => ActionOf::LoadSummary { id: id@ },
        ActionOf::ResetProcess { id } => ActionOf::ResetProcess { id: id@ },
        ActionOf::StoreTranscriptData { id, text, provider, model, chunk_size, overlap } => ActionOf::StoreTranscriptData {
            id: id@,
            text: text@,
            provider: provider@,
            model: model@,
            chunk_size,
            overlap,
        },
        ActionOf::StartSummary { job } => ActionOf::StartSummary { job: summary_job_view(job) },
        ActionOf::CancelProcess { id } => ActionOf::CancelProcess { id: id@ },
        ActionOf::StoreSummary { id, summary } => ActionOf::StoreSummary {
            id: id@,
            summary: summary@,
        },
        ActionOf::ListTemplates => ActionOf::ListTemplates,
        ActionOf::ListOllamaModels { endpoint } => ActionOf::ListOllamaModels {
            endpoint: endpoint.deep_view(),
        },
        ActionOf::DeleteOllamaModel { name, endpoint } => ActionOf::DeleteOllamaModel {
            name: name@,
            endpoint: endpoint.deep_view(),
        },
        ActionOf::ListCatalog { catalog, api_key } => ActionOf::ListCatalog {
            catalog,
            api_key: api_key.deep_view(),
        },
        ActionOf::ListModels { engine } => ActionOf::ListModels { engine },
        ActionOf::DiscoverModels { engine } => ActionOf::DiscoverModels { engine },
        ActionOf::LoadModel { engine, name } => ActionOf::LoadModel { engine, name: name@ },
        ActionOf::IsModelLoaded { engine } => ActionOf::IsModelLoaded { engine },
        ActionOf::CurrentModel { engine } => ActionOf::CurrentModel { engine },
        ActionOf::ModelsDirectory { engine } => ActionOf::ModelsDirectory { engine },
        ActionOf::StartDownload { engine, name } => ActionOf::StartDownload { engine, name: name@ },
        ActionOf::CancelDownload { engine, name } => ActionOf::CancelDownload {
            engine,
            name: name@,
        },
        ActionOf::DeleteModel { engine, name } => ActionOf::DeleteModel { engine, name: name@ },
    }
}

/// What a command is waiting for, with what it needs to go on.
pub enum PendingOf<S, J> {
    Meetings,
    Meeting { id: S },
    Transcripts { offset: i64 },
    SavedTranscript,
    DeletedMeeting { id: S },
    RenamedMeeting { id: S },
    PlainValue,
    MaybeValue,
    MaybeName,
    PlainText,
    PlainFlag,
    Nothing,
    ModelConfig,
    ModelConfigKey { provider: S, setting: J },
    StoredModelConfig { provider: S, key: Option<S> },
    StoredModelKey,
    TranscriptConfig,
    TranscriptConfigKey { provider: S, setting: J },
    StoredTranscriptConfig { provider: S, key: Option<S> },
    StoredTranscriptKey,
    ApiKey,
    StoredCustomOpenAi,
    ChatPosted,
    ChatParsed { status: u16, body: S },
    SummaryTitle { id: S },
    SummaryProcess { id: S, title: J },
    SummaryData { id: S, title: J, process: J },
    ProcessReset { job: SummaryJobOf<S>, chunk_size: i32, overlap: i32 },
    TranscriptDataStored { job: SummaryJobOf<S> },
    SummaryStarted { id: S },
    ProcessCancelled { id: S },
    SummaryStored,
    Templates,
    AnyAvailable,
    Loading { engine: Engine, name: S },
    ReadyCurrent { engine: Engine },
    ReadyModels { engine: Engine },
    ReadyLoaded { name: S },
    DownloadCancelled { engine: Engine, name: S },
    FreshDatabase,
}

pub type Pending = PendingOf<String, Json>;

pub type PendingView = PendingOf<Seq<char>, JsonView>;

/// What a waiting command holds.
pub open spec fn pending_view(value: Pending) -> PendingView {
    match value {
        PendingOf::Meetings => PendingOf::Meetings,
        PendingOf::Meeting { id } => PendingOf::Meeting { id: id@ },
        PendingOf::Transcripts { offset } => PendingOf::Transcripts { offset },
        PendingOf::SavedTranscript => PendingOf::SavedTranscript,
        PendingOf::DeletedMeeting { id } => PendingOf::DeletedMeeting { id: id@ },
        PendingOf::RenamedMeeting { id } => PendingOf::RenamedMeeting { id: id@ },
        PendingOf::PlainValue => PendingOf::PlainValue,
        PendingOf::MaybeValue => PendingOf::MaybeValue,
        PendingOf::MaybeName => PendingOf::MaybeName,
        PendingOf::PlainText => PendingOf::PlainText,
        PendingOf::PlainFlag => PendingOf::PlainFlag,
        PendingOf::Nothing => PendingOf::Nothing,
        PendingOf::ModelConfig => PendingOf::ModelConfig,
        PendingOf::ModelConfigKey { provider, setting } => PendingOf::ModelConfigKey {
            provider: provider@,
            setting: setting@,
        },
        PendingOf::StoredModelConfig { provider, key } => PendingOf::StoredModelConfig {
            provider: provider@,
            key: key.deep_view(),
        },
        PendingOf::StoredModelKey => PendingOf::StoredModelKey,
        PendingOf::TranscriptConfig => PendingOf::TranscriptConfig,
        PendingOf::TranscriptConfigKey { provider, setting } => PendingOf::TranscriptConfigKey {
            provider: provider@,
            setting: setting@,
        },
        PendingOf::StoredTranscriptConfig { provider, key } => PendingOf::StoredTranscriptConfig {
            provider: provider@,
            key: key.deep_view(),
        },
        PendingOf::StoredTranscriptKey => PendingOf::StoredTranscriptKey,
        PendingOf::ApiKey => PendingOf::ApiKey,
        PendingOf::StoredCustomOpenAi => PendingOf::StoredCustomOpenAi,
        PendingOf::ChatPosted => PendingOf::ChatPosted,
        PendingOf::ChatParsed { status, body } => PendingOf::ChatParsed { status, body: body@ },
        PendingOf::SummaryTitle { id } => PendingOf::SummaryTitle { id: id@ },
        PendingOf::SummaryProcess { id, title } => PendingOf::SummaryProcess {
            id: id@,
            title: title@,
        },
        PendingOf::SummaryData { id, title, process } => PendingOf::SummaryData {
            id: id@,
            title: title@,
            process: process@,
        },
        PendingOf::ProcessReset { job, chunk_size, overlap } => PendingOf::ProcessReset {
            job: summary_job_view(job),
            chunk_size,
            overlap,
        },
        PendingOf::TranscriptDataStored { job } => PendingOf::TranscriptDataStored {
            job: summary_job_view(job),
        },
        PendingOf::SummaryStarted { id } => PendingOf::SummaryStarted { id: id@ },
        PendingOf::ProcessCancelled { id } => PendingOf::ProcessCancelled { id: id@ },
        PendingOf::SummaryStored => PendingOf::SummaryStored,
        PendingOf::Templates => PendingOf::Templates,
        PendingOf::AnyAvailable => PendingOf::AnyAvailable,
        PendingOf::Loading { engine, name } => PendingOf::Loading { engine, name: name@ },
        PendingOf::ReadyCurrent { engine } => PendingOf::ReadyCurrent { engine },
        PendingOf::ReadyModels { engine } => PendingOf::ReadyModels { engine },
        PendingOf::ReadyLoaded { name } => PendingOf::ReadyLoaded { name: name@ },
        PendingOf::DownloadCancelled { engine, name } => PendingOf::DownloadCancelled {
            engine,
            name: name@,
        },
        PendingOf::FreshDatabase => PendingOf::FreshDatabase,
    }
}

/// A model that an engine knows of.
pub struct ModelEntry {
    pub name: String,
    /// Whether it is downloaded and ready to be loaded.
    pub available: bool,
    /// How its weights are stored, by name.
    pub quantization: String,
}

/// What a [`ModelEntry`] holds.
pub struct ModelView {
    pub name: Seq<char>,
    pub available: bool,
    pub quantization: Seq<char>,
}

impl View for ModelEntry {
    type V = ModelView;

    open spec fn view(&self) -> ModelView {
        ModelView {
            name: self.name@,
            available: self.available,
            quantization: self.quantization@,
        }
    }
}

/// What a list of models holds.
pub open spec fn models_view(models: Seq<ModelEntry>) -> Seq<ModelView> {
    Seq::new(models.len(), |i: int| models[i]@)
}

/// A summary template.
pub struct Template {
    pub id: String,
    pub name: String,
    pub description: String,
}

/// What a [`Template`] holds.
pub struct TemplateView {
    pub id: Seq<char>,
    pub name: Seq<char>,
    pub description: Seq<char>,
}

impl View for Template {
    type V = TemplateView;

    open spec fn view(&self) -> TemplateView {
        TemplateView { id: self.id@, name: self.name@, description: self.description@ }
    }
}

/// What a list of templates holds.
pub open spec fn templates_view(templates: Seq<Template>) -> Seq<TemplateView> {
    Seq::new(templates.len(), |i: int| templates[i]@)
}

/// What came of an action.
#[allow(inconsistent_fields)]
pub enum Outcome {
    /// It was done.
    Done,
    /// It could not be done, for a reason.
    Failed { error: String },
    /// What it was given, or what it found, could not be converted.
    Rejected { error: String },
    Flag { value: bool },
    Text { value: String },
    MaybeText { value: Option<String> },
    Value { value: Json },
    MaybeValue { value: Option<Json> },
    Values { rows: Vec<Json> },
    Page { rows: Vec<Json>, total: i64 },
    /// An answer over HTTP.
    Answer { status: u16, body: String },
    TimedOut,
    Unreachable,
    Parsed { value: Json },
    Templates { list: Vec<Template> },
    Models { list: Vec<ModelEntry> },
}

/// What an [`Outcome`] holds.
#[allow(inconsistent_fields)]
pub enum OutcomeView {
    Done,
    Failed { error: Seq<char> },
    Rejected { error: Seq<char> },
    Flag { value: bool },
    Text { value: Seq<char> },
    MaybeText { value: Option<Seq<char>> },
    Value { value: JsonView },
    MaybeValue { value: Option<JsonView> },
    Values { rows: Seq<JsonView> },
    Page { rows: Seq<JsonView>, total: i64 },
    Answer { status: u16, body: Seq<char> },
    TimedOut,
    Unreachable,
    Parsed { value: JsonView },
    Templates { list: Seq<TemplateView> },
    Models { list: Seq<ModelView> },
}

impl View for Outcome {
    type V = OutcomeView;

    open spec fn view(&self) -> OutcomeView {
        match *self {
            Outcome::Done => OutcomeView::Done,
            Outcome::Failed { error } => OutcomeView::Failed { error: error@ },
            Outcome::Rejected { error } => OutcomeView::Rejected { error: error@ },
            Outcome::Flag { value } => OutcomeView::Flag { value },
            Outcome::Text { value } => OutcomeView::Text { value: value@ },
            Outcome::MaybeText { value } => OutcomeView::MaybeText { value: value.deep_view() },
            Outcome::Value { value } => OutcomeView::Value { value: value@ },
            Outcome::MaybeValue { value } => OutcomeView::MaybeValue { value: value.deep_view() },
            Outcome::Values { rows } => OutcomeView::Values { rows: json_views(rows@) },
            Outcome::Page { rows, total } => OutcomeView::Page { rows: json_views(rows@), total },
            Outcome::Answer { status, body } => OutcomeView::Answer { status, body: body@ },
            Outcome::TimedOut => OutcomeView::TimedOut,
            Outcome::Unreachable => OutcomeView::Unreachable,
            Outcome::Parsed { value } => OutcomeView::Parsed { value: value@ },
            Outcome::Templates { list } => OutcomeView::Templates { list: templates_view(list@) },
            Outcome::Models { list } => OutcomeView::Models { list: models_view(list@) },
        }
    }
}

/// Where a command stands: it has its answer, or it asks for an action first.
/// Either way there may be events to push out before that.
pub enum Step {
    Reply { events: Vec<EventEnvelope>, result: Result<Json, ApiError> },
    Perform { events: Vec<EventEnvelope>, action: Action, pending: Pending },
}

/// What a [`Step`] holds.
pub enum StepView {
    Reply { events: Seq<EventView>, result: Result<JsonView, ApiErrorView> },
    Perform { events: Seq<EventView>, action: ActionView, pending: PendingView },
}

impl View for Step {
    type V = StepView;

    open spec fn view(&self) -> StepView {
        match *self {
            Step::Reply { events, result } => StepView::Reply {
                events: events_view(events@),
                result: result_view(result),
            },
            Step::Perform { events, action, pending } => StepView::Perform {
                events: events_view(events@),
                action: action_view(action),
                pending: pending_view(pending),
            },
        }
    }
}

/// The answer is this value.
pub open spec fn replied(value: JsonView) -> StepView {
    StepView::Reply { events: Seq::empty(), result: Ok(value) }
}

/// The answer is this error.
pub open spec fn refused(error: ApiErrorView) -> StepView {
    StepView::Reply { events: Seq::empty(), result: Err(error) }
}

/// This action comes next.
pub open spec fn performing(action: ActionView, pending: PendingView) -> StepView {
    StepView::Perform { events: Seq::empty(), action, pending }
}

pub fn reply(value: Json) -> (step: Step)
    ensures
        step@ == replied(value@),
{
    Step::Reply { events: no_events(), result: Ok(value) }
}

pub fn refuse(error: ApiError) -> (step: Step)
    ensures
        step@ == refused(error@),
{
    Step::Reply { events: no_events(), result: Err(error) }
}

pub fn perform(action: Action, pending: Pending) -> (step: Step)
    ensures
        step@ == performing(action_view(action), pending_view(pending)),
{
    Step::Perform { events: no_events(), action, pending }
}

/// Outcomes are seen whole: nothing of them is lost on the way.
pub proof fn outcomes_are_seen_whole(
    text: String,
    flag: bool,
    maybe: Option<String>,
    value: Json,
    found: Option<Json>,
    rows: Vec<Json>,
    total: i64,
    status: u16,
    templates: Vec<Template>,
    models: Vec<ModelEntry>,
)
    ensures
        Outcome::Done@ is Done,
        Outcome::TimedOut@ is TimedOut,
        Outcome::Unreachable@ is Unreachable,
        (Outcome::Failed { error: text })@ == (OutcomeView::Failed { error: text@ }),
        (Outcome::Rejected { error: text })@ == (OutcomeView::Rejected { error: text@ }),
        (Outcome::Flag { value: flag })@ == (OutcomeView::Flag { value: flag }),
        (Outcome::Text { value: text })@ == (OutcomeView::Text { value: text@ }),
        (Outcome::MaybeText { value: maybe })@ == (OutcomeView::MaybeText {
            value: maybe.deep_view(),
        }),
        (Outcome::Value { value })@ == (OutcomeView::Value { value: value@ }),
        (Outcome::MaybeValue { value: found })@ == (OutcomeView::MaybeValue {
            value: found.deep_view(),
        }),
        (Outcome::Answer { status, body: text })@ == (OutcomeView::Answer { status, body: text@ }),
        (Outcome::Parsed { value })@ == (OutcomeView::Parsed { value: value@ }),
        (Outcome::Page { rows, total })@ matches OutcomeView::Page { rows: shown, total: all }
            && all == total && shown.len() == rows@.len() && forall|i: int|
            0 <= i < rows@.len() ==> #[trigger] shown[i] == rows@[i]@,
        (Outcome::Values { rows })@ matches OutcomeView::Values { rows: shown } && shown.len()
            == rows@.len() && forall|i: int|
            0 <= i < rows@.len() ==> #[trigger] shown[i] == rows@[i]@,
        (Outcome::Templates { list: templates })@ matches OutcomeView::Templates { list }
            && list.len() == templates@.len() && forall|i: int|
            0 <= i < list.len() ==> (#[trigger] list[i]).id == templates@[i].id@ && list[i].name
                == templates@[i].name@ && list[i].description == templates@[i].description@,
        (Outcome::Models { list: models })@ matches OutcomeView::Models { list } && list.len()
            == models@.len() && forall|i: int|
            0 <= i < list.len() ==> (#[trigger] list[i]).name == models@[i].name@
                && list[i].available == models@[i].available && list[i].quantization
                == models@[i].quantization@,
{
}

} // verus!
