//! Command dispatch for the web build.
//!
//! A command is a conversation: [`dispatch`] gives its first step, and each time
//! an action has been performed [`resume`] gives the next, until there is an
//! answer. Commands that only make sense on a desktop are handled in the browser
//! and never reach here. Anything unknown is answered with 404, and never
//! silently swallowed.

use vstd::prelude::*;

use crate::args::{opt_str, req_str, solid_text_arg, text_arg, with_text};
use crate::commands::{command_named, find_command, Command};
use crate::engines::{
    answer_download_cancelled, answer_loaded, any_available, cancel_download, cancel_download_step,
    current_model_found, delete_model, delete_model_step, download_model, download_model_step,
    download_was_cancelled, has_available, load_model, load_model_step, model_loaded,
    models_discovered, on_current_model, on_models,
};
use crate::error::{
    bad_request_error, internal_error, not_found_error, ApiError, ApiErrorView, BAD_REQUEST,
    INTERNAL_SERVER_ERROR, NOT_FOUND,
};
use crate::events::{event, one_event, EventView};
use crate::jobs::job_endpoint;
use crate::json::{fields_are_found_again, text_or_null, Json, JsonView};
use crate::meetings::{
    answer_deleted, answer_meeting, answer_rejected, answer_renamed, answer_saved, delete_meeting,
    delete_meeting_step, get_meeting, get_meeting_metadata, get_meeting_metadata_step,
    get_meeting_step, get_meeting_transcripts, get_meeting_transcripts_step, list_meetings,
    meeting_deleted, meeting_found, meeting_list, meeting_renamed, page_transcripts,
    save_meeting_title, save_meeting_title_step, save_transcript, save_transcript_step,
    search_transcripts, search_transcripts_step, success, success_reply, transcript_page,
    transcript_rejected, transcript_saved,
};
use crate::outside::{fresh_uuid, uuid_text};
use crate::paths::joined;
use crate::protocol::{
    perform, performing, pending_view, refuse, refused, replied, reply, Action, ActionOf, Catalog,
    Engine, Outcome, OutcomeView, Pending, PendingOf, PendingView, Step, StepView,
};
use crate::settings::{
    chat_answered, chat_checked, chat_garbled, check_chat, get_api_key, get_api_key_step,
    get_transcript_api_key, get_transcript_api_key_step, model_config, model_config_found,
    on_chat_answer, on_model_config, on_transcript_config, refuse_garbled, save_custom_openai,
    save_custom_openai_step, save_model_config, save_model_config_step, save_transcript_config,
    save_transcript_config_step, show_model_config, show_transcript_config, test_custom_openai,
    test_custom_openai_step, transcript_config, transcript_config_found,
};
use crate::state::{ServerState, ServerView};
use crate::summary::{
    answer_cancelled, answer_language, answer_started, answer_stored, answer_summary,
    cancel_summary, cancel_summary_step, data_was_stored, get_summary, get_summary_step,
    known_summary, language_fallback, list_templates, on_data_stored, on_process, on_process_reset,
    on_title, process_found, process_transcript, process_transcript_step, process_was_reset,
    save_meeting_summary, save_meeting_summary_step, summary_cancelled, summary_started,
    summary_stored, template_list, title_found,
};
use crate::text::{join2, join3, owned};

verus! {

// ---------------------------------------------------------------------------
// The first step
// ---------------------------------------------------------------------------

/// The error for a command that there is none of. It names the command.
pub open spec fn unsupported(name: Seq<char>) -> ApiErrorView {
    not_found_error("Command `"@ + name + "` is not available in the self-hosted web build"@)
}

/// The Ollama endpoint of a request, or the configured one.
pub open spec fn endpoint_for(server: ServerView, args: JsonView) -> Option<Seq<char>> {
    match text_arg(args, "endpoint"@) {
        Some(e) => Some(e),
        None => server.ollama_endpoint,
    }
}

fn find_endpoint(state: &ServerState, args: &Json) -> (endpoint: Option<String>)
    ensures
        endpoint.deep_view() == endpoint_for(state@, args@),
{
    match opt_str(args, "endpoint") {
        Some(e) => Some(e),
        None => state.ollama_endpoint(),
    }
}

pub open spec fn delete_ollama_model_step(server: ServerView, args: JsonView) -> StepView {
    with_text(
        args,
        "modelName"@,
        |name: Seq<char>|
            performing(
                ActionOf::DeleteOllamaModel { name, endpoint: endpoint_for(server, args) },
                PendingOf::Nothing,
            ),
    )
}

fn delete_ollama_model(state: &ServerState, args: &Json) -> (step: Step)
    ensures
        step@ == delete_ollama_model_step(state@, args@),
{
    match req_str(args, "modelName") {
        Ok(name) => perform(
            Action::DeleteOllamaModel { name, endpoint: find_endpoint(state, args) },
            Pending::Nothing,
        ),
        Err(e) => refuse(e),
    }
}

/// The preferences of a recording, which are the same for everyone.
pub open spec fn recording_preferences(data_dir: Seq<char>) -> JsonView {
    JsonView::object().with(
        "save_folder"@,
        JsonView::Text(joined(data_dir, "recordings"@)),
    ).with("auto_save"@, JsonView::Bool(true)).with("file_format"@, JsonView::Text("mp4"@)).with(
        "preferred_mic_device"@,
        JsonView::Null,
    ).with("preferred_system_device"@, JsonView::Null)
}

fn show_preferences(state: &ServerState) -> (out: Json)
    ensures
        out@ == recording_preferences(state@.data_dir),
{
    Json::object().with("save_folder", Json::Text(state.recordings_dir())).with(
        "auto_save",
        Json::Bool(true),
    ).with("file_format", Json::text("mp4")).with("preferred_mic_device", Json::Null).with(
        "preferred_system_device",
        Json::Null,
    )
}

/// What each command does first. `fresh` is an identifier that nothing has yet.
pub open spec fn started(
    server: ServerView,
    command: Command,
    args: JsonView,
    fresh: Seq<char>,
) -> StepView {
    match command {
        Command::GetMeetings => performing(ActionOf::ListMeetings, PendingOf::Meetings),
        Command::GetMeeting => get_meeting_step(args),
        Command::GetMeetingMetadata => get_meeting_metadata_step(args),
        Command::GetMeetingTranscripts => get_meeting_transcripts_step(args),
        Command::SaveTranscript => save_transcript_step(args),
        Command::DeleteMeeting => delete_meeting_step(args),
        Command::SaveMeetingTitle => save_meeting_title_step(args),
        Command::SearchTranscripts => search_transcripts_step(args),
        Command::GetModelConfig => performing(ActionOf::LoadModelConfig, PendingOf::ModelConfig),
        Command::SaveModelConfig => save_model_config_step(args),
        Command::GetTranscriptConfig => performing(
            ActionOf::LoadTranscriptConfig,
            PendingOf::TranscriptConfig,
        ),
        Command::SaveTranscriptConfig => save_transcript_config_step(args),
        Command::GetApiKey => get_api_key_step(args),
        Command::GetTranscriptApiKey => get_transcript_api_key_step(args),
        Command::GetCustomOpenAi => performing(ActionOf::LoadCustomOpenAi, PendingOf::MaybeValue),
        Command::SaveCustomOpenAi => save_custom_openai_step(args),
        Command::TestCustomOpenAi => test_custom_openai_step(args),
        Command::GetSummary => get_summary_step(args),
        Command::ProcessTranscript => process_transcript_step(args, fresh),
        Command::CancelSummary => cancel_summary_step(args),
        Command::SaveMeetingSummary => save_meeting_summary_step(args),
        Command::ListTemplates => performing(ActionOf::ListTemplates, PendingOf::Templates),
        Command::GetSummaryLanguage => replied(language_fallback()),
        Command::SaveSummaryLanguage => replied(language_fallback()),
        Command::GetAutoGenerate => replied(JsonView::Bool(true)),
        Command::GetOllamaModels => performing(
            ActionOf::ListOllamaModels { endpoint: endpoint_for(server, args) },
            PendingOf::PlainValue,
        ),
        Command::DeleteOllamaModel => delete_ollama_model_step(server, args),
        Command::GetOpenAiModels => performing(
            ActionOf::ListCatalog {
                catalog: Catalog::OpenAi,
                api_key: text_arg(args, "apiKey"@),
            },
            PendingOf::PlainValue,
        ),
        Command::GetAnthropicModels => performing(
            ActionOf::ListCatalog {
                catalog: Catalog::Anthropic,
                api_key: text_arg(args, "apiKey"@),
            },
            PendingOf::PlainValue,
        ),
        Command::GetGroqModels => performing(
            ActionOf::ListCatalog { catalog: Catalog::Groq, api_key: text_arg(args, "apiKey"@) },
            PendingOf::PlainValue,
        ),
        Command::GetOpenRouterModels => performing(
            ActionOf::ListCatalog { catalog: Catalog::OpenRouter, api_key: None },
            PendingOf::PlainValue,
        ),
        Command::Init(_) => replied(JsonView::Null),
        Command::ListModels(engine) => performing(
            ActionOf::ListModels { engine },
            PendingOf::PlainValue,
        ),
        Command::HasModels(engine) => performing(
            ActionOf::DiscoverModels { engine },
            PendingOf::AnyAvailable,
        ),
        Command::LoadModel(engine) => load_model_step(engine, args),
        Command::IsModelLoaded(engine) => performing(
            ActionOf::IsModelLoaded { engine },
            PendingOf::PlainFlag,
        ),
        Command::CurrentModel(engine) => performing(
            ActionOf::CurrentModel { engine },
            PendingOf::MaybeName,
        ),
        Command::ModelsDirectory(engine) => performing(
            ActionOf::ModelsDirectory { engine },
            PendingOf::PlainText,
        ),
        Command::ValidateReady(engine) => performing(
            ActionOf::CurrentModel { engine },
            PendingOf::ReadyCurrent { engine },
        ),
        Command::DownloadModel(engine) => download_model_step(engine, args),
        Command::CancelDownload(engine) => cancel_download_step(engine, args),
        Command::DeleteModel(engine) => delete_model_step(engine, args),
        Command::RetryParakeetDownload => download_model_step(Engine::Parakeet, args),
        Command::GetDatabaseDirectory => replied(JsonView::Text(server.data_dir)),
        Command::GetRecordingsFolder => replied(
            JsonView::Text(joined(server.data_dir, "recordings"@)),
        ),
        Command::GetRecordingPreferences => replied(recording_preferences(server.data_dir)),
        Command::SetRecordingPreferences => replied(JsonView::Null),
        Command::SetNotificationSettings => replied(JsonView::Null),
        Command::SetLanguagePreference => replied(JsonView::Null),
        Command::GetNotificationSettings => replied(JsonView::Null),
        Command::CheckFirstLaunch => replied(JsonView::Bool(false)),
        Command::CheckDefaultLegacyDatabase => replied(JsonView::Null),
        Command::DetectLegacyDatabase => replied(JsonView::Null),
        Command::CheckHomebrewDatabase => replied(JsonView::Null),
        Command::InitializeFreshDatabase => performing(
            ActionOf::StoreTranscriptConfig {
                provider: "parakeet"@,
                model: server.default_parakeet_model,
            },
            PendingOf::FreshDatabase,
        ),
        Command::ListBuiltinModels => replied(JsonView::Array(Seq::empty())),
        Command::IsBuiltinReady => replied(JsonView::Bool(false)),
        Command::GetBuiltinModelInfo => replied(JsonView::Null),
        Command::GetBuiltinSummaryModel => replied(JsonView::Null),
    }
}

fn empty_list() -> (out: Json)
    ensures
        out@ == JsonView::Array(Seq::empty()),
{
    let out = Json::array(Vec::new());
    assert(out@->Array_0 =~= Seq::empty());
    out
}

/// Starts a command.
pub fn start(state: &ServerState, command: Command, args: &Json, fresh: &str) -> (step: Step)
    ensures
        step@ == started(state@, command, args@, fresh@),
{
    match command {
        Command::GetMeetings => perform(Action::ListMeetings, Pending::Meetings),
        Command::GetMeeting => get_meeting(args),
        Command::GetMeetingMetadata => get_meeting_metadata(args),
        Command::GetMeetingTranscripts => get_meeting_transcripts(args),
        Command::SaveTranscript => save_transcript(args),
        Command::DeleteMeeting => delete_meeting(args),
        Command::SaveMeetingTitle => save_meeting_title(args),
        Command::SearchTranscripts => search_transcripts(args),
        Command::GetModelConfig => perform(Action::LoadModelConfig, Pending::ModelConfig),
        Command::SaveModelConfig => save_model_config(args),
        Command::GetTranscriptConfig => perform(
            Action::LoadTranscriptConfig,
            Pending::TranscriptConfig,
        ),
        Command::SaveTranscriptConfig => save_transcript_config(args),
        Command::GetApiKey => get_api_key(args),
        Command::GetTranscriptApiKey => get_transcript_api_key(args),
        Command::GetCustomOpenAi => perform(Action::LoadCustomOpenAi, Pending::MaybeValue),
        Command::SaveCustomOpenAi => save_custom_openai(args),
        Command::TestCustomOpenAi => test_custom_openai(args),
        Command::GetSummary => get_summary(args),
        Command::ProcessTranscript => process_transcript(args, fresh),
        Command::CancelSummary => cancel_summary(args),
        Command::SaveMeetingSummary => save_meeting_summary(args),
        Command::ListTemplates => perform(Action::ListTemplates, Pending::Templates),
        Command::GetSummaryLanguage => reply(answer_language()),
        Command::SaveSummaryLanguage => reply(answer_language()),
        Command::GetAutoGenerate => reply(Json::Bool(true)),
        Command::GetOllamaModels => perform(
            Action::ListOllamaModels { endpoint: find_endpoint(state, args) },
            Pending::PlainValue,
        ),
        Command::DeleteOllamaModel => delete_ollama_model(state, args),
        Command::GetOpenAiModels => perform(
            Action::ListCatalog { catalog: Catalog::OpenAi, api_key: opt_str(args, "apiKey") },
            Pending::PlainValue,
        ),
        Command::GetAnthropicModels => perform(
            Action::ListCatalog { catalog: Catalog::Anthropic, api_key: opt_str(args, "apiKey") },
            Pending::PlainValue,
        ),
        Command::GetGroqModels => perform(
            Action::ListCatalog { catalog: Catalog::Groq, api_key: opt_str(args, "apiKey") },
            Pending::PlainValue,
        ),
        Command::GetOpenRouterModels => perform(
            Action::ListCatalog { catalog: Catalog::OpenRouter, api_key: None },
            Pending::PlainValue,
        ),
        Command::Init(_) => reply(Json::Null),
        Command::ListModels(engine) => perform(
            Action::ListModels { engine },
            Pending::PlainValue,
        ),
        Command::HasModels(engine) => perform(
            Action::DiscoverModels { engine },
            Pending::AnyAvailable,
        ),
        Command::LoadModel(engine) => load_model(engine, args),
        Command::IsModelLoaded(engine) => perform(
            Action::IsModelLoaded { engine },
            Pending::PlainFlag,
        ),
        Command::CurrentModel(engine) => perform(
            Action::CurrentModel { engine },
            Pending::MaybeName,
        ),
        Command::ModelsDirectory(engine) => perform(
            Action::ModelsDirectory { engine },
            Pending::PlainText,
        ),
        Command::ValidateReady(engine) => perform(
            Action::CurrentModel { engine },
            Pending::ReadyCurrent { engine },
        ),
        Command::DownloadModel(engine) => download_model(engine, args),
        Command::CancelDownload(engine) => cancel_download(engine, args),
        Command::DeleteModel(engine) => delete_model(engine, args),
        Command::RetryParakeetDownload => download_model(Engine::Parakeet, args),
        Command::GetDatabaseDirectory => reply(Json::Text(state.data_directory())),
        Command::GetRecordingsFolder => reply(Json::Text(state.recordings_dir())),
        Command::GetRecordingPreferences => reply(show_preferences(state)),
        Command::SetRecordingPreferences => reply(Json::Null),
        Command::SetNotificationSettings => reply(Json::Null),
        Command::SetLanguagePreference => reply(Json::Null),
        Command::GetNotificationSettings => reply(Json::Null),
        Command::CheckFirstLaunch => reply(Json::Bool(false)),
        Command::CheckDefaultLegacyDatabase => reply(Json::Null),
        Command::DetectLegacyDatabase => reply(Json::Null),
        Command::CheckHomebrewDatabase => reply(Json::Null),
        Command::InitializeFreshDatabase => perform(
            Action::StoreTranscriptConfig {
                provider: owned("parakeet"),
                model: state.default_model(),
            },
            Pending::FreshDatabase,
        ),
        Command::ListBuiltinModels => reply(empty_list()),
        Command::IsBuiltinReady => reply(Json::Bool(false)),
        Command::GetBuiltinModelInfo => reply(Json::Null),
        Command::GetBuiltinSummaryModel => reply(Json::Null),
    }
}

/// What a command does first, by its name.
pub open spec fn first_step(
    server: ServerView,
    name: Seq<char>,
    args: JsonView,
    fresh: Seq<char>,
) -> StepView {
    match command_named(name) {
        Some(command) => started(server, command, args, fresh),
        None => refused(unsupported(name)),
    }
}

/// Starts the command of this name, with an identifier that nothing has yet.
pub fn dispatch_with(state: &ServerState, name: &str, args: &Json, fresh: &str) -> (step: Step)
    ensures
        step@ == first_step(state@, name@, args@, fresh@),
{
    match find_command(name) {
        Some(command) => start(state, command, args, fresh),
        None => refuse(
            ApiError::not_found(
                join3("Command `", name, "` is not available in the self-hosted web build"),
            ),
        ),
    }
}

/// Starts the command of this name. The identifier of a meeting that has none is
/// a random UUID.
pub fn dispatch(state: &ServerState, name: &str, args: &Json) -> (step: Step)
    ensures
        exists|fresh: Seq<char>| #[trigger]
            uuid_text(fresh) && step@ == first_step(state@, name@, args@, fresh),
{
    let fresh = fresh_uuid();
    assert(uuid_text(fresh@));
    dispatch_with(state, name, args, fresh.as_str())
}

// ---------------------------------------------------------------------------
// The steps after it
// ---------------------------------------------------------------------------

/// The outcomes that a waiting command can get. Asking an engine what it has
/// loaded, listing the templates and starting a background job always succeed.
pub open spec fn fits(pending: PendingView, outcome: OutcomeView) -> bool {
    match pending {
        PendingOf::Meetings => outcome is Values || outcome is Failed,
        PendingOf::Meeting { .. } => outcome is MaybeValue || outcome is Failed,
        PendingOf::Transcripts { .. } => outcome is Page || outcome is Failed,
        PendingOf::SavedTranscript => outcome is Text || outcome is Rejected || outcome is Failed,
        PendingOf::DeletedMeeting { .. } => outcome is Flag || outcome is Failed,
        PendingOf::RenamedMeeting { .. } => outcome is Flag || outcome is Failed,
        PendingOf::PlainValue => outcome is Value || outcome is Failed,
        PendingOf::MaybeValue => outcome is MaybeValue || outcome is Failed,
        PendingOf::MaybeName => outcome is MaybeText,
        PendingOf::PlainText => outcome is Text || outcome is Failed,
        PendingOf::PlainFlag => outcome is Flag,
        PendingOf::Nothing => outcome is Done || outcome is Failed,
        PendingOf::ModelConfig => outcome is MaybeValue || outcome is Failed,
        PendingOf::ModelConfigKey { .. } => outcome is MaybeText || outcome is Failed,
        PendingOf::StoredModelConfig { .. } => outcome is Done || outcome is Failed,
        PendingOf::StoredModelKey => outcome is Done || outcome is Failed,
        PendingOf::TranscriptConfig => outcome is MaybeValue || outcome is Failed,
        PendingOf::TranscriptConfigKey { .. } => outcome is MaybeText || outcome is Failed,
        PendingOf::StoredTranscriptConfig { .. } => outcome is Done || outcome is Failed,
        PendingOf::StoredTranscriptKey => outcome is Done || outcome is Failed,
        PendingOf::ApiKey => outcome is MaybeText || outcome is Failed,
        PendingOf::StoredCustomOpenAi => outcome is Done || outcome is Failed,
        PendingOf::ChatPosted => outcome is Answer || outcome is TimedOut || outcome is Unreachable
            || outcome is Failed,
        PendingOf::ChatParsed { .. } => outcome is Parsed || outcome is Rejected,
        PendingOf::SummaryTitle { .. } => outcome is MaybeValue || outcome is Rejected
            || outcome is Failed,
        PendingOf::SummaryProcess { .. } => outcome is MaybeValue || outcome is Failed,
        PendingOf::SummaryData { .. } => outcome is Parsed || outcome is Rejected,
        PendingOf::ProcessReset { .. } => outcome is Done || outcome is Failed,
        PendingOf::TranscriptDataStored { .. } => outcome is Done || outcome is Failed,
        PendingOf::SummaryStarted { .. } => outcome is Done,
        PendingOf::ProcessCancelled { .. } => outcome is Done || outcome is Failed,
        PendingOf::SummaryStored => outcome is Flag || outcome is Failed,
        PendingOf::Templates => outcome is Templates,
        PendingOf::AnyAvailable => outcome is Models || outcome is Failed,
        PendingOf::Loading { .. } => outcome is Done || outcome is Failed,
        PendingOf::ReadyCurrent { .. } => outcome is MaybeText,
        PendingOf::ReadyModels { .. } => outcome is Models || outcome is Failed,
        PendingOf::ReadyLoaded { .. } => outcome is Done || outcome is Failed,
        PendingOf::DownloadCancelled { .. } => outcome is Done || outcome is Failed,
        PendingOf::FreshDatabase => outcome is Done || outcome is Failed,
    }
}

/// The value, or null where there is none.
pub open spec fn value_or_null(value: Option<JsonView>) -> JsonView {
    match value {
        Some(v) => v,
        None => JsonView::Null,
    }
}

/// With the settings stored, the key is stored next, where there is one.
pub open spec fn model_config_stored(provider: Seq<char>, key: Option<Seq<char>>) -> StepView {
    match key {
        Some(key) => performing(
            ActionOf::StoreApiKey { provider, key },
            PendingOf::StoredModelKey,
        ),
        None => replied(success("Model configuration saved successfully"@)),
    }
}

/// With the settings stored, the key is stored next, where there is one.
pub open spec fn transcript_config_stored(provider: Seq<char>, key: Option<Seq<char>>) -> StepView {
    match key {
        Some(key) => performing(
            ActionOf::StoreTranscriptApiKey { provider, key },
            PendingOf::StoredTranscriptKey,
        ),
        None => replied(success("Transcript configuration saved successfully"@)),
    }
}

/// The browsers hear of a fresh database, whether its settings could be stored or
/// not.
pub open spec fn database_initialized() -> StepView {
    StepView::Reply {
        events: seq![EventView { event: "database-initialized"@, payload: JsonView::Null }],
        result: Ok(JsonView::Null),
    }
}

/// What a waiting command does with an outcome. An action that failed is the
/// server's failure, unless the command can do without it.
pub open spec fn resumed(
    server: ServerView,
    pending: PendingView,
    outcome: OutcomeView,
) -> StepView {
    match (pending, outcome) {
        (PendingOf::Meetings, OutcomeView::Values { rows }) => replied(meeting_list(rows)),
        (PendingOf::Meeting { id }, OutcomeView::MaybeValue { value }) => meeting_found(id, value),
        (PendingOf::Transcripts { offset }, OutcomeView::Page { rows, total }) => replied(
            transcript_page(rows, total, offset),
        ),
        (PendingOf::SavedTranscript, OutcomeView::Text { value }) => replied(
            transcript_saved(value),
        ),
        (PendingOf::SavedTranscript, OutcomeView::Rejected { error }) => transcript_rejected(error),
        (PendingOf::DeletedMeeting { id }, OutcomeView::Flag { value }) => meeting_deleted(
            id,
            value,
        ),
        (PendingOf::RenamedMeeting { id }, OutcomeView::Flag { value }) => meeting_renamed(
            id,
            value,
        ),
        (PendingOf::PlainValue, OutcomeView::Value { value }) => replied(value),
        (PendingOf::MaybeValue, OutcomeView::MaybeValue { value }) => replied(value_or_null(value)),
        (PendingOf::MaybeName, OutcomeView::MaybeText { value }) => replied(text_or_null(value)),
        (PendingOf::PlainText, OutcomeView::Text { value }) => replied(JsonView::Text(value)),
        (PendingOf::PlainFlag, OutcomeView::Flag { value }) => replied(JsonView::Bool(value)),
        (PendingOf::Nothing, OutcomeView::Done) => replied(JsonView::Null),
        (PendingOf::ModelConfig, OutcomeView::MaybeValue { value }) => model_config_found(value),
        (PendingOf::ModelConfigKey { provider, setting }, OutcomeView::MaybeText { value }) =>
            replied(model_config(provider, setting, value, server.ollama_endpoint)),
        (PendingOf::ModelConfigKey { provider, setting }, OutcomeView::Failed { error }) => replied(
            model_config(provider, setting, None, server.ollama_endpoint),
        ),
        (PendingOf::StoredModelConfig { provider, key }, OutcomeView::Done) => model_config_stored(
            provider,
            key,
        ),
        (PendingOf::StoredModelKey, OutcomeView::Done) => replied(
            success("Model configuration saved successfully"@),
        ),
        (PendingOf::TranscriptConfig, OutcomeView::MaybeValue { value }) => transcript_config_found(
            value,
            server.default_parakeet_model,
        ),
        (PendingOf::TranscriptConfigKey { provider, setting }, OutcomeView::MaybeText { value }) =>
            replied(transcript_config(provider, setting.pick("model"@), value)),
        (PendingOf::TranscriptConfigKey { provider, setting }, OutcomeView::Failed { error }) =>
            replied(transcript_config(provider, setting.pick("model"@), None)),
        (PendingOf::StoredTranscriptConfig { provider, key }, OutcomeView::Done) =>
            transcript_config_stored(provider, key),
        (PendingOf::StoredTranscriptKey, OutcomeView::Done) => replied(
            success("Transcript configuration saved successfully"@),
        ),
        (PendingOf::ApiKey, OutcomeView::MaybeText { value }) => replied(
            JsonView::Text(
                match value {
                    Some(key) => key,
                    None => Seq::empty(),
                },
            ),
        ),
        (PendingOf::StoredCustomOpenAi, OutcomeView::Done) => replied(
            success("Custom OpenAI configuration saved successfully"@),
        ),
        (PendingOf::ChatPosted, OutcomeView::Answer { status, body }) => chat_answered(
            status,
            body,
        ),
        (PendingOf::ChatPosted, OutcomeView::TimedOut) => refused(
            bad_request_error("Connection timed out. Please check the endpoint URL."@),
        ),
        (PendingOf::ChatPosted, OutcomeView::Unreachable) => refused(
            bad_request_error(
                "Could not connect to endpoint. Please verify the URL is correct and the server is running."@,
            ),
        ),
        (PendingOf::ChatPosted, OutcomeView::Failed { error }) => refused(
            bad_request_error("Connection failed: "@ + error),
        ),
        (PendingOf::ChatParsed { status, body }, OutcomeView::Parsed { value }) => chat_checked(
            status,
            value,
        ),
        (PendingOf::ChatParsed { status, body }, OutcomeView::Rejected { error }) => chat_garbled(
            error,
            body,
        ),
        (PendingOf::SummaryTitle { id }, OutcomeView::MaybeValue { value }) => title_found(
            id,
            value,
        ),
        (PendingOf::SummaryTitle { id }, OutcomeView::Failed { error }) => title_found(id, None),
        (PendingOf::SummaryTitle { id }, OutcomeView::Rejected { error }) => refused(
            internal_error(error),
        ),
        (PendingOf::SummaryProcess { id, title }, OutcomeView::MaybeValue { value }) =>
            process_found(id, title, value),
        (PendingOf::SummaryData { id, title, process }, OutcomeView::Parsed { value }) =>
            known_summary(title, id, process, value),
        (PendingOf::SummaryData { id, title, process }, OutcomeView::Rejected { error }) =>
            known_summary(title, id, process, JsonView::Null),
        (PendingOf::ProcessReset { job, chunk_size, overlap }, OutcomeView::Done) =>
            process_was_reset(job, chunk_size, overlap),
        (PendingOf::TranscriptDataStored { job }, OutcomeView::Done) => data_was_stored(job),
        (PendingOf::SummaryStarted { id }, OutcomeView::Done) => replied(summary_started(id)),
        (PendingOf::ProcessCancelled { id }, OutcomeView::Done) => replied(summary_cancelled(id)),
        (PendingOf::SummaryStored, OutcomeView::Flag { value }) => summary_stored(value),
        (PendingOf::Templates, OutcomeView::Templates { list }) => replied(template_list(list)),
        (PendingOf::AnyAvailable, OutcomeView::Models { list }) => replied(
            JsonView::Bool(any_available(list)),
        ),
        (PendingOf::AnyAvailable, OutcomeView::Failed { error }) => replied(JsonView::Bool(false)),
        (PendingOf::Loading { engine, name }, OutcomeView::Done) => model_loaded(
            engine,
            name,
            None,
        ),
        (PendingOf::Loading { engine, name }, OutcomeView::Failed { error }) => model_loaded(
            engine,
            name,
            Some(error),
        ),
        (PendingOf::ReadyCurrent { engine }, OutcomeView::MaybeText { value }) =>
            current_model_found(engine, value),
        (PendingOf::ReadyModels { engine }, OutcomeView::Models { list }) => models_discovered(
            engine,
            list,
        ),
        (PendingOf::ReadyLoaded { name }, OutcomeView::Done) => replied(JsonView::Text(name)),
        (PendingOf::DownloadCancelled { engine, name }, OutcomeView::Done) =>
            download_was_cancelled(engine, name),
        (PendingOf::FreshDatabase, _) => database_initialized(),
        (_, OutcomeView::Failed { error }) => refused(internal_error(error)),
        _ => arbitrary(),
    }
}

/// Whether a waiting command can get this outcome.
pub fn accepts(pending: &Pending, outcome: &Outcome) -> (r: bool)
    ensures
        r == fits(pending_view(*pending), outcome@),
{
    match (pending, outcome) {
        (PendingOf::Meetings, Outcome::Values { .. }) => true,
        (PendingOf::Meeting { .. }, Outcome::MaybeValue { .. }) => true,
        (PendingOf::Transcripts { .. }, Outcome::Page { .. }) => true,
        (PendingOf::SavedTranscript, Outcome::Text { .. }) => true,
        (PendingOf::SavedTranscript, Outcome::Rejected { .. }) => true,
        (PendingOf::DeletedMeeting { .. }, Outcome::Flag { .. }) => true,
        (PendingOf::RenamedMeeting { .. }, Outcome::Flag { .. }) => true,
        (PendingOf::PlainValue, Outcome::Value { .. }) => true,
        (PendingOf::MaybeValue, Outcome::MaybeValue { .. }) => true,
        (PendingOf::MaybeName, Outcome::MaybeText { .. }) => true,
        (PendingOf::MaybeName, _) => false,
        (PendingOf::PlainText, Outcome::Text { .. }) => true,
        (PendingOf::PlainFlag, Outcome::Flag { .. }) => true,
        (PendingOf::PlainFlag, _) => false,
        (PendingOf::Nothing, Outcome::Done) => true,
        (PendingOf::ModelConfig, Outcome::MaybeValue { .. }) => true,
        (PendingOf::ModelConfigKey { .. }, Outcome::MaybeText { .. }) => true,
        (PendingOf::StoredModelConfig { .. }, Outcome::Done) => true,
        (PendingOf::StoredModelKey, Outcome::Done) => true,
        (PendingOf::TranscriptConfig, Outcome::MaybeValue { .. }) => true,
        (PendingOf::TranscriptConfigKey { .. }, Outcome::MaybeText { .. }) => true,
        (PendingOf::StoredTranscriptConfig { .. }, Outcome::Done) => true,
        (PendingOf::StoredTranscriptKey, Outcome::Done) => true,
        (PendingOf::ApiKey, Outcome::MaybeText { .. }) => true,
        (PendingOf::StoredCustomOpenAi, Outcome::Done) => true,
        (PendingOf::ChatPosted, Outcome::Answer { .. }) => true,
        (PendingOf::ChatPosted, Outcome::TimedOut) => true,
        (PendingOf::ChatPosted, Outcome::Unreachable) => true,
        (PendingOf::ChatParsed { .. }, Outcome::Parsed { .. }) => true,
        (PendingOf::ChatParsed { .. }, Outcome::Rejected { .. }) => true,
        (PendingOf::ChatParsed { .. }, _) => false,
        (PendingOf::SummaryTitle { .. }, Outcome::MaybeValue { .. }) => true,
        (PendingOf::SummaryTitle { .. }, Outcome::Rejected { .. }) => true,
        (PendingOf::SummaryProcess { .. }, Outcome::MaybeValue { .. }) => true,
        (PendingOf::SummaryData { .. }, Outcome::Parsed { .. }) => true,
        (PendingOf::SummaryData { .. }, Outcome::Rejected { .. }) => true,
        (PendingOf::SummaryData { .. }, _) => false,
        (PendingOf::ProcessReset { .. }, Outcome::Done) => true,
        (PendingOf::TranscriptDataStored { .. }, Outcome::Done) => true,
        (PendingOf::SummaryStarted { .. }, Outcome::Done) => true,
        (PendingOf::SummaryStarted { .. }, _) => false,
        (PendingOf::ProcessCancelled { .. }, Outcome::Done) => true,
        (PendingOf::SummaryStored, Outcome::Flag { .. }) => true,
        (PendingOf::Templates, Outcome::Templates { .. }) => true,
        (PendingOf::Templates, _) => false,
        (PendingOf::AnyAvailable, Outcome::Models { .. }) => true,
        (PendingOf::Loading { .. }, Outcome::Done) => true,
        (PendingOf::ReadyCurrent { .. }, Outcome::MaybeText { .. }) => true,
        (PendingOf::ReadyCurrent { .. }, _) => false,
        (PendingOf::ReadyModels { .. }, Outcome::Models { .. }) => true,
        (PendingOf::ReadyLoaded { .. }, Outcome::Done) => true,
        (PendingOf::DownloadCancelled { .. }, Outcome::Done) => true,
        (PendingOf::FreshDatabase, Outcome::Done) => true,
        (_, Outcome::Failed { .. }) => true,
        _ => false,
    }
}

fn or_null(value: Option<Json>) -> (out: Json)
    ensures
        out@ == value_or_null(value.deep_view()),
{
    match value {
        Some(v) => v,
        None => Json::Null,
    }
}

fn on_model_config_stored(provider: String, key: Option<String>) -> (step: Step)
    ensures
        step@ == model_config_stored(provider@, key.deep_view()),
{
    match key {
        Some(key) => perform(Action::StoreApiKey { provider, key }, Pending::StoredModelKey),
        None => reply(success_reply("Model configuration saved successfully")),
    }
}

fn on_transcript_config_stored(provider: String, key: Option<String>) -> (step: Step)
    ensures
        step@ == transcript_config_stored(provider@, key.deep_view()),
{
    match key {
        Some(key) => perform(
            Action::StoreTranscriptApiKey { provider, key },
            Pending::StoredTranscriptKey,
        ),
        None => reply(success_reply("Transcript configuration saved successfully")),
    }
}

fn announce_database() -> (step: Step)
    ensures
        step@ == database_initialized(),
{
    Step::Reply {
        events: one_event(event("database-initialized", Json::Null)),
        result: Ok(Json::Null),
    }
}

/// Hands a waiting command the outcome of its action.
pub fn resume(state: &ServerState, pending: Pending, outcome: Outcome) -> (step: Step)
    requires
        fits(pending_view(pending), outcome@),
    ensures
        step@ == resumed(state@, pending_view(pending), outcome@),
{
    match (pending, outcome) {
        (PendingOf::Meetings, Outcome::Values { rows }) => reply(list_meetings(&rows)),
        (PendingOf::Meeting { id }, Outcome::MaybeValue { value }) => answer_meeting(
            id.as_str(),
            value,
        ),
        (PendingOf::Transcripts { offset }, Outcome::Page { rows, total }) => reply(
            page_transcripts(&rows, total, offset),
        ),
        (PendingOf::SavedTranscript, Outcome::Text { value }) => reply(answer_saved(value)),
        (PendingOf::SavedTranscript, Outcome::Rejected { error }) => answer_rejected(
            error.as_str(),
        ),
        (PendingOf::DeletedMeeting { id }, Outcome::Flag { value }) => answer_deleted(
            id.as_str(),
            value,
        ),
        (PendingOf::RenamedMeeting { id }, Outcome::Flag { value }) => answer_renamed(
            id.as_str(),
            value,
        ),
        (PendingOf::PlainValue, Outcome::Value { value }) => reply(value),
        (PendingOf::MaybeValue, Outcome::MaybeValue { value }) => reply(or_null(value)),
        (PendingOf::MaybeName, Outcome::MaybeText { value }) => reply(Json::optional(value)),
        (PendingOf::PlainText, Outcome::Text { value }) => reply(Json::Text(value)),
        (PendingOf::PlainFlag, Outcome::Flag { value }) => reply(Json::Bool(value)),
        (PendingOf::Nothing, Outcome::Done) => reply(Json::Null),
        (PendingOf::ModelConfig, Outcome::MaybeValue { value }) => on_model_config(value),
        (PendingOf::ModelConfigKey { provider, setting }, Outcome::MaybeText { value }) => reply(
            show_model_config(provider, &setting, value, state.ollama_endpoint()),
        ),
        (PendingOf::ModelConfigKey { provider, setting }, Outcome::Failed { .. }) => reply(
            show_model_config(provider, &setting, None, state.ollama_endpoint()),
        ),
        (PendingOf::StoredModelConfig { provider, key }, Outcome::Done) => on_model_config_stored(
            provider,
            key,
        ),
        (PendingOf::StoredModelKey, Outcome::Done) => reply(
            success_reply("Model configuration saved successfully"),
        ),
        (PendingOf::TranscriptConfig, Outcome::MaybeValue { value }) => on_transcript_config(
            value,
            state.default_model(),
        ),
        (PendingOf::TranscriptConfigKey { provider, setting }, Outcome::MaybeText { value }) =>
            reply(show_transcript_config(provider.as_str(), setting.pick("model"), value)),
        (PendingOf::TranscriptConfigKey { provider, setting }, Outcome::Failed { .. }) => reply(
            show_transcript_config(provider.as_str(), setting.pick("model"), None),
        ),
        (PendingOf::StoredTranscriptConfig { provider, key }, Outcome::Done) =>
            on_transcript_config_stored(provider, key),
        (PendingOf::StoredTranscriptKey, Outcome::Done) => reply(
            success_reply("Transcript configuration saved successfully"),
        ),
        (PendingOf::ApiKey, Outcome::MaybeText { value }) => reply(
            Json::Text(
                match value {
                    Some(key) => key,
                    None => String::new(),
                },
            ),
        ),
        (PendingOf::StoredCustomOpenAi, Outcome::Done) => reply(
            success_reply("Custom OpenAI configuration saved successfully"),
        ),
        (PendingOf::ChatPosted, Outcome::Answer { status, body }) => on_chat_answer(status, body),
        (PendingOf::ChatPosted, Outcome::TimedOut) => refuse(
            ApiError::bad_request(owned("Connection timed out. Please check the endpoint URL.")),
        ),
        (PendingOf::ChatPosted, Outcome::Unreachable) => refuse(
            ApiError::bad_request(
                owned(
                    "Could not connect to endpoint. Please verify the URL is correct and the server is running.",
                ),
            ),
        ),
        (PendingOf::ChatPosted, Outcome::Failed { error }) => refuse(
            ApiError::bad_request(join2("Connection failed: ", error.as_str())),
        ),
        (PendingOf::ChatParsed { status, .. }, Outcome::Parsed { value }) => check_chat(
            status,
            &value,
        ),
        (PendingOf::ChatParsed { body, .. }, Outcome::Rejected { error }) => refuse_garbled(
            error.as_str(),
            body.as_str(),
        ),
        (PendingOf::SummaryTitle { id }, Outcome::MaybeValue { value }) => on_title(id, value),
        (PendingOf::SummaryTitle { id }, Outcome::Failed { .. }) => on_title(id, None),
        (PendingOf::SummaryTitle { .. }, Outcome::Rejected { error }) => refuse(
            ApiError::internal(error),
        ),
        (PendingOf::SummaryProcess { id, title }, Outcome::MaybeValue { value }) => on_process(
            id,
            title,
            value,
        ),
        (PendingOf::SummaryData { id, title, process }, Outcome::Parsed { value }) =>
            answer_summary(title, id, &process, value),
        (PendingOf::SummaryData { id, title, process }, Outcome::Rejected { .. }) => answer_summary(
            title,
            id,
            &process,
            Json::Null,
        ),
        (PendingOf::ProcessReset { job, chunk_size, overlap }, Outcome::Done) => on_process_reset(
            job,
            chunk_size,
            overlap,
        ),
        (PendingOf::TranscriptDataStored { job }, Outcome::Done) => on_data_stored(job),
        (PendingOf::SummaryStarted { id }, Outcome::Done) => reply(answer_started(id)),
        (PendingOf::ProcessCancelled { id }, Outcome::Done) => reply(answer_cancelled(id)),
        (PendingOf::SummaryStored, Outcome::Flag { value }) => answer_stored(value),
        (PendingOf::Templates, Outcome::Templates { list }) => reply(list_templates(&list)),
        (PendingOf::AnyAvailable, Outcome::Models { list }) => reply(
            Json::Bool(has_available(&list)),
        ),
        (PendingOf::AnyAvailable, Outcome::Failed { .. }) => reply(Json::Bool(false)),
        (PendingOf::Loading { engine, name }, Outcome::Done) => answer_loaded(
            engine,
            name.as_str(),
            None,
        ),
        (PendingOf::Loading { engine, name }, Outcome::Failed { error }) => answer_loaded(
            engine,
            name.as_str(),
            Some(error),
        ),
        (PendingOf::ReadyCurrent { engine }, Outcome::MaybeText { value }) => on_current_model(
            engine,
            value,
        ),
        (PendingOf::ReadyModels { engine }, Outcome::Models { list }) => on_models(engine, &list),
        (PendingOf::ReadyLoaded { name }, Outcome::Done) => reply(Json::Text(name)),
        (PendingOf::DownloadCancelled { engine, name }, Outcome::Done) => answer_download_cancelled(
            engine,
            name.as_str(),
        ),
        (PendingOf::FreshDatabase, _) => announce_database(),
        (_, Outcome::Failed { error }) => refuse(ApiError::internal(error)),
        _ => vstd::pervasive::unreached(),
    }
}

// ---------------------------------------------------------------------------
// What holds of every command
// ---------------------------------------------------------------------------

/// Whether `part` stands somewhere in `text`.
pub open spec fn mentions(text: Seq<char>, part: Seq<char>) -> bool {
    exists|at: int|
        0 <= at <= text.len() - part.len() && #[trigger] text.subrange(at, at + part.len()) == part
}

proof fn lemma_mentioned(lead: Seq<char>, part: Seq<char>, tail: Seq<char>)
    ensures
        mentions(lead + part + tail, part),
{
    let at: int = lead.len() as int;
    assert((lead + part + tail).subrange(at, at + part.len()) =~= part);
}

/// A command that there is none of is reported and not swallowed: the answer is
/// 404, its message names the command, and nothing is performed.
pub proof fn unknown_commands_are_reported(
    server: ServerView,
    name: Seq<char>,
    args: JsonView,
    fresh: Seq<char>,
)
    requires
        command_named(name) is None,
    ensures
        first_step(server, name, args, fresh) == refused(unsupported(name)),
        unsupported(name).status == NOT_FOUND,
        mentions(unsupported(name).message, name),
{
    lemma_mentioned(
        "Command `"@,
        name,
        "` is not available in the self-hosted web build"@,
    );
}

/// How many more actions a waiting command may ask for, with the one that it
/// waits for.
pub open spec fn actions_left(pending: PendingView) -> nat {
    match pending {
        PendingOf::SummaryTitle { .. } => 3,
        PendingOf::ProcessReset { .. } => 3,
        PendingOf::ReadyCurrent { .. } => 3,
        PendingOf::SummaryProcess { .. } => 2,
        PendingOf::TranscriptDataStored { .. } => 2,
        PendingOf::ReadyModels { .. } => 2,
        PendingOf::ModelConfig => 2,
        PendingOf::TranscriptConfig => 2,
        PendingOf::StoredModelConfig { .. } => 2,
        PendingOf::StoredTranscriptConfig { .. } => 2,
        PendingOf::ChatPosted => 2,
        _ => 1,
    }
}

/// Each outcome brings a command closer to its answer.
pub proof fn outcomes_lead_to_the_answer(
    server: ServerView,
    pending: PendingView,
    outcome: OutcomeView,
)
    requires
        fits(pending, outcome),
    ensures
        resumed(server, pending, outcome) matches StepView::Perform { pending: next, .. }
            ==> actions_left(next) < actions_left(pending),
{
}

/// Where a command stands once these outcomes have been handed to it.
pub open spec fn carried_on(
    server: ServerView,
    step: StepView,
    outcomes: Seq<OutcomeView>,
) -> StepView
    decreases outcomes.len(),
{
    match step {
        StepView::Perform { pending, .. } if outcomes.len() > 0 => carried_on(
            server,
            resumed(server, pending, outcomes[0]),
            outcomes.drop_first(),
        ),
        _ => step,
    }
}

/// Whether each of these outcomes is one that the command can get when its turn
/// comes.
pub open spec fn all_fit(server: ServerView, step: StepView, outcomes: Seq<OutcomeView>) -> bool
    decreases outcomes.len(),
{
    match step {
        StepView::Perform { pending, .. } if outcomes.len() > 0 => fits(pending, outcomes[0])
            && all_fit(server, resumed(server, pending, outcomes[0]), outcomes.drop_first()),
        _ => true,
    }
}

proof fn lemma_outcomes_suffice(server: ServerView, step: StepView, outcomes: Seq<OutcomeView>)
    requires
        all_fit(server, step, outcomes),
        step matches StepView::Perform { pending, .. } ==> actions_left(pending) <= outcomes.len(),
    ensures
        carried_on(server, step, outcomes) is Reply,
    decreases outcomes.len(),
{
    if let StepView::Perform { pending, .. } = step {
        outcomes_lead_to_the_answer(server, pending, outcomes[0]);
        lemma_outcomes_suffice(
            server,
            resumed(server, pending, outcomes[0]),
            outcomes.drop_first(),
        );
    }
}

/// Every command is answered after three actions at most, whatever comes of them.
pub proof fn every_command_is_answered(
    server: ServerView,
    name: Seq<char>,
    args: JsonView,
    fresh: Seq<char>,
    outcomes: Seq<OutcomeView>,
)
    requires
        outcomes.len() >= 3,
        all_fit(server, first_step(server, name, args, fresh), outcomes),
    ensures
        carried_on(server, first_step(server, name, args, fresh), outcomes) is Reply,
{
    lemma_outcomes_suffice(server, first_step(server, name, args, fresh), outcomes);
}

/// The error that a command is answered with, where it is.
pub open spec fn error_of(step: StepView) -> Option<ApiErrorView> {
    match step {
        StepView::Reply { result: Err(e), .. } => Some(e),
        _ => None,
    }
}

/// Whether a command can do without its action: a key that cannot be read is not
/// shown, a title that cannot be read is left out, an engine whose models cannot
/// be listed has none, and a fresh database is announced in any case.
pub open spec fn does_without(pending: PendingView) -> bool {
    pending is ModelConfigKey || pending is TranscriptConfigKey || pending is SummaryTitle
        || pending is AnyAvailable || pending is FreshDatabase
}

/// An action that fails is reported to whoever sent the command, with its reason,
/// unless the command can do without it. The fault is the server's, or the
/// request's where it named an endpoint that cannot be reached.
pub proof fn failures_are_reported(server: ServerView, pending: PendingView, error: Seq<char>)
    requires
        fits(pending, OutcomeView::Failed { error }),
        !does_without(pending),
    ensures
        error_of(resumed(server, pending, OutcomeView::Failed { error })) matches Some(e)
            && mentions(e.message, error) && e.status == (if pending is ChatPosted {
            BAD_REQUEST
        } else {
            INTERNAL_SERVER_ERROR
        }),
{
    lemma_mentioned("Connection failed: "@, error, Seq::empty());
    lemma_mentioned(Seq::empty(), error, Seq::empty());
    assert("Connection failed: "@ + error + Seq::empty() =~= "Connection failed: "@ + error);
    assert(Seq::empty() + error + Seq::empty() =~= error);
}

/// Whether an action stores an API key.
pub open spec fn stores_a_key(action: ActionOf<Seq<char>, JsonView>) -> bool {
    action is StoreApiKey || action is StoreTranscriptApiKey
}

/// A key that is left out, or that is blank, overwrites no stored one: saving
/// settings stores keys only where the request carries one.
pub proof fn blank_keys_are_not_stored(
    server: ServerView,
    command: Command,
    args: JsonView,
    fresh: Seq<char>,
    outcomes: Seq<OutcomeView>,
)
    requires
        solid_text_arg(args, "apiKey"@) is None,
        command == Command::SaveModelConfig || command == Command::SaveTranscriptConfig,
        all_fit(server, started(server, command, args, fresh), outcomes),
    ensures
        carried_on(server, started(server, command, args, fresh), outcomes) matches
            StepView::Perform { action, .. } ==> !stores_a_key(action),
{
    reveal_with_fuel(carried_on, 4);
    reveal_with_fuel(all_fit, 4);
}

/// Whether an error is one that commands are answered with: the request's fault, or the
/// server's.
pub open spec fn client_or_server(status: u16) -> bool {
    status == BAD_REQUEST || status == NOT_FOUND || status == INTERNAL_SERVER_ERROR
}

/// A command that is refused before it asks for anything is the request's fault.
pub proof fn refused_requests_are_at_fault(
    server: ServerView,
    name: Seq<char>,
    args: JsonView,
    fresh: Seq<char>,
)
    ensures
        error_of(first_step(server, name, args, fresh)) matches Some(e) ==> e.status == BAD_REQUEST
            || e.status == NOT_FOUND,
{
}

/// Whatever comes of the actions of a command, its errors are the request's fault or the
/// server's, and say so in their status.
pub proof fn errors_say_whose_fault_they_are(
    server: ServerView,
    pending: PendingView,
    outcome: OutcomeView,
)
    requires
        fits(pending, outcome),
    ensures
        error_of(resumed(server, pending, outcome)) matches Some(e) ==> client_or_server(e.status),
{
}

/// The configured Ollama endpoint goes before the one in the settings: it is the one
/// that the browser is shown, that summaries are made with, and that models are asked
/// of where the request names no other.
pub proof fn the_configured_endpoint_goes_first(
    server: ServerView,
    endpoint: Seq<char>,
    provider: Seq<char>,
    setting: JsonView,
    key: Option<Seq<char>>,
    args: JsonView,
)
    requires
        server.ollama_endpoint == Some(endpoint),
    ensures
        model_config(provider, setting, key, server.ollama_endpoint).pick("ollamaEndpoint"@)
            == JsonView::Text(endpoint),
        job_endpoint(server, Some(setting)) == Some(endpoint),
        text_arg(args, "endpoint"@) is None ==> endpoint_for(server, args) == Some(endpoint),
{
    reveal_strlit("provider");
    reveal_strlit("model");
    reveal_strlit("whisperModel");
    reveal_strlit("apiKey");
    reveal_strlit("ollamaEndpoint");
    assert("provider"@.len() == 8 && "model"@.len() == 5 && "whisperModel"@.len() == 12
        && "apiKey"@.len() == 6 && "ollamaEndpoint"@.len() == 14);
    let o = JsonView::object();
    let o1 = o.with("provider"@, JsonView::Text(provider));
    let o2 = o1.with("model"@, setting.pick("model"@));
    let o3 = o2.with("whisperModel"@, setting.pick("whisperModel"@));
    let o4 = o3.with("apiKey"@, text_or_null(key));
    fields_are_found_again(o, "provider"@, JsonView::Text(provider));
    fields_are_found_again(o1, "model"@, setting.pick("model"@));
    fields_are_found_again(o2, "whisperModel"@, setting.pick("whisperModel"@));
    fields_are_found_again(o3, "apiKey"@, text_or_null(key));
    fields_are_found_again(o4, "ollamaEndpoint"@, JsonView::Text(endpoint));
}

} // verus!
