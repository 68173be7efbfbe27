//! The commands that a browser can invoke, by name.

use vstd::prelude::*;

use crate::protocol::Engine;
use crate::text::same_text;

verus! {

/// A command of the self-hosted build.
#[derive(Debug, Clone, Copy, PartialEq, Eq, Structural)]
pub enum Command {
    GetMeetings,
    GetMeeting,
    GetMeetingMetadata,
    GetMeetingTranscripts,
    SaveTranscript,
    DeleteMeeting,
    SaveMeetingTitle,
    SearchTranscripts,
    GetModelConfig,
    SaveModelConfig,
    GetTranscriptConfig,
    SaveTranscriptConfig,
    GetApiKey,
    GetTranscriptApiKey,
    GetCustomOpenAi,
    SaveCustomOpenAi,
    TestCustomOpenAi,
    GetSummary,
    ProcessTranscript,
    CancelSummary,
    SaveMeetingSummary,
    ListTemplates,
    GetSummaryLanguage,
    SaveSummaryLanguage,
    GetAutoGenerate,
    GetOllamaModels,
    DeleteOllamaModel,
    GetOpenAiModels,
    GetAnthropicModels,
    GetGroqModels,
    GetOpenRouterModels,
    Init(Engine),
    ListModels(Engine),
    HasModels(Engine),
    LoadModel(Engine),
    IsModelLoaded(Engine),
    CurrentModel(Engine),
    ModelsDirectory(Engine),
    ValidateReady(Engine),
    DownloadModel(Engine),
    CancelDownload(Engine),
    DeleteModel(Engine),
    RetryParakeetDownload,
    GetDatabaseDirectory,
    GetRecordingsFolder,
    GetRecordingPreferences,
    SetRecordingPreferences,
    SetNotificationSettings,
    SetLanguagePreference,
    GetNotificationSettings,
    CheckFirstLaunch,
    CheckDefaultLegacyDatabase,
    DetectLegacyDatabase,
    CheckHomebrewDatabase,
    InitializeFreshDatabase,
    ListBuiltinModels,
    IsBuiltinReady,
    GetBuiltinModelInfo,
    GetBuiltinSummaryModel,
}

/// The name of each command.
pub open spec fn command_name(command: Command) -> Seq<char> {
    match command {
        Command::GetMeetings => "api_get_meetings"@,
        Command::GetMeeting => "api_get_meeting"@,
        Command::GetMeetingMetadata => "api_get_meeting_metadata"@,
        Command::GetMeetingTranscripts => "api_get_meeting_transcripts"@,
        Command::SaveTranscript => "api_save_transcript"@,
        Command::DeleteMeeting => "api_delete_meeting"@,
        Command::SaveMeetingTitle => "api_save_meeting_title"@,
        Command::SearchTranscripts => "api_search_transcripts"@,
        Command::GetModelConfig => "api_get_model_config"@,
        Command::SaveModelConfig => "api_save_model_config"@,
        Command::GetTranscriptConfig => "api_get_transcript_config"@,
        Command::SaveTranscriptConfig => "api_save_transcript_config"@,
        Command::GetApiKey => "api_get_api_key"@,
        Command::GetTranscriptApiKey => "api_get_transcript_api_key"@,
        Command::GetCustomOpenAi => "api_get_custom_openai_config"@,
        Command::SaveCustomOpenAi => "api_save_custom_openai_config"@,
        Command::TestCustomOpenAi => "api_test_custom_openai_connection"@,
        Command::GetSummary => "api_get_summary"@,
        Command::ProcessTranscript => "api_process_transcript"@,
        Command::CancelSummary => "api_cancel_summary"@,
        Command::SaveMeetingSummary => "api_save_meeting_summary"@,
        Command::ListTemplates => "api_list_templates"@,
        Command::GetSummaryLanguage => "api_get_meeting_summary_language"@,
        Command::SaveSummaryLanguage => "api_save_meeting_summary_language"@,
        Command::GetAutoGenerate => "api_get_auto_generate_setting"@,
        Command::GetOllamaModels => "get_ollama_models"@,
        Command::DeleteOllamaModel => "delete_ollama_model"@,
        Command::GetOpenAiModels => "get_openai_models"@,
        Command::GetAnthropicModels => "get_anthropic_models"@,
        Command::GetGroqModels => "get_groq_models"@,
        Command::GetOpenRouterModels => "get_openrouter_models"@,
        Command::Init(Engine::Whisper) => "whisper_init"@,
        Command::ListModels(Engine::Whisper) => "whisper_get_available_models"@,
        Command::HasModels(Engine::Whisper) => "whisper_has_available_models"@,
        Command::LoadModel(Engine::Whisper) => "whisper_load_model"@,
        Command::IsModelLoaded(Engine::Whisper) => "whisper_is_model_loaded"@,
        Command::CurrentModel(Engine::Whisper) => "whisper_get_current_model"@,
        Command::ModelsDirectory(Engine::Whisper) => "whisper_get_models_directory"@,
        Command::ValidateReady(Engine::Whisper) => "whisper_validate_model_ready"@,
        Command::DownloadModel(Engine::Whisper) => "whisper_download_model"@,
        Command::CancelDownload(Engine::Whisper) => "whisper_cancel_download"@,
        Command::DeleteModel(Engine::Whisper) => "whisper_delete_corrupted_model"@,
        Command::Init(Engine::Parakeet) => "parakeet_init"@,
        Command::ListModels(Engine::Parakeet) => "parakeet_get_available_models"@,
        Command::HasModels(Engine::Parakeet) => "parakeet_has_available_models"@,
        Command::LoadModel(Engine::Parakeet) => "parakeet_load_model"@,
        Command::IsModelLoaded(Engine::Parakeet) => "parakeet_is_model_loaded"@,
        Command::CurrentModel(Engine::Parakeet) => "parakeet_get_current_model"@,
        Command::ModelsDirectory(Engine::Parakeet) => "parakeet_get_models_directory"@,
        Command::ValidateReady(Engine::Parakeet) => "parakeet_validate_model_ready"@,
        Command::DownloadModel(Engine::Parakeet) => "parakeet_download_model"@,
        Command::CancelDownload(Engine::Parakeet) => "parakeet_cancel_download"@,
        Command::DeleteModel(Engine::Parakeet) => "parakeet_delete_corrupted_model"@,
        Command::RetryParakeetDownload => "parakeet_retry_download"@,
        Command::GetDatabaseDirectory => "get_database_directory"@,
        Command::GetRecordingsFolder => "get_default_recordings_folder_path"@,
        Command::GetRecordingPreferences => "get_recording_preferences"@,
        Command::SetRecordingPreferences => "set_recording_preferences"@,
        Command::SetNotificationSettings => "set_notification_settings"@,
        Command::SetLanguagePreference => "set_language_preference"@,
        Command::GetNotificationSettings => "get_notification_settings"@,
        Command::CheckFirstLaunch => "check_first_launch"@,
        Command::CheckDefaultLegacyDatabase => "check_default_legacy_database"@,
        Command::DetectLegacyDatabase => "detect_legacy_database"@,
        Command::CheckHomebrewDatabase => "check_homebrew_database"@,
        Command::InitializeFreshDatabase => "initialize_fresh_database"@,
        Command::ListBuiltinModels => "builtin_ai_list_models"@,
        Command::IsBuiltinReady => "builtin_ai_is_model_ready"@,
        Command::GetBuiltinModelInfo => "builtin_ai_get_model_info"@,
        Command::GetBuiltinSummaryModel => "builtin_ai_get_available_summary_model"@,
    }
}

/// The command that a name stands for, where it stands for one.
pub open spec fn command_named(name: Seq<char>) -> Option<Command> {
    if name == "api_get_meetings"@ {
        Some(Command::GetMeetings)
    } else if name == "api_get_meeting"@ {
        Some(Command::GetMeeting)
    } else if name == "api_get_meeting_metadata"@ {
        Some(Command::GetMeetingMetadata)
    } else if name == "api_get_meeting_transcripts"@ {
        Some(Command::GetMeetingTranscripts)
    } else if name == "api_save_transcript"@ {
        Some(Command::SaveTranscript)
    } else if name == "api_delete_meeting"@ {
        Some(Command::DeleteMeeting)
    } else if name == "api_save_meeting_title"@ {
        Some(Command::SaveMeetingTitle)
    } else if name == "api_search_transcripts"@ {
        Some(Command::SearchTranscripts)
    } else if name == "api_get_model_config"@ {
        Some(Command::GetModelConfig)
    } else if name == "api_save_model_config"@ {
        Some(Command::SaveModelConfig)
    } else if name == "api_get_transcript_config"@ {
        Some(Command::GetTranscriptConfig)
    } else if name == "api_save_transcript_config"@ {
        Some(Command::SaveTranscriptConfig)
    } else if name == "api_get_api_key"@ {
        Some(Command::GetApiKey)
    } else if name == "api_get_transcript_api_key"@ {
        Some(Command::GetTranscriptApiKey)
    } else if name == "api_get_custom_openai_config"@ {
        Some(Command::GetCustomOpenAi)
    } else if name == "api_save_custom_openai_config"@ {
        Some(Command::SaveCustomOpenAi)
    } else if name == "api_test_custom_openai_connection"@ {
        Some(Command::TestCustomOpenAi)
    } else if name == "api_get_summary"@ {
        Some(Command::GetSummary)
    } else if name == "api_process_transcript"@ {
        Some(Command::ProcessTranscript)
    } else if name == "api_cancel_summary"@ {
        Some(Command::CancelSummary)
    } else if name == "api_save_meeting_summary"@ {
        Some(Command::SaveMeetingSummary)
    } else if name == "api_list_templates"@ {
        Some(Command::ListTemplates)
    } else if name == "api_get_meeting_summary_language"@ {
        Some(Command::GetSummaryLanguage)
    } else if name == "api_save_meeting_summary_language"@ {
        Some(Command::SaveSummaryLanguage)
    } else if name == "api_get_auto_generate_setting"@ {
        Some(Command::GetAutoGenerate)
    } else if name == "get_ollama_models"@ {
        Some(Command::GetOllamaModels)
    } else if name == "delete_ollama_model"@ {
        Some(Command::DeleteOllamaModel)
    } else if name == "get_openai_models"@ {
        Some(Command::GetOpenAiModels)
    } else if name == "get_anthropic_models"@ {
        Some(Command::GetAnthropicModels)
    } else if name == "get_groq_models"@ {
        Some(Command::GetGroqModels)
    } else if name == "get_openrouter_models"@ {
        Some(Command::GetOpenRouterModels)
    } else if name == "whisper_init"@ {
        Some(Command::Init(Engine::Whisper))
    } else if name == "whisper_get_available_models"@ {
        Some(Command::ListModels(Engine::Whisper))
    } else if name == "whisper_has_available_models"@ {
        Some(Command::HasModels(Engine::Whisper))
    } else if name == "whisper_load_model"@ {
        Some(Command::LoadModel(Engine::Whisper))
    } else if name == "whisper_is_model_loaded"@ {
        Some(Command::IsModelLoaded(Engine::Whisper))
    } else if name == "whisper_get_current_model"@ {
        Some(Command::CurrentModel(Engine::Whisper))
    } else if name == "whisper_get_models_directory"@ {
        Some(Command::ModelsDirectory(Engine::Whisper))
    } else if name == "whisper_validate_model_ready"@ {
        Some(Command::ValidateReady(Engine::Whisper))
    } else if name == "whisper_download_model"@ {
        Some(Command::DownloadModel(Engine::Whisper))
    } else if name == "whisper_cancel_download"@ {
        Some(Command::CancelDownload(Engine::Whisper))
    } else if name == "whisper_delete_corrupted_model"@ {
        Some(Command::DeleteModel(Engine::Whisper))
    } else if name == "parakeet_init"@ {
        Some(Command::Init(Engine::Parakeet))
    } else if name == "parakeet_get_available_models"@ {
        Some(Command::ListModels(Engine::Parakeet))
    } else if name == "parakeet_has_available_models"@ {
        Some(Command::HasModels(Engine::Parakeet))
    } else if name == "parakeet_load_model"@ {
        Some(Command::LoadModel(Engine::Parakeet))
    } else if name == "parakeet_is_model_loaded"@ {
        Some(Command::IsModelLoaded(Engine::Parakeet))
    } else if name == "parakeet_get_current_model"@ {
        Some(Command::CurrentModel(Engine::Parakeet))
    } else if name == "parakeet_get_models_directory"@ {
        Some(Command::ModelsDirectory(Engine::Parakeet))
    } else if name == "parakeet_validate_model_ready"@ {
        Some(Command::ValidateReady(Engine::Parakeet))
    } else if name == "parakeet_download_model"@ {
        Some(Command::DownloadModel(Engine::Parakeet))
    } else if name == "parakeet_cancel_download"@ {
        Some(Command::CancelDownload(Engine::Parakeet))
    } else if name == "parakeet_delete_corrupted_model"@ {
        Some(Command::DeleteModel(Engine::Parakeet))
    } else if name == "parakeet_retry_download"@ {
        Some(Command::RetryParakeetDownload)
    } else if name == "get_database_directory"@ {
        Some(Command::GetDatabaseDirectory)
    } else if name == "get_default_recordings_folder_path"@ {
        Some(Command::GetRecordingsFolder)
    } else if name == "get_recording_preferences"@ {
        Some(Command::GetRecordingPreferences)
    } else if name == "set_recording_preferences"@ {
        Some(Command::SetRecordingPreferences)
    } else if name == "set_notification_settings"@ {
        Some(Command::SetNotificationSettings)
    } else if name == "set_language_preference"@ {
        Some(Command::SetLanguagePreference)
    } else if name == "get_notification_settings"@ {
        Some(Command::GetNotificationSettings)
    } else if name == "check_first_launch"@ {
        Some(Command::CheckFirstLaunch)
    } else if name == "check_default_legacy_database"@ {
        Some(Command::CheckDefaultLegacyDatabase)
    } else if name == "detect_legacy_database"@ {
        Some(Command::DetectLegacyDatabase)
    } else if name == "check_homebrew_database"@ {
        Some(Command::CheckHomebrewDatabase)
    } else if name == "initialize_fresh_database"@ {
        Some(Command::InitializeFreshDatabase)
    } else if name == "builtin_ai_list_models"@ {
        Some(Command::ListBuiltinModels)
    } else if name == "builtin_ai_is_model_ready"@ {
        Some(Command::IsBuiltinReady)
    } else if name == "builtin_ai_get_model_info"@ {
        Some(Command::GetBuiltinModelInfo)
    } else if name == "builtin_ai_get_available_summary_model"@ {
        Some(Command::GetBuiltinSummaryModel)
    } else {
        None
    }
}

/// Finds a command by its name.
pub fn find_command(name: &str) -> (command: Option<Command>)
    ensures
        command == command_named(name@),
{
    if same_text(name, "api_get_meetings") {
        Some(Command::GetMeetings)
    } else if same_text(name, "api_get_meeting") {
        Some(Command::GetMeeting)
    } else if same_text(name, "api_get_meeting_metadata") {
        Some(Command::GetMeetingMetadata)
    } else if same_text(name, "api_get_meeting_transcripts") {
        Some(Command::GetMeetingTranscripts)
    } else if same_text(name, "api_save_transcript") {
        Some(Command::SaveTranscript)
    } else if same_text(name, "api_delete_meeting") {
        Some(Command::DeleteMeeting)
    } else if same_text(name, "api_save_meeting_title") {
        Some(Command::SaveMeetingTitle)
    } else if same_text(name, "api_search_transcripts") {
        Some(Command::SearchTranscripts)
    } else if same_text(name, "api_get_model_config") {
        Some(Command::GetModelConfig)
    } else if same_text(name, "api_save_model_config") {
        Some(Command::SaveModelConfig)
    } else if same_text(name, "api_get_transcript_config") {
        Some(Command::GetTranscriptConfig)
    } else if same_text(name, "api_save_transcript_config") {
        Some(Command::SaveTranscriptConfig)
    } else if same_text(name, "api_get_api_key") {
        Some(Command::GetApiKey)
    } else if same_text(name, "api_get_transcript_api_key") {
        Some(Command::GetTranscriptApiKey)
    } else if same_text(name, "api_get_custom_openai_config") {
        Some(Command::GetCustomOpenAi)
    } else if same_text(name, "api_save_custom_openai_config") {
        Some(Command::SaveCustomOpenAi)
    } else if same_text(name, "api_test_custom_openai_connection") {
        Some(Command::TestCustomOpenAi)
    } else if same_text(name, "api_get_summary") {
        Some(Command::GetSummary)
    } else if same_text(name, "api_process_transcript") {
        Some(Command::ProcessTranscript)
    } else if same_text(name, "api_cancel_summary") {
        Some(Command::CancelSummary)
    } else if same_text(name, "api_save_meeting_summary") {
        Some(Command::SaveMeetingSummary)
    } else if same_text(name, "api_list_templates") {
        Some(Command::ListTemplates)
    } else if same_text(name, "api_get_meeting_summary_language") {
        Some(Command::GetSummaryLanguage)
    } else if same_text(name, "api_save_meeting_summary_language") {
        Some(Command::SaveSummaryLanguage)
    } else if same_text(name, "api_get_auto_generate_setting") {
        Some(Command::GetAutoGenerate)
    } else if same_text(name, "get_ollama_models") {
        Some(Command::GetOllamaModels)
    } else if same_text(name, "delete_ollama_model") {
        Some(Command::DeleteOllamaModel)
    } else if same_text(name, "get_openai_models") {
        Some(Command::GetOpenAiModels)
    } else if same_text(name, "get_anthropic_models") {
        Some(Command::GetAnthropicModels)
    } else if same_text(name, "get_groq_models") {
        Some(Command::GetGroqModels)
    } else if same_text(name, "get_openrouter_models") {
        Some(Command::GetOpenRouterModels)
    } else if same_text(name, "whisper_init") {
        Some(Command::Init(Engine::Whisper))
    } else if same_text(name, "whisper_get_available_models") {
        Some(Command::ListModels(Engine::Whisper))
    } else if same_text(name, "whisper_has_available_models") {
        Some(Command::HasModels(Engine::Whisper))
    } else if same_text(name, "whisper_load_model") {
        Some(Command::LoadModel(Engine::Whisper))
    } else if same_text(name, "whisper_is_model_loaded") {
        Some(Command::IsModelLoaded(Engine::Whisper))
    } else if same_text(name, "whisper_get_current_model") {
        Some(Command::CurrentModel(Engine::Whisper))
    } else if same_text(name, "whisper_get_models_directory") {
        Some(Command::ModelsDirectory(Engine::Whisper))
    } else if same_text(name, "whisper_validate_model_ready") {
        Some(Command::ValidateReady(Engine::Whisper))
    } else if same_text(name, "whisper_download_model") {
        Some(Command::DownloadModel(Engine::Whisper))
    } else if same_text(name, "whisper_cancel_download") {
        Some(Command::CancelDownload(Engine::Whisper))
    } else if same_text(name, "whisper_delete_corrupted_model") {
        Some(Command::DeleteModel(Engine::Whisper))
    } else if same_text(name, "parakeet_init") {
        Some(Command::Init(Engine::Parakeet))
    } else if same_text(name, "parakeet_get_available_models") {
        Some(Command::ListModels(Engine::Parakeet))
    } else if same_text(name, "parakeet_has_available_models") {
        Some(Command::HasModels(Engine::Parakeet))
    } else if same_text(name, "parakeet_load_model") {
        Some(Command::LoadModel(Engine::Parakeet))
    } else if same_text(name, "parakeet_is_model_loaded") {
        Some(Command::IsModelLoaded(Engine::Parakeet))
    } else if same_text(name, "parakeet_get_current_model") {
        Some(Command::CurrentModel(Engine::Parakeet))
    } else if same_text(name, "parakeet_get_models_directory") {
        Some(Command::ModelsDirectory(Engine::Parakeet))
    } else if same_text(name, "parakeet_validate_model_ready") {
        Some(Command::ValidateReady(Engine::Parakeet))
    } else if same_text(name, "parakeet_download_model") {
        Some(Command::DownloadModel(Engine::Parakeet))
    } else if same_text(name, "parakeet_cancel_download") {
        Some(Command::CancelDownload(Engine::Parakeet))
    } else if same_text(name, "parakeet_delete_corrupted_model") {
        Some(Command::DeleteModel(Engine::Parakeet))
    } else if same_text(name, "parakeet_retry_download") {
        Some(Command::RetryParakeetDownload)
    } else if same_text(name, "get_database_directory") {
        Some(Command::GetDatabaseDirectory)
    } else if same_text(name, "get_default_recordings_folder_path") {
        Some(Command::GetRecordingsFolder)
    } else if same_text(name, "get_recording_preferences") {
        Some(Command::GetRecordingPreferences)
    } else if same_text(name, "set_recording_preferences") {
        Some(Command::SetRecordingPreferences)
    } else if same_text(name, "set_notification_settings") {
        Some(Command::SetNotificationSettings)
    } else if same_text(name, "set_language_preference") {
        Some(Command::SetLanguagePreference)
    } else if same_text(name, "get_notification_settings") {
        Some(Command::GetNotificationSettings)
    } else if same_text(name, "check_first_launch") {
        Some(Command::CheckFirstLaunch)
    } else if same_text(name, "check_default_legacy_database") {
        Some(Command::CheckDefaultLegacyDatabase)
    } else if same_text(name, "detect_legacy_database") {
        Some(Command::DetectLegacyDatabase)
    } else if same_text(name, "check_homebrew_database") {
        Some(Command::CheckHomebrewDatabase)
    } else if same_text(name, "initialize_fresh_database") {
        Some(Command::InitializeFreshDatabase)
    } else if same_text(name, "builtin_ai_list_models") {
        Some(Command::ListBuiltinModels)
    } else if same_text(name, "builtin_ai_is_model_ready") {
        Some(Command::IsBuiltinReady)
    } else if same_text(name, "builtin_ai_get_model_info") {
        Some(Command::GetBuiltinModelInfo)
    } else if same_text(name, "builtin_ai_get_available_summary_model") {
        Some(Command::GetBuiltinSummaryModel)
    } else {
        None
    }
}

/// The length of a name with its first, its tenth and its last character, as one
/// number: enough to tell the names of commands apart.
#[verifier::opaque]
spec fn mark(name: Seq<char>) -> int {
    name.len() * 0x1000000 + name[0] as int * 0x10000 + name[9] as int * 0x100 + name[name.len()
        - 1] as int
}

proof fn lemma_marks()
    ensures
        mark("api_get_meetings"@) == 274818419,
        mark("api_get_meeting"@) == 258041191,
        mark("api_get_meeting_metadata"@) == 409036129,
        mark("api_get_meeting_transcripts"@) == 459367795,
        mark("api_save_transcript"@) == 325153908,
        mark("api_delete_meeting"@) == 308372839,
        mark("api_save_meeting_title"@) == 375483749,
        mark("api_search_transcripts"@) == 375482483,
        mark("api_get_model_config"@) == 341929831,
        mark("api_save_model_config"@) == 358706535,
        mark("api_get_transcript_config"@) == 425816679,
        mark("api_save_transcript_config"@) == 442594407,
        mark("api_get_api_key"@) == 258044025,
        mark("api_get_transcript_api_key"@) == 442593913,
        mark("api_get_custom_openai_config"@) == 476149095,
        mark("api_save_custom_openai_config"@) == 492921703,
        mark("api_test_custom_openai_connection"@) == 560030574,
        mark("api_get_summary"@) == 258045305,
        mark("api_process_transcript"@) == 375485300,
        mark("api_cancel_summary"@) == 308374649,
        mark("api_save_meeting_summary"@) == 409038201,
        mark("api_list_templates"@) == 308376691,
        mark("api_get_meeting_summary_language"@) == 543253861,
        mark("api_save_meeting_summary_language"@) == 560033125,
        mark("api_get_auto_generate_setting"@) == 492926311,
        mark("get_ollama_models"@) == 291987827,
        mark("delete_ollama_model"@) == 325348460,
        mark("get_openai_models"@) == 291989875,
        mark("get_anthropic_models"@) == 342323059,
        mark("get_groq_models"@) == 258436467,
        mark("get_openrouter_models"@) == 359100275,
        mark("whisper_init"@) == 209153652,
        mark("whisper_get_available_models"@) == 477586803,
        mark("whisper_has_available_models"@) == 477585779,
        mark("whisper_load_model"@) == 309817196,
        mark("whisper_is_model_loaded"@) == 393704292,
        mark("whisper_get_current_model"@) == 427255148,
        mark("whisper_get_models_directory"@) == 477586809,
        mark("whisper_validate_model_ready"@) == 477585785,
        mark("whisper_download_model"@) == 376926060,
        mark("whisper_cancel_download"@) == 393699684,
        mark("whisper_delete_corrupted_model"@) == 511141228,
        mark("parakeet_init"@) == 225470836,
        mark("parakeet_get_available_models"@) == 493905779,
        mark("parakeet_has_available_models"@) == 493906035,
        mark("parakeet_load_model"@) == 326134892,
        mark("parakeet_is_model_loaded"@) == 410020196,
        mark("parakeet_get_current_model"@) == 443574124,
        mark("parakeet_get_models_directory"@) == 493905785,
        mark("parakeet_validate_model_ready"@) == 493909625,
        mark("parakeet_download_model"@) == 393241708,
        mark("parakeet_cancel_download"@) == 410018660,
        mark("parakeet_delete_corrupted_model"@) == 527459436,
        mark("parakeet_retry_download"@) == 393245284,
        mark("get_database_directory"@) == 375873913,
        mark("get_default_recordings_folder_path"@) == 577203304,
        mark("get_recording_preferences"@) == 426206323,
        mark("set_recording_preferences"@) == 426992755,
        mark("set_notification_settings"@) == 426994035,
        mark("set_language_preference"@) == 393437541,
        mark("get_notification_settings"@) == 426207603,
        mark("check_first_launch"@) == 308507496,
        mark("check_default_legacy_database"@) == 493052261,
        mark("detect_legacy_database"@) == 375678821,
        mark("check_homebrew_database"@) == 392389989,
        mark("initialize_fresh_database"@) == 426337637,
        mark("builtin_ai_list_models"@) == 375548275,
        mark("builtin_ai_is_model_ready"@) == 425879929,
        mark("builtin_ai_get_model_info"@) == 425879919,
        mark("builtin_ai_get_available_summary_model"@) == 643983724,
{
    assert(mark("api_get_meetings"@) == 274818419) by {
        reveal_strlit("api_get_meetings");
        reveal(mark);
    }
    assert(mark("api_get_meeting"@) == 258041191) by {
        reveal_strlit("api_get_meeting");
        reveal(mark);
    }
    assert(mark("api_get_meeting_metadata"@) == 409036129) by {
        reveal_strlit("api_get_meeting_metadata");
        reveal(mark);
    }
    assert(mark("api_get_meeting_transcripts"@) == 459367795) by {
        reveal_strlit("api_get_meeting_transcripts");
        reveal(mark);
    }
    assert(mark("api_save_transcript"@) == 325153908) by {
        reveal_strlit("api_save_transcript");
        reveal(mark);
    }
    assert(mark("api_delete_meeting"@) == 308372839) by {
        reveal_strlit("api_delete_meeting");
        reveal(mark);
    }
    assert(mark("api_save_meeting_title"@) == 375483749) by {
        reveal_strlit("api_save_meeting_title");
        reveal(mark);
    }
    assert(mark("api_search_transcripts"@) == 375482483) by {
        reveal_strlit("api_search_transcripts");
        reveal(mark);
    }
    assert(mark("api_get_model_config"@) == 341929831) by {
        reveal_strlit("api_get_model_config");
        reveal(mark);
    }
    assert(mark("api_save_model_config"@) == 358706535) by {
        reveal_strlit("api_save_model_config");
        reveal(mark);
    }
    assert(mark("api_get_transcript_config"@) == 425816679) by {
        reveal_strlit("api_get_transcript_config");
        reveal(mark);
    }
    assert(mark("api_save_transcript_config"@) == 442594407) by {
        reveal_strlit("api_save_transcript_config");
        reveal(mark);
    }
    assert(mark("api_get_api_key"@) == 258044025) by {
        reveal_strlit("api_get_api_key");
        reveal(mark);
    }
    assert(mark("api_get_transcript_api_key"@) == 442593913) by {
        reveal_strlit("api_get_transcript_api_key");
        reveal(mark);
    }
    assert(mark("api_get_custom_openai_config"@) == 476149095) by {
        reveal_strlit("api_get_custom_openai_config");
        reveal(mark);
    }
    assert(mark("api_save_custom_openai_config"@) == 492921703) by {
        reveal_strlit("api_save_custom_openai_config");
        reveal(mark);
    }
    assert(mark("api_test_custom_openai_connection"@) == 560030574) by {
        reveal_strlit("api_test_custom_openai_connection");
        reveal(mark);
    }
    assert(mark("api_get_summary"@) == 258045305) by {
        reveal_strlit("api_get_summary");
        reveal(mark);
    }
    assert(mark("api_process_transcript"@) == 375485300) by {
        reveal_strlit("api_process_transcript");
        reveal(mark);
    }
    assert(mark("api_cancel_summary"@) == 308374649) by {
        reveal_strlit("api_cancel_summary");
        reveal(mark);
    }
    assert(mark("api_save_meeting_summary"@) == 409038201) by {
        reveal_strlit("api_save_meeting_summary");
        reveal(mark);
    }
    assert(mark("api_list_templates"@) == 308376691) by {
        reveal_strlit("api_list_templates");
        reveal(mark);
    }
    assert(mark("api_get_meeting_summary_language"@) == 543253861) by {
        reveal_strlit("api_get_meeting_summary_language");
        reveal(mark);
    }
    assert(mark("api_save_meeting_summary_language"@) == 560033125) by {
        reveal_strlit("api_save_meeting_summary_language");
        reveal(mark);
    }
    assert(mark("api_get_auto_generate_setting"@) == 492926311) by {
        reveal_strlit("api_get_auto_generate_setting");
        reveal(mark);
    }
    assert(mark("get_ollama_models"@) == 291987827) by {
        reveal_strlit("get_ollama_models");
        reveal(mark);
    }
    assert(mark("delete_ollama_model"@) == 325348460) by {
        reveal_strlit("delete_ollama_model");
        reveal(mark);
    }
    assert(mark("get_openai_models"@) == 291989875) by {
        reveal_strlit("get_openai_models");
        reveal(mark);
    }
    assert(mark("get_anthropic_models"@) == 342323059) by {
        reveal_strlit("get_anthropic_models");
        reveal(mark);
    }
    assert(mark("get_groq_models"@) == 258436467) by {
        reveal_strlit("get_groq_models");
        reveal(mark);
    }
    assert(mark("get_openrouter_models"@) == 359100275) by {
        reveal_strlit("get_openrouter_models");
        reveal(mark);
    }
    assert(mark("whisper_init"@) == 209153652) by {
        reveal_strlit("whisper_init");
        reveal(mark);
    }
    assert(mark("whisper_get_available_models"@) == 477586803) by {
        reveal_strlit("whisper_get_available_models");
        reveal(mark);
    }
    assert(mark("whisper_has_available_models"@) == 477585779) by {
        reveal_strlit("whisper_has_available_models");
        reveal(mark);
    }
    assert(mark("whisper_load_model"@) == 309817196) by {
        reveal_strlit("whisper_load_model");
        reveal(mark);
    }
    assert(mark("whisper_is_model_loaded"@) == 393704292) by {
        reveal_strlit("whisper_is_model_loaded");
        reveal(mark);
    }
    assert(mark("whisper_get_current_model"@) == 427255148) by {
        reveal_strlit("whisper_get_current_model");
        reveal(mark);
    }
    assert(mark("whisper_get_models_directory"@) == 477586809) by {
        reveal_strlit("whisper_get_models_directory");
        reveal(mark);
    }
    assert(mark("whisper_validate_model_ready"@) == 477585785) by {
        reveal_strlit("whisper_validate_model_ready");
        reveal(mark);
    }
    assert(mark("whisper_download_model"@) == 376926060) by {
        reveal_strlit("whisper_download_model");
        reveal(mark);
    }
    assert(mark("whisper_cancel_download"@) == 393699684) by {
        reveal_strlit("whisper_cancel_download");
        reveal(mark);
    }
    assert(mark("whisper_delete_corrupted_model"@) == 511141228) by {
        reveal_strlit("whisper_delete_corrupted_model");
        reveal(mark);
    }
    assert(mark("parakeet_init"@) == 225470836) by {
        reveal_strlit("parakeet_init");
        reveal(mark);
    }
    assert(mark("parakeet_get_available_models"@) == 493905779) by {
        reveal_strlit("parakeet_get_available_models");
        reveal(mark);
    }
    assert(mark("parakeet_has_available_models"@) == 493906035) by {
        reveal_strlit("parakeet_has_available_models");
        reveal(mark);
    }
    assert(mark("parakeet_load_model"@) == 326134892) by {
        reveal_strlit("parakeet_load_model");
        reveal(mark);
    }
    assert(mark("parakeet_is_model_loaded"@) == 410020196) by {
        reveal_strlit("parakeet_is_model_loaded");
        reveal(mark);
    }
    assert(mark("parakeet_get_current_model"@) == 443574124) by {
        reveal_strlit("parakeet_get_current_model");
        reveal(mark);
    }
    assert(mark("parakeet_get_models_directory"@) == 493905785) by {
        reveal_strlit("parakeet_get_models_directory");
        reveal(mark);
    }
    assert(mark("parakeet_validate_model_ready"@) == 493909625) by {
        reveal_strlit("parakeet_validate_model_ready");
        reveal(mark);
    }
    assert(mark("parakeet_download_model"@) == 393241708) by {
        reveal_strlit("parakeet_download_model");
        reveal(mark);
    }
    assert(mark("parakeet_cancel_download"@) == 410018660) by {
        reveal_strlit("parakeet_cancel_download");
        reveal(mark);
    }
    assert(mark("parakeet_delete_corrupted_model"@) == 527459436) by {
        reveal_strlit("parakeet_delete_corrupted_model");
        reveal(mark);
    }
    assert(mark("parakeet_retry_download"@) == 393245284) by {
        reveal_strlit("parakeet_retry_download");
        reveal(mark);
    }
    assert(mark("get_database_directory"@) == 375873913) by {
        reveal_strlit("get_database_directory");
        reveal(mark);
    }
    assert(mark("get_default_recordings_folder_path"@) == 577203304) by {
        reveal_strlit("get_default_recordings_folder_path");
        reveal(mark);
    }
    assert(mark("get_recording_preferences"@) == 426206323) by {
        reveal_strlit("get_recording_preferences");
        reveal(mark);
    }
    assert(mark("set_recording_preferences"@) == 426992755) by {
        reveal_strlit("set_recording_preferences");
        reveal(mark);
    }
    assert(mark("set_notification_settings"@) == 426994035) by {
        reveal_strlit("set_notification_settings");
        reveal(mark);
    }
    assert(mark("set_language_preference"@) == 393437541) by {
        reveal_strlit("set_language_preference");
        reveal(mark);
    }
    assert(mark("get_notification_settings"@) == 426207603) by {
        reveal_strlit("get_notification_settings");
        reveal(mark);
    }
    assert(mark("check_first_launch"@) == 308507496) by {
        reveal_strlit("check_first_launch");
        reveal(mark);
    }
    assert(mark("check_default_legacy_database"@) == 493052261) by {
        reveal_strlit("check_default_legacy_database");
        reveal(mark);
    }
    assert(mark("detect_legacy_database"@) == 375678821) by {
        reveal_strlit("detect_legacy_database");
        reveal(mark);
    }
    assert(mark("check_homebrew_database"@) == 392389989) by {
        reveal_strlit("check_homebrew_database");
        reveal(mark);
    }
    assert(mark("initialize_fresh_database"@) == 426337637) by {
        reveal_strlit("initialize_fresh_database");
        reveal(mark);
    }
    assert(mark("builtin_ai_list_models"@) == 375548275) by {
        reveal_strlit("builtin_ai_list_models");
        reveal(mark);
    }
    assert(mark("builtin_ai_is_model_ready"@) == 425879929) by {
        reveal_strlit("builtin_ai_is_model_ready");
        reveal(mark);
    }
    assert(mark("builtin_ai_get_model_info"@) == 425879919) by {
        reveal_strlit("builtin_ai_get_model_info");
        reveal(mark);
    }
    assert(mark("builtin_ai_get_available_summary_model"@) == 643983724) by {
        reveal_strlit("builtin_ai_get_available_summary_model");
        reveal(mark);
    }
}

/// Every command is reached by its own name. So no two commands share a name,
/// and no command is out of reach.
#[verifier::rlimit(60)]
pub proof fn every_command_is_reached_by_its_name(command: Command)
    ensures
        command_named(command_name(command)) == Some(command),
{
    lemma_marks();
    match command {
        Command::GetMeetings => {
            assert(command_named("api_get_meetings"@) == Some(Command::GetMeetings));
        },
        Command::GetMeeting => {
            assert(command_named("api_get_meeting"@) == Some(Command::GetMeeting));
        },
        Command::GetMeetingMetadata => {
            assert(command_named("api_get_meeting_metadata"@) == Some(Command::GetMeetingMetadata));
        },
        Command::GetMeetingTranscripts => {
            assert(command_named("api_get_meeting_transcripts"@) == Some(
                Command::GetMeetingTranscripts,
            ));
        },
        Command::SaveTranscript => {
            assert(command_named("api_save_transcript"@) == Some(Command::SaveTranscript));
        },
        Command::DeleteMeeting => {
            assert(command_named("api_delete_meeting"@) == Some(Command::DeleteMeeting));
        },
        Command::SaveMeetingTitle => {
            assert(command_named("api_save_meeting_title"@) == Some(Command::SaveMeetingTitle));
        },
        Command::SearchTranscripts => {
            assert(command_named("api_search_transcripts"@) == Some(Command::SearchTranscripts));
        },
        Command::GetModelConfig => {
            assert(command_named("api_get_model_config"@) == Some(Command::GetModelConfig));
        },
        Command::SaveModelConfig => {
            assert(command_named("api_save_model_config"@) == Some(Command::SaveModelConfig));
        },
        Command::GetTranscriptConfig => {
            assert(command_named("api_get_transcript_config"@) == Some(
                Command::GetTranscriptConfig,
            ));
        },
        Command::SaveTranscriptConfig => {
            assert(command_named("api_save_transcript_config"@) == Some(
                Command::SaveTranscriptConfig,
            ));
        },
        Command::GetApiKey => {
            assert(command_named("api_get_api_key"@) == Some(Command::GetApiKey));
        },
        Command::GetTranscriptApiKey => {
            assert(command_named("api_get_transcript_api_key"@) == Some(
                Command::GetTranscriptApiKey,
            ));
        },
        Command::GetCustomOpenAi => {
            assert(command_named("api_get_custom_openai_config"@) == Some(
                Command::GetCustomOpenAi,
            ));
        },
        Command::SaveCustomOpenAi => {
            assert(command_named("api_save_custom_openai_config"@) == Some(
                Command::SaveCustomOpenAi,
            ));
        },
        Command::TestCustomOpenAi => {
            assert(command_named("api_test_custom_openai_connection"@) == Some(
                Command::TestCustomOpenAi,
            ));
        },
        Command::GetSummary => {
            assert(command_named("api_get_summary"@) == Some(Command::GetSummary));
        },
        Command::ProcessTranscript => {
            assert(command_named("api_process_transcript"@) == Some(Command::ProcessTranscript));
        },
        Command::CancelSummary => {
            assert(command_named("api_cancel_summary"@) == Some(Command::CancelSummary));
        },
        Command::SaveMeetingSummary => {
            assert(command_named("api_save_meeting_summary"@) == Some(Command::SaveMeetingSummary));
        },
        Command::ListTemplates => {
            assert(command_named("api_list_templates"@) == Some(Command::ListTemplates));
        },
        Command::GetSummaryLanguage => {
            assert(command_named("api_get_meeting_summary_language"@) == Some(
                Command::GetSummaryLanguage,
            ));
        },
        Command::SaveSummaryLanguage => {
            assert(command_named("api_save_meeting_summary_language"@) == Some(
                Command::SaveSummaryLanguage,
            ));
        },
        Command::GetAutoGenerate => {
            assert(command_named("api_get_auto_generate_setting"@) == Some(
                Command::GetAutoGenerate,
            ));
        },
        Command::GetOllamaModels => {
            assert(command_named("get_ollama_models"@) == Some(Command::GetOllamaModels));
        },
        Command::DeleteOllamaModel => {
            assert(command_named("delete_ollama_model"@) == Some(Command::DeleteOllamaModel));
        },
        Command::GetOpenAiModels => {
            assert(command_named("get_openai_models"@) == Some(Command::GetOpenAiModels));
        },
        Command::GetAnthropicModels => {
            assert(command_named("get_anthropic_models"@) == Some(Command::GetAnthropicModels));
        },
        Command::GetGroqModels => {
            assert(command_named("get_groq_models"@) == Some(Command::GetGroqModels));
        },
        Command::GetOpenRouterModels => {
            assert(command_named("get_openrouter_models"@) == Some(Command::GetOpenRouterModels));
        },
        Command::Init(Engine::Whisper) => {
            assert(command_named("whisper_init"@) == Some(Command::Init(Engine::Whisper)));
        },
        Command::ListModels(Engine::Whisper) => {
            assert(command_named("whisper_get_available_models"@) == Some(
                Command::ListModels(Engine::Whisper),
            ));
        },
        Command::HasModels(Engine::Whisper) => {
            assert(command_named("whisper_has_available_models"@) == Some(
                Command::HasModels(Engine::Whisper),
            ));
        },
        Command::LoadModel(Engine::Whisper) => {
            assert(command_named("whisper_load_model"@) == Some(
                Command::LoadModel(Engine::Whisper),
            ));
        },
        Command::IsModelLoaded(Engine::Whisper) => {
            assert(command_named("whisper_is_model_loaded"@) == Some(
                Command::IsModelLoaded(Engine::Whisper),
            ));
        },
        Command::CurrentModel(Engine::Whisper) => {
            assert(command_named("whisper_get_current_model"@) == Some(
                Command::CurrentModel(Engine::Whisper),
            ));
        },
        Command::ModelsDirectory(Engine::Whisper) => {
            assert(command_named("whisper_get_models_directory"@) == Some(
                Command::ModelsDirectory(Engine::Whisper),
            ));
        },
        Command::ValidateReady(Engine::Whisper) => {
            assert(command_named("whisper_validate_model_ready"@) == Some(
                Command::ValidateReady(Engine::Whisper),
            ));
        },
        Command::DownloadModel(Engine::Whisper) => {
            assert(command_named("whisper_download_model"@) == Some(
                Command::DownloadModel(Engine::Whisper),
            ));
        },
        Command::CancelDownload(Engine::Whisper) => {
            assert(command_named("whisper_cancel_download"@) == Some(
                Command::CancelDownload(Engine::Whisper),
            ));
        },
        Command::DeleteModel(Engine::Whisper) => {
            assert(command_named("whisper_delete_corrupted_model"@) == Some(
                Command::DeleteModel(Engine::Whisper),
            ));
        },
        Command::Init(Engine::Parakeet) => {
            assert(command_named("parakeet_init"@) == Some(Command::Init(Engine::Parakeet)));
        },
        Command::ListModels(Engine::Parakeet) => {
            assert(command_named("parakeet_get_available_models"@) == Some(
                Command::ListModels(Engine::Parakeet),
            ));
        },
        Command::HasModels(Engine::Parakeet) => {
            assert(command_named("parakeet_has_available_models"@) == Some(
                Command::HasModels(Engine::Parakeet),
            ));
        },
        Command::LoadModel(Engine::Parakeet) => {
            assert(command_named("parakeet_load_model"@) == Some(
                Command::LoadModel(Engine::Parakeet),
            ));
        },
        Command::IsModelLoaded(Engine::Parakeet) => {
            assert(command_named("parakeet_is_model_loaded"@) == Some(
                Command::IsModelLoaded(Engine::Parakeet),
            ));
        },
        Command::CurrentModel(Engine::Parakeet) => {
            assert(command_named("parakeet_get_current_model"@) == Some(
                Command::CurrentModel(Engine::Parakeet),
            ));
        },
        Command::ModelsDirectory(Engine::Parakeet) => {
            assert(command_named("parakeet_get_models_directory"@) == Some(
                Command::ModelsDirectory(Engine::Parakeet),
            ));
        },
        Command::ValidateReady(Engine::Parakeet) => {
            assert(command_named("parakeet_validate_model_ready"@) == Some(
                Command::ValidateReady(Engine::Parakeet),
            ));
        },
        Command::DownloadModel(Engine::Parakeet) => {
            assert(command_named("parakeet_download_model"@) == Some(
                Command::DownloadModel(Engine::Parakeet),
            ));
        },
        Command::CancelDownload(Engine::Parakeet) => {
            assert(command_named("parakeet_cancel_download"@) == Some(
                Command::CancelDownload(Engine::Parakeet),
            ));
        },
        Command::DeleteModel(Engine::Parakeet) => {
            assert(command_named("parakeet_delete_corrupted_model"@) == Some(
                Command::DeleteModel(Engine::Parakeet),
            ));
        },
        Command::RetryParakeetDownload => {
            assert(command_named("parakeet_retry_download"@) == Some(
                Command::RetryParakeetDownload,
            ));
        },
        Command::GetDatabaseDirectory => {
            assert(command_named("get_database_directory"@) == Some(Command::GetDatabaseDirectory));
        },
        Command::GetRecordingsFolder => {
            assert(command_named("get_default_recordings_folder_path"@) == Some(
                Command::GetRecordingsFolder,
            ));
        },
        Command::GetRecordingPreferences => {
            assert(command_named("get_recording_preferences"@) == Some(
                Command::GetRecordingPreferences,
            ));
        },
        Command::SetRecordingPreferences => {
            assert(command_named("set_recording_preferences"@) == Some(
                Command::SetRecordingPreferences,
            ));
        },
        Command::SetNotificationSettings => {
            assert(command_named("set_notification_settings"@) == Some(
                Command::SetNotificationSettings,
            ));
        },
        Command::SetLanguagePreference => {
            assert(command_named("set_language_preference"@) == Some(
                Command::SetLanguagePreference,
            ));
        },
        Command::GetNotificationSettings => {
            assert(command_named("get_notification_settings"@) == Some(
                Command::GetNotificationSettings,
            ));
        },
        Command::CheckFirstLaunch => {
            assert(command_named("check_first_launch"@) == Some(Command::CheckFirstLaunch));
        },
        Command::CheckDefaultLegacyDatabase => {
            assert(command_named("check_default_legacy_database"@) == Some(
                Command::CheckDefaultLegacyDatabase,
            ));
        },
        Command::DetectLegacyDatabase => {
            assert(command_named("detect_legacy_database"@) == Some(Command::DetectLegacyDatabase));
        },
        Command::CheckHomebrewDatabase => {
            assert(command_named("check_homebrew_database"@) == Some(
                Command::CheckHomebrewDatabase,
            ));
        },
        Command::InitializeFreshDatabase => {
            assert(command_named("initialize_fresh_database"@) == Some(
                Command::InitializeFreshDatabase,
            ));
        },
        Command::ListBuiltinModels => {
            assert(command_named("builtin_ai_list_models"@) == Some(Command::ListBuiltinModels));
        },
        Command::IsBuiltinReady => {
            assert(command_named("builtin_ai_is_model_ready"@) == Some(Command::IsBuiltinReady));
        },
        Command::GetBuiltinModelInfo => {
            assert(command_named("builtin_ai_get_model_info"@) == Some(
                Command::GetBuiltinModelInfo,
            ));
        },
        Command::GetBuiltinSummaryModel => {
            assert(command_named("builtin_ai_get_available_summary_model"@) == Some(
                Command::GetBuiltinSummaryModel,
            ));
        },
    }
}

/// A name that no command has stands for none.
pub proof fn other_names_stand_for_nothing(name: Seq<char>)
    requires
        forall|command: Command| #[trigger] command_name(command) != name,
    ensures
        command_named(name) is None,
{
    assert(command_name(Command::GetMeetings) != name);
    assert(command_name(Command::GetMeeting) != name);
    assert(command_name(Command::GetMeetingMetadata) != name);
    assert(command_name(Command::GetMeetingTranscripts) != name);
    assert(command_name(Command::SaveTranscript) != name);
    assert(command_name(Command::DeleteMeeting) != name);
    assert(command_name(Command::SaveMeetingTitle) != name);
    assert(command_name(Command::SearchTranscripts) != name);
    assert(command_name(Command::GetModelConfig) != name);
    assert(command_name(Command::SaveModelConfig) != name);
    assert(command_name(Command::GetTranscriptConfig) != name);
    assert(command_name(Command::SaveTranscriptConfig) != name);
    assert(command_name(Command::GetApiKey) != name);
    assert(command_name(Command::GetTranscriptApiKey) != name);
    assert(command_name(Command::GetCustomOpenAi) != name);
    assert(command_name(Command::SaveCustomOpenAi) != name);
    assert(command_name(Command::TestCustomOpenAi) != name);
    assert(command_name(Command::GetSummary) != name);
    assert(command_name(Command::ProcessTranscript) != name);
    assert(command_name(Command::CancelSummary) != name);
    assert(command_name(Command::SaveMeetingSummary) != name);
    assert(command_name(Command::ListTemplates) != name);
    assert(command_name(Command::GetSummaryLanguage) != name);
    assert(command_name(Command::SaveSummaryLanguage) != name);
    assert(command_name(Command::GetAutoGenerate) != name);
    assert(command_name(Command::GetOllamaModels) != name);
    assert(command_name(Command::DeleteOllamaModel) != name);
    assert(command_name(Command::GetOpenAiModels) != name);
    assert(command_name(Command::GetAnthropicModels) != name);
    assert(command_name(Command::GetGroqModels) != name);
    assert(command_name(Command::GetOpenRouterModels) != name);
    assert(command_name(Command::Init(Engine::Whisper)) != name);
    assert(command_name(Command::ListModels(Engine::Whisper)) != name);
    assert(command_name(Command::HasModels(Engine::Whisper)) != name);
    assert(command_name(Command::LoadModel(Engine::Whisper)) != name);
    assert(command_name(Command::IsModelLoaded(Engine::Whisper)) != name);
    assert(command_name(Command::CurrentModel(Engine::Whisper)) != name);
    assert(command_name(Command::ModelsDirectory(Engine::Whisper)) != name);
    assert(command_name(Command::ValidateReady(Engine::Whisper)) != name);
    assert(command_name(Command::DownloadModel(Engine::Whisper)) != name);
    assert(command_name(Command::CancelDownload(Engine::Whisper)) != name);
    assert(command_name(Command::DeleteModel(Engine::Whisper)) != name);
    assert(command_name(Command::Init(Engine::Parakeet)) != name);
    assert(command_name(Command::ListModels(Engine::Parakeet)) != name);
    assert(command_name(Command::HasModels(Engine::Parakeet)) != name);
    assert(command_name(Command::LoadModel(Engine::Parakeet)) != name);
    assert(command_name(Command::IsModelLoaded(Engine::Parakeet)) != name);
    assert(command_name(Command::CurrentModel(Engine::Parakeet)) != name);
    assert(command_name(Command::ModelsDirectory(Engine::Parakeet)) != name);
    assert(command_name(Command::ValidateReady(Engine::Parakeet)) != name);
    assert(command_name(Command::DownloadModel(Engine::Parakeet)) != name);
    assert(command_name(Command::CancelDownload(Engine::Parakeet)) != name);
    assert(command_name(Command::DeleteModel(Engine::Parakeet)) != name);
    assert(command_name(Command::RetryParakeetDownload) != name);
    assert(command_name(Command::GetDatabaseDirectory) != name);
    assert(command_name(Command::GetRecordingsFolder) != name);
    assert(command_name(Command::GetRecordingPreferences) != name);
    assert(command_name(Command::SetRecordingPreferences) != name);
    assert(command_name(Command::SetNotificationSettings) != name);
    assert(command_name(Command::SetLanguagePreference) != name);
    assert(command_name(Command::GetNotificationSettings) != name);
    assert(command_name(Command::CheckFirstLaunch) != name);
    assert(command_name(Command::CheckDefaultLegacyDatabase) != name);
    assert(command_name(Command::DetectLegacyDatabase) != name);
    assert(command_name(Command::CheckHomebrewDatabase) != name);
    assert(command_name(Command::InitializeFreshDatabase) != name);
    assert(command_name(Command::ListBuiltinModels) != name);
    assert(command_name(Command::IsBuiltinReady) != name);
    assert(command_name(Command::GetBuiltinModelInfo) != name);
    assert(command_name(Command::GetBuiltinSummaryModel) != name);
}

} // verus!
