//! What holds of whole conversations: a command is sent by its name, what it asks for is
//! performed, and it is answered.

use vstd::prelude::*;

use crate::args::{solid_text_arg, within_one, within_two};
use crate::commands::{every_command_is_reached_by_its_name, Command};
use crate::dispatch::{first_step, fits, mentions, resumed};
use crate::engines::{chosen_model, download_finished, download_progress, first_available};
use crate::error::ApiErrorView;
use crate::events::EventView;
use crate::json::{fields_are_found_again, text_or_null, whole, JsonView, Number};
use crate::meetings::{meeting_list, rows_show_their_transcript_as_text, transcript_wire};
use crate::paths::joined;
use crate::protocol::{
    ActionOf, ActionView, Catalog, CustomOpenAiOf, Engine, ModelView, OutcomeView, StepView,
    TemplateView,
};
use crate::settings::{chat_url, probe};
use crate::state::ServerView;
use crate::summary::{stored_status, summary, template_list};
use crate::text::{
    blank, blank_means_all_white_space, decimal_digits, lower_case, trimmed, white_space,
    without_trailing,
};

verus! {

/// Whether a request brings this text under a key.
pub open spec fn given(args: JsonView, key: Seq<char>, text: Seq<char>) -> bool {
    args.get(key) == Some(JsonView::Text(text))
}

/// The text that a request brings under a key, if any.
pub open spec fn brought(args: JsonView, key: Seq<char>) -> Option<Seq<char>> {
    match args.get(key) {
        Some(JsonView::Text(text)) => Some(text),
        _ => None,
    }
}

/// The same, unless all of it is white space.
pub open spec fn brought_solid(args: JsonView, key: Seq<char>) -> Option<Seq<char>> {
    match args.get(key) {
        Some(JsonView::Text(text)) => if forall|i: int|
            0 <= i < text.len() ==> white_space(#[trigger] text[i]) {
            None
        } else {
            Some(text)
        },
        _ => None,
    }
}

proof fn lemma_brought_solid(args: JsonView, key: Seq<char>)
    ensures
        solid_text_arg(args, key) == brought_solid(args, key),
{
    if let Some(JsonView::Text(text)) = args.get(key) {
        blank_means_all_white_space(text);
    }
}

/// Whether a command asks for this action, and tells the browsers nothing.
pub open spec fn asks(step: StepView, action: ActionView) -> bool {
    step matches StepView::Perform { events, action: asked, .. } && events.len() == 0 && asked
        == action
}

/// Whether a command is answered with this value, and the browsers are told nothing.
pub open spec fn answers(step: StepView, value: JsonView) -> bool {
    step matches StepView::Reply { events, result } && events.len() == 0 && result == Ok::<
        JsonView,
        ApiErrorView,
    >(value)
}

/// The value that a command is answered with, if any.
pub open spec fn answer_of(step: StepView) -> Option<JsonView> {
    match step {
        StepView::Reply { events, result: Ok(value) } => if events.len() == 0 {
            Some(value)
        } else {
            None
        },
        _ => None,
    }
}

/// Whether a command is refused under this status, with a message that speaks of `about`.
pub open spec fn refuses(step: StepView, status: u16, about: Seq<char>) -> bool {
    step matches StepView::Reply { events, result: Err(e) } && events.len() == 0 && e.status
        == status && mentions(e.message, about)
}

/// Where a command stands once its action had an outcome that it can have.
pub open spec fn led(server: ServerView, step: StepView, outcome: OutcomeView) -> StepView {
    match step {
        StepView::Perform { pending, .. } if fits(pending, outcome) => resumed(
            server,
            pending,
            outcome,
        ),
        _ => step,
    }
}

proof fn lemma_mentioned_at(text: Seq<char>, part: Seq<char>, at: int)
    requires
        0 <= at <= text.len() - part.len(),
        text.subrange(at, at + part.len()) == part,
    ensures
        mentions(text, part),
{
}

proof fn lemma_mentioned(lead: Seq<char>, part: Seq<char>, tail: Seq<char>)
    ensures
        mentions(lead + part + tail, part),
        mentions(lead + part, part),
{
    let at: int = lead.len() as int;
    assert((lead + part + tail).subrange(at, at + part.len()) =~= part);
    assert((lead + part).subrange(at, at + part.len()) =~= part);
}

/// A meeting is looked up, deleted and renamed under the id that the request names, and the
/// answer is about that meeting: what was found, or that there is none of that id.
pub proof fn meetings_go_by_their_id(
    server: ServerView,
    args: JsonView,
    fresh: Seq<char>,
    id: Seq<char>,
    title: Seq<char>,
    meeting: JsonView,
)
    requires
        given(args, "meetingId"@, id),
    ensures
        ({
            let get = first_step(server, "api_get_meeting"@, args, fresh);
            let found = OutcomeView::MaybeValue { value: Some(meeting) };
            let missing = OutcomeView::MaybeValue { value: None };
            &&& asks(get, ActionOf::FindMeeting { id })
            &&& answers(led(server, get, found), meeting)
            &&& refuses(led(server, get, missing), 404, id)
        }),
        ({
            let get = first_step(server, "api_get_meeting_metadata"@, args, fresh);
            let found = OutcomeView::MaybeValue { value: Some(meeting) };
            let missing = OutcomeView::MaybeValue { value: None };
            &&& asks(get, ActionOf::FindMeetingMetadata { id })
            &&& answers(led(server, get, found), meeting)
            &&& refuses(led(server, get, missing), 404, id)
        }),
        ({
            let delete = first_step(server, "api_delete_meeting"@, args, fresh);
            let done = led(server, delete, OutcomeView::Flag { value: true });
            &&& asks(delete, ActionOf::DeleteMeeting { id })
            &&& answer_of(done) matches Some(v) && v.get("status"@) == Some(
                JsonView::Text("success"@),
            ) && v.get("message"@) == Some(JsonView::Text("Meeting deleted successfully"@))
            &&& refuses(led(server, delete, OutcomeView::Flag { value: false }), 404, id)
        }),
        given(args, "title"@, title) ==> {
            let rename = first_step(server, "api_save_meeting_title"@, args, fresh);
            &&& asks(rename, ActionOf::RenameMeeting { id, title })
            &&& answer_of(led(server, rename, OutcomeView::Flag { value: true })) matches Some(v)
                && v.get("message"@) == Some(JsonView::Text("Meeting title saved successfully"@))
            &&& refuses(led(server, rename, OutcomeView::Flag { value: false }), 404, id)
        },
{
    every_command_is_reached_by_its_name(Command::GetMeeting);
    every_command_is_reached_by_its_name(Command::GetMeetingMetadata);
    every_command_is_reached_by_its_name(Command::DeleteMeeting);
    every_command_is_reached_by_its_name(Command::SaveMeetingTitle);
    lemma_mentioned("Meeting not found: "@, id, Seq::empty());
    lemma_mentioned("Meeting not found or could not be deleted: "@, id, Seq::empty());
    lemma_mentioned("No meeting found with id "@, id, Seq::empty());
    fields_are_found_again(
        JsonView::object(),
        "message"@,
        JsonView::Text("Meeting title saved successfully"@),
    );
    reveal_strlit("status");
    reveal_strlit("message");
    assert("status"@.len() == 6 && "message"@.len() == 7);
    let o0 = JsonView::object();
    let o1 = o0.with("status"@, JsonView::Text("success"@));
    fields_are_found_again(o0, "status"@, JsonView::Text("success"@));
    fields_are_found_again(o1, "message"@, JsonView::Text("Meeting deleted successfully"@));
}

/// All meetings are listed, each with its id and its title, in the order in which they are
/// stored; and a search is answered with what it finds.
pub proof fn meetings_are_listed_and_searched(
    server: ServerView,
    args: JsonView,
    fresh: Seq<char>,
    rows: Seq<JsonView>,
    query: Seq<char>,
    found: JsonView,
)
    ensures
        ({
            let list = first_step(server, "api_get_meetings"@, args, fresh);
            &&& asks(list, ActionOf::ListMeetings)
            &&& answer_of(led(server, list, OutcomeView::Values { rows })) matches Some(
                JsonView::Array(shown),
            ) && shown.len() == rows.len() && forall|i: int|
                0 <= i < rows.len() ==> (#[trigger] shown[i]).get("id"@) == Some(rows[i].pick("id"@))
                    && shown[i].get("title"@) == Some(rows[i].pick("title"@))
        }),
        given(args, "query"@, query) ==> {
            let search = first_step(server, "api_search_transcripts"@, args, fresh);
            &&& asks(search, ActionOf::SearchTranscripts { query })
            &&& answers(led(server, search, OutcomeView::Value { value: found }), found)
        },
{
    every_command_is_reached_by_its_name(Command::GetMeetings);
    every_command_is_reached_by_its_name(Command::SearchTranscripts);
    let shown = meeting_list(rows)->Array_0;
    assert forall|i: int| 0 <= i < rows.len() implies (#[trigger] shown[i]).get("id"@) == Some(
        rows[i].pick("id"@),
    ) && shown[i].get("title"@) == Some(rows[i].pick("title"@)) by {
        reveal_strlit("id");
        reveal_strlit("title");
        assert("id"@.len() == 2 && "title"@.len() == 5);
        let o0 = JsonView::object();
        let o1 = o0.with("id"@, rows[i].pick("id"@));
        fields_are_found_again(o0, "id"@, rows[i].pick("id"@));
        fields_are_found_again(o1, "title"@, rows[i].pick("title"@));
    }
}

/// A page of transcripts is the one that was asked for: all of its rows are shown, in
/// order, with how many there are in all, and whether more come after it.
pub proof fn transcripts_are_shown_page_by_page(
    server: ServerView,
    args: JsonView,
    fresh: Seq<char>,
    id: Seq<char>,
    limit: i64,
    offset: i64,
    rows: Seq<JsonView>,
    total: i64,
)
    requires
        given(args, "meetingId"@, id),
        args.pick("limit"@).as_i64() == Some(limit),
        args.pick("offset"@).as_i64() == Some(offset),
    ensures
        ({
            let page = first_step(server, "api_get_meeting_transcripts"@, args, fresh);
            &&& asks(page, ActionOf::PageTranscripts { id, limit, offset })
            &&& answer_of(led(server, page, OutcomeView::Page { rows, total })) matches Some(v) && {
                &&& v.get("transcripts"@) matches Some(JsonView::Array(shown)) && shown.len()
                    == rows.len() && forall|i: int|
                    0 <= i < rows.len() ==> (#[trigger] shown[i]).get("text"@) == Some(
                        rows[i].pick("transcript"@),
                    ) && shown[i].get("id"@) == Some(rows[i].pick("id"@)) && shown[i].get(
                        "timestamp"@,
                    ) == Some(rows[i].pick("timestamp"@)) && shown[i].pick("audio_start_time"@)
                        == rows[i].pick("audio_start_time"@) && shown[i].pick("audio_end_time"@)
                        == rows[i].pick("audio_end_time"@) && shown[i].pick("duration"@)
                        == rows[i].pick("duration"@)
                &&& v.pick("total_count"@).as_i64() == Some(total)
                &&& v.get("has_more"@) == Some(JsonView::Bool(offset + rows.len() < total))
            }
        }),
{
    every_command_is_reached_by_its_name(Command::GetMeetingTranscripts);
    let list = JsonView::Array(Seq::new(rows.len(), |i: int| transcript_wire(rows[i])));
    let more = JsonView::Bool(offset + rows.len() < total);
    let shown = list->Array_0;
    assert forall|i: int| 0 <= i < rows.len() implies (#[trigger] shown[i]).get("text"@) == Some(
        rows[i].pick("transcript"@),
    ) && shown[i].get("id"@) == Some(rows[i].pick("id"@)) && shown[i].get("timestamp"@) == Some(
        rows[i].pick("timestamp"@),
    ) && shown[i].pick("audio_start_time"@) == rows[i].pick("audio_start_time"@) && shown[i].pick(
        "audio_end_time"@,
    ) == rows[i].pick("audio_end_time"@) && shown[i].pick("duration"@) == rows[i].pick("duration"@) by {
        rows_show_their_transcript_as_text(rows[i]);
    }
    reveal_strlit("transcripts");
    reveal_strlit("total_count");
    reveal_strlit("has_more");
    assert("transcripts"@.len() == 11 && "total_count"@.len() == 11 && "has_more"@.len() == 8);
    assert("transcripts"@[1] != "total_count"@[1]);
    let o0 = JsonView::object();
    let o1 = o0.with("transcripts"@, list);
    let o2 = o1.with("total_count"@, whole(total as int));
    fields_are_found_again(o0, "transcripts"@, list);
    fields_are_found_again(o1, "total_count"@, whole(total as int));
    fields_are_found_again(o2, "has_more"@, more);
}

/// A transcript is saved as a new meeting, under the title and with the segments that the
/// request brings, and answered with the id that the meeting got. Segments that are none
/// are the request's fault.
pub proof fn transcripts_are_saved_as_sent(
    server: ServerView,
    args: JsonView,
    fresh: Seq<char>,
    title: Seq<char>,
    id: Seq<char>,
    error: Seq<char>,
)
    requires
        given(args, "meetingTitle"@, title),
    ensures
        ({
            let save = first_step(server, "api_save_transcript"@, args, fresh);
            &&& asks(
                save,
                ActionOf::SaveTranscript {
                    title,
                    segments: args.pick("transcripts"@),
                    folder: brought(args, "folderPath"@),
                },
            )
            &&& answer_of(led(server, save, OutcomeView::Text { value: id })) matches Some(v)
                && v.get("meeting_id"@) == Some(JsonView::Text(id)) && v.get("status"@) == Some(
                JsonView::Text("success"@),
            ) && v.get("message"@) == Some(JsonView::Text("Transcript saved successfully"@))
            &&& refuses(led(server, save, OutcomeView::Rejected { error }), 400, error)
        }),
{
    every_command_is_reached_by_its_name(Command::SaveTranscript);
    lemma_mentioned(
        "Invalid transcript data format: "@,
        error,
        ". Please check the data structure."@,
    );
    reveal_strlit("status");
    reveal_strlit("message");
    reveal_strlit("meeting_id");
    assert("status"@.len() == 6 && "message"@.len() == 7 && "meeting_id"@.len() == 10);
    let o0 = JsonView::object();
    let o1 = o0.with("status"@, JsonView::Text("success"@));
    let o2 = o1.with("message"@, JsonView::Text("Transcript saved successfully"@));
    fields_are_found_again(o0, "status"@, JsonView::Text("success"@));
    fields_are_found_again(o1, "message"@, JsonView::Text("Transcript saved successfully"@));
    fields_are_found_again(o2, "meeting_id"@, JsonView::Text(id));
}

/// Model settings are stored as they are sent, and so is the key that comes with them,
/// under their provider; a blank key is not stored, nor is one of a provider that keeps its
/// key elsewhere.
pub proof fn model_settings_are_stored_as_sent(
    server: ServerView,
    args: JsonView,
    fresh: Seq<char>,
    provider: Seq<char>,
    model: Seq<char>,
    whisper_model: Seq<char>,
)
    requires
        given(args, "provider"@, provider),
        given(args, "model"@, model),
        given(args, "whisperModel"@, whisper_model),
    ensures
        ({
            let save = first_step(server, "api_save_model_config"@, args, fresh);
            let stored = led(server, save, OutcomeView::Done);
            &&& asks(
                save,
                ActionOf::StoreModelConfig {
                    provider,
                    model,
                    whisper_model,
                    ollama_endpoint: brought(args, "ollamaEndpoint"@),
                },
            )
            &&& match brought_solid(args, "apiKey"@) {
                Some(key) if provider != "custom-openai"@ => {
                    &&& asks(stored, ActionOf::StoreApiKey { provider, key })
                    &&& answer_of(led(server, stored, OutcomeView::Done)) matches Some(v)
                        && v.get("status"@) == Some(JsonView::Text("success"@)) && v.get(
                        "message"@,
                    ) == Some(JsonView::Text("Model configuration saved successfully"@))
                },
                _ => answer_of(stored) matches Some(v) && v.get("status"@) == Some(
                    JsonView::Text("success"@),
                ) && v.get("message"@) == Some(
                    JsonView::Text("Model configuration saved successfully"@),
                ),
            }
        }),
{
    every_command_is_reached_by_its_name(Command::SaveModelConfig);
    lemma_brought_solid(args, "apiKey"@);
    reveal_strlit("status");
    reveal_strlit("message");
    assert("status"@.len() == 6 && "message"@.len() == 7);
    let o0 = JsonView::object();
    let o1 = o0.with("status"@, JsonView::Text("success"@));
    fields_are_found_again(o0, "status"@, JsonView::Text("success"@));
    fields_are_found_again(o1, "message"@, JsonView::Text("Model configuration saved successfully"@));
}

/// And so are transcription settings.
pub proof fn transcription_settings_are_stored_as_sent(
    server: ServerView,
    args: JsonView,
    fresh: Seq<char>,
    provider: Seq<char>,
    model: Seq<char>,
)
    requires
        given(args, "provider"@, provider),
        given(args, "model"@, model),
    ensures
        ({
            let save = first_step(server, "api_save_transcript_config"@, args, fresh);
            let stored = led(server, save, OutcomeView::Done);
            &&& asks(save, ActionOf::StoreTranscriptConfig { provider, model })
            &&& match brought_solid(args, "apiKey"@) {
                Some(key) => {
                    &&& asks(stored, ActionOf::StoreTranscriptApiKey { provider, key })
                    &&& answer_of(led(server, stored, OutcomeView::Done)) matches Some(v)
                        && v.get("status"@) == Some(JsonView::Text("success"@)) && v.get(
                        "message"@,
                    ) == Some(JsonView::Text("Transcript configuration saved successfully"@))
                },
                None => answer_of(stored) matches Some(v) && v.get("status"@) == Some(
                    JsonView::Text("success"@),
                ) && v.get("message"@) == Some(
                    JsonView::Text("Transcript configuration saved successfully"@),
                ),
            }
        }),
{
    every_command_is_reached_by_its_name(Command::SaveTranscriptConfig);
    lemma_brought_solid(args, "apiKey"@);
    reveal_strlit("status");
    reveal_strlit("message");
    assert("status"@.len() == 6 && "message"@.len() == 7);
    let o0 = JsonView::object();
    let o1 = o0.with("status"@, JsonView::Text("success"@));
    fields_are_found_again(o0, "status"@, JsonView::Text("success"@));
    fields_are_found_again(o1, "message"@, JsonView::Text("Transcript configuration saved successfully"@));
}

/// A text, or nothing.
pub open spec fn text_or_nothing(text: Option<Seq<char>>) -> JsonView {
    match text {
        Some(t) => JsonView::Text(t),
        None => JsonView::Null,
    }
}

/// Model settings are shown as they are stored, with the key of their provider; the
/// configured endpoint goes before the stored one. Without any there is nothing to show.
pub proof fn model_settings_are_shown_as_stored(
    server: ServerView,
    args: JsonView,
    fresh: Seq<char>,
    setting: JsonView,
    provider: Seq<char>,
    key: Option<Seq<char>>,
    error: Seq<char>,
)
    requires
        given(setting, "provider"@, provider),
    ensures
        ({
            let get = first_step(server, "api_get_model_config"@, args, fresh);
            let found = led(server, get, OutcomeView::MaybeValue { value: Some(setting) });
            let shown = answer_of(led(server, found, OutcomeView::MaybeText { value: key }));
            &&& asks(get, ActionOf::LoadModelConfig)
            &&& answers(led(server, get, OutcomeView::MaybeValue { value: None }), JsonView::Null)
            &&& asks(found, ActionOf::LoadApiKey { provider })
            &&& led(server, found, OutcomeView::Failed { error }) == led(
                server,
                found,
                OutcomeView::MaybeText { value: None },
            )
            &&& shown matches Some(v) && {
                &&& v.get("provider"@) == Some(JsonView::Text(provider))
                &&& v.get("model"@) == Some(setting.pick("model"@))
                &&& v.get("whisperModel"@) == Some(setting.pick("whisperModel"@))
                &&& v.get("apiKey"@) == Some(text_or_nothing(key))
                &&& v.get("ollamaEndpoint"@) == Some(
                    match server.ollama_endpoint {
                        Some(e) => JsonView::Text(e),
                        None => setting.pick("ollamaEndpoint"@),
                    },
                )
            }
        }),
{
    every_command_is_reached_by_its_name(Command::GetModelConfig);
    let endpoint = match server.ollama_endpoint {
        Some(e) => JsonView::Text(e),
        None => setting.pick("ollamaEndpoint"@),
    };
    reveal_strlit("provider");
    reveal_strlit("model");
    reveal_strlit("whisperModel");
    reveal_strlit("apiKey");
    reveal_strlit("ollamaEndpoint");
    assert("provider"@.len() == 8 && "model"@.len() == 5 && "whisperModel"@.len() == 12 && "apiKey"@.len() == 6 && "ollamaEndpoint"@.len() == 14);
    let o0 = JsonView::object();
    let o1 = o0.with("provider"@, JsonView::Text(provider));
    let o2 = o1.with("model"@, setting.pick("model"@));
    let o3 = o2.with("whisperModel"@, setting.pick("whisperModel"@));
    let o4 = o3.with("apiKey"@, text_or_null(key));
    fields_are_found_again(o0, "provider"@, JsonView::Text(provider));
    fields_are_found_again(o1, "model"@, setting.pick("model"@));
    fields_are_found_again(o2, "whisperModel"@, setting.pick("whisperModel"@));
    fields_are_found_again(o3, "apiKey"@, text_or_null(key));
    fields_are_found_again(o4, "ollamaEndpoint"@, endpoint);
}

/// And so are transcription settings; without any it is Parakeet with its default model.
pub proof fn transcription_settings_are_shown_as_stored(
    server: ServerView,
    args: JsonView,
    fresh: Seq<char>,
    setting: JsonView,
    provider: Seq<char>,
    key: Option<Seq<char>>,
    error: Seq<char>,
)
    requires
        given(setting, "provider"@, provider),
    ensures
        ({
            let get = first_step(server, "api_get_transcript_config"@, args, fresh);
            let found = led(server, get, OutcomeView::MaybeValue { value: Some(setting) });
            let shown = answer_of(led(server, found, OutcomeView::MaybeText { value: key }));
            let none = answer_of(led(server, get, OutcomeView::MaybeValue { value: None }));
            &&& asks(get, ActionOf::LoadTranscriptConfig)
            &&& asks(found, ActionOf::LoadTranscriptApiKey { provider })
            &&& led(server, found, OutcomeView::Failed { error }) == led(
                server,
                found,
                OutcomeView::MaybeText { value: None },
            )
            &&& shown matches Some(v) && {
                &&& v.get("provider"@) == Some(JsonView::Text(provider))
                &&& v.get("model"@) == Some(setting.pick("model"@))
                &&& v.get("apiKey"@) == Some(text_or_nothing(key))
            }
            &&& none matches Some(v) && {
                &&& v.get("provider"@) == Some(JsonView::Text("parakeet"@))
                &&& v.get("model"@) == Some(JsonView::Text(server.default_parakeet_model))
                &&& v.get("apiKey"@) == Some(JsonView::Null)
            }
        }),
{
    every_command_is_reached_by_its_name(Command::GetTranscriptConfig);
    reveal_strlit("provider");
    reveal_strlit("model");
    reveal_strlit("apiKey");
    assert("provider"@.len() == 8 && "model"@.len() == 5 && "apiKey"@.len() == 6);
    let o0 = JsonView::object();
    let o1 = o0.with("provider"@, JsonView::Text(provider));
    let o2 = o1.with("model"@, setting.pick("model"@));
    fields_are_found_again(o0, "provider"@, JsonView::Text(provider));
    fields_are_found_again(o1, "model"@, setting.pick("model"@));
    fields_are_found_again(o2, "apiKey"@, text_or_null(key));
    let model = JsonView::Text(server.default_parakeet_model);
    let p0 = JsonView::object();
    let p1 = p0.with("provider"@, JsonView::Text("parakeet"@));
    let p2 = p1.with("model"@, model);
    fields_are_found_again(p0, "provider"@, JsonView::Text("parakeet"@));
    fields_are_found_again(p1, "model"@, model);
    fields_are_found_again(p2, "apiKey"@, text_or_null(None));
}

/// The settings of an OpenAI-compatible endpoint are shown as they are stored.
pub proof fn custom_endpoints_are_shown_as_stored(
    server: ServerView,
    args: JsonView,
    fresh: Seq<char>,
    value: JsonView,
)
    ensures
        ({
            let get = first_step(server, "api_get_custom_openai_config"@, args, fresh);
            &&& asks(get, ActionOf::LoadCustomOpenAi)
            &&& answers(led(server, get, OutcomeView::MaybeValue { value: Some(value) }), value)
            &&& answers(led(server, get, OutcomeView::MaybeValue { value: None }), JsonView::Null)
        }),
{
    every_command_is_reached_by_its_name(Command::GetCustomOpenAi);
}

/// A stored key is shown to who asks for it, and an empty one where there is none.
pub proof fn keys_are_shown_as_stored(
    server: ServerView,
    args: JsonView,
    fresh: Seq<char>,
    provider: Seq<char>,
    key: Seq<char>,
)
    requires
        given(args, "provider"@, provider),
    ensures
        ({
            let model = first_step(server, "api_get_api_key"@, args, fresh);
            let transcript = first_step(server, "api_get_transcript_api_key"@, args, fresh);
            let some = OutcomeView::MaybeText { value: Some(key) };
            let none = OutcomeView::MaybeText { value: None };
            &&& asks(model, ActionOf::LoadApiKey { provider })
            &&& asks(transcript, ActionOf::LoadTranscriptApiKey { provider })
            &&& answers(led(server, model, some), JsonView::Text(key))
            &&& answers(led(server, transcript, some), JsonView::Text(key))
            &&& answers(led(server, model, none), JsonView::Text(Seq::empty()))
            &&& answers(led(server, transcript, none), JsonView::Text(Seq::empty()))
        }),
{
    every_command_is_reached_by_its_name(Command::GetApiKey);
    every_command_is_reached_by_its_name(Command::GetTranscriptApiKey);
}

/// Settings of an OpenAI-compatible endpoint are stored where they can be used, with white
/// space around their texts trimmed off, and refused with the reason otherwise.
pub proof fn custom_endpoints_are_stored_where_they_can_be_used(
    server: ServerView,
    args: JsonView,
    fresh: Seq<char>,
    endpoint: Seq<char>,
    model: Seq<char>,
)
    requires
        given(args, "endpoint"@, endpoint),
        given(args, "model"@, model),
    ensures
        ({
            let save = first_step(server, "api_save_custom_openai_config"@, args, fresh);
            let temperature = args.pick("temperature"@).as_number();
            let top_p = args.pick("topP"@).as_number();
            let max_tokens = match args.pick("maxTokens"@).as_i64() {
                Some(n) => Some(n as i32),
                None => None,
            };
            if blank(endpoint) {
                refuses(save, 400, "Endpoint URL is required"@)
            } else if blank(model) {
                refuses(save, 400, "Model name is required"@)
            } else if !("http://"@.is_prefix_of(endpoint) || "https://"@.is_prefix_of(endpoint)) {
                refuses(save, 400, "Endpoint must start with http:// or https://"@)
            } else if temperature matches Some(t) && !within_two(t) {
                refuses(save, 400, "Temperature must be between 0.0 and 2.0"@)
            } else if top_p matches Some(p) && !within_one(p) {
                refuses(save, 400, "Top P must be between 0.0 and 1.0"@)
            } else if max_tokens matches Some(m) && m < 1 {
                refuses(save, 400, "Max tokens must be at least 1"@)
            } else {
                &&& asks(
                    save,
                    ActionOf::StoreCustomOpenAi {
                        config: CustomOpenAiOf {
                            endpoint: trimmed(endpoint),
                            api_key: brought_solid(args, "apiKey"@),
                            model: trimmed(model),
                            max_tokens,
                            temperature,
                            top_p,
                        },
                    },
                )
                &&& answer_of(led(server, save, OutcomeView::Done)) matches Some(v) && v.get(
                    "status"@,
                ) == Some(JsonView::Text("success"@))
            }
        }),
{
    every_command_is_reached_by_its_name(Command::SaveCustomOpenAi);
    lemma_brought_solid(args, "apiKey"@);
    let none = Seq::<char>::empty();
    lemma_mentioned(none, "Endpoint URL is required"@, none);
    assert(none + "Endpoint URL is required"@ =~= "Endpoint URL is required"@);
    lemma_mentioned(none, "Model name is required"@, none);
    assert(none + "Model name is required"@ =~= "Model name is required"@);
    lemma_mentioned(none, "Endpoint must start with http:// or https://"@, none);
    assert(none + "Endpoint must start with http:// or https://"@ =~= "Endpoint must start with http:// or https://"@);
    lemma_mentioned(none, "Temperature must be between 0.0 and 2.0"@, none);
    assert(none + "Temperature must be between 0.0 and 2.0"@ =~= "Temperature must be between 0.0 and 2.0"@);
    lemma_mentioned(none, "Top P must be between 0.0 and 1.0"@, none);
    assert(none + "Top P must be between 0.0 and 1.0"@ =~= "Top P must be between 0.0 and 1.0"@);
    lemma_mentioned(none, "Max tokens must be at least 1"@, none);
    assert(none + "Max tokens must be at least 1"@ =~= "Max tokens must be at least 1"@);
    reveal_strlit("status");
    reveal_strlit("message");
    assert("status"@.len() == 6 && "message"@.len() == 7);
    let o0 = JsonView::object();
    let o1 = o0.with("status"@, JsonView::Text("success"@));
    fields_are_found_again(o0, "status"@, JsonView::Text("success"@));
    fields_are_found_again(o1, "message"@, JsonView::Text("Custom OpenAI configuration saved successfully"@));
}

proof fn lemma_without_trailing(s: Seq<char>, c: char)
    ensures
        without_trailing(s, c).is_prefix_of(s),
        without_trailing(s, c).len() > 0 ==> without_trailing(s, c).last() != c,
        forall|i: int| without_trailing(s, c).len() <= i < s.len() ==> #[trigger] s[i] == c,
    decreases s.len(),
{
    if s.len() > 0 && s[s.len() - 1] == c {
        let front = s.subrange(0, s.len() - 1);
        lemma_without_trailing(front, c);
        assert forall|i: int| without_trailing(s, c).len() <= i < s.len() implies #[trigger] s[i]
            == c by {
            if i < front.len() {
                assert(front[i] == s[i]);
            }
        }
        assert(without_trailing(s, c) =~= s.subrange(0, without_trailing(s, c).len() as int));
    }
}

/// Whether an address is that of the chats below an endpoint, whether or not the endpoint
/// ends in slashes.
pub open spec fn chats_below(url: Seq<char>, endpoint: Seq<char>) -> bool {
    exists|n: int|
        0 <= n <= endpoint.len() && url == #[trigger] endpoint.take(n) + "/chat/completions"@ && (n
            > 0 ==> endpoint[n - 1] != '/') && forall|i: int|
            n <= i < endpoint.len() ==> #[trigger] endpoint[i] == '/'
}

/// Whether an answer is that of a chat: its first choice has a message with content, or
/// with the content of its reasoning.
pub open spec fn answers_a_chat(answer: JsonView) -> bool {
    answer.get("choices"@) matches Some(JsonView::Array(choices)) && choices.len() > 0 && (
    choices[0].get("message"@) matches Some(message) && (message.get("content"@) is Some
        || message.get("reasoning_content"@) is Some))
}

/// An endpoint is tested by a chat with the model, under the key that the request brings.
/// It passes where it answers as such endpoints do, under a status that means success, and
/// that status is told; and what went wrong is told otherwise.
pub proof fn custom_endpoints_are_tested_by_a_chat(
    server: ServerView,
    args: JsonView,
    fresh: Seq<char>,
    endpoint: Seq<char>,
    model: Seq<char>,
    status: u16,
    body: Seq<char>,
    answer: JsonView,
    error: Seq<char>,
)
    requires
        given(args, "endpoint"@, endpoint),
        given(args, "model"@, model),
    ensures
        ({
            let test = first_step(server, "api_test_custom_openai_connection"@, args, fresh);
            let answered = led(server, test, OutcomeView::Answer { status, body });
            let parsed = led(server, answered, OutcomeView::Parsed { value: answer });
            if !("http://"@.is_prefix_of(endpoint) || "https://"@.is_prefix_of(endpoint)) {
                refuses(test, 400, "Endpoint must start with http:// or https://"@)
            } else {
                &&& test matches StepView::Perform {
                    events,
                    action: ActionOf::PostChat { url, body: sent, bearer },
                    ..
                } && {
                    &&& events.len() == 0
                    &&& chats_below(url, endpoint)
                    &&& bearer == brought_solid(args, "apiKey"@)
                    &&& sent.get("model"@) == Some(JsonView::Text(model))
                    &&& sent.get("messages"@) matches Some(JsonView::Array(list)) && list.len() == 1
                        && list[0].get("role"@) == Some(JsonView::Text("user"@))
                }
                &&& if 200 <= status < 300 {
                    &&& asks(answered, ActionOf::ParseJson { text: body })
                    &&& if answers_a_chat(answer) {
                        answer_of(parsed) matches Some(v) && v.get("status"@) == Some(
                            JsonView::Text("success"@),
                        ) && v.get("http_status"@) == Some(
                            JsonView::Number(Number::Unsigned(status as u64)),
                        )
                    } else {
                        refuses(parsed, 400, "doesn't appear to be OpenAI-compatible"@)
                    }
                    &&& refuses(led(server, answered, OutcomeView::Rejected { error }), 400, error)
                    &&& refuses(led(server, answered, OutcomeView::Rejected { error }), 400, body)
                } else {
                    &&& refuses(answered, 400, body)
                    &&& refuses(answered, 400, decimal_digits(status as nat))
                }
                &&& refuses(led(server, test, OutcomeView::TimedOut), 400, "timed out"@)
                &&& refuses(led(server, test, OutcomeView::Unreachable), 400, "Could not connect"@)
                &&& refuses(led(server, test, OutcomeView::Failed { error }), 400, error)
            }
        }),
{
    every_command_is_reached_by_its_name(Command::TestCustomOpenAi);
    lemma_brought_solid(args, "apiKey"@);
    let none = Seq::<char>::empty();
    lemma_mentioned(none, "Endpoint must start with http:// or https://"@, none);
    assert(none + "Endpoint must start with http:// or https://"@
        =~= "Endpoint must start with http:// or https://"@);
    lemma_without_trailing(endpoint, '/');
    let n = without_trailing(endpoint, '/').len() as int;
    assert(endpoint.take(n) =~= without_trailing(endpoint, '/'));
    assert(n > 0 ==> endpoint[n - 1] == endpoint.take(n).last());
    assert(chats_below(chat_url(endpoint), endpoint));
    lemma_mentioned("Connection failed: "@, error, none);
    let code = decimal_digits(status as nat);
    lemma_mentioned("Connection failed with status "@, code, ": "@ + body);
    assert("Connection failed with status "@ + code + ": "@ + body
        =~= "Connection failed with status "@ + code + (": "@ + body));
    lemma_mentioned("Connection failed with status "@ + code + ": "@, body, none);
    lemma_mentioned("Endpoint is reachable but returned invalid JSON: "@, error, ". Response: "@ + body);
    assert("Endpoint is reachable but returned invalid JSON: "@ + error + ". Response: "@ + body
        =~= "Endpoint is reachable but returned invalid JSON: "@ + error + (". Response: "@ + body));
    lemma_mentioned(
        "Endpoint is reachable but returned invalid JSON: "@ + error + ". Response: "@,
        body,
        none,
    );
    lemma_fixed_messages();
    lemma_probe(model);
    reveal_strlit("status");
    reveal_strlit("message");
    reveal_strlit("http_status");
    assert("status"@.len() == 6 && "message"@.len() == 7 && "http_status"@.len() == 11);
    let o0 = JsonView::object();
    let o1 = o0.with("status"@, JsonView::Text("success"@));
    let o2 = o1.with("message"@, JsonView::Text("Connection successful and response validated"@));
    fields_are_found_again(o0, "status"@, JsonView::Text("success"@));
    fields_are_found_again(o1, "message"@, JsonView::Text("Connection successful and response validated"@));
    fields_are_found_again(o2, "http_status"@, whole(status as int));
}

proof fn lemma_probe(model: Seq<char>)
    ensures
        probe(model).get("model"@) == Some(JsonView::Text(model)),
        probe(model).get("messages"@) matches Some(JsonView::Array(list)) && list.len() == 1
            && list[0].get("role"@) == Some(JsonView::Text("user"@)),
{
    let hi = JsonView::object().with("role"@, JsonView::Text("user"@)).with(
        "content"@,
        JsonView::Text("Hi"@),
    );
    let list = JsonView::Array(seq![hi]);
    reveal_strlit("model");
    reveal_strlit("messages");
    reveal_strlit("max_tokens");
    assert("model"@.len() == 5 && "messages"@.len() == 8 && "max_tokens"@.len() == 10);
    let o0 = JsonView::object();
    let o1 = o0.with("model"@, JsonView::Text(model));
    let o2 = o1.with("messages"@, list);
    fields_are_found_again(o0, "model"@, JsonView::Text(model));
    fields_are_found_again(o1, "messages"@, list);
    fields_are_found_again(o2, "max_tokens"@, whole(5));
    reveal_strlit("role");
    reveal_strlit("content");
    assert("role"@.len() == 4 && "content"@.len() == 7);
    let p0 = JsonView::object();
    let p1 = p0.with("role"@, JsonView::Text("user"@));
    fields_are_found_again(p0, "role"@, JsonView::Text("user"@));
    fields_are_found_again(p1, "content"@, JsonView::Text("Hi"@));
}

proof fn lemma_fixed_messages()
    ensures
        mentions("Connection timed out. Please check the endpoint URL."@, "timed out"@),
        mentions(
            "Could not connect to endpoint. Please verify the URL is correct and the server is running."@,
            "Could not connect"@,
        ),
        mentions(
            "Endpoint is reachable but doesn't appear to be OpenAI-compatible. Response is missing 'choices' array or 'message.content' / 'message.reasoning_content' field."@,
            "doesn't appear to be OpenAI-compatible"@,
        ),
{
    reveal_strlit("Connection timed out. Please check the endpoint URL.");
    reveal_strlit("timed out");
    reveal_strlit(
        "Could not connect to endpoint. Please verify the URL is correct and the server is running.",
    );
    reveal_strlit("Could not connect");
    reveal_strlit(
        "Endpoint is reachable but doesn't appear to be OpenAI-compatible. Response is missing 'choices' array or 'message.content' / 'message.reasoning_content' field.",
    );
    reveal_strlit("doesn't appear to be OpenAI-compatible");
    assert("Connection timed out. Please check the endpoint URL."@.subrange(11, 20)
        =~= "timed out"@);
    lemma_mentioned_at("Connection timed out. Please check the endpoint URL."@, "timed out"@, 11);
    assert("Could not connect to endpoint. Please verify the URL is correct and the server is running."@.subrange(0, 17)
        =~= "Could not connect"@);
    lemma_mentioned_at("Could not connect to endpoint. Please verify the URL is correct and the server is running."@, "Could not connect"@, 0);
    assert("Endpoint is reachable but doesn't appear to be OpenAI-compatible. Response is missing 'choices' array or 'message.content' / 'message.reasoning_content' field."@.subrange(26, 64)
        =~= "doesn't appear to be OpenAI-compatible"@);
    lemma_mentioned_at("Endpoint is reachable but doesn't appear to be OpenAI-compatible. Response is missing 'choices' array or 'message.content' / 'message.reasoning_content' field."@, "doesn't appear to be OpenAI-compatible"@, 26);
}

/// A number that a request brings, cut down to 32 bits, or another one.
pub open spec fn number_or(args: JsonView, key: Seq<char>, other: i32) -> i32 {
    match args.pick(key).as_i64() {
        Some(n) => n as i32,
        None => other,
    }
}

/// A summary is made of what the request brings: the process is reset, its data are stored,
/// and the job is started with the text, the provider, the model, the prompt, the template
/// and the language of the request; and the answer names the process.
pub proof fn summaries_are_started_as_asked(
    server: ServerView,
    args: JsonView,
    fresh: Seq<char>,
    text: Seq<char>,
    provider: Seq<char>,
    model: Seq<char>,
)
    requires
        given(args, "text"@, text),
        given(args, "model"@, provider),
        given(args, "modelName"@, model),
    ensures
        ({
            let id = match brought(args, "meetingId"@) {
                Some(id) => id,
                None => "meeting-"@ + fresh,
            };
            let process = first_step(server, "api_process_transcript"@, args, fresh);
            let reset = led(server, process, OutcomeView::Done);
            let stored = led(server, reset, OutcomeView::Done);
            let started = led(server, stored, OutcomeView::Done);
            &&& asks(process, ActionOf::ResetProcess { id })
            &&& asks(
                reset,
                ActionOf::StoreTranscriptData {
                    id,
                    text,
                    provider,
                    model,
                    chunk_size: number_or(args, "chunkSize"@, 40_000),
                    overlap: number_or(args, "overlap"@, 1_000),
                },
            )
            &&& stored matches StepView::Perform {
                events,
                action: ActionOf::StartSummary { job },
                ..
            } && {
                &&& events.len() == 0
                &&& job.meeting_id == id
                &&& job.text == text
                &&& job.provider_id == provider
                &&& job.model_name == model
                &&& job.custom_prompt == match brought(args, "customPrompt"@) {
                    Some(prompt) => prompt,
                    None => Seq::empty(),
                }
                &&& job.template_id == match brought(args, "templateId"@) {
                    Some(template) => template,
                    None => "daily_standup"@,
                }
                &&& job.summary_language == brought_solid(args, "summaryLanguage"@)
            }
            &&& answer_of(started) matches Some(v) && v.get("process_id"@) == Some(
                JsonView::Text(id),
            )
        }),
{
    every_command_is_reached_by_its_name(Command::ProcessTranscript);
    lemma_brought_solid(args, "summaryLanguage"@);
    let id = match brought(args, "meetingId"@) {
        Some(id) => id,
        None => "meeting-"@ + fresh,
    };
    reveal_strlit("message");
    reveal_strlit("process_id");
    assert("message"@.len() == 7 && "process_id"@.len() == 10);
    let o0 = JsonView::object();
    let o1 = o0.with("message"@, JsonView::Text("Summary generation started"@));
    fields_are_found_again(o0, "message"@, JsonView::Text("Summary generation started"@));
    fields_are_found_again(o1, "process_id"@, JsonView::Text(id));
}

/// A summary is cancelled, and stored, under the id of its meeting.
pub proof fn summaries_go_by_their_meeting(
    server: ServerView,
    args: JsonView,
    fresh: Seq<char>,
    id: Seq<char>,
)
    requires
        given(args, "meetingId"@, id),
    ensures
        ({
            let cancel = first_step(server, "api_cancel_summary"@, args, fresh);
            &&& asks(cancel, ActionOf::CancelProcess { id })
            &&& answer_of(led(server, cancel, OutcomeView::Done)) matches Some(v) && v.get(
                "meeting_id"@,
            ) == Some(JsonView::Text(id))
        }),
        ({
            let save = first_step(server, "api_save_meeting_summary"@, args, fresh);
            let summary = args.pick("summary"@);
            if summary is Null {
                refuses(save, 400, "summary"@)
            } else {
                &&& asks(save, ActionOf::StoreSummary { id, summary })
                &&& answer_of(led(server, save, OutcomeView::Flag { value: true })) matches Some(v)
                    && v.get("message"@) == Some(
                    JsonView::Text("Meeting summary saved successfully"@),
                )
                &&& refuses(
                    led(server, save, OutcomeView::Flag { value: false }),
                    404,
                    "Meeting not found"@,
                )
            }
        }),
{
    every_command_is_reached_by_its_name(Command::CancelSummary);
    every_command_is_reached_by_its_name(Command::SaveMeetingSummary);
    lemma_mentioned("missing required argument `"@, "summary"@, "`"@);
    fields_are_found_again(
        JsonView::object(),
        "message"@,
        JsonView::Text("Meeting summary saved successfully"@),
    );
    reveal_strlit("Meeting not found or can't convert the json");
    reveal_strlit("Meeting not found");
    assert("Meeting not found or can't convert the json"@.subrange(0, 17) =~= "Meeting not found"@);
    lemma_mentioned_at("Meeting not found or can't convert the json"@, "Meeting not found"@, 0);
    reveal_strlit("message");
    reveal_strlit("meeting_id");
    assert("message"@.len() == 7 && "meeting_id"@.len() == 10);
    let o0 = JsonView::object();
    let o1 = o0.with("message"@, JsonView::Text("Summary generation cancelled successfully"@));
    fields_are_found_again(o0, "message"@, JsonView::Text("Summary generation cancelled successfully"@));
    fields_are_found_again(o1, "meeting_id"@, JsonView::Text(id));
}

proof fn lemma_summary_shows(
    status: Seq<char>,
    title: JsonView,
    id: Seq<char>,
    process: JsonView,
    data: JsonView,
)
    ensures
        shows_summary(summary(status, title, id, process, data), status, title, id, process, data),
{
    reveal_strlit("status");
    reveal_strlit("meetingName");
    reveal_strlit("meeting_id");
    reveal_strlit("start");
    reveal_strlit("end");
    reveal_strlit("data");
    reveal_strlit("error");
    assert("status"@.len() == 6 && "meetingName"@.len() == 11 && "meeting_id"@.len() == 10 && "start"@.len() == 5 && "end"@.len() == 3 && "data"@.len() == 4 && "error"@.len() == 5);
    assert("start"@[0] != "error"@[0]);
    let o0 = JsonView::object();
    let o1 = o0.with("status"@, JsonView::Text(status));
    let o2 = o1.with("meetingName"@, title);
    let o3 = o2.with("meeting_id"@, JsonView::Text(id));
    let o4 = o3.with("start"@, process.pick("start_time"@));
    let o5 = o4.with("end"@, process.pick("end_time"@));
    let o6 = o5.with("data"@, data);
    fields_are_found_again(o0, "status"@, JsonView::Text(status));
    fields_are_found_again(o1, "meetingName"@, title);
    fields_are_found_again(o2, "meeting_id"@, JsonView::Text(id));
    fields_are_found_again(o3, "start"@, process.pick("start_time"@));
    fields_are_found_again(o4, "end"@, process.pick("end_time"@));
    fields_are_found_again(o5, "data"@, data);
    fields_are_found_again(o6, "error"@, process.pick("error"@));
}

/// Whether a summary is shown with this status, the title and the id of its meeting, what
/// is known of its process, and what it says.
pub open spec fn shows_summary(
    shown: JsonView,
    status: Seq<char>,
    title: JsonView,
    id: Seq<char>,
    process: JsonView,
    data: JsonView,
) -> bool {
    &&& shown.get("status"@) == Some(JsonView::Text(status))
    &&& shown.get("meetingName"@) == Some(title)
    &&& shown.get("meeting_id"@) == Some(JsonView::Text(id))
    &&& shown.get("start"@) == Some(process.pick("start_time"@))
    &&& shown.get("end"@) == Some(process.pick("end_time"@))
    &&& shown.get("data"@) == Some(data)
    &&& shown.get("error"@) == Some(process.pick("error"@))
}

/// A summary is shown as it is stored, under its meeting's title: its status in lower case,
/// and its result where that can be read. Without a process nothing has happened yet, and a
/// title that cannot be had is left out.
pub proof fn summaries_are_shown_as_stored(
    server: ServerView,
    args: JsonView,
    fresh: Seq<char>,
    id: Seq<char>,
    meeting: Option<JsonView>,
    process: JsonView,
    value: JsonView,
    error: Seq<char>,
)
    requires
        given(args, "meetingId"@, id),
    ensures
        ({
            let get = first_step(server, "api_get_summary"@, args, fresh);
            let titled = led(server, get, OutcomeView::MaybeValue { value: meeting });
            let title = match meeting {
                Some(m) => m.pick("title"@),
                None => JsonView::Null,
            };
            let status = match process.get("status"@) {
                Some(JsonView::Text(status)) => lower_case(status),
                _ => lower_case("idle"@),
            };
            let none = led(server, titled, OutcomeView::MaybeValue { value: None });
            let found = led(server, titled, OutcomeView::MaybeValue { value: Some(process) });
            &&& asks(get, ActionOf::FindMeetingMetadata { id })
            &&& asks(titled, ActionOf::LoadSummary { id })
            &&& led(server, get, OutcomeView::Failed { error }) == led(
                server,
                get,
                OutcomeView::MaybeValue { value: None },
            )
            &&& refuses(led(server, get, OutcomeView::Rejected { error }), 500, error)
            &&& answer_of(none) matches Some(v) && shows_summary(
                v,
                "idle"@,
                title,
                id,
                JsonView::Null,
                JsonView::Null,
            )
            &&& match process.get("result"@) {
                Some(JsonView::Text(text)) => {
                    &&& asks(found, ActionOf::ParseJson { text })
                    &&& answer_of(led(server, found, OutcomeView::Parsed { value })) matches Some(v)
                        && shows_summary(v, status, title, id, process, value)
                    &&& answer_of(led(server, found, OutcomeView::Rejected { error })) matches Some(
                        v,
                    ) && shows_summary(v, status, title, id, process, JsonView::Null)
                },
                _ => answer_of(found) matches Some(v) && shows_summary(
                    v,
                    status,
                    title,
                    id,
                    process,
                    JsonView::Null,
                ),
            }
        }),
{
    every_command_is_reached_by_its_name(Command::GetSummary);
    let title = match meeting {
        Some(m) => m.pick("title"@),
        None => JsonView::Null,
    };
    let status = lower_case(stored_status(process));
    lemma_mentioned(Seq::empty(), error, Seq::empty());
    assert(Seq::<char>::empty() + error =~= error);
    lemma_summary_shows("idle"@, title, id, JsonView::Null, JsonView::Null);
    lemma_summary_shows(status, title, id, process, JsonView::Null);
    lemma_summary_shows(status, title, id, process, value);
}

/// The templates are listed, all of them, in order.
pub proof fn templates_are_listed(
    server: ServerView,
    args: JsonView,
    fresh: Seq<char>,
    list: Seq<TemplateView>,
)
    ensures
        ({
            let get = first_step(server, "api_list_templates"@, args, fresh);
            &&& asks(get, ActionOf::ListTemplates)
            &&& answer_of(led(server, get, OutcomeView::Templates { list })) matches Some(
                JsonView::Array(shown),
            ) && shown.len() == list.len() && forall|i: int|
                0 <= i < list.len() ==> (#[trigger] shown[i]).get("id"@) == Some(
                    JsonView::Text(list[i].id),
                ) && shown[i].get("name"@) == Some(JsonView::Text(list[i].name)) && shown[i].get(
                    "description"@,
                ) == Some(JsonView::Text(list[i].description))
        }),
{
    every_command_is_reached_by_its_name(Command::ListTemplates);
    let shown = template_list(list)->Array_0;
    assert forall|i: int| 0 <= i < list.len() implies (#[trigger] shown[i]).get("id"@) == Some(
        JsonView::Text(list[i].id),
    ) && shown[i].get("name"@) == Some(JsonView::Text(list[i].name)) && shown[i].get(
        "description"@,
    ) == Some(JsonView::Text(list[i].description)) by {
        reveal_strlit("id");
        reveal_strlit("name");
        reveal_strlit("description");
        assert("id"@.len() == 2 && "name"@.len() == 4 && "description"@.len() == 11);
        let o0 = JsonView::object();
        let o1 = o0.with("id"@, JsonView::Text(list[i].id));
        let o2 = o1.with("name"@, JsonView::Text(list[i].name));
        fields_are_found_again(o0, "id"@, JsonView::Text(list[i].id));
        fields_are_found_again(o1, "name"@, JsonView::Text(list[i].name));
        fields_are_found_again(o2, "description"@, JsonView::Text(list[i].description));
    }
}

/// The models of Ollama and of the other providers are asked for where the request says, or
/// at the configured endpoint, and shown as they come.
pub proof fn model_catalogs_are_shown_as_they_come(
    server: ServerView,
    args: JsonView,
    fresh: Seq<char>,
    value: JsonView,
    name: Seq<char>,
)
    ensures
        ({
            let endpoint = match brought(args, "endpoint"@) {
                Some(e) => Some(e),
                None => server.ollama_endpoint,
            };
            let api_key = brought(args, "apiKey"@);
            let ollama = first_step(server, "get_ollama_models"@, args, fresh);
            let openai = first_step(server, "get_openai_models"@, args, fresh);
            let anthropic = first_step(server, "get_anthropic_models"@, args, fresh);
            let groq = first_step(server, "get_groq_models"@, args, fresh);
            let openrouter = first_step(server, "get_openrouter_models"@, args, fresh);
            let delete = first_step(server, "delete_ollama_model"@, args, fresh);
            let came = OutcomeView::Value { value };
            &&& asks(ollama, ActionOf::ListOllamaModels { endpoint })
            &&& asks(openai, ActionOf::ListCatalog { catalog: Catalog::OpenAi, api_key })
            &&& asks(anthropic, ActionOf::ListCatalog { catalog: Catalog::Anthropic, api_key })
            &&& asks(groq, ActionOf::ListCatalog { catalog: Catalog::Groq, api_key })
            &&& asks(
                openrouter,
                ActionOf::ListCatalog { catalog: Catalog::OpenRouter, api_key: None },
            )
            &&& answers(led(server, ollama, came), value)
            &&& answers(led(server, openai, came), value)
            &&& answers(led(server, anthropic, came), value)
            &&& answers(led(server, groq, came), value)
            &&& answers(led(server, openrouter, came), value)
            &&& given(args, "modelName"@, name) ==> asks(
                delete,
                ActionOf::DeleteOllamaModel { name, endpoint },
            ) && answers(led(server, delete, OutcomeView::Done), JsonView::Null)
        }),
{
    every_command_is_reached_by_its_name(Command::GetOllamaModels);
    every_command_is_reached_by_its_name(Command::GetOpenAiModels);
    every_command_is_reached_by_its_name(Command::GetAnthropicModels);
    every_command_is_reached_by_its_name(Command::GetGroqModels);
    every_command_is_reached_by_its_name(Command::GetOpenRouterModels);
    every_command_is_reached_by_its_name(Command::DeleteOllamaModel);
}

/// What the server knows of itself is answered at once; a fresh database gets the default
/// settings and is announced, whether or not they could be stored.
pub proof fn the_server_speaks_of_itself(
    server: ServerView,
    args: JsonView,
    fresh: Seq<char>,
    stored: OutcomeView,
)
    requires
        stored is Done || stored is Failed,
    ensures
        answers(
            first_step(server, "get_database_directory"@, args, fresh),
            JsonView::Text(server.data_dir),
        ),
        answers(
            first_step(server, "get_default_recordings_folder_path"@, args, fresh),
            JsonView::Text(joined(server.data_dir, "recordings"@)),
        ),
        answer_of(first_step(server, "get_recording_preferences"@, args, fresh)) matches Some(v)
            && v.get("save_folder"@) == Some(
            JsonView::Text(joined(server.data_dir, "recordings"@)),
        ) && v.get("auto_save"@) == Some(JsonView::Bool(true)) && v.get("file_format"@) == Some(
            JsonView::Text("mp4"@),
        ),
        answers(
            first_step(server, "api_get_auto_generate_setting"@, args, fresh),
            JsonView::Bool(true),
        ),
        answers(first_step(server, "check_first_launch"@, args, fresh), JsonView::Bool(false)),
        answers(first_step(server, "whisper_init"@, args, fresh), JsonView::Null),
        answers(first_step(server, "parakeet_init"@, args, fresh), JsonView::Null),
        answers(first_step(server, "set_recording_preferences"@, args, fresh), JsonView::Null),
        answers(first_step(server, "set_notification_settings"@, args, fresh), JsonView::Null),
        answers(first_step(server, "set_language_preference"@, args, fresh), JsonView::Null),
        answers(first_step(server, "get_notification_settings"@, args, fresh), JsonView::Null),
        answers(first_step(server, "check_default_legacy_database"@, args, fresh), JsonView::Null),
        answers(first_step(server, "detect_legacy_database"@, args, fresh), JsonView::Null),
        answers(first_step(server, "check_homebrew_database"@, args, fresh), JsonView::Null),
        answers(first_step(server, "builtin_ai_get_model_info"@, args, fresh), JsonView::Null),
        answers(first_step(server, "builtin_ai_get_available_summary_model"@, args, fresh), JsonView::Null),
        answers(
            first_step(server, "builtin_ai_list_models"@, args, fresh),
            JsonView::Array(Seq::empty()),
        ),
        first_step(server, "api_save_meeting_summary_language"@, args, fresh) == first_step(
            server,
            "api_get_meeting_summary_language"@,
            args,
            fresh,
        ),
        answers(
            first_step(server, "builtin_ai_is_model_ready"@, args, fresh),
            JsonView::Bool(false),
        ),
        answer_of(first_step(server, "api_get_meeting_summary_language"@, args, fresh)) matches Some(v)
            && v.get("language"@) == Some(JsonView::Null) && v.get("storage"@) == Some(
            JsonView::Text("local_fallback"@),
        ),
        ({
            let init = first_step(server, "initialize_fresh_database"@, args, fresh);
            &&& asks(
                init,
                ActionOf::StoreTranscriptConfig {
                    provider: "parakeet"@,
                    model: server.default_parakeet_model,
                },
            )
            &&& led(server, init, stored) matches StepView::Reply { events, result: Ok(value) }
                && value is Null && events.len() == 1 && events[0].event
                == "database-initialized"@
        }),
{
    every_command_is_reached_by_its_name(Command::GetDatabaseDirectory);
    every_command_is_reached_by_its_name(Command::GetRecordingsFolder);
    every_command_is_reached_by_its_name(Command::GetRecordingPreferences);
    every_command_is_reached_by_its_name(Command::GetAutoGenerate);
    every_command_is_reached_by_its_name(Command::CheckFirstLaunch);
    every_command_is_reached_by_its_name(Command::IsBuiltinReady);
    every_command_is_reached_by_its_name(Command::GetSummaryLanguage);
    every_command_is_reached_by_its_name(Command::InitializeFreshDatabase);
    every_command_is_reached_by_its_name(Command::Init(Engine::Whisper));
    every_command_is_reached_by_its_name(Command::Init(Engine::Parakeet));
    every_command_is_reached_by_its_name(Command::SetRecordingPreferences);
    every_command_is_reached_by_its_name(Command::SetNotificationSettings);
    every_command_is_reached_by_its_name(Command::SetLanguagePreference);
    every_command_is_reached_by_its_name(Command::GetNotificationSettings);
    every_command_is_reached_by_its_name(Command::CheckDefaultLegacyDatabase);
    every_command_is_reached_by_its_name(Command::DetectLegacyDatabase);
    every_command_is_reached_by_its_name(Command::CheckHomebrewDatabase);
    every_command_is_reached_by_its_name(Command::GetBuiltinModelInfo);
    every_command_is_reached_by_its_name(Command::GetBuiltinSummaryModel);
    every_command_is_reached_by_its_name(Command::ListBuiltinModels);
    every_command_is_reached_by_its_name(Command::SaveSummaryLanguage);
    reveal_strlit("save_folder");
    reveal_strlit("auto_save");
    reveal_strlit("file_format");
    reveal_strlit("preferred_mic_device");
    reveal_strlit("preferred_system_device");
    assert("save_folder"@.len() == 11 && "auto_save"@.len() == 9 && "file_format"@.len() == 11 && "preferred_mic_device"@.len() == 20 && "preferred_system_device"@.len() == 23);
    assert("save_folder"@[0] != "file_format"@[0]);
    let o0 = JsonView::object();
    let o1 = o0.with("save_folder"@, JsonView::Text(joined(server.data_dir, "recordings"@)));
    let o2 = o1.with("auto_save"@, JsonView::Bool(true));
    let o3 = o2.with("file_format"@, JsonView::Text("mp4"@));
    let o4 = o3.with("preferred_mic_device"@, JsonView::Null);
    fields_are_found_again(o0, "save_folder"@, JsonView::Text(joined(server.data_dir, "recordings"@)));
    fields_are_found_again(o1, "auto_save"@, JsonView::Bool(true));
    fields_are_found_again(o2, "file_format"@, JsonView::Text("mp4"@));
    fields_are_found_again(o3, "preferred_mic_device"@, JsonView::Null);
    fields_are_found_again(o4, "preferred_system_device"@, JsonView::Null);
    reveal_strlit("language");
    reveal_strlit("storage");
    assert("language"@.len() == 8 && "storage"@.len() == 7);
    let p0 = JsonView::object();
    let p1 = p0.with("language"@, JsonView::Null);
    fields_are_found_again(p0, "language"@, JsonView::Null);
    fields_are_found_again(p1, "storage"@, JsonView::Text("local_fallback"@));
}

/// What is to be told of a model: one event under this name, with the model's name.
pub open spec fn tells_of_model(
    events: Seq<EventView>,
    event: Seq<char>,
    name: Seq<char>,
) -> bool {
    events.len() == 1 && events[0].event == event && events[0].payload.get("modelName"@) == Some(
        JsonView::Text(name),
    )
}

/// One of two, by the engine.
pub open spec fn by_engine(engine: Engine, whisper: Seq<char>, parakeet: Seq<char>) -> Seq<char> {
    match engine {
        Engine::Whisper => whisper,
        Engine::Parakeet => parakeet,
    }
}

/// A model is loaded by the engine that was asked, under the name that was asked for; and
/// the browsers are told when that begins and how it ends.
pub proof fn models_are_loaded_as_asked(
    server: ServerView,
    args: JsonView,
    fresh: Seq<char>,
    engine: Engine,
    name: Seq<char>,
    error: Seq<char>,
)
    requires
        given(args, "modelName"@, name),
    ensures
        ({
            let load = first_step(
                server,
                by_engine(engine, "whisper_load_model"@, "parakeet_load_model"@),
                args,
                fresh,
            );
            &&& load matches StepView::Perform { events, action, .. } && action == (ActionOf::<
                Seq<char>,
                JsonView,
            >::LoadModel { engine, name }) && tells_of_model(
                events,
                by_engine(
                    engine,
                    "model-loading-started"@,
                    "parakeet-model-loading-started"@,
                ),
                name,
            )
            &&& led(server, load, OutcomeView::Done) matches StepView::Reply {
                events,
                result: Ok(value),
            } && value is Null && tells_of_model(
                events,
                by_engine(
                    engine,
                    "model-loading-completed"@,
                    "parakeet-model-loading-completed"@,
                ),
                name,
            )
            &&& led(server, load, OutcomeView::Failed { error }) matches StepView::Reply {
                events,
                result: Err(e),
            } && e.status == 500 && e.message == error && tells_of_model(
                events,
                by_engine(engine, "model-loading-failed"@, "parakeet-model-loading-failed"@),
                name,
            ) && events[0].payload.get("error"@) == Some(JsonView::Text(error))
        }),
{
    every_command_is_reached_by_its_name(Command::LoadModel(engine));
    reveal_strlit("modelName");
    reveal_strlit("error");
    assert("modelName"@.len() == 9 && "error"@.len() == 5);
    let o0 = JsonView::object();
    let o1 = o0.with("modelName"@, JsonView::Text(name));
    fields_are_found_again(o0, "modelName"@, JsonView::Text(name));
    fields_are_found_again(o1, "error"@, JsonView::Text(error));
}

/// What an engine is asked, it is asked, and no other; and the answer is what it says.
pub proof fn engines_answer_for_themselves(
    server: ServerView,
    args: JsonView,
    fresh: Seq<char>,
    engine: Engine,
    value: JsonView,
    models: Seq<ModelView>,
    flag: bool,
    text: Seq<char>,
    error: Seq<char>,
)
    ensures
        ({
            let list = first_step(
                server,
                by_engine(
                    engine,
                    "whisper_get_available_models"@,
                    "parakeet_get_available_models"@,
                ),
                args,
                fresh,
            );
            let has = first_step(
                server,
                by_engine(
                    engine,
                    "whisper_has_available_models"@,
                    "parakeet_has_available_models"@,
                ),
                args,
                fresh,
            );
            let any = exists|i: int| 0 <= i < models.len() && (#[trigger] models[i]).available;
            &&& asks(list, ActionOf::ListModels { engine })
            &&& answers(led(server, list, OutcomeView::Value { value }), value)
            &&& asks(has, ActionOf::DiscoverModels { engine })
            &&& answers(led(server, has, OutcomeView::Models { list: models }), JsonView::Bool(any))
            &&& answers(led(server, has, OutcomeView::Failed { error }), JsonView::Bool(false))
        }),
        ({
            let loaded = first_step(
                server,
                by_engine(engine, "whisper_is_model_loaded"@, "parakeet_is_model_loaded"@),
                args,
                fresh,
            );
            let current = first_step(
                server,
                by_engine(engine, "whisper_get_current_model"@, "parakeet_get_current_model"@),
                args,
                fresh,
            );
            let directory = first_step(
                server,
                by_engine(
                    engine,
                    "whisper_get_models_directory"@,
                    "parakeet_get_models_directory"@,
                ),
                args,
                fresh,
            );
            &&& asks(loaded, ActionOf::IsModelLoaded { engine })
            &&& answers(led(server, loaded, OutcomeView::Flag { value: flag }), JsonView::Bool(flag))
            &&& asks(current, ActionOf::CurrentModel { engine })
            &&& answers(
                led(server, current, OutcomeView::MaybeText { value: Some(text) }),
                JsonView::Text(text),
            )
            &&& answers(
                led(server, current, OutcomeView::MaybeText { value: None }),
                JsonView::Null,
            )
            &&& asks(directory, ActionOf::ModelsDirectory { engine })
            &&& answers(
                led(server, directory, OutcomeView::Text { value: text }),
                JsonView::Text(text),
            )
        }),
{
    every_command_is_reached_by_its_name(Command::ListModels(engine));
    every_command_is_reached_by_its_name(Command::HasModels(engine));
    every_command_is_reached_by_its_name(Command::IsModelLoaded(engine));
    every_command_is_reached_by_its_name(Command::CurrentModel(engine));
    every_command_is_reached_by_its_name(Command::ModelsDirectory(engine));
}

/// Whether the model at `i` is the first of those that are wanted.
pub open spec fn first_wanted(models: Seq<ModelView>, int8: bool, i: int) -> bool {
    &&& 0 <= i < models.len()
    &&& models[i].available && (int8 ==> models[i].quantization == "Int8"@)
    &&& forall|j: int|
        0 <= j < i ==> !((#[trigger] models[j]).available && (int8 ==> models[j].quantization
            == "Int8"@))
}

/// Whether an engine is to load a model that is quantized to eight bits: Parakeet is, where
/// such a one is available.
pub open spec fn wants_int8(engine: Engine, models: Seq<ModelView>) -> bool {
    engine == Engine::Parakeet && exists|i: int|
        0 <= i < models.len() && (#[trigger] models[i]).available && models[i].quantization
            == "Int8"@
}

proof fn lemma_first_wanted(models: Seq<ModelView>, int8: bool, from: int)
    requires
        0 <= from <= models.len(),
        forall|j: int|
            0 <= j < from ==> !((#[trigger] models[j]).available && (int8 ==> models[j].quantization
                == "Int8"@)),
    ensures
        match first_available(
            models,
            if int8 {
                Some("Int8"@)
            } else {
                None
            },
            from,
        ) {
            Some(name) => exists|i: int| #[trigger]
                first_wanted(models, int8, i) && models[i].name == name,
            None => forall|j: int|
                0 <= j < models.len() ==> !((#[trigger] models[j]).available && (int8
                    ==> models[j].quantization == "Int8"@)),
        },
    decreases models.len() - from,
{
    if from < models.len() {
        if models[from].available && (int8 ==> models[from].quantization == "Int8"@) {
            assert(first_wanted(models, int8, from));
        } else {
            lemma_first_wanted(models, int8, from + 1);
        }
    }
}

/// An engine is made ready: with the model that it has loaded, or with the first one that is
/// available; for Parakeet the first of those that is quantized to eight bits, where there
/// is one. Without any the request is refused.
pub proof fn engines_are_made_ready(
    server: ServerView,
    args: JsonView,
    fresh: Seq<char>,
    engine: Engine,
    text: Seq<char>,
    models: Seq<ModelView>,
)
    ensures
        ({
            let ready = first_step(
                server,
                by_engine(
                    engine,
                    "whisper_validate_model_ready"@,
                    "parakeet_validate_model_ready"@,
                ),
                args,
                fresh,
            );
            let unready = led(server, ready, OutcomeView::MaybeText { value: None });
            let found = led(server, unready, OutcomeView::Models { list: models });
            let any = exists|i: int| 0 <= i < models.len() && (#[trigger] models[i]).available;
            &&& asks(ready, ActionOf::CurrentModel { engine })
            &&& answers(
                led(server, ready, OutcomeView::MaybeText { value: Some(text) }),
                JsonView::Text(text),
            )
            &&& asks(unready, ActionOf::DiscoverModels { engine })
            &&& if any {
                exists|i: int| #[trigger]
                    first_wanted(models, wants_int8(engine, models), i) && asks(
                        found,
                        ActionOf::LoadModel { engine, name: models[i].name },
                    ) && answers(
                        led(server, found, OutcomeView::Done),
                        JsonView::Text(models[i].name),
                    )
            } else {
                refuses(
                    found,
                    400,
                    by_engine(
                        engine,
                        "No Whisper models are available"@,
                        "No Parakeet models are available"@,
                    ),
                )
            }
        }),
{
    every_command_is_reached_by_its_name(Command::ValidateReady(engine));
    lemma_first_wanted(models, false, 0);
    lemma_first_wanted(models, true, 0);
    reveal_strlit(
        "No Whisper models are available. Please download a model to enable transcription.",
    );
    reveal_strlit(
        "No Parakeet models are available. Please download a model to enable fast transcription.",
    );
    reveal_strlit("No Whisper models are available");
    reveal_strlit("No Parakeet models are available");
    assert("No Whisper models are available. Please download a model to enable transcription."@.subrange(0, 31)
        =~= "No Whisper models are available"@);
    lemma_mentioned_at("No Whisper models are available. Please download a model to enable transcription."@, "No Whisper models are available"@, 0);
    assert("No Parakeet models are available. Please download a model to enable fast transcription."@.subrange(0, 32)
        =~= "No Parakeet models are available"@);
    lemma_mentioned_at("No Parakeet models are available. Please download a model to enable fast transcription."@, "No Parakeet models are available"@, 0);
    if exists|i: int| 0 <= i < models.len() && (#[trigger] models[i]).available {
        let name = chosen_model(engine, models)->0;
        let int8 = wants_int8(engine, models);
        let i = choose|i: int| #[trigger]
            first_wanted(models, int8, i) && models[i].name == name;
        assert(first_wanted(models, int8, i) && models[i].name == name);
    }
}

/// Models are downloaded and deleted by the engine that was asked, under the name that was
/// asked for; a download that was stopped is told of where it was Parakeet's.
pub proof fn models_are_downloaded_and_deleted_as_asked(
    server: ServerView,
    args: JsonView,
    fresh: Seq<char>,
    engine: Engine,
    name: Seq<char>,
    text: Seq<char>,
)
    requires
        given(args, "modelName"@, name),
    ensures
        ({
            let download = first_step(
                server,
                by_engine(engine, "whisper_download_model"@, "parakeet_download_model"@),
                args,
                fresh,
            );
            let retry = first_step(server, "parakeet_retry_download"@, args, fresh);
            let delete = first_step(
                server,
                by_engine(
                    engine,
                    "whisper_delete_corrupted_model"@,
                    "parakeet_delete_corrupted_model"@,
                ),
                args,
                fresh,
            );
            &&& asks(download, ActionOf::StartDownload { engine, name })
            &&& answers(led(server, download, OutcomeView::Done), JsonView::Null)
            &&& asks(retry, ActionOf::StartDownload { engine: Engine::Parakeet, name })
            &&& asks(delete, ActionOf::DeleteModel { engine, name })
            &&& answers(led(server, delete, OutcomeView::Text { value: text }), JsonView::Text(text))
        }),
        ({
            let cancel = first_step(
                server,
                by_engine(engine, "whisper_cancel_download"@, "parakeet_cancel_download"@),
                args,
                fresh,
            );
            &&& asks(cancel, ActionOf::CancelDownload { engine, name })
            &&& led(server, cancel, OutcomeView::Done) matches StepView::Reply {
                events,
                result: Ok(value),
            } && value is Null && match engine {
                Engine::Whisper => events.len() == 0,
                Engine::Parakeet => tells_of_model(
                    events,
                    "parakeet-model-download-progress"@,
                    name,
                ) && events[0].payload.get("status"@) == Some(JsonView::Text("cancelled"@)),
            }
        }),
{
    every_command_is_reached_by_its_name(Command::DownloadModel(engine));
    every_command_is_reached_by_its_name(Command::RetryParakeetDownload);
    every_command_is_reached_by_its_name(Command::DeleteModel(engine));
    every_command_is_reached_by_its_name(Command::CancelDownload(engine));
    reveal_strlit("modelName");
    reveal_strlit("progress");
    reveal_strlit("status");
    assert("modelName"@.len() == 9 && "progress"@.len() == 8 && "status"@.len() == 6);
    let o0 = JsonView::object();
    let o1 = o0.with("modelName"@, JsonView::Text(name));
    let o2 = o1.with("progress"@, whole(0));
    fields_are_found_again(o0, "modelName"@, JsonView::Text(name));
    fields_are_found_again(o1, "progress"@, whole(0));
    fields_are_found_again(o2, "status"@, JsonView::Text("cancelled"@));
}

/// How far a download has come is told under the model's name, and so is how it ended.
pub proof fn downloads_are_told(engine: Engine, name: Seq<char>, percent: u8, error: Seq<char>)
    ensures
        ({
            let e = download_progress(engine, name, percent);
            &&& e.event == by_engine(
                engine,
                "model-download-progress"@,
                "parakeet-model-download-progress"@,
            )
            &&& e.payload.get("modelName"@) == Some(JsonView::Text(name))
            &&& e.payload.get("progress"@) == Some(
                JsonView::Number(Number::Unsigned(percent as u64)),
            )
            &&& engine == Engine::Parakeet ==> e.payload.get("status"@) == Some(
                JsonView::Text(
                    if percent >= 100 {
                        "completed"@
                    } else {
                        "downloading"@
                    },
                ),
            )
        }),
        ({
            let done = download_finished(engine, name, None);
            let failed = download_finished(engine, name, Some(error));
            &&& done.event == by_engine(
                engine,
                "model-download-complete"@,
                "parakeet-model-download-complete"@,
            )
            &&& done.payload.get("modelName"@) == Some(JsonView::Text(name))
            &&& failed.event == by_engine(
                engine,
                "model-download-error"@,
                "parakeet-model-download-error"@,
            )
            &&& failed.payload.get("modelName"@) == Some(JsonView::Text(name))
            &&& failed.payload.get("error"@) == Some(JsonView::Text(error))
        }),
{
    let status = JsonView::Text(
        if percent >= 100 {
            "completed"@
        } else {
            "downloading"@
        },
    );
    reveal_strlit("modelName");
    reveal_strlit("progress");
    reveal_strlit("status");
    assert("modelName"@.len() == 9 && "progress"@.len() == 8 && "status"@.len() == 6);
    let o0 = JsonView::object();
    let o1 = o0.with("modelName"@, JsonView::Text(name));
    let o2 = o1.with("progress"@, whole(percent as int));
    fields_are_found_again(o0, "modelName"@, JsonView::Text(name));
    fields_are_found_again(o1, "progress"@, whole(percent as int));
    fields_are_found_again(o2, "status"@, status);
    reveal_strlit("modelName");
    reveal_strlit("error");
    assert("modelName"@.len() == 9 && "error"@.len() == 5);
    let p0 = JsonView::object();
    let p1 = p0.with("modelName"@, JsonView::Text(name));
    fields_are_found_again(p0, "modelName"@, JsonView::Text(name));
    fields_are_found_again(p1, "error"@, JsonView::Text(error));
}

/// A command about meetings or their summaries that lacks a text which it cannot do without
/// is refused, and the answer names what is missing.
pub proof fn meetings_cannot_do_without_their_arguments(server: ServerView, args: JsonView, fresh: Seq<char>)
    ensures
        brought(args, "meetingId"@) is None ==> refuses(
            first_step(server, "api_get_meeting"@, args, fresh),
            400,
            "meetingId"@,
        ),
        brought(args, "meetingId"@) is None ==> refuses(
            first_step(server, "api_get_meeting_metadata"@, args, fresh),
            400,
            "meetingId"@,
        ),
        brought(args, "meetingTitle"@) is None ==> refuses(
            first_step(server, "api_save_transcript"@, args, fresh),
            400,
            "meetingTitle"@,
        ),
        brought(args, "meetingId"@) is None ==> refuses(
            first_step(server, "api_delete_meeting"@, args, fresh),
            400,
            "meetingId"@,
        ),
        brought(args, "meetingId"@) is None ==> refuses(
            first_step(server, "api_save_meeting_title"@, args, fresh),
            400,
            "meetingId"@,
        ),
        brought(args, "meetingId"@) is Some && brought(args, "title"@) is None ==> refuses(
            first_step(server, "api_save_meeting_title"@, args, fresh),
            400,
            "title"@,
        ),
        brought(args, "query"@) is None ==> refuses(
            first_step(server, "api_search_transcripts"@, args, fresh),
            400,
            "query"@,
        ),
        brought(args, "meetingId"@) is None ==> refuses(
            first_step(server, "api_get_meeting_transcripts"@, args, fresh),
            400,
            "meetingId"@,
        ),
        brought(args, "meetingId"@) is None ==> refuses(
            first_step(server, "api_get_summary"@, args, fresh),
            400,
            "meetingId"@,
        ),
        brought(args, "text"@) is None ==> refuses(
            first_step(server, "api_process_transcript"@, args, fresh),
            400,
            "text"@,
        ),
        brought(args, "text"@) is Some && brought(args, "model"@) is None ==> refuses(
            first_step(server, "api_process_transcript"@, args, fresh),
            400,
            "model"@,
        ),
        brought(args, "text"@) is Some && brought(args, "model"@) is Some && brought(args, "modelName"@) is None ==> refuses(
            first_step(server, "api_process_transcript"@, args, fresh),
            400,
            "modelName"@,
        ),
        brought(args, "meetingId"@) is None ==> refuses(
            first_step(server, "api_cancel_summary"@, args, fresh),
            400,
            "meetingId"@,
        ),
        brought(args, "meetingId"@) is None ==> refuses(
            first_step(server, "api_save_meeting_summary"@, args, fresh),
            400,
            "meetingId"@,
        ),
{
    every_command_is_reached_by_its_name(Command::GetMeeting);
    every_command_is_reached_by_its_name(Command::GetMeetingMetadata);
    every_command_is_reached_by_its_name(Command::SaveTranscript);
    every_command_is_reached_by_its_name(Command::DeleteMeeting);
    every_command_is_reached_by_its_name(Command::SaveMeetingTitle);
    every_command_is_reached_by_its_name(Command::SearchTranscripts);
    every_command_is_reached_by_its_name(Command::GetMeetingTranscripts);
    every_command_is_reached_by_its_name(Command::GetSummary);
    every_command_is_reached_by_its_name(Command::ProcessTranscript);
    every_command_is_reached_by_its_name(Command::CancelSummary);
    every_command_is_reached_by_its_name(Command::SaveMeetingSummary);
    lemma_mentioned("missing required argument `"@, "meetingId"@, "`"@);
    lemma_mentioned("missing required argument `"@, "meetingTitle"@, "`"@);
    lemma_mentioned("missing required argument `"@, "title"@, "`"@);
    lemma_mentioned("missing required argument `"@, "query"@, "`"@);
    lemma_mentioned("missing required argument `"@, "text"@, "`"@);
    lemma_mentioned("missing required argument `"@, "model"@, "`"@);
    lemma_mentioned("missing required argument `"@, "modelName"@, "`"@);
}

/// And so is one about settings.
pub proof fn settings_cannot_do_without_their_arguments(server: ServerView, args: JsonView, fresh: Seq<char>)
    ensures
        brought(args, "provider"@) is None ==> refuses(
            first_step(server, "api_save_model_config"@, args, fresh),
            400,
            "provider"@,
        ),
        brought(args, "provider"@) is Some && brought(args, "model"@) is None ==> refuses(
            first_step(server, "api_save_model_config"@, args, fresh),
            400,
            "model"@,
        ),
        brought(args, "provider"@) is Some && brought(args, "model"@) is Some && brought(args, "whisperModel"@) is None ==> refuses(
            first_step(server, "api_save_model_config"@, args, fresh),
            400,
            "whisperModel"@,
        ),
        brought(args, "provider"@) is None ==> refuses(
            first_step(server, "api_save_transcript_config"@, args, fresh),
            400,
            "provider"@,
        ),
        brought(args, "provider"@) is Some && brought(args, "model"@) is None ==> refuses(
            first_step(server, "api_save_transcript_config"@, args, fresh),
            400,
            "model"@,
        ),
        brought(args, "provider"@) is None ==> refuses(
            first_step(server, "api_get_api_key"@, args, fresh),
            400,
            "provider"@,
        ),
        brought(args, "provider"@) is None ==> refuses(
            first_step(server, "api_get_transcript_api_key"@, args, fresh),
            400,
            "provider"@,
        ),
        brought(args, "endpoint"@) is None ==> refuses(
            first_step(server, "api_save_custom_openai_config"@, args, fresh),
            400,
            "endpoint"@,
        ),
        brought(args, "endpoint"@) is Some && brought(args, "model"@) is None ==> refuses(
            first_step(server, "api_save_custom_openai_config"@, args, fresh),
            400,
            "model"@,
        ),
        brought(args, "endpoint"@) is None ==> refuses(
            first_step(server, "api_test_custom_openai_connection"@, args, fresh),
            400,
            "endpoint"@,
        ),
        brought(args, "endpoint"@) is Some && brought(args, "model"@) is None ==> refuses(
            first_step(server, "api_test_custom_openai_connection"@, args, fresh),
            400,
            "model"@,
        ),
{
    every_command_is_reached_by_its_name(Command::SaveModelConfig);
    every_command_is_reached_by_its_name(Command::SaveTranscriptConfig);
    every_command_is_reached_by_its_name(Command::GetApiKey);
    every_command_is_reached_by_its_name(Command::GetTranscriptApiKey);
    every_command_is_reached_by_its_name(Command::SaveCustomOpenAi);
    every_command_is_reached_by_its_name(Command::TestCustomOpenAi);
    lemma_mentioned("missing required argument `"@, "provider"@, "`"@);
    lemma_mentioned("missing required argument `"@, "model"@, "`"@);
    lemma_mentioned("missing required argument `"@, "whisperModel"@, "`"@);
    lemma_mentioned("missing required argument `"@, "endpoint"@, "`"@);
}

/// And so is one about a model.
pub proof fn models_cannot_do_without_their_name(server: ServerView, args: JsonView, fresh: Seq<char>)
    ensures
        brought(args, "modelName"@) is None ==> refuses(
            first_step(server, "delete_ollama_model"@, args, fresh),
            400,
            "modelName"@,
        ),
        brought(args, "modelName"@) is None ==> refuses(
            first_step(server, "whisper_load_model"@, args, fresh),
            400,
            "modelName"@,
        ),
        brought(args, "modelName"@) is None ==> refuses(
            first_step(server, "parakeet_load_model"@, args, fresh),
            400,
            "modelName"@,
        ),
        brought(args, "modelName"@) is None ==> refuses(
            first_step(server, "whisper_download_model"@, args, fresh),
            400,
            "modelName"@,
        ),
        brought(args, "modelName"@) is None ==> refuses(
            first_step(server, "parakeet_download_model"@, args, fresh),
            400,
            "modelName"@,
        ),
        brought(args, "modelName"@) is None ==> refuses(
            first_step(server, "parakeet_retry_download"@, args, fresh),
            400,
            "modelName"@,
        ),
        brought(args, "modelName"@) is None ==> refuses(
            first_step(server, "whisper_cancel_download"@, args, fresh),
            400,
            "modelName"@,
        ),
        brought(args, "modelName"@) is None ==> refuses(
            first_step(server, "parakeet_cancel_download"@, args, fresh),
            400,
            "modelName"@,
        ),
        brought(args, "modelName"@) is None ==> refuses(
            first_step(server, "whisper_delete_corrupted_model"@, args, fresh),
            400,
            "modelName"@,
        ),
        brought(args, "modelName"@) is None ==> refuses(
            first_step(server, "parakeet_delete_corrupted_model"@, args, fresh),
            400,
            "modelName"@,
        ),
{
    every_command_is_reached_by_its_name(Command::DeleteOllamaModel);
    every_command_is_reached_by_its_name(Command::LoadModel(Engine::Whisper));
    every_command_is_reached_by_its_name(Command::LoadModel(Engine::Parakeet));
    every_command_is_reached_by_its_name(Command::DownloadModel(Engine::Whisper));
    every_command_is_reached_by_its_name(Command::DownloadModel(Engine::Parakeet));
    every_command_is_reached_by_its_name(Command::RetryParakeetDownload);
    every_command_is_reached_by_its_name(Command::CancelDownload(Engine::Whisper));
    every_command_is_reached_by_its_name(Command::CancelDownload(Engine::Parakeet));
    every_command_is_reached_by_its_name(Command::DeleteModel(Engine::Whisper));
    every_command_is_reached_by_its_name(Command::DeleteModel(Engine::Parakeet));
    lemma_mentioned("missing required argument `"@, "modelName"@, "`"@);
}

/// A page of transcripts needs its numbers, too.
pub proof fn pages_cannot_do_without_their_numbers(
    server: ServerView,
    args: JsonView,
    fresh: Seq<char>,
    id: Seq<char>,
)
    requires
        given(args, "meetingId"@, id),
    ensures
        args.pick("limit"@).as_i64() is None ==> refuses(
            first_step(server, "api_get_meeting_transcripts"@, args, fresh),
            400,
            "limit"@,
        ),
        args.pick("limit"@).as_i64() is Some && args.pick("offset"@).as_i64() is None ==> refuses(
            first_step(server, "api_get_meeting_transcripts"@, args, fresh),
            400,
            "offset"@,
        ),
{
    every_command_is_reached_by_its_name(Command::GetMeetingTranscripts);
    lemma_mentioned("missing required argument `"@, "limit"@, "`"@);
    lemma_mentioned("missing required argument `"@, "offset"@, "`"@);
}

/// Whole numbers lie in a range of single-precision numbers where they lie in it.
pub proof fn whole_numbers_lie_in_their_range(k: u64, j: i64)
    ensures
        within_one(Number::Unsigned(k)) <==> k <= 1,
        within_one(Number::Signed(j)) <==> 0 <= j <= 1,
        within_two(Number::Unsigned(k)) <==> k <= 2,
        within_two(Number::Signed(j)) <==> 0 <= j <= 2,
{
}

/// And doubles do so where they are not negative and not larger than the one that still
/// rounds to the end of the range, 1 + 2^-24 or 2 + 2^-23; or where they are so close below
/// zero that they round to it, 2^-150 at most. What is no number lies in none.
pub proof fn doubles_lie_in_their_range(bits: u64)
    ensures
        within_one(Number::Float(bits)) <==> (bits <= 0x3ff0_0000_1000_0000
            || 0x8000_0000_0000_0000 <= bits <= 0xb690_0000_0000_0000),
        within_two(Number::Float(bits)) <==> (bits <= 0x4000_0000_1000_0000
            || 0x8000_0000_0000_0000 <= bits <= 0xb690_0000_0000_0000),
{
}

} // verus!
