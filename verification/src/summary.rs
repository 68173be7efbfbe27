//! Commands about summaries.

use vstd::prelude::*;

use crate::args::{
    i32_arg, missing, missing_argument, opt_i32, opt_str, req_str, solid_str, solid_text_arg,
    text_arg, with_text,
};
use crate::error::{not_found_error, ApiError};
use crate::json::{Json, JsonView};
use crate::meetings::{note, note_reply};
use crate::protocol::{
    perform, performing, refuse, refused, replied, reply, summary_job_view, templates_view, Action,
    ActionOf, Pending, PendingOf, Step, StepView, SummaryJob, SummaryJobOf, Template, TemplateView,
};
use crate::text::{join2, lower_case, owned, to_lower_case};

verus! {

// ---------------------------------------------------------------------------
// Reading a summary
// ---------------------------------------------------------------------------

pub open spec fn get_summary_step(args: JsonView) -> StepView {
    with_text(
        args,
        "meetingId"@,
        |id: Seq<char>|
            performing(ActionOf::FindMeetingMetadata { id }, PendingOf::SummaryTitle { id }),
    )
}

pub fn get_summary(args: &Json) -> (step: Step)
    ensures
        step@ == get_summary_step(args@),
{
    match req_str(args, "meetingId") {
        Ok(id) => perform(
            Action::FindMeetingMetadata { id: id.clone() },
            Pending::SummaryTitle { id },
        ),
        Err(e) => refuse(e),
    }
}

/// With the title at hand, or without one, the summary process is looked up.
pub open spec fn title_found(id: Seq<char>, meeting: Option<JsonView>) -> StepView {
    performing(
        ActionOf::LoadSummary { id },
        PendingOf::SummaryProcess {
            id,
            title: match meeting {
                Some(m) => m.pick("title"@),
                None => JsonView::Null,
            },
        },
    )
}

pub fn on_title(id: String, meeting: Option<Json>) -> (step: Step)
    ensures
        step@ == title_found(id@, meeting.deep_view()),
{
    let title = match meeting {
        Some(m) => m.pick("title"),
        None => Json::Null,
    };
    perform(Action::LoadSummary { id: id.clone() }, Pending::SummaryProcess { id, title })
}

/// A summary as the browser is shown it.
pub open spec fn summary(
    status: Seq<char>,
    title: JsonView,
    id: Seq<char>,
    process: JsonView,
    data: JsonView,
) -> JsonView {
    JsonView::object().with("status"@, JsonView::Text(status)).with("meetingName"@, title).with(
        "meeting_id"@,
        JsonView::Text(id),
    ).with("start"@, process.pick("start_time"@)).with("end"@, process.pick("end_time"@)).with(
        "data"@,
        data,
    ).with("error"@, process.pick("error"@))
}

/// The status of a process as it is stored.
pub open spec fn stored_status(process: JsonView) -> Seq<char> {
    match process.pick("status"@).as_str() {
        Some(status) => status,
        None => "idle"@,
    }
}

pub(crate) fn status_of(process: &Json) -> (status: String)
    ensures
        status@ == stored_status(process@),
{
    match process.pick("status").as_str() {
        Some(status) => status,
        None => owned("idle"),
    }
}

/// Builds a summary with its status.
pub fn show_summary(status: String, title: Json, id: String, process: &Json, data: Json) -> (out:
    Json)
    ensures
        out@ == summary(status@, title@, id@, process@, data@),
{
    Json::object().with("status", Json::Text(status)).with("meetingName", title).with(
        "meeting_id",
        Json::Text(id),
    ).with("start", process.pick("start_time")).with("end", process.pick("end_time")).with(
        "data",
        data,
    ).with("error", process.pick("error"))
}

/// A summary whose process is known: its status is shown in lower case.
pub open spec fn known_summary(
    title: JsonView,
    id: Seq<char>,
    process: JsonView,
    data: JsonView,
) -> StepView {
    replied(summary(lower_case(stored_status(process)), title, id, process, data))
}

pub fn answer_summary(title: Json, id: String, process: &Json, data: Json) -> (step: Step)
    ensures
        step@ == known_summary(title@, id@, process@, data@),
{
    let status = status_of(process);
    reply(show_summary(to_lower_case(status.as_str()), title, id, process, data))
}

/// With a process at hand its result, where it is a text, is parsed. Without one
/// nothing has happened yet.
pub open spec fn process_found(
    id: Seq<char>,
    title: JsonView,
    process: Option<JsonView>,
) -> StepView {
    match process {
        Some(process) => match process.pick("result"@).as_str() {
            Some(text) => performing(
                ActionOf::ParseJson { text },
                PendingOf::SummaryData { id, title, process },
            ),
            None => known_summary(title, id, process, JsonView::Null),
        },
        None => replied(summary("idle"@, title, id, JsonView::Null, JsonView::Null)),
    }
}

pub fn on_process(id: String, title: Json, process: Option<Json>) -> (step: Step)
    ensures
        step@ == process_found(id@, title@, process.deep_view()),
{
    match process {
        Some(process) => match process.pick("result").as_str() {
            Some(text) => perform(
                Action::ParseJson { text },
                Pending::SummaryData { id, title, process },
            ),
            None => answer_summary(title, id, &process, Json::Null),
        },
        None => reply(show_summary(owned("idle"), title, id, &Json::Null, Json::Null)),
    }
}

// ---------------------------------------------------------------------------
// Making, cancelling and storing summaries
// ---------------------------------------------------------------------------

/// The number under `key`, or another one.
pub open spec fn i32_or(args: JsonView, key: Seq<char>, other: i32) -> i32 {
    match i32_arg(args, key) {
        Some(n) => n,
        None => other,
    }
}

/// The text under `key`, or another one.
pub open spec fn text_or(args: JsonView, key: Seq<char>, other: Seq<char>) -> Seq<char> {
    match text_arg(args, key) {
        Some(s) => s,
        None => other,
    }
}

fn str_or(args: &Json, key: &str, other: &str) -> (s: String)
    ensures
        s@ == text_or(args@, key@, other@),
{
    match opt_str(args, key) {
        Some(s) => s,
        None => owned(other),
    }
}

/// A transcript is processed under the meeting's id, or under `meeting-` and a
/// fresh one.
pub open spec fn process_transcript_step(args: JsonView, fresh: Seq<char>) -> StepView {
    with_text(
        args,
        "text"@,
        |text: Seq<char>|
            with_text(
                args,
                "model"@,
                |provider: Seq<char>|
                    with_text(
                        args,
                        "modelName"@,
                        |model: Seq<char>|
                            {
                                let id = text_or(args, "meetingId"@, "meeting-"@ + fresh);
                                performing(
                                    ActionOf::ResetProcess { id },
                                    PendingOf::ProcessReset {
                                        job: SummaryJobOf {
                                            meeting_id: id,
                                            text,
                                            provider_id: provider,
                                            model_name: model,
                                            custom_prompt: text_or(
                                                args,
                                                "customPrompt"@,
                                                Seq::empty(),
                                            ),
                                            template_id: text_or(
                                                args,
                                                "templateId"@,
                                                "daily_standup"@,
                                            ),
                                            summary_language: solid_text_arg(
                                                args,
                                                "summaryLanguage"@,
                                            ),
                                        },
                                        chunk_size: i32_or(args, "chunkSize"@, 40_000),
                                        overlap: i32_or(args, "overlap"@, 1_000),
                                    },
                                )
                            },
                    ),
            ),
    )
}

pub fn process_transcript(args: &Json, fresh: &str) -> (step: Step)
    ensures
        step@ == process_transcript_step(args@, fresh@),
{
    let text = match req_str(args, "text") {
        Ok(s) => s,
        Err(e) => return refuse(e),
    };
    let provider_id = match req_str(args, "model") {
        Ok(s) => s,
        Err(e) => return refuse(e),
    };
    let model_name = match req_str(args, "modelName") {
        Ok(s) => s,
        Err(e) => return refuse(e),
    };
    let made = join2("meeting-", fresh);
    let meeting_id = str_or(args, "meetingId", made.as_str());
    let chunk_size: i32 = match opt_i32(args, "chunkSize") {
        Some(n) => n,
        None => 40_000,
    };
    let overlap: i32 = match opt_i32(args, "overlap") {
        Some(n) => n,
        None => 1_000,
    };
    let custom_prompt = match opt_str(args, "customPrompt") {
        Some(s) => s,
        None => String::new(),
    };
    let template_id = str_or(args, "templateId", "daily_standup");
    let summary_language = solid_str(args, "summaryLanguage");
    let job = SummaryJob {
        meeting_id: meeting_id.clone(),
        text,
        provider_id,
        model_name,
        custom_prompt,
        template_id,
        summary_language,
    };
    perform(
        Action::ResetProcess { id: meeting_id },
        Pending::ProcessReset { job, chunk_size, overlap },
    )
}

/// Once the process is there, what it works on is stored.
pub open spec fn process_was_reset(
    job: SummaryJobOf<Seq<char>>,
    chunk_size: i32,
    overlap: i32,
) -> StepView {
    performing(
        ActionOf::StoreTranscriptData {
            id: job.meeting_id,
            text: job.text,
            provider: job.provider_id,
            model: job.model_name,
            chunk_size,
            overlap,
        },
        PendingOf::TranscriptDataStored { job },
    )
}

pub fn on_process_reset(job: SummaryJob, chunk_size: i32, overlap: i32) -> (step: Step)
    ensures
        step@ == process_was_reset(summary_job_view(job), chunk_size, overlap),
{
    perform(
        Action::StoreTranscriptData {
            id: job.meeting_id.clone(),
            text: job.text.clone(),
            provider: job.provider_id.clone(),
            model: job.model_name.clone(),
            chunk_size,
            overlap,
        },
        Pending::TranscriptDataStored { job },
    )
}

/// Once that is stored, the summary is started.
pub open spec fn data_was_stored(job: SummaryJobOf<Seq<char>>) -> StepView {
    performing(
        ActionOf::StartSummary { job },
        PendingOf::SummaryStarted { id: job.meeting_id },
    )
}

pub fn on_data_stored(job: SummaryJob) -> (step: Step)
    ensures
        step@ == data_was_stored(summary_job_view(job)),
{
    let id = job.meeting_id.clone();
    perform(Action::StartSummary { job }, Pending::SummaryStarted { id })
}

/// What is said once a summary has been started.
pub open spec fn summary_started(id: Seq<char>) -> JsonView {
    note("Summary generation started"@).with("process_id"@, JsonView::Text(id))
}

pub fn answer_started(id: String) -> (out: Json)
    ensures
        out@ == summary_started(id@),
{
    note_reply("Summary generation started").with("process_id", Json::Text(id))
}

pub open spec fn cancel_summary_step(args: JsonView) -> StepView {
    with_text(
        args,
        "meetingId"@,
        |id: Seq<char>|
            performing(ActionOf::CancelProcess { id }, PendingOf::ProcessCancelled { id }),
    )
}

pub fn cancel_summary(args: &Json) -> (step: Step)
    ensures
        step@ == cancel_summary_step(args@),
{
    match req_str(args, "meetingId") {
        Ok(id) => perform(
            Action::CancelProcess { id: id.clone() },
            Pending::ProcessCancelled { id },
        ),
        Err(e) => refuse(e),
    }
}

/// What is said once a summary has been cancelled.
pub open spec fn summary_cancelled(id: Seq<char>) -> JsonView {
    note("Summary generation cancelled successfully"@).with("meeting_id"@, JsonView::Text(id))
}

pub fn answer_cancelled(id: String) -> (out: Json)
    ensures
        out@ == summary_cancelled(id@),
{
    note_reply("Summary generation cancelled successfully").with("meeting_id", Json::Text(id))
}

pub open spec fn save_meeting_summary_step(args: JsonView) -> StepView {
    with_text(
        args,
        "meetingId"@,
        |id: Seq<char>|
            if args.pick("summary"@) is Null {
                refused(missing_argument("summary"@))
            } else {
                performing(
                    ActionOf::StoreSummary { id, summary: args.pick("summary"@) },
                    PendingOf::SummaryStored,
                )
            },
    )
}

pub fn save_meeting_summary(args: &Json) -> (step: Step)
    ensures
        step@ == save_meeting_summary_step(args@),
{
    match req_str(args, "meetingId") {
        Ok(id) => {
            let summary = args.pick("summary");
            if summary.is_null() {
                refuse(missing("summary"))
            } else {
                perform(Action::StoreSummary { id, summary }, Pending::SummaryStored)
            }
        },
        Err(e) => refuse(e),
    }
}

/// What is said once a summary was to be stored.
pub open spec fn summary_stored(stored: bool) -> StepView {
    if stored {
        replied(note("Meeting summary saved successfully"@))
    } else {
        refused(not_found_error("Meeting not found or can't convert the json"@))
    }
}

pub fn answer_stored(stored: bool) -> (step: Step)
    ensures
        step@ == summary_stored(stored),
{
    if stored {
        reply(note_reply("Meeting summary saved successfully"))
    } else {
        refuse(ApiError::not_found(owned("Meeting not found or can't convert the json")))
    }
}

/// What the list of templates shows of one.
pub open spec fn template_entry(t: TemplateView) -> JsonView {
    JsonView::object().with("id"@, JsonView::Text(t.id)).with("name"@, JsonView::Text(t.name)).with(
        "description"@,
        JsonView::Text(t.description),
    )
}

/// The list of templates.
pub open spec fn template_list(templates: Seq<TemplateView>) -> JsonView {
    JsonView::Array(Seq::new(templates.len(), |i: int| template_entry(templates[i])))
}

pub fn list_templates(templates: &Vec<Template>) -> (out: Json)
    ensures
        out@ == template_list(templates_view(templates@)),
{
    let mut list: Vec<Json> = Vec::new();
    let mut i: usize = 0;
    while i < templates.len()
        invariant
            i <= templates@.len(),
            list@.len() == i,
            forall|k: int| 0 <= k < i ==> (#[trigger] list@[k])@ == template_entry(templates@[k]@),
        decreases templates@.len() - i,
    {
        let t = &templates[i];
        list.push(
            Json::object().with("id", Json::text(t.id.as_str())).with(
                "name",
                Json::text(t.name.as_str()),
            ).with("description", Json::text(t.description.as_str())),
        );
        i += 1;
    }
    let out = Json::array(list);
    assert(out@->Array_0 =~= template_list(templates_view(templates@))->Array_0);
    out
}

/// The language of a summary stays in the browser.
pub open spec fn language_fallback() -> JsonView {
    JsonView::object().with("language"@, JsonView::Null).with(
        "storage"@,
        JsonView::Text("local_fallback"@),
    )
}

pub fn answer_language() -> (out: Json)
    ensures
        out@ == language_fallback(),
{
    Json::object().with("language", Json::Null).with("storage", Json::text("local_fallback"))
}

} // verus!
