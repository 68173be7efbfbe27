//! Meetings and their transcripts.

use vstd::prelude::*;

use crate::args::{opt_str, req_i64, req_str, text_arg, with_i64, with_text};
use crate::error::{bad_request_error, not_found_error, ApiError};
use crate::json::{fields_are_found_again, json_views, whole, Json, JsonView};
use crate::protocol::{
    perform, performing, refuse, refused, replied, reply, Action, ActionOf, Pending, PendingOf,
    Step, StepView,
};
use crate::text::{join2, join3};

verus! {

// ---------------------------------------------------------------------------
// What is asked for
// ---------------------------------------------------------------------------

pub open spec fn get_meeting_step(args: JsonView) -> StepView {
    with_text(
        args,
        "meetingId"@,
        |id: Seq<char>| performing(ActionOf::FindMeeting { id }, PendingOf::Meeting { id }),
    )
}

pub fn get_meeting(args: &Json) -> (step: Step)
    ensures
        step@ == get_meeting_step(args@),
{
    match req_str(args, "meetingId") {
        Ok(id) => perform(Action::FindMeeting { id: id.clone() }, Pending::Meeting { id }),
        Err(e) => refuse(e),
    }
}

pub open spec fn get_meeting_metadata_step(args: JsonView) -> StepView {
    with_text(
        args,
        "meetingId"@,
        |id: Seq<char>|
            performing(ActionOf::FindMeetingMetadata { id }, PendingOf::Meeting { id }),
    )
}

pub fn get_meeting_metadata(args: &Json) -> (step: Step)
    ensures
        step@ == get_meeting_metadata_step(args@),
{
    match req_str(args, "meetingId") {
        Ok(id) => perform(
            Action::FindMeetingMetadata { id: id.clone() },
            Pending::Meeting { id },
        ),
        Err(e) => refuse(e),
    }
}

pub open spec fn get_meeting_transcripts_step(args: JsonView) -> StepView {
    with_text(
        args,
        "meetingId"@,
        |id: Seq<char>|
            with_i64(
                args,
                "limit"@,
                |limit: i64|
                    with_i64(
                        args,
                        "offset"@,
                        |offset: i64|
                            performing(
                                ActionOf::PageTranscripts { id, limit, offset },
                                PendingOf::Transcripts { offset },
                            ),
                    ),
            ),
    )
}

pub fn get_meeting_transcripts(args: &Json) -> (step: Step)
    ensures
        step@ == get_meeting_transcripts_step(args@),
{
    let id = match req_str(args, "meetingId") {
        Ok(id) => id,
        Err(e) => return refuse(e),
    };
    let limit: i64 = match req_i64(args, "limit") {
        Ok(n) => n,
        Err(e) => return refuse(e),
    };
    let offset: i64 = match req_i64(args, "offset") {
        Ok(n) => n,
        Err(e) => return refuse(e),
    };
    perform(Action::PageTranscripts { id, limit, offset }, Pending::Transcripts { offset })
}

pub open spec fn save_transcript_step(args: JsonView) -> StepView {
    with_text(
        args,
        "meetingTitle"@,
        |title: Seq<char>|
            performing(
                ActionOf::SaveTranscript {
                    title,
                    segments: args.pick("transcripts"@),
                    folder: text_arg(args, "folderPath"@),
                },
                PendingOf::SavedTranscript,
            ),
    )
}

pub fn save_transcript(args: &Json) -> (step: Step)
    ensures
        step@ == save_transcript_step(args@),
{
    match req_str(args, "meetingTitle") {
        Ok(title) => perform(
            Action::SaveTranscript {
                title,
                segments: args.pick("transcripts"),
                folder: opt_str(args, "folderPath"),
            },
            Pending::SavedTranscript,
        ),
        Err(e) => refuse(e),
    }
}

pub open spec fn delete_meeting_step(args: JsonView) -> StepView {
    with_text(
        args,
        "meetingId"@,
        |id: Seq<char>|
            performing(ActionOf::DeleteMeeting { id }, PendingOf::DeletedMeeting { id }),
    )
}

pub fn delete_meeting(args: &Json) -> (step: Step)
    ensures
        step@ == delete_meeting_step(args@),
{
    match req_str(args, "meetingId") {
        Ok(id) => perform(
            Action::DeleteMeeting { id: id.clone() },
            Pending::DeletedMeeting { id },
        ),
        Err(e) => refuse(e),
    }
}

pub open spec fn save_meeting_title_step(args: JsonView) -> StepView {
    with_text(
        args,
        "meetingId"@,
        |id: Seq<char>|
            with_text(
                args,
                "title"@,
                |title: Seq<char>|
                    performing(
                        ActionOf::RenameMeeting { id, title },
                        PendingOf::RenamedMeeting { id },
                    ),
            ),
    )
}

pub fn save_meeting_title(args: &Json) -> (step: Step)
    ensures
        step@ == save_meeting_title_step(args@),
{
    let id = match req_str(args, "meetingId") {
        Ok(id) => id,
        Err(e) => return refuse(e),
    };
    match req_str(args, "title") {
        Ok(title) => perform(
            Action::RenameMeeting { id: id.clone(), title },
            Pending::RenamedMeeting { id },
        ),
        Err(e) => refuse(e),
    }
}

pub open spec fn search_transcripts_step(args: JsonView) -> StepView {
    with_text(
        args,
        "query"@,
        |query: Seq<char>|
            performing(ActionOf::SearchTranscripts { query }, PendingOf::PlainValue),
    )
}

pub fn search_transcripts(args: &Json) -> (step: Step)
    ensures
        step@ == search_transcripts_step(args@),
{
    match req_str(args, "query") {
        Ok(query) => perform(Action::SearchTranscripts { query }, Pending::PlainValue),
        Err(e) => refuse(e),
    }
}

// ---------------------------------------------------------------------------
// What is answered
// ---------------------------------------------------------------------------

/// `{"status": "success", "message": message}`.
pub open spec fn success(message: Seq<char>) -> JsonView {
    JsonView::object().with("status"@, JsonView::Text("success"@)).with(
        "message"@,
        JsonView::Text(message),
    )
}

pub fn success_reply(message: &str) -> (out: Json)
    ensures
        out@ == success(message@),
{
    Json::object().with("status", Json::text("success")).with("message", Json::text(message))
}

/// `{"message": message}`.
pub open spec fn note(message: Seq<char>) -> JsonView {
    JsonView::object().with("message"@, JsonView::Text(message))
}

pub fn note_reply(message: &str) -> (out: Json)
    ensures
        out@ == note(message@),
{
    Json::object().with("message", Json::text(message))
}

/// What the list of meetings shows of one.
pub open spec fn meeting_entry(meeting: JsonView) -> JsonView {
    JsonView::object().with("id"@, meeting.pick("id"@)).with("title"@, meeting.pick("title"@))
}

/// The list of meetings.
pub open spec fn meeting_list(meetings: Seq<JsonView>) -> JsonView {
    JsonView::Array(Seq::new(meetings.len(), |i: int| meeting_entry(meetings[i])))
}

pub fn list_meetings(meetings: &Vec<Json>) -> (out: Json)
    ensures
        out@ == meeting_list(json_views(meetings@)),
{
    let mut list: Vec<Json> = Vec::new();
    let mut i: usize = 0;
    while i < meetings.len()
        invariant
            i <= meetings@.len(),
            list@.len() == i,
            forall|k: int| 0 <= k < i ==> (#[trigger] list@[k])@ == meeting_entry(meetings@[k]@),
        decreases meetings@.len() - i,
    {
        let m = &meetings[i];
        list.push(Json::object().with("id", m.pick("id")).with("title", m.pick("title")));
        i += 1;
    }
    let out = Json::array(list);
    assert(out@->Array_0 =~= meeting_list(json_views(meetings@))->Array_0);
    out
}

/// An object with one more field, unless the value is null.
pub open spec fn with_some(out: JsonView, key: Seq<char>, value: JsonView) -> JsonView {
    if value is Null {
        out
    } else {
        out.with(key, value)
    }
}

/// A row of the transcripts table as the browser is shown it: the column
/// `transcript` is called `text`, and timings that are not known are left out.
pub open spec fn transcript_wire(row: JsonView) -> JsonView {
    let out = JsonView::object().with("id"@, row.pick("id"@)).with(
        "text"@,
        row.pick("transcript"@),
    ).with("timestamp"@, row.pick("timestamp"@));
    let out = with_some(out, "audio_start_time"@, row.pick("audio_start_time"@));
    let out = with_some(out, "audio_end_time"@, row.pick("audio_end_time"@));
    with_some(out, "duration"@, row.pick("duration"@))
}

fn put_some(out: Json, key: &str, value: Json) -> (r: Json)
    requires
        out@ is Object,
    ensures
        r@ == with_some(out@, key@, value@),
{
    if value.is_null() {
        out
    } else {
        out.with(key, value)
    }
}

pub fn transcript_to_wire(row: &Json) -> (out: Json)
    ensures
        out@ == transcript_wire(row@),
{
    let out = Json::object().with("id", row.pick("id")).with("text", row.pick("transcript")).with(
        "timestamp",
        row.pick("timestamp"),
    );
    let out = put_some(out, "audio_start_time", row.pick("audio_start_time"));
    let out = put_some(out, "audio_end_time", row.pick("audio_end_time"));
    put_some(out, "duration", row.pick("duration"))
}

/// The browser finds the transcript of a row under `text`, and its other columns under
/// their own names; a timing that is not known is not there.
pub proof fn rows_show_their_transcript_as_text(row: JsonView)
    ensures
        ({
            let wire = transcript_wire(row);
            &&& wire.get("id"@) == Some(row.pick("id"@))
            &&& wire.get("text"@) == Some(row.pick("transcript"@))
            &&& wire.get("timestamp"@) == Some(row.pick("timestamp"@))
            &&& wire.get("transcript"@) is None
            &&& wire.pick("audio_start_time"@) == row.pick("audio_start_time"@)
            &&& wire.pick("audio_end_time"@) == row.pick("audio_end_time"@)
            &&& wire.pick("duration"@) == row.pick("duration"@)
            &&& wire.get("audio_start_time"@) is None <==> row.pick("audio_start_time"@) is Null
            &&& wire.get("audio_end_time"@) is None <==> row.pick("audio_end_time"@) is Null
            &&& wire.get("duration"@) is None <==> row.pick("duration"@) is Null
        }),
{
    reveal_strlit("id");
    reveal_strlit("text");
    reveal_strlit("timestamp");
    reveal_strlit("transcript");
    reveal_strlit("audio_start_time");
    reveal_strlit("audio_end_time");
    reveal_strlit("duration");
    assert("id"@.len() == 2 && "text"@.len() == 4 && "timestamp"@.len() == 9 && "transcript"@.len()
        == 10 && "audio_start_time"@.len() == 16 && "audio_end_time"@.len() == 14
        && "duration"@.len() == 8);
    let o = JsonView::object();
    let o1 = o.with("id"@, row.pick("id"@));
    let o2 = o1.with("text"@, row.pick("transcript"@));
    let o3 = o2.with("timestamp"@, row.pick("timestamp"@));
    let o4 = with_some(o3, "audio_start_time"@, row.pick("audio_start_time"@));
    let o5 = with_some(o4, "audio_end_time"@, row.pick("audio_end_time"@));
    fields_are_found_again(o, "id"@, row.pick("id"@));
    fields_are_found_again(o1, "text"@, row.pick("transcript"@));
    fields_are_found_again(o2, "timestamp"@, row.pick("timestamp"@));
    fields_are_found_again(o3, "audio_start_time"@, row.pick("audio_start_time"@));
    fields_are_found_again(o4, "audio_end_time"@, row.pick("audio_end_time"@));
    fields_are_found_again(o5, "duration"@, row.pick("duration"@));
}

/// A page of transcripts. There are more exactly when the page ends before the
/// last of them.
pub open spec fn transcript_page(rows: Seq<JsonView>, total: i64, offset: i64) -> JsonView {
    JsonView::object().with(
        "transcripts"@,
        JsonView::Array(Seq::new(rows.len(), |i: int| transcript_wire(rows[i]))),
    ).with("total_count"@, whole(total as int)).with(
        "has_more"@,
        JsonView::Bool(offset + rows.len() < total),
    )
}

pub fn page_transcripts(rows: &Vec<Json>, total: i64, offset: i64) -> (out: Json)
    ensures
        out@ == transcript_page(json_views(rows@), total, offset),
{
    let mut list: Vec<Json> = Vec::new();
    let mut i: usize = 0;
    while i < rows.len()
        invariant
            i <= rows@.len(),
            list@.len() == i,
            forall|k: int| 0 <= k < i ==> (#[trigger] list@[k])@ == transcript_wire(rows@[k]@),
        decreases rows@.len() - i,
    {
        list.push(transcript_to_wire(&rows[i]));
        i += 1;
    }
    let has_more: bool = offset as i128 + (rows.len() as i128) < total as i128;
    let transcripts = Json::array(list);
    assert(transcripts@->Array_0 =~= Seq::new(
        rows@.len(),
        |i: int| transcript_wire(json_views(rows@)[i]),
    ));
    Json::object().with("transcripts", transcripts).with(
        "total_count",
        Json::integer(total),
    ).with("has_more", Json::Bool(has_more))
}

/// What is said of a meeting that was asked for by id.
pub open spec fn meeting_found(id: Seq<char>, found: Option<JsonView>) -> StepView {
    match found {
        Some(meeting) => replied(meeting),
        None => refused(not_found_error("Meeting not found: "@ + id)),
    }
}

pub fn answer_meeting(id: &str, found: Option<Json>) -> (step: Step)
    ensures
        step@ == meeting_found(id@, found.deep_view()),
{
    match found {
        Some(meeting) => reply(meeting),
        None => refuse(ApiError::not_found(join2("Meeting not found: ", id))),
    }
}

/// What is said once a transcript has been saved.
pub open spec fn transcript_saved(meeting_id: Seq<char>) -> JsonView {
    success("Transcript saved successfully"@).with("meeting_id"@, JsonView::Text(meeting_id))
}

pub fn answer_saved(meeting_id: String) -> (out: Json)
    ensures
        out@ == transcript_saved(meeting_id@),
{
    success_reply("Transcript saved successfully").with("meeting_id", Json::Text(meeting_id))
}

/// What is said of transcript segments that cannot be read.
pub open spec fn transcript_rejected(error: Seq<char>) -> StepView {
    refused(
        bad_request_error(
            "Invalid transcript data format: "@ + error
                + ". Please check the data structure."@,
        ),
    )
}

pub fn answer_rejected(error: &str) -> (step: Step)
    ensures
        step@ == transcript_rejected(error@),
{
    refuse(
        ApiError::bad_request(
            join3(
                "Invalid transcript data format: ",
                error,
                ". Please check the data structure.",
            ),
        ),
    )
}

/// What is said once a meeting was to be deleted.
pub open spec fn meeting_deleted(id: Seq<char>, deleted: bool) -> StepView {
    if deleted {
        replied(success("Meeting deleted successfully"@))
    } else {
        refused(not_found_error("Meeting not found or could not be deleted: "@ + id))
    }
}

pub fn answer_deleted(id: &str, deleted: bool) -> (step: Step)
    ensures
        step@ == meeting_deleted(id@, deleted),
{
    if deleted {
        reply(success_reply("Meeting deleted successfully"))
    } else {
        refuse(ApiError::not_found(join2("Meeting not found or could not be deleted: ", id)))
    }
}

/// What is said once a meeting was to be renamed.
pub open spec fn meeting_renamed(id: Seq<char>, renamed: bool) -> StepView {
    if renamed {
        replied(note("Meeting title saved successfully"@))
    } else {
        refused(not_found_error("No meeting found with id "@ + id))
    }
}

pub fn answer_renamed(id: &str, renamed: bool) -> (step: Step)
    ensures
        step@ == meeting_renamed(id@, renamed),
{
    if renamed {
        reply(note_reply("Meeting title saved successfully"))
    } else {
        refuse(ApiError::not_found(join2("No meeting found with id ", id)))
    }
}

} // verus!
