//! The upload form: a `file` and, where the meeting is to have one, a
//! `meeting_name`. The file is staged until it has been transcribed.

use vstd::prelude::*;

use crate::error::{bad_request_error, ApiError, ApiErrorView};
use crate::json::{fields_are_found_again, Json, JsonView};
use crate::outside::{digit_pairs, fresh_uuid, local_time, lower_hex, uuid_text, STAMP_FORMAT};
use crate::paths::{
    join_path, joined, plain_char, plain_names_are_kept, sanitize_path_component, sanitized,
    sanitized_names_are_plain_components,
};
use crate::state::{ServerState, ServerView};
use crate::text::{
    blank, blank_means_all_white_space, chars_of, is_blank, join2, join3, owned, same_text,
    text_between, white_space,
};

verus! {

// ---------------------------------------------------------------------------
// File names
// ---------------------------------------------------------------------------

/// Where the last segment of a path begins: behind its last separator, or at its
/// start.
pub open spec fn segment_start(path: Seq<char>) -> int
    decreases path.len(),
{
    if path.len() == 0 || path.last() == '/' {
        path.len() as int
    } else {
        segment_start(path.drop_last())
    }
}

/// The file that a path names: its last segment, not counting empty ones and single
/// dots. A path that ends by going up names none.
pub open spec fn file_name_of(path: Seq<char>) -> Option<Seq<char>>
    decreases path.len(),
{
    proof {
        segments_hold_no_separator(path);
    }
    let start = segment_start(path);
    let segment = path.skip(start);
    if segment.len() == 0 || segment == "."@ {
        if start == 0 {
            None
        } else {
            file_name_of(path.take(start - 1))
        }
    } else if segment == ".."@ {
        None
    } else {
        Some(segment)
    }
}

/// The last place of `c` in `s`, or -1 where it has none.
pub open spec fn last_place(s: Seq<char>, c: char) -> int
    decreases s.len(),
{
    if s.len() == 0 {
        -1
    } else if s.last() == c {
        s.len() - 1
    } else {
        last_place(s.drop_last(), c)
    }
}

/// The extension of the file that a path names: what stands behind the last dot of its
/// name, unless that dot is the first character.
pub open spec fn extension_of(path: Seq<char>) -> Option<Seq<char>> {
    match file_name_of(path) {
        Some(name) => if last_place(name, '.') > 0 {
            Some(name.skip(last_place(name, '.') + 1))
        } else {
            None
        },
        None => None,
    }
}

/// The last segment of a path begins behind a separator, or at its start, and holds
/// none.
pub proof fn segments_hold_no_separator(path: Seq<char>)
    ensures
        0 <= segment_start(path) <= path.len(),
        segment_start(path) > 0 ==> path[segment_start(path) - 1] == '/',
        forall|i: int| segment_start(path) <= i < path.len() ==> #[trigger] path[i] != '/',
    decreases path.len(),
{
    if path.len() > 0 && path.last() != '/' {
        segments_hold_no_separator(path.drop_last());
        let start = segment_start(path);
        assert forall|i: int| start <= i < path.len() implies #[trigger] path[i] != '/' by {
            if i < path.len() - 1 {
                assert(path.drop_last()[i] != '/');
            }
        }
    }
}

/// The start of the last segment of the characters `0..to`.
fn find_segment(chars: &[char], to: usize) -> (start: usize)
    requires
        to <= chars@.len(),
    ensures
        start == segment_start(chars@.take(to as int)),
        start <= to,
{
    let mut i: usize = to;
    while i > 0 && chars[i - 1] != '/'
        invariant
            i <= to <= chars@.len(),
            segment_start(chars@.take(to as int)) == segment_start(chars@.take(i as int)),
        decreases i,
    {
        assert(chars@.take(i as int).drop_last() =~= chars@.take(i - 1));
        i -= 1;
    }
    i
}

/// Where the name of the file that a path names stands in it.
fn find_file_name(chars: &[char]) -> (place: Option<(usize, usize)>)
    ensures
        match place {
            Some((from, to)) => from <= to <= chars@.len() && file_name_of(chars@) == Some(
                chars@.subrange(from as int, to as int),
            ),
            None => file_name_of(chars@) is None,
        },
{
    let mut to: usize = chars.len();
    assert(chars@.take(to as int) =~= chars@);
    loop
        invariant
            to <= chars@.len(),
            file_name_of(chars@) == file_name_of(chars@.take(to as int)),
        decreases to,
    {
        let ghost path = chars@.take(to as int);
        let from: usize = find_segment(chars, to);
        let segment = text_between(chars, from, to);
        assert(path.skip(from as int) =~= chars@.subrange(from as int, to as int));
        if from == to || same_text(segment.as_str(), ".") {
            if from == 0 {
                return None;
            }
            assert(path.take(from - 1) =~= chars@.take(from - 1));
            to = from - 1;
        } else if same_text(segment.as_str(), "..") {
            return None;
        } else {
            return Some((from, to));
        }
    }
}

/// The extension of a file name, where it has one.
pub fn extension(file_name: &str) -> (out: Option<String>)
    ensures
        out.deep_view() == extension_of(file_name@),
{
    let chars = chars_of(file_name);
    match find_file_name(chars.as_slice()) {
        Some((from, to)) => {
            let ghost name = chars@.subrange(from as int, to as int);
            let mut i: usize = to;
            assert(name.take(to - from) =~= name);
            while i > from && chars[i - 1] != '.'
                invariant
                    from <= i <= to <= chars@.len(),
                    name == chars@.subrange(from as int, to as int),
                    last_place(name, '.') == last_place(name.take(i - from), '.'),
                decreases i,
            {
                let ghost now = name.take(i - from);
                assert(now.last() == chars@[i - 1]);
                assert(now.drop_last() =~= name.take(i - 1 - from));
                i -= 1;
            }
            if i > from {
                assert(name.take(i - from).last() == chars@[i - 1]);
            }
            if i - from > 1 {
                let out = text_between(chars.as_slice(), i, to);
                assert(out@ =~= name.skip(last_place(name, '.') + 1));
                Some(out)
            } else {
                None
            }
        },
        None => None,
    }
}

// ---------------------------------------------------------------------------
// The form
// ---------------------------------------------------------------------------

/// What a part of the form is, by its name.
#[derive(Debug, Clone, Copy, PartialEq, Eq, Structural)]
pub enum PartKind {
    MeetingName,
    File,
    /// Anything else, which is ignored.
    Other,
}

pub open spec fn kind_of_part(name: Option<Seq<char>>) -> PartKind {
    match name {
        Some(n) => if n == "meeting_name"@ {
            PartKind::MeetingName
        } else if n == "file"@ {
            PartKind::File
        } else {
            PartKind::Other
        },
        None => PartKind::Other,
    }
}

pub fn part_kind(name: Option<&str>) -> (kind: PartKind)
    ensures
        kind == kind_of_part(
            match name {
                Some(n) => Some(n@),
                None => None,
            },
        ),
{
    match name {
        Some(n) => if same_text(n, "meeting_name") {
            PartKind::MeetingName
        } else if same_text(n, "file") {
            PartKind::File
        } else {
            PartKind::Other
        },
        None => PartKind::Other,
    }
}

/// What the form has brought so far.
pub struct UploadForm {
    pub meeting_name: Option<String>,
    /// Where the file is staged.
    pub staged: Option<String>,
}

/// What an [`UploadForm`] holds.
pub struct UploadView {
    pub meeting_name: Option<Seq<char>>,
    pub staged: Option<Seq<char>>,
}

impl View for UploadForm {
    type V = UploadView;

    open spec fn view(&self) -> UploadView {
        UploadView {
            meeting_name: self.meeting_name.deep_view(),
            staged: self.staged.deep_view(),
        }
    }
}

/// A part of the form, as far as it could be read. `S` stands for texts and `B` for
/// bytes.
pub enum PartOf<S, B> {
    /// The name of the meeting; `None` where it could not be read.
    MeetingName { text: Option<S> },
    /// A file, with the name that the browser gives it. Where the decoder does not
    /// support files of its extension, it says why.
    File { file_name: Option<S>, bytes: B, unsupported: Option<S> },
    /// Anything else.
    Other,
    /// The part could not be read, for a reason.
    Broken { error: S },
}

pub type Part = PartOf<String, Vec<u8>>;

pub type PartView = PartOf<Seq<char>, Seq<u8>>;

/// What a part holds.
pub open spec fn part_view(part: Part) -> PartView {
    match part {
        PartOf::MeetingName { text } => PartOf::MeetingName { text: text.deep_view() },
        PartOf::File { file_name, bytes, unsupported } => PartOf::File {
            file_name: file_name.deep_view(),
            bytes: bytes@,
            unsupported: unsupported.deep_view(),
        },
        PartOf::Other => PartOf::Other,
        PartOf::Broken { error } => PartOf::Broken { error: error@ },
    }
}

/// A file that is to be written, and one that is to be deleted because it is replaced.
/// `S` stands for texts and `B` for bytes.
pub struct StagingOf<S, B> {
    pub path: S,
    pub bytes: B,
    pub replaced: Option<S>,
}

pub type Staging = StagingOf<String, Vec<u8>>;

pub open spec fn staging_view(staging: Option<Staging>) -> Option<StagingOf<Seq<char>, Seq<u8>>> {
    match staging {
        Some(s) => Some(
            StagingOf { path: s.path@, bytes: s.bytes@, replaced: s.replaced.deep_view() },
        ),
        None => None,
    }
}

/// The extension that an uploaded file is staged under. What has none is taken for a
/// WAV file.
pub open spec fn staged_extension(file_name: Option<Seq<char>>) -> Seq<char> {
    match extension_of(
        match file_name {
            Some(n) => n,
            None => "upload"@,
        },
    ) {
        Some(e) => sanitized(e),
        None => "wav"@,
    }
}

/// The name that an uploaded file is staged under.
pub open spec fn staged_name(fresh: Seq<char>, file_name: Option<Seq<char>>) -> Seq<char> {
    fresh + "."@ + staged_extension(file_name)
}

/// Where an uploaded file is staged.
pub open spec fn staged_path(
    server: ServerView,
    fresh: Seq<char>,
    file_name: Option<Seq<char>>,
) -> Seq<char> {
    joined(joined(server.data_dir, "uploads"@), staged_name(fresh, file_name))
}

/// The view of an optional file name.
pub open spec fn name_view(name: Option<&str>) -> Option<Seq<char>> {
    match name {
        Some(n) => Some(n@),
        None => None,
    }
}

/// The error for a file without content.
pub open spec fn empty_file() -> ApiErrorView {
    bad_request_error("Uploaded file is empty"@)
}

/// The error for a form without a file.
pub open spec fn missing_file() -> ApiErrorView {
    bad_request_error("Missing `file` field"@)
}

impl UploadView {
    /// The form with the meeting's name, where it is not blank. The last one counts.
    pub open spec fn named(self, text: Option<Seq<char>>) -> UploadView {
        UploadView {
            meeting_name: match text {
                Some(t) => if blank(t) {
                    None
                } else {
                    Some(t)
                },
                None => None,
            },
            ..self
        }
    }

    /// The form once it has taken a part, or why it is refused. A file without content
    /// is, so is one whose extension the decoder does not support, and so is a part that
    /// cannot be read.
    pub open spec fn taken(self, server: ServerView, part: PartView, fresh: Seq<char>) -> Result<
        UploadView,
        ApiErrorView,
    > {
        match part {
            PartOf::MeetingName { text } => Ok(self.named(text)),
            PartOf::File { file_name, bytes, unsupported } => if bytes.len() == 0 {
                Err(empty_file())
            } else {
                match unsupported {
                    Some(reason) => Err(bad_request_error(reason)),
                    None => Ok(
                        UploadView {
                            staged: Some(staged_path(server, fresh, file_name)),
                            ..self
                        },
                    ),
                }
            },
            PartOf::Other => Ok(self),
            PartOf::Broken { error } => Err(bad_request_error(error)),
        }
    }
}

/// What is to be written and deleted for a part of the form.
pub open spec fn staging_of(
    server: ServerView,
    form: UploadView,
    part: PartView,
    fresh: Seq<char>,
) -> Option<StagingOf<Seq<char>, Seq<u8>>> {
    match part {
        PartOf::File { file_name, bytes, unsupported } => if bytes.len() == 0 || unsupported
            is Some {
            None
        } else {
            Some(
                StagingOf {
                    path: staged_path(server, fresh, file_name),
                    bytes,
                    replaced: form.staged,
                },
            )
        },
        _ => None,
    }
}

/// The extension that an uploaded file is staged under: what the decoder is asked about.
pub fn file_extension(file_name: Option<&str>) -> (ending: String)
    ensures
        ending@ == staged_extension(name_view(file_name)),
{
    let found = match file_name {
        Some(n) => extension(n),
        None => extension("upload"),
    };
    match found {
        Some(e) => sanitize_path_component(e.as_str()),
        None => owned("wav"),
    }
}

/// Where to stage an uploaded file, under a name that nothing has yet. A file without
/// content is refused.
pub fn stage_as(
    state: &ServerState,
    file_name: Option<&str>,
    bytes: &[u8],
    fresh: &str,
) -> (path: Result<String, ApiError>)
    ensures
        match path {
            Ok(p) => bytes@.len() > 0 && p@ == staged_path(state@, fresh@, name_view(file_name)),
            Err(e) => bytes@.len() == 0 && e@ == empty_file(),
        },
{
    if bytes.len() == 0 {
        return Err(ApiError::bad_request(owned("Uploaded file is empty")));
    }
    let ending = file_extension(file_name);
    let name = join3(fresh, ".", ending.as_str());
    Ok(join_path(state.uploads_dir().as_str(), name.as_str()))
}

/// The name of a meeting, or one made of the time at which it was imported.
pub open spec fn import_name(name: Option<Seq<char>>, stamp: Seq<char>) -> Seq<char> {
    match name {
        Some(n) => n,
        None => "Import "@ + stamp,
    }
}

/// The id of the meeting that an upload becomes.
pub open spec fn import_id(fresh: Seq<char>) -> Seq<char> {
    "meeting-"@ + fresh
}

/// What the browser is told once its file is in hand: the id that the meeting will have.
/// How far it is comes as events.
pub open spec fn upload_reply(meeting_id: Seq<char>) -> JsonView {
    JsonView::object().with(
        "ok"@,
        JsonView::object().with("meeting_id"@, JsonView::Text(meeting_id)),
    )
}

/// An upload that is to be transcribed.
pub struct Upload {
    pub path: String,
    pub meeting_id: String,
    pub meeting_name: String,
}

impl Upload {
    /// What the browser is told.
    pub fn reply(&self) -> (out: Json)
        ensures
            out@ == upload_reply(self.meeting_id@),
    {
        Json::object().with(
            "ok",
            Json::object().with("meeting_id", Json::text(self.meeting_id.as_str())),
        )
    }
}

impl UploadForm {
    pub fn new() -> (form: Self)
        ensures
            form@ == (UploadView { meeting_name: None, staged: None }),
    {
        UploadForm { meeting_name: None, staged: None }
    }

    fn on_name(&mut self, text: Option<String>)
        ensures
            final(self)@ == old(self)@.named(text.deep_view()),
    {
        self.meeting_name = match text {
            Some(t) => if is_blank(t.as_str()) {
                None
            } else {
                Some(t)
            },
            None => None,
        };
    }

    fn on_staged(&mut self, path: String) -> (replaced: Option<String>)
        ensures
            replaced.deep_view() == old(self)@.staged,
            final(self)@ == (UploadView { staged: Some(path@), ..old(self)@ }),
    {
        let mut staged = Some(path);
        core::mem::swap(&mut staged, &mut self.staged);
        staged
    }

    /// Takes a part of the form. Where it is a file, says where it is to be staged, under
    /// a name that nothing has yet, and which one that replaces. A part that is refused
    /// leaves the form as it was.
    pub fn on_part_as(&mut self, state: &ServerState, part: Part, fresh: &str) -> (staging: Result<
        Option<Staging>,
        ApiError,
    >)
        ensures
            match old(self)@.taken(state@, part_view(part), fresh@) {
                Ok(next) => final(self)@ == next && (staging matches Ok(s) && staging_view(s)
                    == staging_of(state@, old(self)@, part_view(part), fresh@)),
                Err(refused) => final(self)@ == old(self)@ && (staging matches Err(e) && e@
                    == refused),
            },
    {
        match part {
            PartOf::MeetingName { text } => {
                self.on_name(text);
                Ok(None)
            },
            PartOf::File { file_name, bytes, unsupported } => {
                let name: Option<&str> = match &file_name {
                    Some(n) => Some(n.as_str()),
                    None => None,
                };
                match stage_as(state, name, bytes.as_slice(), fresh) {
                    Ok(path) => match unsupported {
                        Some(reason) => Err(ApiError::bad_request(reason)),
                        None => {
                            let replaced = self.on_staged(path.clone());
                            Ok(Some(Staging { path, bytes, replaced }))
                        },
                    },
                    Err(e) => Err(e),
                }
            },
            PartOf::Other => Ok(None),
            PartOf::Broken { error } => Err(ApiError::bad_request(error)),
        }
    }

    /// Takes a part of the form.
    pub fn on_part(&mut self, state: &ServerState, part: Part) -> (staging: Result<
        Option<Staging>,
        ApiError,
    >)
        ensures
            exists|fresh: Seq<char>| #[trigger]
                uuid_text(fresh) && match old(self)@.taken(state@, part_view(part), fresh) {
                    Ok(next) => final(self)@ == next && (staging matches Ok(s) && staging_view(s)
                        == staging_of(state@, old(self)@, part_view(part), fresh)),
                    Err(refused) => final(self)@ == old(self)@ && (staging matches Err(e) && e@
                        == refused),
                },
    {
        let fresh = fresh_uuid();
        assert(uuid_text(fresh@));
        self.on_part_as(state, part, fresh.as_str())
    }

    /// The form was refused or broke off. What was staged is handed back, to be deleted.
    pub fn abandon(self) -> (staged: Option<String>)
        ensures
            staged.deep_view() == self@.staged,
    {
        self.staged
    }

    /// The form is complete, at this time. The meeting gets an id that nothing has yet.
    /// Without a file there is nothing to do.
    pub fn finish_at(self, stamp: &str, fresh: &str) -> (upload: Result<Upload, ApiError>)
        ensures
            match upload {
                Ok(u) => {
                    &&& self@.staged == Some(u.path@)
                    &&& u.meeting_id@ == import_id(fresh@)
                    &&& u.meeting_name@ == import_name(self@.meeting_name, stamp@)
                },
                Err(e) => self@.staged is None && e@ == missing_file(),
            },
            finished_view(upload) == self@.finished(stamp@, fresh@),
    {
        match self.staged {
            Some(path) => {
                let meeting_name = match self.meeting_name {
                    Some(name) => name,
                    None => join2("Import ", stamp),
                };
                Ok(Upload { path, meeting_id: join2("meeting-", fresh), meeting_name })
            },
            None => Err(ApiError::bad_request(owned("Missing `file` field"))),
        }
    }

    /// The form is complete.
    pub fn finish(self) -> (upload: Result<Upload, ApiError>)
        ensures
            match upload {
                Ok(u) => {
                    &&& self@.staged == Some(u.path@)
                    &&& exists|fresh: Seq<char>| #[trigger]
                        uuid_text(fresh) && u.meeting_id@ == import_id(fresh)
                    &&& exists|stamp: Seq<char>| #[trigger]
                        digit_pairs(stamp, 6, '_') && u.meeting_name@ == import_name(
                            self@.meeting_name,
                            stamp,
                        )
                },
                Err(e) => self@.staged is None && e@ == missing_file(),
            },
    {
        let stamp = local_time(STAMP_FORMAT);
        let fresh = fresh_uuid();
        assert(digit_pairs(stamp@, 6, '_'));
        assert(uuid_text(fresh@));
        self.finish_at(stamp.as_str(), fresh.as_str())
    }
}

// ---------------------------------------------------------------------------
// What holds of every upload
// ---------------------------------------------------------------------------

/// Whatever an uploaded file is called, it is staged directly in the uploads
/// directory: the name that it gets there is a single path component.
pub proof fn uploads_stay_in_their_directory(fresh: Seq<char>, file_name: Option<Seq<char>>)
    requires
        uuid_text(fresh),
    ensures
        staged_name(fresh, file_name).len() > 36,
        forall|i: int|
            0 <= i < staged_name(fresh, file_name).len() ==> {
                &&& #[trigger] staged_name(fresh, file_name)[i] != '/'
                &&& staged_name(fresh, file_name)[i] != '\\'
                &&& staged_name(fresh, file_name)[i] == '.' ==> i == 36
            },
{
    reveal_strlit(".");
    reveal_strlit("wav");
    reveal_strlit("upload");
    let path = match file_name {
        Some(n) => n,
        None => "upload"@,
    };
    if let Some(e) = extension_of(path) {
        sanitized_names_are_plain_components(e);
    }
    let ending = staged_extension(file_name);
    let name = staged_name(fresh, file_name);
    assert forall|i: int| 0 <= i < ending.len() implies plain_char(#[trigger] ending[i]) by {
        if extension_of(path) is None {
            assert(ending == "wav"@);
            assert(i == 0 || i == 1 || i == 2);
        }
    }
    assert forall|i: int| 0 <= i < name.len() implies {
        &&& #[trigger] name[i] != '/'
        &&& name[i] != '\\'
        &&& name[i] == '.' ==> i == 36
    } by {
        if i < 36 {
            assert(name[i] == fresh[i]);
            assert(fresh[i] == '-' || lower_hex(fresh[i]));
        } else if i > 36 {
            assert(name[i] == ending[i - 37]);
            assert(plain_char(ending[i - 37]));
        }
    }
}

/// A part of the form, and the name that nothing had yet when it came.
pub struct PartInput {
    pub part: PartView,
    pub fresh: Seq<char>,
}

/// A form without any part.
pub open spec fn empty_form() -> UploadView {
    UploadView { meeting_name: None, staged: None }
}

/// The form after these parts, or why it is refused: the first part that is refused
/// settles that.
pub open spec fn form_after(server: ServerView, parts: Seq<PartInput>) -> Result<
    UploadView,
    ApiErrorView,
>
    decreases parts.len(),
{
    if parts.len() == 0 {
        Ok(empty_form())
    } else {
        match form_after(server, parts.drop_last()) {
            Ok(form) => form.taken(server, parts.last().part, parts.last().fresh),
            Err(e) => Err(e),
        }
    }
}

/// Whether a part is refused.
pub open spec fn refused_part(part: PartView) -> bool {
    match part {
        PartOf::File { bytes, unsupported, .. } => bytes.len() == 0 || unsupported is Some,
        PartOf::Broken { .. } => true,
        _ => false,
    }
}

/// Where the files in a form are staged, in order.
pub open spec fn files_in(server: ServerView, parts: Seq<PartInput>) -> Seq<Seq<char>>
    decreases parts.len(),
{
    if parts.len() == 0 {
        Seq::empty()
    } else {
        match parts.last().part {
            PartOf::File { file_name, .. } => files_in(server, parts.drop_last()).push(
                staged_path(server, parts.last().fresh, file_name),
            ),
            _ => files_in(server, parts.drop_last()),
        }
    }
}

/// The last of the meeting's names in a form, unless that is blank or cannot be read.
pub open spec fn name_in(parts: Seq<PartInput>) -> Option<Seq<char>>
    decreases parts.len(),
{
    if parts.len() == 0 {
        None
    } else {
        match parts.last().part {
            PartOf::MeetingName { text } => empty_form().named(text).meeting_name,
            _ => name_in(parts.drop_last()),
        }
    }
}

/// A form is refused exactly when one of its parts is: a file anywhere that is empty or
/// has an extension which the decoder does not support refuses it.
/// Otherwise the last name and the last file count, and all other parts change nothing.
pub proof fn the_last_of_each_part_counts(server: ServerView, parts: Seq<PartInput>)
    ensures
        form_after(server, parts) is Err <==> exists|i: int|
            0 <= i < parts.len() && refused_part((#[trigger] parts[i]).part),
        form_after(server, parts) matches Ok(form) ==> form.meeting_name == name_in(parts)
            && form.staged == if files_in(server, parts).len() > 0 {
            Some(files_in(server, parts).last())
        } else {
            None
        },
    decreases parts.len(),
{
    if parts.len() > 0 {
        let front = parts.drop_last();
        the_last_of_each_part_counts(server, front);
        if form_after(server, front) is Err {
            let i = choose|i: int| 0 <= i < front.len() && refused_part((#[trigger] front[i]).part);
            assert(refused_part(parts[i].part));
        } else {
            if refused_part(parts.last().part) {
                assert(refused_part(parts[parts.len() - 1].part));
            }
            if exists|i: int| 0 <= i < parts.len() && refused_part((#[trigger] parts[i]).part) {
                let i = choose|i: int|
                    0 <= i < parts.len() && refused_part((#[trigger] parts[i]).part);
                if i < front.len() {
                    assert(refused_part(front[i].part));
                }
            }
        }
    }
}

/// The files that are replaced while a form is taken, in order.
pub open spec fn replaced_in(server: ServerView, parts: Seq<PartInput>) -> Seq<Seq<char>>
    decreases parts.len(),
{
    if parts.len() == 0 {
        Seq::empty()
    } else {
        let before = replaced_in(server, parts.drop_last());
        match form_after(server, parts.drop_last()) {
            Ok(form) => match staging_of(server, form, parts.last().part, parts.last().fresh) {
                Some(StagingOf { replaced: Some(path), .. }) => before.push(path),
                _ => before,
            },
            Err(_) => before,
        }
    }
}

/// No staged file is forgotten: each one is handed back to be deleted, but for the last,
/// which the form holds. And that one is handed over by a form that is complete, and
/// handed back by one that is refused or breaks off.
pub proof fn no_staged_file_is_forgotten(server: ServerView, parts: Seq<PartInput>)
    requires
        form_after(server, parts) is Ok,
    ensures
        match form_after(server, parts)->Ok_0.staged {
            Some(last) => replaced_in(server, parts).push(last) == files_in(server, parts),
            None => replaced_in(server, parts).len() == 0 && files_in(server, parts).len() == 0,
        },
    decreases parts.len(),
{
    if parts.len() > 0 {
        no_staged_file_is_forgotten(server, parts.drop_last());
    }
}

proof fn lemma_last_place_free(s: Seq<char>, c: char)
    requires
        forall|i: int| 0 <= i < s.len() ==> #[trigger] s[i] != c,
    ensures
        last_place(s, c) == -1,
    decreases s.len(),
{
    if s.len() > 0 {
        assert(s.last() == s[s.len() - 1]);
        assert forall|i: int| 0 <= i < s.drop_last().len() implies #[trigger] s.drop_last()[i]
            != c by {
            assert(s[i] != c);
        }
        lemma_last_place_free(s.drop_last(), c);
    }
}

proof fn lemma_last_place_at(s: Seq<char>, c: char, at: int)
    requires
        0 <= at < s.len(),
        s[at] == c,
        forall|i: int| at < i < s.len() ==> #[trigger] s[i] != c,
    ensures
        last_place(s, c) == at,
    decreases s.len(),
{
    if s.last() == c {
        assert(s[s.len() - 1] == c);
    } else {
        assert forall|i: int| at < i < s.drop_last().len() implies #[trigger] s.drop_last()[i]
            != c by {
            assert(s[i] != c);
        }
        lemma_last_place_at(s.drop_last(), c, at);
    }
}

proof fn lemma_segment_start_at(path: Seq<char>, at: int)
    requires
        0 <= at <= path.len(),
        at > 0 ==> path[at - 1] == '/',
        forall|i: int| at <= i < path.len() ==> #[trigger] path[i] != '/',
    ensures
        segment_start(path) == at,
{
    segments_hold_no_separator(path);
    let start = segment_start(path);
    if start < at {
        assert(path[at - 1] != '/');
    } else if at < start {
        assert(path[start - 1] != '/');
    }
}

/// Whether a text is a single name: not empty, without a separator, and neither of the two
/// that stand for a directory.
pub open spec fn single_name(name: Seq<char>) -> bool {
    &&& name.len() > 0
    &&& name != "."@ && name != ".."@
    &&& forall|i: int| 0 <= i < name.len() ==> #[trigger] name[i] != '/'
}

proof fn lemma_file_name(dir: Seq<char>, name: Seq<char>)
    requires
        single_name(name),
    ensures
        file_name_of(name) == Some(name),
        file_name_of(dir + "/"@ + name) == Some(name),
{
    reveal_strlit("/");
    lemma_segment_start_at(name, 0);
    assert(name.skip(0) =~= name);
    let path = dir + "/"@ + name;
    let at: int = dir.len() as int + 1;
    assert forall|i: int| at <= i < path.len() implies #[trigger] path[i] != '/' by {
        assert(path[i] == name[i - at]);
    }
    assert(path[at - 1] == '/');
    lemma_segment_start_at(path, at);
    assert(path.skip(at) =~= name);
}

proof fn lemma_last_dot(stem: Seq<char>, ending: Seq<char>)
    requires
        forall|i: int| 0 <= i < ending.len() ==> #[trigger] ending[i] != '.',
    ensures
        last_place(stem + "."@ + ending, '.') == stem.len(),
        (stem + "."@ + ending).skip(stem.len() as int + 1) == ending,
{
    reveal_strlit(".");
    let name = stem + "."@ + ending;
    let n = stem.len() as int;
    assert forall|i: int| n < i < name.len() implies #[trigger] name[i] != '.' by {
        assert(name[i] == ending[i - n - 1]);
    }
    lemma_last_place_at(name, '.', n);
    assert(name.skip(n + 1) =~= ending);
}

/// The extension of a file is what stands behind the last dot of its name, whatever
/// directory is written before it; a name without a dot, or with one at its beginning alone,
/// has none.
pub proof fn extensions_stand_behind_the_last_dot(
    dir: Seq<char>,
    stem: Seq<char>,
    ending: Seq<char>,
)
    requires
        single_name(stem + "."@ + ending),
        forall|i: int| 0 <= i < ending.len() ==> #[trigger] ending[i] != '.',
    ensures
        extension_of(stem + "."@ + ending) == if stem.len() > 0 {
            Some(ending)
        } else {
            None
        },
        extension_of(dir + "/"@ + (stem + "."@ + ending)) == extension_of(stem + "."@ + ending),
        single_name(ending) ==> extension_of(ending) is None,
{
    lemma_file_name(dir, stem + "."@ + ending);
    lemma_last_dot(stem, ending);
    if single_name(ending) {
        lemma_file_name(dir, ending);
        lemma_last_place_free(ending, '.');
    }
}

/// A staged file keeps its extension, where that is one that may stand in a file name; and
/// what has none is taken for a WAV file.
pub proof fn staged_files_keep_their_extension(
    fresh: Seq<char>,
    stem: Seq<char>,
    ending: Seq<char>,
)
    requires
        single_name(stem + "."@ + ending),
        stem.len() > 0,
        0 < ending.len() <= 80,
        forall|i: int| 0 <= i < ending.len() ==> plain_char(#[trigger] ending[i]),
        ending[0] != '_',
        ending[ending.len() - 1] != '_',
    ensures
        staged_name(fresh, Some(stem + "."@ + ending)) == fresh + "."@ + ending,
        staged_name(fresh, Some(ending)) == fresh + "."@ + "wav"@,
        staged_name(fresh, None) == fresh + "."@ + "wav"@,
{
    reveal_strlit(".");
    reveal_strlit("..");
    reveal_strlit("upload");
    assert forall|i: int| 0 <= i < ending.len() implies #[trigger] ending[i] != '.' && ending[i]
        != '/' by {
        assert(plain_char(ending[i]));
    }
    assert(single_name(ending)) by {
        if ending == "."@ || ending == ".."@ {
            assert(ending[0] == '.');
        }
    }
    extensions_stand_behind_the_last_dot(Seq::empty(), stem, ending);
    plain_names_are_kept(ending);
    let name = "upload"@;
    assert(name.len() == 6 && "."@.len() == 1 && ".."@.len() == 2);
    lemma_file_name(Seq::empty(), name);
    lemma_last_place_free(name, '.');
}

/// A staged file lies in the uploads directory of the server, and the meeting that it
/// becomes has the name that was sent, or one that says when it came.
pub proof fn uploads_become_meetings(
    server: ServerView,
    fresh: Seq<char>,
    file_name: Option<Seq<char>>,
    name: Seq<char>,
    stamp: Seq<char>,
)
    ensures
        staged_path(server, fresh, file_name) == joined(
            joined(server.data_dir, "uploads"@),
            staged_name(fresh, file_name),
        ),
        import_name(Some(name), stamp) == name,
        import_name(None, stamp) == "Import "@ + stamp,
        upload_reply(import_id(fresh)).pick("ok"@).pick("meeting_id"@) == JsonView::Text(
            "meeting-"@ + fresh,
        ),
{
    let inner = JsonView::object().with("meeting_id"@, JsonView::Text(import_id(fresh)));
    fields_are_found_again(JsonView::object(), "meeting_id"@, JsonView::Text(import_id(fresh)));
    fields_are_found_again(JsonView::object(), "ok"@, inner);
}

/// A part that is refused is refused with 400: an empty file with saying so, and one that
/// cannot be decoded or read with the reason. A part that is not leaves nothing out: the
/// file is staged as it was sent, and a name that is not blank is kept.
pub proof fn parts_are_taken_or_refused_for_a_reason(
    server: ServerView,
    form: UploadView,
    part: PartView,
    fresh: Seq<char>,
)
    ensures
        match part {
            PartOf::MeetingName { text } => form.taken(server, part, fresh) matches Ok(next)
                && next.staged == form.staged && next.meeting_name == match text {
                Some(t) if !(forall|i: int| 0 <= i < t.len() ==> white_space(#[trigger] t[i])) => Some(
                    t,
                ),
                _ => None,
            },
            PartOf::File { file_name, bytes, unsupported } => match form.taken(
                server,
                part,
                fresh,
            ) {
                Ok(next) => {
                    &&& bytes.len() > 0 && unsupported is None
                    &&& next.meeting_name == form.meeting_name
                    &&& staging_of(server, form, part, fresh) matches Some(staging) && next.staged
                        == Some(staging.path) && staging.bytes == bytes && staging.replaced
                        == form.staged
                },
                Err(e) => e.status == 400 && if bytes.len() == 0 {
                    e.message == "Uploaded file is empty"@
                } else {
                    unsupported == Some(e.message)
                },
            },
            PartOf::Other => form.taken(server, part, fresh) == Ok::<UploadView, ApiErrorView>(form),
            PartOf::Broken { error } => form.taken(server, part, fresh) matches Err(e) && e.status
                == 400 && e.message == error,
        },
{
    if let PartOf::MeetingName { text: Some(t) } = part {
        blank_means_all_white_space(t);
    }
}

/// A part is known by its name, written exactly so.
pub proof fn parts_are_known_by_their_names(name: Seq<char>)
    ensures
        kind_of_part(Some(name)) == PartKind::File <==> name == "file"@,
        kind_of_part(Some(name)) == PartKind::MeetingName <==> name == "meeting_name"@,
        kind_of_part(None) == PartKind::Other,
{
    reveal_strlit("file");
    reveal_strlit("meeting_name");
    assert("file"@.len() == 4 && "meeting_name"@.len() == 12);
}

/// What an [`Upload`] holds.
pub struct FinishedView {
    pub path: Seq<char>,
    pub meeting_id: Seq<char>,
    pub meeting_name: Seq<char>,
}

/// What an upload holds, or why there is none.
pub open spec fn finished_view(upload: Result<Upload, ApiError>) -> Result<
    FinishedView,
    ApiErrorView,
> {
    match upload {
        Ok(u) => Ok(
            FinishedView {
                path: u.path@,
                meeting_id: u.meeting_id@,
                meeting_name: u.meeting_name@,
            },
        ),
        Err(e) => Err(e@),
    }
}

impl UploadView {
    /// What a complete form becomes.
    pub open spec fn finished(self, stamp: Seq<char>, fresh: Seq<char>) -> Result<
        FinishedView,
        ApiErrorView,
    > {
        match self.staged {
            Some(path) => Ok(
                FinishedView {
                    path,
                    meeting_id: import_id(fresh),
                    meeting_name: import_name(self.meeting_name, stamp),
                },
            ),
            None => Err(missing_file()),
        }
    }
}

/// A form becomes an upload exactly where it has brought a file: of the last one that it
/// brought, under the name that it brought last or one that says when it came, and under an
/// id of its own. Without a file it is refused with 400.
pub proof fn forms_with_a_file_become_uploads(
    server: ServerView,
    parts: Seq<PartInput>,
    stamp: Seq<char>,
    fresh: Seq<char>,
)
    requires
        form_after(server, parts) is Ok,
    ensures
        match form_after(server, parts)->Ok_0.finished(stamp, fresh) {
            Ok(upload) => {
                &&& files_in(server, parts).len() > 0
                &&& upload.path == files_in(server, parts).last()
                &&& upload.meeting_id == "meeting-"@ + fresh
                &&& upload.meeting_name == match name_in(parts) {
                    Some(name) => name,
                    None => "Import "@ + stamp,
                }
            },
            Err(e) => files_in(server, parts).len() == 0 && e.status == 400 && e.message
                == "Missing `file` field"@,
        },
{
    the_last_of_each_part_counts(server, parts);
}

} // verus!
