//! The errors that the server answers with.

use vstd::prelude::*;

use crate::json::{fields_are_found_again, Json, JsonView};

verus! {

pub const BAD_REQUEST: u16 = 400;

pub const UNAUTHORIZED: u16 = 401;

pub const NOT_FOUND: u16 = 404;

pub const INTERNAL_SERVER_ERROR: u16 = 500;

/// Error returned to the browser as `{"error": "..."}`, under an HTTP status.
#[derive(Debug)]
pub struct ApiError {
    pub status: u16,
    pub message: String,
}

/// What an [`ApiError`] holds.
pub struct ApiErrorView {
    pub status: u16,
    pub message: Seq<char>,
}

impl View for ApiError {
    type V = ApiErrorView;

    open spec fn view(&self) -> ApiErrorView {
        ApiErrorView { status: self.status, message: self.message@ }
    }
}

/// The error for a request that cannot be understood.
pub open spec fn bad_request_error(message: Seq<char>) -> ApiErrorView {
    ApiErrorView { status: BAD_REQUEST, message }
}

/// The error for something that is not there.
pub open spec fn not_found_error(message: Seq<char>) -> ApiErrorView {
    ApiErrorView { status: NOT_FOUND, message }
}

/// The error for a failure on the server's side.
pub open spec fn internal_error(message: Seq<char>) -> ApiErrorView {
    ApiErrorView { status: INTERNAL_SERVER_ERROR, message }
}

impl ApiError {
    pub fn new(status: u16, message: String) -> (e: Self)
        ensures
            e@ == (ApiErrorView { status, message: message@ }),
    {
        ApiError { status, message }
    }

    pub fn bad_request(message: String) -> (e: Self)
        ensures
            e@ == bad_request_error(message@),
    {
        ApiError::new(BAD_REQUEST, message)
    }

    pub fn not_found(message: String) -> (e: Self)
        ensures
            e@ == not_found_error(message@),
    {
        ApiError::new(NOT_FOUND, message)
    }

    pub fn internal(message: String) -> (e: Self)
        ensures
            e@ == internal_error(message@),
    {
        ApiError::new(INTERNAL_SERVER_ERROR, message)
    }

    /// The body of the answer: `{"error": message}`.
    pub fn body(&self) -> (out: Json)
        ensures
            out@ == JsonView::object().with("error"@, JsonView::Text(self@.message)),
            out@ == error_body(self@),
    {
        Json::object().with("error", Json::text(self.message.as_str()))
    }
}

/// A failure that is known only by its text is the server's.
impl From<String> for ApiError {
    fn from(e: String) -> (r: ApiError) {
        ApiError { status: INTERNAL_SERVER_ERROR, message: e }
    }
}

impl vstd::std_specs::convert::FromSpecImpl<String> for ApiError {
    open spec fn obeys_from_spec() -> bool {
        true
    }

    open spec fn from_spec(e: String) -> ApiError {
        ApiError { status: INTERNAL_SERVER_ERROR, message: e }
    }
}

/// What the outcome of a command holds.
pub open spec fn result_view(result: Result<Json, ApiError>) -> Result<JsonView, ApiErrorView> {
    match result {
        Ok(value) => Ok(value@),
        Err(e) => Err(e@),
    }
}

/// The body of an error: `{"error": message}`.
pub open spec fn error_body(e: ApiErrorView) -> JsonView {
    JsonView::object().with("error"@, JsonView::Text(e.message))
}

/// An error says what is wrong, and by its status whose fault it is.
pub proof fn errors_say_what_is_wrong(e: ApiErrorView, message: Seq<char>)
    ensures
        error_body(e).get("error"@) == Some(JsonView::Text(e.message)),
        bad_request_error(message).status == 400 && bad_request_error(message).message == message,
        not_found_error(message).status == 404 && not_found_error(message).message == message,
        internal_error(message).status == 500 && internal_error(message).message == message,
        UNAUTHORIZED == 401,
{
    fields_are_found_again(JsonView::object(), "error"@, JsonView::Text(e.message));
}

} // verus!
