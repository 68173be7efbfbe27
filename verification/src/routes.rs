//! The endpoints of the server, and who may reach them.

use vstd::prelude::*;

use crate::auth::header_view;
use crate::dispatch::{dispatch, first_step};
use crate::error::{ApiError, ApiErrorView, UNAUTHORIZED};
use crate::json::{fields_are_found_again, Json, JsonView};
use crate::outside::uuid_text;
use crate::protocol::Step;
use crate::state::{ServerState, ServerView};

verus! {

pub const OK: u16 = 200;

/// An endpoint of the API. Everything else is the static site.
#[derive(Debug, Clone, Copy, PartialEq, Eq, Structural)]
pub enum Endpoint {
    /// Runs a command.
    Invoke,
    /// Streams events.
    Events,
    /// Takes an audio file.
    Upload,
    /// Takes a live recording, over a WebSocket.
    Audio,
    Logout,
    Login,
    AuthStatus,
}

/// The method that an endpoint is reached by.
#[derive(Debug, Clone, Copy, PartialEq, Eq, Structural)]
pub enum Method {
    Get,
    Post,
}

impl Endpoint {
    pub open spec fn spec_path(self) -> Seq<char> {
        match self {
            Endpoint::Invoke => "/api/invoke/:cmd"@,
            Endpoint::Events => "/api/events"@,
            Endpoint::Upload => "/api/upload"@,
            Endpoint::Audio => "/api/audio/:session_id"@,
            Endpoint::Logout => "/api/logout"@,
            Endpoint::Login => "/api/login"@,
            Endpoint::AuthStatus => "/api/auth/status"@,
        }
    }

    /// The path, with a colon before what varies.
    pub fn path(self) -> (path: &'static str)
        ensures
            path@ == self.spec_path(),
    {
        match self {
            Endpoint::Invoke => "/api/invoke/:cmd",
            Endpoint::Events => "/api/events",
            Endpoint::Upload => "/api/upload",
            Endpoint::Audio => "/api/audio/:session_id",
            Endpoint::Logout => "/api/logout",
            Endpoint::Login => "/api/login",
            Endpoint::AuthStatus => "/api/auth/status",
        }
    }

    pub fn method(self) -> (method: Method)
        ensures
            method == (match self {
                Endpoint::Events | Endpoint::Audio | Endpoint::AuthStatus => Method::Get,
                _ => Method::Post,
            }),
            method == self.spec_method(),
    {
        match self {
            Endpoint::Events | Endpoint::Audio | Endpoint::AuthStatus => Method::Get,
            _ => Method::Post,
        }
    }

    /// Whether one has to be logged in: everywhere but where one logs in, or asks
    /// whether one is.
    pub open spec fn is_protected(self) -> bool {
        self != Endpoint::Login && self != Endpoint::AuthStatus
    }

    pub fn protected(self) -> (r: bool)
        ensures
            r == self.is_protected(),
    {
        match self {
            Endpoint::Login | Endpoint::AuthStatus => false,
            _ => true,
        }
    }
}

impl ServerView {
    /// Whether a request with this cookie header may reach an endpoint.
    pub open spec fn opens(
        self,
        endpoint: Endpoint,
        header: Option<Seq<char>>,
        now: u128,
    ) -> bool {
        !endpoint.is_protected() || self.admits(header, now)
    }

    /// The server once a request for an endpoint has been looked at.
    pub open spec fn passed_by(
        self,
        endpoint: Endpoint,
        header: Option<Seq<char>>,
        now: u128,
    ) -> ServerView {
        if endpoint.is_protected() {
            self.checked(header, now)
        } else {
            self
        }
    }
}

/// The error for who is not logged in.
pub open spec fn not_authenticated() -> ApiErrorView {
    ApiErrorView { status: UNAUTHORIZED, message: "Not authenticated"@ }
}

impl ServerState {
    /// Lets a request through to an endpoint, or answers that its sender is not
    /// logged in.
    pub fn guard(&mut self, endpoint: Endpoint, header: Option<&str>, now: u128) -> (pass: Result<
        (),
        ApiError,
    >)
        ensures
            match pass {
                Ok(_) => old(self)@.opens(endpoint, header_view(header), now),
                Err(e) => !old(self)@.opens(endpoint, header_view(header), now) && e@
                    == not_authenticated(),
            },
            final(self)@ == old(self)@.passed_by(endpoint, header_view(header), now),
    {
        if endpoint.protected() {
            self.require_auth(header, now)
        } else {
            Ok(())
        }
    }

    /// Runs a command with the arguments that came with it. Without a body they are
    /// null.
    pub fn invoke(&self, name: &str, body: Option<Json>) -> (step: Step)
        ensures
            exists|fresh: Seq<char>| #[trigger]
                uuid_text(fresh) && step@ == first_step(
                    self@,
                    name@,
                    match body {
                        Some(args) => args@,
                        None => JsonView::Null,
                    },
                    fresh,
                ),
    {
        let args = match body {
            Some(args) => args,
            None => Json::Null,
        };
        dispatch(self, name, &args)
    }
}

/// An answer over HTTP.
pub struct Answer {
    pub status: u16,
    pub body: Json,
}

/// What an [`Answer`] holds.
pub struct AnswerView {
    pub status: u16,
    pub body: JsonView,
}

impl View for Answer {
    type V = AnswerView;

    open spec fn view(&self) -> AnswerView {
        AnswerView { status: self.status, body: self.body@ }
    }
}

/// What a command is answered with: its value under `ok`, or its error under
/// `error`.
pub open spec fn answered(result: Result<JsonView, ApiErrorView>) -> AnswerView {
    match result {
        Ok(value) => AnswerView { status: OK, body: JsonView::object().with("ok"@, value) },
        Err(e) => AnswerView {
            status: e.status,
            body: JsonView::object().with("error"@, JsonView::Text(e.message)),
        },
    }
}

pub fn answer(result: Result<Json, ApiError>) -> (out: Answer)
    ensures
        out@ == answered(
            match result {
                Ok(value) => Ok(value@),
                Err(e) => Err(e@),
            },
        ),
{
    match result {
        Ok(value) => Answer { status: OK, body: Json::object().with("ok", value) },
        Err(e) => {
            let body = e.body();
            Answer { status: e.status, body }
        },
    }
}

/// Only the login and the question whether one is logged in are open to everyone. Who
/// is not logged in reaches nothing else.
pub proof fn strangers_reach_the_login_alone(
    server: ServerView,
    endpoint: Endpoint,
    header: Option<Seq<char>>,
    now: u128,
)
    requires
        !server.admits(header, now),
    ensures
        server.opens(endpoint, header, now) <==> endpoint == Endpoint::Login || endpoint
            == Endpoint::AuthStatus,
{
}

/// Who is logged in reaches every endpoint.
pub proof fn users_reach_everything(
    server: ServerView,
    endpoint: Endpoint,
    header: Option<Seq<char>>,
    now: u128,
)
    requires
        server.admits(header, now),
    ensures
        server.opens(endpoint, header, now),
{
}

/// An answer carries the value of a command under `ok` and nothing else, or its error under
/// `error`, with the status that the error has.
pub proof fn answers_carry_the_value_or_the_error(value: JsonView, error: ApiErrorView)
    ensures
        answered(Ok(value)).status == 200,
        answered(Ok(value)).body.get("ok"@) == Some(value),
        answered(Ok(value)).body.get("error"@) is None,
        answered(Err(error)).status == error.status,
        answered(Err(error)).body.get("error"@) == Some(JsonView::Text(error.message)),
        answered(Err(error)).body.get("ok"@) is None,
{
    reveal_strlit("ok");
    reveal_strlit("error");
    assert("ok"@.len() == 2 && "error"@.len() == 5);
    fields_are_found_again(JsonView::object(), "ok"@, value);
    fields_are_found_again(JsonView::object(), "error"@, JsonView::Text(error.message));
}

/// Looking at a request changes nothing for another one, and lets nobody in or out who was
/// not before.
pub proof fn looking_at_requests_changes_no_answer(
    server: ServerView,
    endpoint: Endpoint,
    header: Option<Seq<char>>,
    now: u128,
    other: Endpoint,
    second: Option<Seq<char>>,
    later: u128,
)
    requires
        now <= later,
    ensures
        server.passed_by(endpoint, header, now).opens(other, second, later) == server.opens(
            other,
            second,
            later,
        ),
        server.passed_by(endpoint, header, now).live == server.live,
{
}

impl Endpoint {
    /// The method that the endpoint is reached by.
    pub open spec fn spec_method(self) -> Method {
        match self {
            Endpoint::Events | Endpoint::Audio | Endpoint::AuthStatus => Method::Get,
            _ => Method::Post,
        }
    }
}

/// What only reads is reached by GET, and a socket is opened by it; what changes something
/// is reached by POST. All of them lie below the same path.
pub proof fn endpoints_are_reached_below_the_api(endpoint: Endpoint)
    ensures
        "/api/"@.is_prefix_of(endpoint.spec_path()),
        endpoint.spec_method() == Method::Get <==> (endpoint == Endpoint::Events || endpoint
            == Endpoint::AuthStatus || endpoint == Endpoint::Audio),
        endpoint == Endpoint::Invoke <==> endpoint.spec_path() == "/api/invoke/:cmd"@,
        endpoint == Endpoint::Events <==> endpoint.spec_path() == "/api/events"@,
        endpoint == Endpoint::Upload <==> endpoint.spec_path() == "/api/upload"@,
        endpoint == Endpoint::Audio <==> endpoint.spec_path() == "/api/audio/:session_id"@,
        endpoint == Endpoint::Logout <==> endpoint.spec_path() == "/api/logout"@,
        endpoint == Endpoint::Login <==> endpoint.spec_path() == "/api/login"@,
        endpoint == Endpoint::AuthStatus <==> endpoint.spec_path() == "/api/auth/status"@,
{
    reveal_strlit("/api/");
    reveal_strlit("/api/invoke/:cmd");
    reveal_strlit("/api/events");
    reveal_strlit("/api/upload");
    reveal_strlit("/api/audio/:session_id");
    reveal_strlit("/api/logout");
    reveal_strlit("/api/login");
    reveal_strlit("/api/auth/status");
    assert("/api/invoke/:cmd"@.len() == 16 && "/api/auth/status"@.len() == 16);
    assert("/api/events"@.len() == 11 && "/api/upload"@.len() == 11 && "/api/logout"@.len() == 11);
    assert("/api/audio/:session_id"@.len() == 22 && "/api/login"@.len() == 10);
    assert("/api/invoke/:cmd"@[5] == 'i' && "/api/auth/status"@[5] == 'a');
    assert("/api/events"@[5] == 'e' && "/api/upload"@[5] == 'u' && "/api/logout"@[5] == 'l');
    assert("/api/"@ =~= endpoint.spec_path().subrange(0, 5));
}

} // verus!
