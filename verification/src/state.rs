//! The state of the server: its configuration, the login sessions, the running
//! recordings and the data directory.

use dashmap::DashMap;
use vstd::prelude::*;

use crate::outside::{
    find_live, find_session, insert_live, insert_session, live_entries, new_live, new_sessions,
    remove_live, remove_session, session_entries,
};
use crate::paths::{join_path, joined, sanitize_path_component, sanitized};

verus! {

pub const NANOS_PER_SECOND: u128 = 1_000_000_000;

/// How long a session lasts unless it is configured otherwise: thirty days.
pub const DEFAULT_SESSION_TTL: u128 = 2_592_000_000_000_000;

pub struct ServerConfig {
    /// `None` disables auth. Only allowed on loopback or with an explicit override.
    pub password: Option<String>,
    pub cookie_secure: bool,
    /// How long a login lasts, in nanoseconds.
    pub session_ttl: u128,
    /// Overrides the endpoint stored in settings.
    pub ollama_endpoint: Option<String>,
}

impl Default for ServerConfig {
    fn default() -> (config: Self)
        ensures
            config.password is None,
            !config.cookie_secure,
            config.session_ttl == 60 * 60 * 24 * 30 * NANOS_PER_SECOND,
            config.ollama_endpoint is None,
    {
        ServerConfig {
            password: None,
            cookie_secure: false,
            session_ttl: DEFAULT_SESSION_TTL,
            ollama_endpoint: None,
        }
    }
}

/// Times are nanoseconds on a clock that never runs backwards.
pub struct ServerState {
    pub config: ServerConfig,
    /// The directory of the database, the models, the recordings and the uploads.
    pub data_dir: String,
    /// The model that transcription uses unless the settings name one.
    pub default_parakeet_model: String,
    /// Login sessions: token -> expiry. Memory only, so a restart just forces
    /// re-login and there is no signing key to manage or leak.
    sessions: DashMap<String, u128>,
    /// Active browser recordings: session id -> meeting name.
    live: DashMap<String, String>,
}

/// What a [`ServerState`] holds.
pub struct ServerView {
    pub password: Option<Seq<char>>,
    pub cookie_secure: bool,
    pub session_ttl: u128,
    pub ollama_endpoint: Option<Seq<char>>,
    pub data_dir: Seq<char>,
    pub default_parakeet_model: Seq<char>,
    pub sessions: Map<Seq<char>, u128>,
    pub live: Map<Seq<char>, Seq<char>>,
}

impl View for ServerState {
    type V = ServerView;

    closed spec fn view(&self) -> ServerView {
        ServerView {
            password: self.config.password.deep_view(),
            cookie_secure: self.config.cookie_secure,
            session_ttl: self.config.session_ttl,
            ollama_endpoint: self.config.ollama_endpoint.deep_view(),
            data_dir: self.data_dir@,
            default_parakeet_model: self.default_parakeet_model@,
            sessions: session_entries(self.sessions),
            live: live_entries(self.live),
        }
    }
}

impl ServerState {
    /// A server that nobody has logged into and nobody is recording on.
    pub fn new(
        data_dir: String,
        config: ServerConfig,
        default_parakeet_model: String,
    ) -> (state: ServerState)
        ensures
            state@ == (ServerView {
                password: config.password.deep_view(),
                cookie_secure: config.cookie_secure,
                session_ttl: config.session_ttl,
                ollama_endpoint: config.ollama_endpoint.deep_view(),
                data_dir: data_dir@,
                default_parakeet_model: default_parakeet_model@,
                sessions: Map::empty(),
                live: Map::empty(),
            }),
    {
        ServerState {
            config,
            data_dir,
            default_parakeet_model,
            sessions: new_sessions(),
            live: new_live(),
        }
    }

    /// Whether visitors have to log in.
    pub fn auth_required(&self) -> (r: bool)
        ensures
            r == (self@.password is Some),
    {
        self.config.password.is_some()
    }

    /// Where the database lies.
    pub fn database_path(&self) -> (path: String)
        ensures
            path@ == joined(self@.data_dir, "meeting_minutes.sqlite"@),
    {
        join_path(self.data_dir.as_str(), "meeting_minutes.sqlite")
    }

    /// Where the models lie.
    pub fn models_dir(&self) -> (path: String)
        ensures
            path@ == joined(self@.data_dir, "models"@),
    {
        join_path(self.data_dir.as_str(), "models")
    }

    /// Where the recordings lie.
    pub fn recordings_dir(&self) -> (path: String)
        ensures
            path@ == joined(self@.data_dir, "recordings"@),
    {
        join_path(self.data_dir.as_str(), "recordings")
    }

    /// Where uploaded files are staged.
    pub fn uploads_dir(&self) -> (path: String)
        ensures
            path@ == joined(self@.data_dir, "uploads"@),
    {
        join_path(self.data_dir.as_str(), "uploads")
    }

    /// Where the recording of one meeting lies: always directly below the
    /// recordings directory, whatever the name.
    pub fn meeting_dir(&self, name: &str) -> (path: String)
        ensures
            path@ == joined(joined(self@.data_dir, "recordings"@), sanitized(name@)),
    {
        let component = sanitize_path_component(name);
        join_path(self.recordings_dir().as_str(), component.as_str())
    }

    /// The password, where there is one.
    pub(crate) fn password(&self) -> (password: Option<String>)
        ensures
            password.deep_view() == self@.password,
    {
        self.config.password.clone()
    }

    pub(crate) fn secure(&self) -> (secure: bool)
        ensures
            secure == self@.cookie_secure,
    {
        self.config.cookie_secure
    }

    pub(crate) fn ttl(&self) -> (ttl: u128)
        ensures
            ttl == self@.session_ttl,
    {
        self.config.session_ttl
    }

    /// The configured endpoint, where there is one.
    pub(crate) fn ollama_endpoint(&self) -> (endpoint: Option<String>)
        ensures
            endpoint.deep_view() == self@.ollama_endpoint,
    {
        self.config.ollama_endpoint.clone()
    }

    pub(crate) fn data_directory(&self) -> (path: String)
        ensures
            path@ == self@.data_dir,
    {
        self.data_dir.clone()
    }

    pub(crate) fn default_model(&self) -> (model: String)
        ensures
            model@ == self@.default_parakeet_model,
    {
        self.default_parakeet_model.clone()
    }

    /// When the session under a token expires, where there is one.
    pub(crate) fn find_expiry(&self, token: &str) -> (expiry: Option<u128>)
        ensures
            expiry == if self@.sessions.contains_key(token@) {
                Some(self@.sessions[token@])
            } else {
                None
            },
    {
        find_session(&self.sessions, token)
    }

    /// Enters a session.
    pub(crate) fn remember(&mut self, token: String, expiry: u128)
        ensures
            final(self)@ == (ServerView {
                sessions: old(self)@.sessions.insert(token@, expiry),
                ..old(self)@
            }),
    {
        insert_session(&mut self.sessions, token, expiry);
    }

    /// Takes a session out.
    pub(crate) fn forget(&mut self, token: &str)
        ensures
            final(self)@ == (ServerView {
                sessions: old(self)@.sessions.remove(token@),
                ..old(self)@
            }),
    {
        remove_session(&mut self.sessions, token);
    }

    /// Enters a recording.
    pub fn register_live(&mut self, id: String, meeting_name: String)
        ensures
            final(self)@ == (ServerView {
                live: old(self)@.live.insert(id@, meeting_name@),
                ..old(self)@
            }),
    {
        insert_live(&mut self.live, id, meeting_name);
    }

    /// The name of the meeting that is being recorded under an id, where there is one.
    pub fn live_meeting(&self, id: &str) -> (name: Option<String>)
        ensures
            match name {
                Some(n) => self@.live.contains_key(id@) && n@ == self@.live[id@],
                None => !self@.live.contains_key(id@),
            },
    {
        find_live(&self.live, id)
    }

    /// Takes a recording out.
    pub fn unregister_live(&mut self, id: &str)
        ensures
            final(self)@ == (ServerView { live: old(self)@.live.remove(id@), ..old(self)@ }),
    {
        remove_live(&mut self.live, id);
    }
}

} // verus!
