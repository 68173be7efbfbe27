//! From the environment to a configuration, or to the reason why the server does not
//! start.

use vstd::prelude::*;

use crate::state::{ServerConfig, DEFAULT_SESSION_TTL};
use crate::text::{
    blank_means_all_white_space, core_of, join3, owned, same_text, trim, trimmed,
    trimming_takes_off_white_space_alone, white_space,
};

verus! {

pub const DEFAULT_BIND: &'static str = "0.0.0.0:8080";

pub const DEFAULT_DATA_DIR: &'static str = "/data";

pub const DEFAULT_WEB_ROOT: &'static str = "web";

/// What the environment holds, as it stands there.
pub struct Environment {
    /// `MEETILY_PASSWORD`: shared login password. Required unless bound to loopback.
    pub password: Option<String>,
    /// `MEETILY_DATA_DIR`: sqlite, models and recordings.
    pub data_dir: Option<String>,
    /// `MEETILY_WEB_ROOT`: the directory of the static site.
    pub web_root: Option<String>,
    /// `MEETILY_ALLOW_NO_AUTH`: run without a password on a public bind.
    pub allow_no_auth: Option<String>,
    /// `MEETILY_COOKIE_SECURE`: TLS is terminated in front of the server.
    pub cookie_secure: Option<String>,
    /// `OLLAMA_ENDPOINT`: overrides the endpoint stored in settings.
    pub ollama_endpoint: Option<String>,
}

/// Whether a variable is set to something that means yes.
pub open spec fn flag(value: Option<Seq<char>>) -> bool {
    match value {
        Some(v) => v == "1"@ || v == "true"@ || v == "yes"@,
        None => false,
    }
}

pub fn env_flag(value: &Option<String>) -> (r: bool)
    ensures
        r == flag(value.deep_view()),
{
    match value {
        Some(v) => same_text(v.as_str(), "1") || same_text(v.as_str(), "true") || same_text(
            v.as_str(),
            "yes",
        ),
        None => false,
    }
}

/// What a variable is set to, without white space around it, where anything is left.
pub open spec fn setting(value: Option<Seq<char>>) -> Option<Seq<char>> {
    match value {
        Some(v) => if trimmed(v).len() == 0 {
            None
        } else {
            Some(trimmed(v))
        },
        None => None,
    }
}

pub fn env_string(value: &Option<String>) -> (out: Option<String>)
    ensures
        out.deep_view() == setting(value.deep_view()),
{
    match value {
        Some(v) => {
            let text = trim(v.as_str());
            if same_text(text.as_str(), "") {
                proof {
                    reveal_strlit("");
                }
                None
            } else {
                proof {
                    reveal_strlit("");
                    assert(text@.len() == 0 ==> text@ =~= ""@);
                }
                Some(text)
            }
        },
        None => None,
    }
}

/// What a variable is set to, or what goes without saying.
pub open spec fn setting_or(value: Option<Seq<char>>, other: Seq<char>) -> Seq<char> {
    match setting(value) {
        Some(v) => v,
        None => other,
    }
}

fn string_or(value: &Option<String>, other: &str) -> (out: String)
    ensures
        out@ == setting_or(value.deep_view(), other@),
{
    match env_string(value) {
        Some(v) => v,
        None => owned(other),
    }
}

/// The address to listen on: `MEETILY_BIND`, or every interface.
pub fn bind_address(value: &Option<String>) -> (out: String)
    ensures
        out@ == setting_or(value.deep_view(), DEFAULT_BIND@),
{
    string_or(value, DEFAULT_BIND)
}

/// What the server starts with.
pub struct Startup {
    pub config: ServerConfig,
    pub data_dir: String,
    pub web_root: String,
}

/// Whether a server with this environment may listen where it is to: everything in the
/// database is readable by anyone who can reach it, so without a password it listens on
/// loopback alone, unless it is told that something else protects it.
pub open spec fn may_listen(
    password: Option<Seq<char>>,
    allow_no_auth: Option<Seq<char>>,
    loopback: bool,
) -> bool {
    setting(password) is Some || loopback || flag(allow_no_auth)
}

/// Why a server does not start.
pub open spec fn refusal(bind: Seq<char>) -> Seq<char> {
    "MEETILY_PASSWORD is not set and "@ + bind
        + " is not loopback. Set MEETILY_PASSWORD, bind to 127.0.0.1, or set MEETILY_ALLOW_NO_AUTH=1 if the server is already protected by a reverse proxy or a private network."@
}

/// Prepares a server that listens on `bind`, which is a loopback address or is not.
pub fn prepare(env: &Environment, bind: &str, loopback: bool) -> (startup: Result<Startup, String>)
    ensures
        match startup {
            Ok(s) => {
                &&& may_listen(env.password.deep_view(), env.allow_no_auth.deep_view(), loopback)
                &&& s.config.password.deep_view() == setting(env.password.deep_view())
                &&& s.config.cookie_secure == flag(env.cookie_secure.deep_view())
                &&& s.config.session_ttl == DEFAULT_SESSION_TTL
                &&& s.config.ollama_endpoint.deep_view() == setting(
                    env.ollama_endpoint.deep_view(),
                )
                &&& s.data_dir@ == setting_or(env.data_dir.deep_view(), DEFAULT_DATA_DIR@)
                &&& s.web_root@ == setting_or(env.web_root.deep_view(), DEFAULT_WEB_ROOT@)
                &&& starts_from(*env, s)
            },
            Err(message) => !may_listen(
                env.password.deep_view(),
                env.allow_no_auth.deep_view(),
                loopback,
            ) && message@ == refusal(bind@),
        },
{
    let password = env_string(&env.password);
    if password.is_none() && !loopback && !env_flag(&env.allow_no_auth) {
        return Err(
            join3(
                "MEETILY_PASSWORD is not set and ",
                bind,
                " is not loopback. Set MEETILY_PASSWORD, bind to 127.0.0.1, or set MEETILY_ALLOW_NO_AUTH=1 if the server is already protected by a reverse proxy or a private network.",
            ),
        );
    }
    Ok(
        Startup {
            config: ServerConfig {
                password,
                cookie_secure: env_flag(&env.cookie_secure),
                session_ttl: DEFAULT_SESSION_TTL,
                ollama_endpoint: env_string(&env.ollama_endpoint),
            },
            data_dir: string_or(&env.data_dir, DEFAULT_DATA_DIR),
            web_root: string_or(&env.web_root, DEFAULT_WEB_ROOT),
        },
    )
}

/// A server that is open to everyone is never exposed by accident: without a password,
/// beyond loopback and without the override, it does not start.
pub proof fn open_servers_are_not_exposed(
    password: Option<Seq<char>>,
    allow_no_auth: Option<Seq<char>>,
)
    requires
        setting(password) is None,
        !flag(allow_no_auth),
    ensures
        !may_listen(password, allow_no_auth, false),
        may_listen(password, allow_no_auth, true),
{
}

/// A variable that is not set, or holds nothing but white space, is as good as missing; of
/// any other, what stands between white space counts. And what means yes is written out.
pub proof fn blank_variables_are_not_set(value: Seq<char>)
    ensures
        setting(None) is None,
        setting(Some(value)) is None <==> forall|i: int|
            0 <= i < value.len() ==> white_space(#[trigger] value[i]),
        setting(Some(value)) matches Some(text) ==> core_of(value, text),
        !flag(None),
        flag(Some(value)) <==> value == "1"@ || value == "true"@ || value == "yes"@,
{
    blank_means_all_white_space(value);
    trimming_takes_off_white_space_alone(value);
}

/// With a password, on loopback, or where it is told that something else protects it, a
/// server starts; and in no other case.
pub proof fn servers_start_where_they_are_protected(
    password: Option<Seq<char>>,
    allow_no_auth: Option<Seq<char>>,
    loopback: bool,
    bind: Seq<char>,
)
    ensures
        may_listen(password, allow_no_auth, loopback) <==> (loopback || setting(password) is Some
            || allow_no_auth == Some("1"@) || allow_no_auth == Some("true"@) || allow_no_auth
            == Some("yes"@)),
        setting_or(password, bind) == match setting(password) {
            Some(text) => text,
            None => bind,
        },
{
}

/// Whether a server starts as its environment says.
pub open spec fn starts_from(env: Environment, s: Startup) -> bool {
    &&& s.config.password.deep_view() == setting(env.password.deep_view())
    &&& s.config.cookie_secure == flag(env.cookie_secure.deep_view())
    &&& s.config.session_ttl == DEFAULT_SESSION_TTL
    &&& s.config.ollama_endpoint.deep_view() == setting(env.ollama_endpoint.deep_view())
    &&& s.data_dir@ == setting_or(env.data_dir.deep_view(), DEFAULT_DATA_DIR@)
    &&& s.web_root@ == setting_or(env.web_root.deep_view(), DEFAULT_WEB_ROOT@)
}

/// A server that starts has the password, the endpoint and the directories that are set for
/// it, or the ones that go without saying; its sessions last for thirty days; and its
/// cookies are for TLS alone where that is said.
pub proof fn servers_start_as_they_are_told(env: Environment, s: Startup)
    requires
        starts_from(env, s),
    ensures
        s.config.password.deep_view() == setting(env.password.deep_view()),
        s.config.ollama_endpoint.deep_view() == setting(env.ollama_endpoint.deep_view()),
        s.config.session_ttl == 30 * 24 * 60 * 60 * 1_000_000_000,
        s.config.cookie_secure <==> (env.cookie_secure.deep_view() matches Some(v) && (v == "1"@
            || v == "true"@ || v == "yes"@)),
        s.data_dir@ == match setting(env.data_dir.deep_view()) {
            Some(dir) => dir,
            None => "/data"@,
        },
        s.web_root@ == match setting(env.web_root.deep_view()) {
            Some(dir) => dir,
            None => "web"@,
        },
        DEFAULT_BIND@ == "0.0.0.0:8080"@,
{
}

/// A server that does not start says where it was to listen, and what is not set.
pub proof fn refusals_say_what_is_missing(bind: Seq<char>)
    ensures
        "MEETILY_PASSWORD is not set and "@.is_prefix_of(refusal(bind)),
        refusal(bind).subrange(
            "MEETILY_PASSWORD is not set and "@.len() as int,
            "MEETILY_PASSWORD is not set and "@.len() as int + bind.len(),
        ) == bind,
{
    let lead = "MEETILY_PASSWORD is not set and "@;
    assert(refusal(bind).subrange(0, lead.len() as int) =~= lead);
    assert(refusal(bind).subrange(lead.len() as int, lead.len() as int + bind.len()) =~= bind);
}

} // verus!
