//! Starting from the environment.

use meetily_server::startup::{
    bind_address, env_flag, env_string, prepare, Environment, Startup,
};
use meetily_server::state::{ServerConfig, NANOS_PER_SECOND};

fn some(text: &str) -> Option<String> {
    Some(text.to_string())
}

fn nothing() -> Environment {
    Environment {
        password: None,
        data_dir: None,
        web_root: None,
        allow_no_auth: None,
        cookie_secure: None,
        ollama_endpoint: None,
    }
}

fn start(env: &Environment, loopback: bool) -> Startup {
    prepare(env, "0.0.0.0:8080", loopback).expect("a server")
}

#[test]
fn flags_are_spelled_in_three_ways() {
    for yes in ["1", "true", "yes"] {
        assert!(env_flag(&some(yes)));
    }
    for no in ["", "0", "false", "no", "TRUE", " 1", "on"] {
        assert!(!env_flag(&some(no)));
    }
    assert!(!env_flag(&None));
}

#[test]
fn blank_variables_are_as_good_as_none() {
    assert_eq!(env_string(&some("  x y ")).as_deref(), Some("x y"));
    assert_eq!(env_string(&some(" \t")), None);
    assert_eq!(env_string(&some("")), None);
    assert_eq!(env_string(&None), None);
}

#[test]
fn defaults_go_without_saying() {
    assert_eq!(bind_address(&None), "0.0.0.0:8080");
    assert_eq!(bind_address(&some(" 127.0.0.1:9 ")), "127.0.0.1:9");
    let started = start(&nothing(), true);
    assert_eq!(started.data_dir, "/data");
    assert_eq!(started.web_root, "web");
    assert_eq!(started.config.password, None);
    assert!(!started.config.cookie_secure);
    assert_eq!(started.config.session_ttl, 2_592_000 * NANOS_PER_SECOND);
    assert_eq!(started.config.ollama_endpoint, None);
    assert_eq!(ServerConfig::default().session_ttl, 2_592_000 * NANOS_PER_SECOND);
}

#[test]
fn an_open_server_is_not_exposed() {
    let error = prepare(&nothing(), "0.0.0.0:8080", false).err().expect("a refusal");
    assert_eq!(
        error,
        "MEETILY_PASSWORD is not set and 0.0.0.0:8080 is not loopback. Set MEETILY_PASSWORD, \
         bind to 127.0.0.1, or set MEETILY_ALLOW_NO_AUTH=1 if the server is already protected \
         by a reverse proxy or a private network."
    );
    let blank = Environment { password: some("  "), ..nothing() };
    assert!(prepare(&blank, "0.0.0.0:8080", false).is_err());
    let allowed = Environment { allow_no_auth: some("1"), ..nothing() };
    assert_eq!(start(&allowed, false).config.password, None);
    let closed = Environment { password: some(" p "), ..nothing() };
    assert_eq!(start(&closed, false).config.password.as_deref(), Some("p"));
}

#[test]
fn everything_can_be_set() {
    let env = Environment {
        password: some("p"),
        data_dir: some("/srv"),
        web_root: some("/app/web"),
        allow_no_auth: None,
        cookie_secure: some("yes"),
        ollama_endpoint: some("http://ollama:11434"),
    };
    let started = start(&env, false);
    assert_eq!(started.data_dir, "/srv");
    assert_eq!(started.web_root, "/app/web");
    assert!(started.config.cookie_secure);
    assert_eq!(started.config.ollama_endpoint.as_deref(), Some("http://ollama:11434"));
}
