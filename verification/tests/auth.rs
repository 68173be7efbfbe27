//! Passwords, tokens, cookies and sessions.

use meetily_server::auth::{
    constant_time_eq, cookie_value, new_token, token_from, CookieReply, LoginRequest,
    SESSION_COOKIE,
};
use meetily_server::json::Json;
use meetily_server::state::{ServerConfig, ServerState, NANOS_PER_SECOND};

fn state(password: Option<&str>, secure: bool, seconds: u128) -> ServerState {
    ServerState::new(
        "/data".to_string(),
        ServerConfig {
            password: password.map(|p| p.to_string()),
            cookie_secure: secure,
            session_ttl: seconds * NANOS_PER_SECOND,
            ollama_endpoint: None,
        },
        "model".to_string(),
    )
}

fn login(state: &mut ServerState, password: &str, now: u128) -> CookieReply {
    state.login(&LoginRequest { password: password.to_string() }, now).ok().expect("a login")
}

fn pair(reply: &CookieReply) -> String {
    let cookie = reply.set_cookie.as_deref().expect("a cookie");
    cookie.split(';').next().unwrap_or_default().to_string()
}

fn shown(json: &Json) -> String {
    format!("{:?}", json)
}

#[test]
fn equality_takes_every_byte() {
    assert!(constant_time_eq(b"", b""));
    assert!(constant_time_eq(b"secret", b"secret"));
    assert!(!constant_time_eq(b"secret", b"secreT"));
    assert!(!constant_time_eq(b"secret", b"Secret"));
    assert!(!constant_time_eq(b"secret", b"secre"));
    assert!(!constant_time_eq(b"", b"x"));
}

#[test]
fn tokens_are_hexadecimal() {
    let bytes: Vec<u8> = (0..32).map(|i| (i * 8 + 3) as u8).collect();
    let expected: String = bytes.iter().map(|b| format!("{:02x}", b)).collect();
    assert_eq!(token_from(&bytes), expected);
    assert_eq!(token_from(&[0xff; 32]), "f".repeat(64));
}

#[test]
fn tokens_are_fresh() {
    let a = new_token();
    let b = new_token();
    assert_eq!(a.len(), 64);
    assert!(a.chars().all(|c| c.is_ascii_digit() || ('a'..='f').contains(&c)));
    assert_ne!(a, b);
}

#[test]
fn cookies_are_found_by_name() {
    let name = SESSION_COOKIE;
    assert_eq!(cookie_value("meetily_session=abc", name).as_deref(), Some("abc"));
    assert_eq!(
        cookie_value("theme=dark; meetily_session = abc ; x=y", name).as_deref(),
        Some("abc")
    );
    assert_eq!(cookie_value("meetily_session=a=b", name).as_deref(), Some("a=b"));
    assert_eq!(cookie_value("meetily_session=", name).as_deref(), Some(""));
    assert_eq!(
        cookie_value("meetily_session=first;meetily_session=second", name).as_deref(),
        Some("first")
    );
    assert_eq!(cookie_value("flag; meetily_session=abc", name).as_deref(), Some("abc"));
    assert_eq!(cookie_value("xmeetily_session=abc", name), None);
    assert_eq!(cookie_value("meetily_session", name), None);
    assert_eq!(cookie_value("", name), None);
}

#[test]
fn a_session_cookie_reads_as_it_should() {
    let mut plain = state(Some("p"), false, 60);
    let reply = plain.open_session("abc".to_string(), 5);
    assert_eq!(
        reply.set_cookie.as_deref(),
        Some("meetily_session=abc; HttpOnly; SameSite=Lax; Path=/; Max-Age=60")
    );
    assert_eq!(shown(&reply.body), shown(&Json::object().with("ok", Json::Bool(true))));
    let mut secure = state(Some("p"), true, 60 * 60 * 24 * 30);
    let reply = secure.open_session("abc".to_string(), 5);
    assert_eq!(
        reply.set_cookie.as_deref(),
        Some("meetily_session=abc; HttpOnly; SameSite=Lax; Path=/; Max-Age=2592000; Secure")
    );
}

#[test]
fn a_login_lasts_until_it_expires() {
    let mut server = state(Some("p"), false, 60);
    let start = 7 * NANOS_PER_SECOND;
    let reply = login(&mut server, "p", start);
    let cookie = pair(&reply);
    assert!(server.require_auth(Some(&cookie), start).is_ok());
    assert!(server.require_auth(Some(&cookie), start + 60 * NANOS_PER_SECOND - 1).is_ok());
    assert!(server.require_auth(Some(&cookie), start + 60 * NANOS_PER_SECOND).is_err());
    // It has been forgotten, and does not come back.
    assert!(server.require_auth(Some(&cookie), start).is_err());
}

#[test]
fn a_logout_ends_the_session_and_clears_the_cookie() {
    let mut server = state(Some("p"), false, 60);
    let first = pair(&login(&mut server, "p", 0));
    let second = pair(&login(&mut server, "p", 0));
    assert_ne!(first, second);
    let reply = server.logout(Some(&first));
    assert_eq!(
        reply.set_cookie.as_deref(),
        Some("meetily_session=; HttpOnly; Path=/; Max-Age=0")
    );
    assert_eq!(shown(&reply.body), shown(&Json::object().with("ok", Json::Bool(true))));
    assert!(server.require_auth(Some(&first), 1).is_err());
    assert!(server.require_auth(Some(&second), 1).is_ok());
    server.logout(None);
    assert!(server.require_auth(Some(&second), 1).is_ok());
}

#[test]
fn a_wrong_password_opens_nothing() {
    let mut server = state(Some("p"), false, 60);
    let error = server
        .login(&LoginRequest { password: "q".to_string() }, 0)
        .err()
        .expect("an error");
    assert_eq!((error.status, error.message.as_str()), (401, "Invalid password"));
    assert!(server.require_auth(Some("meetily_session="), 0).is_err());
}

#[test]
fn without_a_password_there_is_nothing_to_log_into() {
    let mut server = state(None, false, 60);
    let reply = login(&mut server, "anything", 0);
    assert!(reply.set_cookie.is_none());
    assert_eq!(
        shown(&reply.body),
        shown(
            &Json::object().with("ok", Json::Bool(true)).with("authRequired", Json::Bool(false))
        )
    );
    assert!(server.require_auth(None, 0).is_ok());
}

#[test]
fn a_restart_signs_everyone_out() {
    let mut server = state(Some("p"), false, 60);
    let cookie = pair(&login(&mut server, "p", 0));
    let mut restarted = state(Some("p"), false, 60);
    assert!(restarted.require_auth(Some(&cookie), 0).is_err());
    assert!(server.require_auth(Some(&cookie), 0).is_ok());
}

#[test]
fn the_status_says_who_is_logged_in() {
    let mut server = state(Some("p"), false, 60);
    let stranger = server.auth_status(None, 0);
    assert_eq!(
        shown(&stranger),
        shown(
            &Json::object()
                .with("authRequired", Json::Bool(true))
                .with("authenticated", Json::Bool(false))
        )
    );
    let cookie = pair(&login(&mut server, "p", 0));
    let user = server.auth_status(Some(&cookie), 1);
    assert_eq!(shown(&user.pick("authenticated")), shown(&Json::Bool(true)));
}

#[test]
fn an_expired_session_is_not_valid() {
    let mut server = state(Some("p"), false, 10);
    server.open_session("t".to_string(), 0);
    assert!(server.session_valid("t", 0));
    assert!(!server.session_valid("t", 10 * NANOS_PER_SECOND));
    assert!(!server.session_valid("t", 0));
    assert!(!server.session_valid("unknown", 0));
}

#[test]
fn session_cookies_are_printable() {
    let mut server = state(Some("p"), true, u64::MAX as u128);
    let reply = login(&mut server, "p", 0);
    let cookie = reply.set_cookie.expect("a cookie");
    assert!(cookie.chars().all(|c| (' '..='~').contains(&c)), "got {}", cookie);
    assert!(cookie.ends_with("Max-Age=18446744073709551615; Secure"));
}

#[test]
fn checking_changes_no_later_answer() {
    let mut server = state(Some("p"), false, 60);
    let early = pair(&login(&mut server, "p", 0));
    let late = pair(&login(&mut server, "p", 30 * NANOS_PER_SECOND));
    let then = 70 * NANOS_PER_SECOND;
    assert!(server.require_auth(Some(&early), then).is_err());
    assert!(server.require_auth(None, then).is_err());
    assert!(server.require_auth(Some("meetily_session=forged"), then).is_err());
    assert!(server.require_auth(Some(&late), then).is_ok());
}

#[test]
fn requests_pass_while_their_login_is_young() {
    let mut s = state(Some("secret"), false, 1);
    let first = pair(&login(&mut s, "secret", 0));
    let second = pair(&login(&mut s, "secret", 500));
    assert!(s.login(&LoginRequest { password: "wrong".to_string() }, 600).is_err());
    assert!(s.require_auth(Some(&first), NANOS_PER_SECOND - 1).is_ok());
    assert!(s.require_auth(Some(&first), NANOS_PER_SECOND).is_err());
    assert!(s.require_auth(Some(&second), NANOS_PER_SECOND).is_ok());
    s.logout(Some(&first));
    s.logout(None);
    assert!(s.require_auth(Some(&second), NANOS_PER_SECOND + 499).is_ok());
    let third = pair(&login(&mut s, "secret", NANOS_PER_SECOND + 499));
    assert!(s.require_auth(Some(&second), NANOS_PER_SECOND + 500).is_err());
    assert!(s.require_auth(Some(&third), NANOS_PER_SECOND + 500).is_ok());
    s.logout(Some(&third));
    assert!(s.require_auth(Some(&third), NANOS_PER_SECOND + 501).is_err());
    assert!(s.require_auth(None, NANOS_PER_SECOND + 501).is_err());
}
