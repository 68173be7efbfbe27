//! One shared password, login sessions held in memory, and the cookie that
//! carries them.

use vstd::prelude::*;

use crate::error::{ApiError, ApiErrorView, UNAUTHORIZED};
use crate::json::{fields_are_found_again, Json, JsonView};
use crate::outside::{lower_hex, random_bytes};
use crate::state::{ServerState, ServerView, NANOS_PER_SECOND};
use crate::text::{
    all_digits, chars_of, decimal, decimal_digits, decimals_read_back, digit, find_char, first_place,
    first_place_is_first, hex, hex_digits, join2, join3, number_in, owned, same_text, trim_between,
    trimmed, trimming_keeps_solid_text, white_space,
};
use vstd::string::*;
use vstd::utf8::*;

verus! {

pub const SESSION_COOKIE: &'static str = "meetily_session";

pub struct LoginRequest {
    pub password: String,
}

/// An answer with a body and, where the browser is to keep one, a cookie.
pub struct CookieReply {
    pub body: Json,
    pub set_cookie: Option<String>,
}

/// What a [`CookieReply`] holds.
pub struct CookieReplyView {
    pub body: JsonView,
    pub set_cookie: Option<Seq<char>>,
}

impl View for CookieReply {
    type V = CookieReplyView;

    open spec fn view(&self) -> CookieReplyView {
        CookieReplyView { body: self.body@, set_cookie: self.set_cookie.deep_view() }
    }
}

// ---------------------------------------------------------------------------
// Passwords and tokens
// ---------------------------------------------------------------------------

/// Whether two byte strings are the same, looking at every byte of two that are
/// equally long.
pub fn constant_time_eq(a: &[u8], b: &[u8]) -> (same: bool)
    ensures
        same == (a@ == b@),
{
    if a.len() != b.len() {
        return false;
    }
    let mut diff: u8 = 0u8;
    assert(a@.take(0) =~= b@.take(0));
    let mut i: usize = 0;
    while i < a.len()
        invariant
            a@.len() == b@.len(),
            i <= a@.len(),
            diff == 0 <==> a@.take(i as int) == b@.take(i as int),
        decreases a@.len() - i,
    {
        let x: u8 = a[i];
        let y: u8 = b[i];
        let next: u8 = diff | (x ^ y);
        assert((diff | (x ^ y)) == 0 <==> diff == 0 && x == y) by (bit_vector);
        proof {
            let n = i as int;
            assert(a@.take(n + 1) =~= a@.take(n).push(x));
            assert(b@.take(n + 1) =~= b@.take(n).push(y));
            if a@.take(n + 1) == b@.take(n + 1) {
                assert(a@.take(n + 1)[n] == b@.take(n + 1)[n]);
                assert(a@.take(n) =~= a@.take(n + 1).take(n));
                assert(b@.take(n) =~= b@.take(n + 1).take(n));
            }
        }
        diff = next;
        i += 1;
    }
    assert(a@.take(a@.len() as int) =~= a@);
    assert(b@.take(b@.len() as int) =~= b@);
    diff == 0
}

/// What every session token looks like: 64 lower-case hexadecimal digits.
pub open spec fn token_text(token: Seq<char>) -> bool {
    token.len() == 64 && forall|i: int| 0 <= i < token.len() ==> lower_hex(#[trigger] token[i])
}

/// The token that 32 random bytes make.
pub fn token_from(bytes: &[u8]) -> (token: String)
    requires
        bytes@.len() == 32,
    ensures
        token@ == hex_digits(bytes@),
        token_text(token@),
{
    let token = hex(bytes);
    proof {
        reveal_strlit("0123456789abcdef");
        assert forall|i: int| 0 <= i < token@.len() implies lower_hex(#[trigger] token@[i]) by {
            let d: int = if i % 2 == 0 {
                bytes@[i / 2] as int / 16
            } else {
                bytes@[i / 2] as int % 16
            };
            assert(0 <= d < 16);
            assert(token@[i] == digit(d));
        }
    }
    token
}

/// A session token that nobody can guess.
pub fn new_token() -> (token: String)
    ensures
        token_text(token@),
{
    let bytes = random_bytes();
    token_from(bytes.as_slice())
}

// ---------------------------------------------------------------------------
// Cookies
// ---------------------------------------------------------------------------

/// The value of the first `name=value` pair of a cookie header that has this
/// name, white space around either side aside. Pairs are separated by
/// semicolons; what has no equals sign is passed over.
pub open spec fn cookie_lookup(header: Seq<char>, name: Seq<char>) -> Option<Seq<char>>
    decreases header.len(),
{
    proof {
        first_place_is_first(header, ';');
    }
    let end = first_place(header, ';');
    let pair = header.subrange(0, end);
    let eq = first_place(pair, '=');
    if eq < pair.len() && trimmed(pair.subrange(0, eq)) == name {
        Some(trimmed(pair.subrange(eq + 1, pair.len() as int)))
    } else if end < header.len() {
        cookie_lookup(header.subrange(end + 1, header.len() as int), name)
    } else {
        None
    }
}

/// The value of the cookie `name` in a cookie header.
pub fn cookie_value(header: &str, name: &str) -> (value: Option<String>)
    ensures
        value.deep_view() == cookie_lookup(header@, name@),
{
    let chars = chars_of(header);
    let n: usize = chars.len();
    let mut from: usize = 0;
    assert(header@.subrange(0, header@.len() as int) =~= header@);
    loop
        invariant
            chars@ == header@,
            n == chars@.len(),
            from <= n,
            cookie_lookup(header@, name@) == cookie_lookup(
                header@.subrange(from as int, n as int),
                name@,
            ),
        decreases n - from,
    {
        let ghost rest = header@.subrange(from as int, n as int);
        proof {
            first_place_is_first(rest, ';');
        }
        let end: usize = find_char(chars.as_slice(), from, n, ';');
        let ghost pair = rest.subrange(0, end - from);
        assert(pair =~= chars@.subrange(from as int, end as int));
        let eq: usize = find_char(chars.as_slice(), from, end, '=');
        if eq < end {
            let key = trim_between(chars.as_slice(), from, eq);
            assert(pair.subrange(0, eq - from) =~= chars@.subrange(from as int, eq as int));
            if same_text(key.as_str(), name) {
                let value = trim_between(chars.as_slice(), eq + 1, end);
                assert(pair.subrange(eq - from + 1, pair.len() as int) =~= chars@.subrange(
                    eq + 1,
                    end as int,
                ));
                return Some(value);
            }
        }
        if end == n {
            return None;
        }
        assert(rest.subrange(end - from + 1, rest.len() as int) =~= header@.subrange(
            end + 1,
            n as int,
        ));
        from = end + 1;
    }
}

/// The cookie that opens a session.
pub open spec fn session_cookie(token: Seq<char>, ttl: u128, secure: bool) -> Seq<char> {
    let cookie = SESSION_COOKIE@ + "="@ + token + "; HttpOnly; SameSite=Lax; Path=/; Max-Age="@
        + decimal_digits((ttl / NANOS_PER_SECOND) as nat);
    if secure {
        cookie + "; Secure"@
    } else {
        cookie
    }
}

/// The cookie that makes the browser forget the session.
pub open spec fn cleared_cookie() -> Seq<char> {
    SESSION_COOKIE@ + "=; HttpOnly; Path=/; Max-Age=0"@
}

/// The session token in a request's cookie header, where there is one.
pub open spec fn sent_token(header: Option<Seq<char>>) -> Option<Seq<char>> {
    match header {
        Some(h) => cookie_lookup(h, SESSION_COOKIE@),
        None => None,
    }
}

fn session_token(header: Option<&str>) -> (token: Option<String>)
    ensures
        token.deep_view() == sent_token(
            match header {
                Some(h) => Some(h@),
                None => None,
            },
        ),
{
    match header {
        Some(h) => cookie_value(h, SESSION_COOKIE),
        None => None,
    }
}

// ---------------------------------------------------------------------------
// Sessions
// ---------------------------------------------------------------------------

impl ServerView {
    /// Whether a token opens the server at this time.
    pub open spec fn alive(self, token: Seq<char>, now: u128) -> bool {
        self.sessions.contains_key(token) && self.sessions[token] > now
    }

    /// The server once a token has been looked at: one that is not alive is
    /// forgotten.
    pub open spec fn looked_at(self, token: Seq<char>, now: u128) -> ServerView {
        if self.alive(token, now) {
            self
        } else {
            ServerView { sessions: self.sessions.remove(token), ..self }
        }
    }

    /// Whether a request with this cookie header is let through.
    pub open spec fn admits(self, header: Option<Seq<char>>, now: u128) -> bool {
        self.password is None || (sent_token(header) matches Some(token) && self.alive(token, now))
    }

    /// The server once a request with this cookie header has been checked.
    pub open spec fn checked(self, header: Option<Seq<char>>, now: u128) -> ServerView {
        if self.password is None {
            self
        } else {
            match sent_token(header) {
                Some(token) => self.looked_at(token, now),
                None => self,
            }
        }
    }

    /// The server once a session has been opened.
    pub open spec fn opened(self, token: Seq<char>, now: u128) -> ServerView {
        ServerView {
            sessions: self.sessions.insert(token, (now + self.session_ttl) as u128),
            ..self
        }
    }

    /// The server once a browser with this cookie header has logged out.
    pub open spec fn logged_out(self, header: Option<Seq<char>>) -> ServerView {
        match sent_token(header) {
            Some(token) => ServerView { sessions: self.sessions.remove(token), ..self },
            None => self,
        }
    }
}

/// The view of an optional header.
pub open spec fn header_view(header: Option<&str>) -> Option<Seq<char>> {
    match header {
        Some(h) => Some(h@),
        None => None,
    }
}

impl ServerState {
    /// Whether a session is still running. One that has expired is forgotten.
    pub fn session_valid(&mut self, token: &str, now: u128) -> (valid: bool)
        ensures
            valid == old(self)@.alive(token@, now),
            final(self)@ == old(self)@.looked_at(token@, now),
    {
        match self.find_expiry(token) {
            Some(expiry) => {
                if expiry > now {
                    true
                } else {
                    self.forget(token);
                    false
                }
            },
            None => {
                assert(self@.sessions.remove(token@) =~= self@.sessions);
                false
            },
        }
    }

    /// Opens a session under a token, from now on for as long as sessions last.
    pub fn open_session(&mut self, token: String, now: u128) -> (reply: CookieReply)
        requires
            now + old(self)@.session_ttl <= u128::MAX,
        ensures
            final(self)@ == old(self)@.opened(token@, now),
            reply@ == (CookieReplyView {
                body: JsonView::object().with("ok"@, JsonView::Bool(true)),
                set_cookie: Some(
                    session_cookie(token@, old(self)@.session_ttl, old(self)@.cookie_secure),
                ),
            }),
    {
        let ttl: u128 = self.ttl();
        let mut cookie = join3(SESSION_COOKIE, "=", token.as_str());
        cookie.append("; HttpOnly; SameSite=Lax; Path=/; Max-Age=");
        cookie.append(decimal(ttl / NANOS_PER_SECOND).as_str());
        if self.secure() {
            cookie.append("; Secure");
        }
        self.remember(token, now + ttl);
        CookieReply {
            body: Json::object().with("ok", Json::Bool(true)),
            set_cookie: Some(cookie),
        }
    }

    /// Logs a browser in where it sends the password. Without a password there is
    /// nothing to log into.
    pub fn login(&mut self, body: &LoginRequest, now: u128) -> (reply: Result<
        CookieReply,
        ApiError,
    >)
        requires
            now + old(self)@.session_ttl <= u128::MAX,
        ensures
            match old(self)@.password {
                None => {
                    &&& reply matches Ok(r)
                    &&& r@.body == JsonView::object().with("ok"@, JsonView::Bool(true)).with(
                        "authRequired"@,
                        JsonView::Bool(false),
                    )
                    &&& r@.set_cookie is None
                    &&& final(self)@ == old(self)@
                },
                Some(expected) => if body.password@ == expected {
                    exists|token: Seq<char>| #[trigger]
                        token_text(token) && {
                            &&& reply matches Ok(r)
                            &&& r@ == (CookieReplyView {
                                body: JsonView::object().with("ok"@, JsonView::Bool(true)),
                                set_cookie: Some(
                                    session_cookie(
                                        token,
                                        old(self)@.session_ttl,
                                        old(self)@.cookie_secure,
                                    ),
                                ),
                            })
                            &&& final(self)@ == old(self)@.opened(token, now)
                        }
                } else {
                    &&& reply matches Err(e)
                    &&& e@ == (ApiErrorView {
                        status: UNAUTHORIZED,
                        message: "Invalid password"@,
                    })
                    &&& final(self)@ == old(self)@
                },
            },
            exists|token: Seq<char>| #[trigger]
                token_text(token) && final(self)@ == old(self)@.visited(
                    Visit::Login { password: body.password@, token, now },
                ) && login_view(reply) == old(self)@.login_answer(body.password@, token),
    {
        proof {
            let token = Seq::new(64, |i: int| 'a');
            assert(token_text(token));
        }
        match self.password_matches(body.password.as_str()) {
            None => Ok(
                CookieReply {
                    body: Json::object().with("ok", Json::Bool(true)).with(
                        "authRequired",
                        Json::Bool(false),
                    ),
                    set_cookie: None,
                },
            ),
            Some(true) => {
                let token = new_token();
                Ok(self.open_session(token, now))
            },
            Some(false) => Err(ApiError::new(UNAUTHORIZED, owned("Invalid password"))),
        }
    }

    /// Whether `given` is the password, where there is one.
    fn password_matches(&self, given: &str) -> (same: Option<bool>)
        ensures
            same == match self@.password {
                Some(expected) => Some(given@ == expected),
                None => None,
            },
    {
        match self.password() {
            Some(expected) => {
                let same = constant_time_eq(given.as_bytes(), expected.as_str().as_bytes());
                proof {
                    encode_utf8_decode_utf8(given@);
                    encode_utf8_decode_utf8(expected@);
                }
                Some(same)
            },
            None => None,
        }
    }

    /// Logs a browser out: its session ends and its cookie is cleared.
    pub fn logout(&mut self, header: Option<&str>) -> (reply: CookieReply)
        ensures
            final(self)@ == old(self)@.logged_out(header_view(header)),
            final(self)@ == old(self)@.visited(Visit::Logout { header: header_view(header) }),
            reply@ == (CookieReplyView {
                body: JsonView::object().with("ok"@, JsonView::Bool(true)),
                set_cookie: Some(cleared_cookie()),
            }),
    {
        if let Some(token) = session_token(header) {
            self.forget(token.as_str());
        }
        CookieReply {
            body: Json::object().with("ok", Json::Bool(true)),
            set_cookie: Some(join2(SESSION_COOKIE, "=; HttpOnly; Path=/; Max-Age=0")),
        }
    }

    /// Whether a request is let through, and what is forgotten on the way.
    fn let_through(&mut self, header: Option<&str>, now: u128) -> (ok: bool)
        ensures
            ok == old(self)@.admits(header_view(header), now),
            final(self)@ == old(self)@.checked(header_view(header), now),
    {
        if !self.auth_required() {
            return true;
        }
        match session_token(header) {
            Some(token) => self.session_valid(token.as_str(), now),
            None => false,
        }
    }

    /// What a browser is told of its login.
    pub fn auth_status(&mut self, header: Option<&str>, now: u128) -> (status: Json)
        ensures
            status@ == JsonView::object().with(
                "authRequired"@,
                JsonView::Bool(old(self)@.password is Some),
            ).with("authenticated"@, JsonView::Bool(old(self)@.admits(header_view(header), now))),
            status@ == old(self)@.login_status(header_view(header), now),
            final(self)@ == old(self)@.checked(header_view(header), now),
    {
        let required = self.auth_required();
        let authenticated = self.let_through(header, now);
        Json::object().with("authRequired", Json::Bool(required)).with(
            "authenticated",
            Json::Bool(authenticated),
        )
    }

    /// Lets a request through, or answers that its sender is not logged in.
    pub fn require_auth(&mut self, header: Option<&str>, now: u128) -> (pass: Result<(), ApiError>)
        ensures
            match pass {
                Ok(_) => old(self)@.admits(header_view(header), now),
                Err(e) => !old(self)@.admits(header_view(header), now) && e@ == (ApiErrorView {
                    status: UNAUTHORIZED,
                    message: "Not authenticated"@,
                }),
            },
            final(self)@ == old(self)@.checked(header_view(header), now),
    {
        if self.let_through(header, now) {
            Ok(())
        } else {
            Err(ApiError::new(UNAUTHORIZED, owned("Not authenticated")))
        }
    }
}

// ---------------------------------------------------------------------------
// Laws
// ---------------------------------------------------------------------------

/// What a browser sends back of a cookie that it was given: the pair in front of
/// the first semicolon.
pub open spec fn returned_pair(cookie: Seq<char>) -> Seq<char> {
    cookie.subrange(0, first_place(cookie, ';'))
}

proof fn lemma_first_place_at(s: Seq<char>, c: char, at: int)
    requires
        0 <= at < s.len(),
        s[at] == c,
        forall|i: int| 0 <= i < at ==> #[trigger] s[i] != c,
    ensures
        first_place(s, c) == at,
{
    first_place_is_first(s, c);
    let p = first_place(s, c);
    if p < at {
        assert(s[p] != c);
    } else if at < p {
        assert(s[at] != c);
    }
}

/// The token is read back from the cookie that carries it: what the browser
/// returns of a session cookie holds exactly the token that was put in.
pub proof fn session_cookie_returns_its_token(token: Seq<char>, ttl: u128, secure: bool)
    requires
        token_text(token),
    ensures
        cookie_lookup(returned_pair(session_cookie(token, ttl, secure)), SESSION_COOKIE@) == Some(
            token,
        ),
{
    reveal_strlit("meetily_session");
    reveal_strlit("=");
    reveal_strlit("; HttpOnly; SameSite=Lax; Path=/; Max-Age=");
    let name = SESSION_COOKIE@;
    let cookie = session_cookie(token, ttl, secure);
    let pair = name + "="@ + token;
    assert(name.len() == 15);
    assert(forall|i: int| 0 <= i < 15 ==> cookie[i] == #[trigger] name[i]);
    assert(cookie[15] == '=');
    assert forall|i: int| 0 <= i < 64 implies cookie[16 + i] == #[trigger] token[i] by {}
    assert(cookie[80] == ';');
    assert forall|i: int| 0 <= i < 80 implies #[trigger] cookie[i] != ';' by {
        if i < 15 {
            assert(cookie[i] == name[i]);
        } else if i > 15 {
            assert(cookie[16 + (i - 16)] == token[i - 16]);
        }
    }
    lemma_first_place_at(cookie, ';', 80);
    assert(returned_pair(cookie) =~= pair);
    assert forall|i: int| 0 <= i < pair.len() implies #[trigger] pair[i] != ';' by {
        assert(pair[i] == cookie[i]);
    }
    first_place_is_first(pair, ';');
    assert(first_place(pair, ';') == pair.len());
    assert(pair.subrange(0, pair.len() as int) =~= pair);
    assert forall|i: int| 0 <= i < 15 implies #[trigger] pair[i] != '=' by {
        assert(pair[i] == name[i]);
    }
    lemma_first_place_at(pair, '=', 15);
    assert(pair.subrange(0, 15) =~= name);
    assert(pair.subrange(16, pair.len() as int) =~= token);
    assert forall|i: int| 0 <= i < name.len() implies !white_space(#[trigger] name[i]) by {}
    trimming_keeps_solid_text(name);
    assert forall|i: int| 0 <= i < token.len() implies !white_space(#[trigger] token[i]) by {}
    trimming_keeps_solid_text(token);
}

/// A printable ASCII character, of which a header value may be made.
pub open spec fn printable_ascii(c: char) -> bool {
    ' ' <= c && c <= '~'
}

proof fn lemma_decimal_digits_printable(n: nat)
    ensures
        forall|i: int|
            0 <= i < decimal_digits(n).len() ==> printable_ascii(#[trigger] decimal_digits(n)[i]),
    decreases n,
{
    reveal_strlit("0123456789abcdef");
    let last = (n % 10) as int;
    assert(printable_ascii(digit(last))) by {
        assert(last == 0 || last == 1 || last == 2 || last == 3 || last == 4 || last == 5 || last
            == 6 || last == 7 || last == 8 || last == 9);
    }
    if n >= 10 {
        lemma_decimal_digits_printable(n / 10);
        let front = decimal_digits(n / 10);
        assert forall|i: int| 0 <= i < decimal_digits(n).len() implies printable_ascii(
            #[trigger] decimal_digits(n)[i],
        ) by {
            if i < front.len() {
                assert(decimal_digits(n)[i] == front[i]);
            }
        }
    }
}

/// Every session cookie is made of printable ASCII characters, so it is always a
/// legal header value.
pub proof fn session_cookies_are_printable(token: Seq<char>, ttl: u128, secure: bool)
    requires
        token_text(token),
    ensures
        forall|i: int|
            0 <= i < session_cookie(token, ttl, secure).len() ==> printable_ascii(
                #[trigger] session_cookie(token, ttl, secure)[i],
            ),
{
    reveal_strlit("meetily_session");
    reveal_strlit("=");
    reveal_strlit("; HttpOnly; SameSite=Lax; Path=/; Max-Age=");
    reveal_strlit("; Secure");
    let digits = decimal_digits((ttl / NANOS_PER_SECOND) as nat);
    lemma_decimal_digits_printable((ttl / NANOS_PER_SECOND) as nat);
    let head = SESSION_COOKIE@ + "="@;
    let attributes = "; HttpOnly; SameSite=Lax; Path=/; Max-Age="@;
    assert forall|i: int| 0 <= i < session_cookie(token, ttl, secure).len() implies printable_ascii(
        #[trigger] session_cookie(token, ttl, secure)[i],
    ) by {
        let a = head.len() as int;
        let b = a + token.len();
        let c = b + attributes.len();
        let d = c + digits.len();
        if i < a {
        } else if i < b {
            assert(session_cookie(token, ttl, secure)[i] == token[i - a]);
        } else if i < c {
            assert(session_cookie(token, ttl, secure)[i] == attributes[i - b]);
        } else if i < d {
            assert(session_cookie(token, ttl, secure)[i] == digits[i - c]);
        } else {
            assert(session_cookie(token, ttl, secure)[i] == "; Secure"@[i - d]);
        }
    }
}

/// A login opens the server to the browser that keeps its cookie, for as long as
/// sessions last and no longer.
pub proof fn a_login_lasts_until_it_expires(
    server: ServerView,
    token: Seq<char>,
    now: u128,
    later: u128,
)
    requires
        server.password is Some,
        token_text(token),
        now + server.session_ttl <= u128::MAX,
    ensures
        ({
            let cookie = session_cookie(token, server.session_ttl, server.cookie_secure);
            server.opened(token, now).admits(Some(returned_pair(cookie)), later) <==> later < now
                + server.session_ttl
        }),
{
    session_cookie_returns_its_token(token, server.session_ttl, server.cookie_secure);
}

/// A visit of a browser, with the time at which it comes where that matters.
pub enum Visit {
    /// It sends a password. `token` is what its session is to be known by.
    Login { password: Seq<char>, token: Seq<char>, now: u128 },
    /// It logs out.
    Logout { header: Option<Seq<char>> },
    /// It sends a request, which is checked.
    Request { header: Option<Seq<char>>, now: u128 },
}

impl ServerView {
    /// The server after a visit. A login with another password changes nothing.
    pub open spec fn visited(self, visit: Visit) -> ServerView {
        match visit {
            Visit::Login { password, token, now } => if self.password == Some(password) {
                self.opened(token, now)
            } else {
                self
            },
            Visit::Logout { header } => self.logged_out(header),
            Visit::Request { header, now } => self.checked(header, now),
        }
    }
}

/// The server after these visits.
pub open spec fn after_visits(server: ServerView, visits: Seq<Visit>) -> ServerView
    decreases visits.len(),
{
    if visits.len() == 0 {
        server
    } else {
        after_visits(server, visits.drop_last()).visited(visits.last())
    }
}

/// When the last login came that opened a session under this token, unless a logout has
/// removed it since.
pub open spec fn login_of(
    expected: Option<Seq<char>>,
    visits: Seq<Visit>,
    token: Seq<char>,
) -> Option<u128>
    decreases visits.len(),
{
    if visits.len() == 0 {
        None
    } else {
        let before = login_of(expected, visits.drop_last(), token);
        match visits.last() {
            Visit::Login { password, token: opened, now } => if expected == Some(password)
                && opened == token {
                Some(now)
            } else {
                before
            },
            Visit::Logout { header } => if sent_token(header) == Some(token) {
                None
            } else {
                before
            },
            Visit::Request { .. } => before,
        }
    }
}

/// Whether a visit comes at `later` at the latest, and the end of a session that it opens
/// can be counted.
pub open spec fn came_by(visit: Visit, session_ttl: u128, later: u128) -> bool {
    match visit {
        Visit::Login { now, .. } => now <= later && now + session_ttl <= u128::MAX,
        Visit::Logout { .. } => true,
        Visit::Request { now, .. } => now <= later,
    }
}

proof fn lemma_sessions_after_visits(
    server: ServerView,
    visits: Seq<Visit>,
    token: Seq<char>,
    later: u128,
)
    requires
        server.password is Some,
        server.sessions == Map::<Seq<char>, u128>::empty(),
        forall|i: int|
            0 <= i < visits.len() ==> came_by(#[trigger] visits[i], server.session_ttl, later),
    ensures
        after_visits(server, visits).password == server.password,
        after_visits(server, visits).session_ttl == server.session_ttl,
        ({
            let sessions = after_visits(server, visits).sessions;
            match login_of(server.password, visits, token) {
                Some(now) => if sessions.contains_key(token) {
                    sessions[token] == now + server.session_ttl
                } else {
                    now + server.session_ttl <= later
                },
                None => !sessions.contains_key(token),
            }
        }),
    decreases visits.len(),
{
    if visits.len() > 0 {
        assert forall|i: int| 0 <= i < visits.drop_last().len() implies came_by(
            #[trigger] visits.drop_last()[i],
            server.session_ttl,
            later,
        ) by {
            assert(came_by(visits[i], server.session_ttl, later));
        }
        lemma_sessions_after_visits(server, visits.drop_last(), token, later);
        assert(came_by(visits[visits.len() - 1], server.session_ttl, later));
    }
}

/// Whatever logins, logouts and requests there were since the server started, a request
/// is let through exactly while the login that its token comes from is younger than
/// sessions last, and no logout has removed the token since.
pub proof fn requests_pass_while_their_login_is_young(
    server: ServerView,
    visits: Seq<Visit>,
    header: Option<Seq<char>>,
    later: u128,
)
    requires
        server.password is Some,
        server.sessions == Map::<Seq<char>, u128>::empty(),
        forall|i: int|
            0 <= i < visits.len() ==> came_by(#[trigger] visits[i], server.session_ttl, later),
    ensures
        after_visits(server, visits).admits(header, later) <==> match sent_token(header) {
            Some(token) => match login_of(server.password, visits, token) {
                Some(now) => later < now + server.session_ttl,
                None => false,
            },
            None => false,
        },
{
    match sent_token(header) {
        Some(token) => {
            lemma_sessions_after_visits(server, visits, token, later);
        },
        None => {
            lemma_sessions_after_visits(server, visits, Seq::empty(), later);
        },
    }
}

/// Once a browser has logged out, its cookie is worth nothing any more.
pub proof fn a_logout_ends_the_session(
    server: ServerView,
    header: Option<Seq<char>>,
    later: u128,
)
    requires
        server.password is Some,
    ensures
        !server.logged_out(header).admits(header, later),
{
}

/// Without a password everyone is let in.
pub proof fn without_a_password_everyone_is_let_in(
    server: ServerView,
    header: Option<Seq<char>>,
    now: u128,
)
    requires
        server.password is None,
    ensures
        server.admits(header, now),
{
}

/// Sessions live in memory alone: a server that has just started, with a
/// password, lets nobody in, whatever cookie is sent.
pub proof fn a_restart_signs_everyone_out(
    server: ServerView,
    header: Option<Seq<char>>,
    now: u128,
)
    requires
        server.password is Some,
        server.sessions == Map::<Seq<char>, u128>::empty(),
    ensures
        !server.admits(header, now),
{
}

/// Opening a session leaves every other one as it was.
pub proof fn sessions_are_independent(
    server: ServerView,
    token: Seq<char>,
    other: Seq<char>,
    now: u128,
    later: u128,
)
    requires
        token != other,
    ensures
        server.opened(token, now).alive(other, later) == server.alive(other, later),
{
}

/// Checking one request never changes the answer to a later one: only sessions
/// that have expired are forgotten.
pub proof fn checking_changes_no_later_answer(
    server: ServerView,
    first: Option<Seq<char>>,
    second: Option<Seq<char>>,
    now: u128,
    later: u128,
)
    requires
        now <= later,
    ensures
        server.checked(first, now).admits(second, later) == server.admits(second, later),
{
}

/// A session cookie names the session, lives as long as the session does, is not shown to
/// scripts, is sent to this site alone, and over TLS alone where that is asked for.
pub proof fn session_cookies_say_how_long_they_live(token: Seq<char>, ttl: u128, secure: bool)
    ensures
        exists|seconds: Seq<char>|
            {
                &&& #[trigger] all_digits(seconds)
                &&& number_in(seconds) == ttl as int / 1_000_000_000
                &&& session_cookie(token, ttl, secure) == "meetily_session"@ + "="@ + token
                    + "; HttpOnly; SameSite=Lax; Path=/; Max-Age="@ + seconds + if secure {
                    "; Secure"@
                } else {
                    Seq::empty()
                }
            },
{
    let seconds = decimal_digits((ttl / NANOS_PER_SECOND) as nat);
    decimals_read_back((ttl / NANOS_PER_SECOND) as nat);
    assert(all_digits(seconds));
    assert(session_cookie(token, ttl, secure) =~= "meetily_session"@ + "="@ + token
        + "; HttpOnly; SameSite=Lax; Path=/; Max-Age="@ + seconds + if secure {
        "; Secure"@
    } else {
        Seq::empty()
    });
}

/// Whether a character stands nowhere in a text.
pub open spec fn free_of(text: Seq<char>, c: char) -> bool {
    forall|i: int| 0 <= i < text.len() ==> #[trigger] text[i] != c
}

proof fn lemma_first_place_free(s: Seq<char>, c: char)
    requires
        free_of(s, c),
    ensures
        first_place(s, c) == s.len(),
{
    first_place_is_first(s, c);
    if first_place(s, c) < s.len() {
        assert(s[first_place(s, c)] == c);
    }
}

/// The cookies in a header are looked through from the first to the last, and the first of
/// a name counts.
pub proof fn cookies_are_looked_through_in_order(
    pair: Seq<char>,
    rest: Seq<char>,
    name: Seq<char>,
)
    requires
        free_of(pair, ';'),
    ensures
        cookie_lookup(pair + ";"@ + rest, name) == match cookie_lookup(pair, name) {
            Some(value) => Some(value),
            None => cookie_lookup(rest, name),
        },
{
    reveal_strlit(";");
    let header = pair + ";"@ + rest;
    let n = pair.len() as int;
    assert forall|i: int| 0 <= i < n implies #[trigger] header[i] != ';' by {
        assert(pair[i] == header[i]);
    }
    lemma_first_place_at(header, ';', n);
    lemma_first_place_free(pair, ';');
    assert(header.subrange(0, n) =~= pair);
    assert(pair.subrange(0, n) =~= pair);
    assert(header.subrange(n + 1, header.len() as int) =~= rest);
}

/// A cookie is found under its own name, with its own value, white space aside; what has no
/// equals sign is none.
pub proof fn cookies_are_found_by_their_name(
    key: Seq<char>,
    value: Seq<char>,
    name: Seq<char>,
)
    requires
        free_of(key, ';'),
        free_of(key, '='),
        free_of(value, ';'),
    ensures
        cookie_lookup(key + "="@ + value, name) == if trimmed(key) == name {
            Some(trimmed(value))
        } else {
            None
        },
        cookie_lookup(key, name) is None,
{
    reveal_strlit("=");
    let pair = key + "="@ + value;
    let n = key.len() as int;
    assert(free_of(pair, ';')) by {
        assert forall|i: int| 0 <= i < pair.len() implies #[trigger] pair[i] != ';' by {
            if i < n {
                assert(pair[i] == key[i]);
            } else if i > n {
                assert(pair[i] == value[i - n - 1]);
            }
        }
    }
    lemma_first_place_free(pair, ';');
    assert(pair.subrange(0, pair.len() as int) =~= pair);
    assert forall|i: int| 0 <= i < n implies #[trigger] pair[i] != '=' by {
        assert(pair[i] == key[i]);
    }
    lemma_first_place_at(pair, '=', n);
    assert(pair.subrange(0, n) =~= key);
    assert(pair.subrange(n + 1, pair.len() as int) =~= value);
    lemma_first_place_free(key, ';');
    lemma_first_place_free(key, '=');
    assert(key.subrange(0, n) =~= key);
}

/// The cookie that is sent at a logout has the name of the session's, no value, and is over
/// at once.
pub proof fn cleared_cookies_are_over_at_once()
    ensures
        cleared_cookie() == "meetily_session"@ + "=; HttpOnly; Path=/; Max-Age=0"@,
        sent_token(Some(returned_pair(cleared_cookie()))) == Some(Seq::<char>::empty()),
{
    reveal_strlit("meetily_session");
    reveal_strlit("=; HttpOnly; Path=/; Max-Age=0");
    reveal_strlit("=");
    let cookie = cleared_cookie();
    let key = SESSION_COOKIE@;
    let none = Seq::<char>::empty();
    assert forall|i: int| 0 <= i < 16 implies #[trigger] cookie[i] != ';' by {
        if i < 15 {
            assert(cookie[i] == key[i]);
        }
    }
    lemma_first_place_at(cookie, ';', 16);
    assert(returned_pair(cookie) =~= key + "="@ + none);
    assert(free_of(key, ';') && free_of(key, '=')) by {
        assert forall|i: int| 0 <= i < key.len() implies #[trigger] key[i] != ';' && key[i]
            != '=' by {}
    }
    assert forall|i: int| 0 <= i < key.len() implies !white_space(#[trigger] key[i]) by {}
    trimming_keeps_solid_text(key);
    trimming_keeps_solid_text(none);
    cookies_are_found_by_their_name(key, none, key);
}

/// What a login is answered with.
pub open spec fn login_view(reply: Result<CookieReply, ApiError>) -> Result<
    CookieReplyView,
    ApiErrorView,
> {
    match reply {
        Ok(r) => Ok(r@),
        Err(e) => Err(e@),
    }
}

impl ServerView {
    /// What a login with a password is answered with. `token` is what its session is to be
    /// known by.
    pub open spec fn login_answer(self, password: Seq<char>, token: Seq<char>) -> Result<
        CookieReplyView,
        ApiErrorView,
    > {
        match self.password {
            None => Ok(
                CookieReplyView {
                    body: JsonView::object().with("ok"@, JsonView::Bool(true)).with(
                        "authRequired"@,
                        JsonView::Bool(false),
                    ),
                    set_cookie: None,
                },
            ),
            Some(expected) => if password == expected {
                Ok(
                    CookieReplyView {
                        body: JsonView::object().with("ok"@, JsonView::Bool(true)),
                        set_cookie: Some(
                            session_cookie(token, self.session_ttl, self.cookie_secure),
                        ),
                    },
                )
            } else {
                Err(ApiErrorView { status: UNAUTHORIZED, message: "Invalid password"@ })
            },
        }
    }

    /// What a browser is told of its login.
    pub open spec fn login_status(self, header: Option<Seq<char>>, now: u128) -> JsonView {
        JsonView::object().with("authRequired"@, JsonView::Bool(self.password is Some)).with(
            "authenticated"@,
            JsonView::Bool(self.admits(header, now)),
        )
    }
}

/// Who sends the password, the whole of it and nothing else, is given a cookie that lets
/// them in; who sends anything else is turned away, and gets none.
pub proof fn the_password_lets_in(
    server: ServerView,
    password: Seq<char>,
    token: Seq<char>,
    now: u128,
    later: u128,
)
    requires
        token_text(token),
        server.sessions == Map::<Seq<char>, u128>::empty(),
        now + server.session_ttl <= u128::MAX,
        now <= later < now + server.session_ttl,
    ensures
        server.password matches Some(expected) ==> {
            let after = server.visited(Visit::Login { password, token, now });
            if password == expected {
                server.login_answer(password, token) matches Ok(reply) && (
                reply.set_cookie matches Some(cookie) && after.admits(
                    Some(returned_pair(cookie)),
                    later,
                )) && reply.body.get("ok"@) == Some(JsonView::Bool(true))
            } else {
                &&& after == server
                &&& server.login_answer(password, token) matches Err(e) && e.status == 401
                    && e.message == "Invalid password"@
            }
        },
        server.password is None ==> (server.login_answer(password, token) matches Ok(reply)
            && reply.set_cookie is None && reply.body.get("authRequired"@) == Some(
            JsonView::Bool(false),
        )),
{
    session_cookie_returns_its_token(token, server.session_ttl, server.cookie_secure);
    reveal_strlit("ok");
    reveal_strlit("authRequired");
    assert("ok"@.len() == 2 && "authRequired"@.len() == 12);
    let o0 = JsonView::object();
    let o1 = o0.with("ok"@, JsonView::Bool(true));
    fields_are_found_again(o0, "ok"@, JsonView::Bool(true));
    fields_are_found_again(o1, "authRequired"@, JsonView::Bool(false));
}

/// A browser is told whether a password is asked for, and whether it is let in.
pub proof fn browsers_are_told_whether_they_are_let_in(
    server: ServerView,
    header: Option<Seq<char>>,
    now: u128,
)
    ensures
        server.login_status(header, now).get("authRequired"@) == Some(
            JsonView::Bool(server.password is Some),
        ),
        server.login_status(header, now).get("authenticated"@) == Some(
            JsonView::Bool(server.admits(header, now)),
        ),
{
    reveal_strlit("authRequired");
    reveal_strlit("authenticated");
    assert("authRequired"@.len() == 12 && "authenticated"@.len() == 13);
    let o0 = JsonView::object();
    let o1 = o0.with("authRequired"@, JsonView::Bool(server.password is Some));
    fields_are_found_again(o0, "authRequired"@, JsonView::Bool(server.password is Some));
    fields_are_found_again(o1, "authenticated"@, JsonView::Bool(server.admits(header, now)));
}

} // verus!
