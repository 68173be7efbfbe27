//! The calls into other crates: random numbers, fresh identifiers, the local
//! time and the concurrent maps that hold sessions and recordings.

use dashmap::DashMap;
use vstd::prelude::*;

verus! {

// ---------------------------------------------------------------------------
// Chance and time
// ---------------------------------------------------------------------------

/// `rand::random` for an array of 32 bytes. Which bytes come back is left to
/// chance: nothing is claimed of them but their number.
#[verifier::external_body]
pub(crate) fn random_bytes() -> (bytes: Vec<u8>)
    ensures
        bytes@.len() == 32,
{
    rand::random::<[u8; 32]>().to_vec()
}

/// A lower-case hexadecimal digit.
pub open spec fn lower_hex(c: char) -> bool {
    ('0' <= c && c <= '9') || ('a' <= c && c <= 'f')
}

/// The text of a version 4 UUID: 36 characters, hyphens after eight, twelve,
/// sixteen and twenty digits, the version and the variant in their places, and
/// lower-case hexadecimal digits elsewhere.
pub open spec fn uuid_text(s: Seq<char>) -> bool {
    &&& s.len() == 36
    &&& forall|i: int|
        0 <= i < 36 ==> if i == 8 || i == 13 || i == 18 || i == 23 {
            #[trigger] s[i] == '-'
        } else {
            lower_hex(s[i])
        }
    &&& s[14] == '4'
    &&& (s[19] == '8' || s[19] == '9' || s[19] == 'a' || s[19] == 'b')
}

/// `uuid::Uuid::new_v4`, printed. Its digits are left to chance; what is
/// claimed is the shape that every such identifier prints in.
#[verifier::external_body]
pub(crate) fn fresh_uuid() -> (id: String)
    ensures
        uuid_text(id@),
{
    uuid::Uuid::new_v4().to_string()
}

/// A decimal digit.
pub open spec fn decimal_digit(c: char) -> bool {
    '0' <= c && c <= '9'
}

/// Pairs of decimal digits, `pairs` of them, with `separator` between them.
pub open spec fn digit_pairs(s: Seq<char>, pairs: int, separator: char) -> bool {
    &&& s.len() == 3 * pairs - 1
    &&& forall|i: int|
        0 <= i < s.len() ==> if i % 3 == 2 {
            #[trigger] s[i] == separator
        } else {
            decimal_digit(s[i])
        }
}

/// The local date and time, as meeting names carry it.
pub const STAMP_FORMAT: &'static str = "%d_%m_%y_%H_%M_%S";

/// The local time of day.
pub const CLOCK_FORMAT: &'static str = "%H:%M:%S";

/// `chrono::Local::now`, formatted. What time it is the machine decides; each
/// of the two formats prints as pairs of digits: day, month, year, hour, minute
/// and second with underscores, or hour, minute and second with colons.
#[verifier::external_body]
pub(crate) fn local_time(format: &str) -> (now: String)
    requires
        format@ == STAMP_FORMAT@ || format@ == CLOCK_FORMAT@,
    ensures
        format@ == STAMP_FORMAT@ ==> digit_pairs(now@, 6, '_'),
        format@ == CLOCK_FORMAT@ ==> digit_pairs(now@, 3, ':'),
{
    chrono::Local::now().format(format).to_string()
}

// ---------------------------------------------------------------------------
// Concurrent maps
// ---------------------------------------------------------------------------

/// `dashmap::DashMap`, opaque. It is reached through the functions below alone.
#[verifier::external_type_specification]
#[verifier::external_body]
#[verifier::reject_recursive_types(K)]
#[verifier::reject_recursive_types(V)]
#[verifier::reject_recursive_types(S)]
pub struct ExDashMap<K, V, S>(dashmap::DashMap<K, V, S>);

/// What the map of login sessions holds: tokens, each with the time at which it
/// expires.
pub uninterp spec fn session_entries(sessions: DashMap<String, u128>) -> Map<Seq<char>, u128>;

/// `DashMap::new`: an empty map.
#[verifier::external_body]
pub(crate) fn new_sessions() -> (sessions: DashMap<String, u128>)
    ensures
        (session_entries(sessions) == Map::<Seq<char>, u128>::empty()),
{
    DashMap::new()
}

/// `DashMap::insert`: the token now maps to `expiry`, whatever it mapped to
/// before, and no other token is touched. The map is borrowed for itself alone,
/// so no other thread holds a reference into it.
#[verifier::external_body]
pub(crate) fn insert_session(sessions: &mut DashMap<String, u128>, token: String, expiry: u128)
    ensures
        session_entries(*final(sessions)) == session_entries(*old(sessions)).insert(
            token@,
            expiry,
        ),
{
    sessions.insert(token, expiry);
}

/// `DashMap::get`: the value under the token, where there is one.
#[verifier::external_body]
pub(crate) fn find_session(sessions: &DashMap<String, u128>, token: &str) -> (expiry: Option<u128>)
    ensures
        expiry == if session_entries(*sessions).contains_key(token@) {
            Some(session_entries(*sessions)[token@])
        } else {
            None
        },
{
    sessions.get(token).map(|entry| *entry.value())
}

/// `DashMap::remove`: the token is gone, and no other token is touched. The map
/// is borrowed for itself alone.
#[verifier::external_body]
pub(crate) fn remove_session(sessions: &mut DashMap<String, u128>, token: &str)
    ensures
        session_entries(*final(sessions)) == session_entries(*old(sessions)).remove(token@),
{
    sessions.remove(token);
}

/// What the map of running recordings holds: session ids, each with the name of
/// its meeting.
pub uninterp spec fn live_entries(live: DashMap<String, String>) -> Map<Seq<char>, Seq<char>>;

/// `DashMap::new`: an empty map.
#[verifier::external_body]
pub(crate) fn new_live() -> (live: DashMap<String, String>)
    ensures
        (live_entries(live) == Map::<Seq<char>, Seq<char>>::empty()),
{
    DashMap::new()
}

/// `DashMap::insert`: the id now maps to the name, whatever it mapped to before,
/// and no other id is touched. The map is borrowed for itself alone.
#[verifier::external_body]
pub(crate) fn insert_live(live: &mut DashMap<String, String>, id: String, name: String)
    ensures
        live_entries(*final(live)) == live_entries(*old(live)).insert(id@, name@),
{
    live.insert(id, name);
}

/// `DashMap::get`: the name under the id, where there is one.
#[verifier::external_body]
pub(crate) fn find_live(live: &DashMap<String, String>, id: &str) -> (name: Option<String>)
    ensures
        match name {
            Some(n) => live_entries(*live).contains_key(id@) && n@ == live_entries(*live)[id@],
            None => !live_entries(*live).contains_key(id@),
        },
{
    live.get(id).map(|entry| entry.value().clone())
}

/// `DashMap::remove`: the id is gone, and no other id is touched. The map is
/// borrowed for itself alone.
#[verifier::external_body]
pub(crate) fn remove_live(live: &mut DashMap<String, String>, id: &str)
    ensures
        live_entries(*final(live)) == live_entries(*old(live)).remove(id@),
{
    live.remove(id);
}

} // verus!
