//! Path components, paths, texts and numbers.

use meetily_server::imports::format_clock;
use meetily_server::paths::{join_path, sanitize_path_component};
use meetily_server::state::{ServerConfig, ServerState};
use meetily_server::text::{
    decimal, decimal2, hex, is_blank, is_white_space, starts_with, to_lower_case, trim,
    trim_end_matches, trim_matches,
};
use meetily_server::upload::extension;

fn state(dir: &str) -> ServerState {
    ServerState::new(dir.to_string(), ServerConfig::default(), "model".to_string())
}

#[test]
fn names_become_plain_components() {
    assert_eq!(sanitize_path_component("Weekly Sync"), "Weekly_Sync");
    assert_eq!(sanitize_path_component("../../etc/passwd"), "etc_passwd");
    assert_eq!(sanitize_path_component("회의"), "untitled");
    assert_eq!(sanitize_path_component(""), "untitled");
    assert_eq!(sanitize_path_component("___"), "untitled");
    assert_eq!(sanitize_path_component("_a_"), "a");
    assert_eq!(sanitize_path_component("a.b-c_d"), "a_b-c_d");
    assert_eq!(sanitize_path_component(&"x".repeat(81)), "x".repeat(80));
    assert_eq!(sanitize_path_component(&"y".repeat(80)), "y".repeat(80));
}

#[test]
fn directories_lie_below_the_data_directory() {
    let s = state("/data");
    assert_eq!(s.database_path(), "/data/meeting_minutes.sqlite");
    assert_eq!(s.models_dir(), "/data/models");
    assert_eq!(s.recordings_dir(), "/data/recordings");
    assert_eq!(s.uploads_dir(), "/data/uploads");
    assert_eq!(s.meeting_dir("../x"), "/data/recordings/x");
    assert_eq!(state("/").models_dir(), "/models");
    assert_eq!(state("").models_dir(), "models");
}

#[test]
fn paths_are_joined_as_std_joins_them() {
    for dir in ["/data", "/data/", "", "a/b", "/"] {
        let expected = std::path::Path::new(dir).join("child");
        assert_eq!(join_path(dir, "child"), expected.to_string_lossy());
    }
}

#[test]
fn extensions_are_those_of_std() {
    for name in [
        "talk.wav", "talk", ".hidden", ".hidden.mp3", "a.tar.gz", "dir.d/file", "dir/x.ogg/",
        "x.", "..", ".", "a/..", "a/.", "a.b/.", "/", "", "./x.m4a", "..a", "a//b.c", "한.글",
        "dir/./", "x.y/../", "...", "a..b",
    ] {
        let expected = std::path::Path::new(name).extension().and_then(|e| e.to_str());
        assert_eq!(extension(name).as_deref(), expected, "for {:?}", name);
    }
}

#[test]
fn trimming_is_that_of_std() {
    for text in ["", " ", "a", " a ", "\t a b \n", "\u{3000}x\u{a0}", "\u{200b}x", "  \u{85}"] {
        assert_eq!(trim(text), text.trim());
        assert_eq!(is_blank(text), text.trim().is_empty());
    }
    for code in 0..0x11_0000u32 {
        if let Some(c) = char::from_u32(code) {
            assert_eq!(is_white_space(c), c.is_whitespace(), "for {:x}", code);
        }
    }
    assert_eq!(trim_end_matches("http://x//", '/'), "http://x");
    assert_eq!(trim_matches("__a_b__", '_'), "a_b");
    assert!(starts_with("https://x", "https://"));
    assert!(!starts_with("http", "http://"));
}

#[test]
fn numbers_print_in_decimal() {
    assert_eq!(decimal(0), "0");
    assert_eq!(decimal(9), "9");
    assert_eq!(decimal(10), "10");
    assert_eq!(decimal(u128::MAX), u128::MAX.to_string());
    assert_eq!(decimal2(0), "00");
    assert_eq!(decimal2(7), "07");
    assert_eq!(decimal2(10), "10");
    assert_eq!(decimal2(123), "123");
    assert_eq!(hex(&[0x00, 0x0f, 0xa5, 0xff]), "000fa5ff");
}

#[test]
fn clock_times_have_three_fields() {
    assert_eq!(format_clock(0), "00:00:00");
    assert_eq!(format_clock(59), "00:00:59");
    assert_eq!(format_clock(61), "00:01:01");
    assert_eq!(format_clock(3_661), "01:01:01");
    assert_eq!(format_clock(86_399), "23:59:59");
    assert_eq!(format_clock(360_000), "100:00:00");
}

#[test]
fn lower_case_is_that_of_std() {
    assert_eq!(to_lower_case("CANCELLED"), "cancelled");
    assert_eq!(to_lower_case("Pending-1 [Z]"), "pending-1 [z]");
    assert_eq!(to_lower_case("ÄÖÜ"), "äöü");
}
