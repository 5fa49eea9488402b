use hostinfo::text::{ends_in_sh, starts_ignore_case, str_eq, trim, u64_to_dec};

#[test]
fn trim_strips_leading_and_trailing_whitespace_only() {
    assert_eq!(trim("  hello world \n"), "hello world");
    assert_eq!(trim("\t\r\n "), "");
    assert_eq!(trim("plain"), "plain");
    assert_eq!(trim("a  b"), "a  b");
    assert_eq!(trim(""), "");
}

#[test]
fn shell_names_are_those_ending_in_sh() {
    assert!(ends_in_sh("bash"));
    assert!(ends_in_sh("zsh"));
    assert!(ends_in_sh("sh"));
    assert!(!ends_in_sh("fish2"));
    assert!(!ends_in_sh("tmux"));
    assert!(!ends_in_sh("s"));
    assert!(!ends_in_sh(""));
}

#[test]
fn case_insensitive_prefix_matches_fold_ascii_letters() {
    assert!(starts_ignore_case("WLAN0", "wl"));
    assert!(starts_ignore_case("wlan0", "wl"));
    assert!(starts_ignore_case("en", "en"));
    assert!(!starts_ignore_case("e", "en"));
    assert!(!starts_ignore_case("wan0", "wl"));
}

#[test]
fn string_equality_is_character_for_character() {
    assert!(str_eq("abc", "abc"));
    assert!(!str_eq("abc", "abd"));
    assert!(!str_eq("abc", "abcd"));
    assert!(str_eq("", ""));
}

#[test]
fn decimal_rendering_matches_known_values() {
    assert_eq!(u64_to_dec(0), "0");
    assert_eq!(u64_to_dec(7), "7");
    assert_eq!(u64_to_dec(10), "10");
    assert_eq!(u64_to_dec(65535), "65535");
    assert_eq!(u64_to_dec(18446744073709551615), "18446744073709551615");
}
