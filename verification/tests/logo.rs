use hostinfo::logo::{get_logo, lines_of, parse_u16, resolve_distro};
use hostinfo::shell::ShellResult;

fn probe(exit_code: i32, stdout: &str) -> ShellResult {
    ShellResult { stdout: String::from(stdout), stderr: String::new(), exit_code }
}

#[test]
fn logo_header_gives_rows_cols_and_the_art_follows() {
    let logo = get_logo("24 40\n  /\\\n /  \\\n").expect("well-formed logo");
    assert_eq!(logo.rows, 24);
    assert_eq!(logo.cols, 40);
    assert_eq!(logo.content, vec![String::from("  /\\"), String::from(" /  \\")]);
}

#[test]
fn logo_header_tolerates_extra_whitespace() {
    let logo = get_logo("   3\t7  \r\nart\r\nlast").expect("well-formed logo");
    assert_eq!(logo.rows, 3);
    assert_eq!(logo.cols, 7);
    assert_eq!(logo.content, vec![String::from("art"), String::from("last")]);
}

#[test]
fn empty_art_has_no_logo() {
    assert!(get_logo("").is_none());
}

#[test]
fn non_numeric_header_has_no_logo() {
    assert!(get_logo("x y\nart").is_none());
    assert!(get_logo("12\nart").is_none());
    assert!(get_logo("70000 2\nart").is_none());
}

#[test]
fn parse_u16_accepts_plain_and_plus_prefixed_decimals() {
    assert_eq!(parse_u16("0"), Some(0));
    assert_eq!(parse_u16("+42"), Some(42));
    assert_eq!(parse_u16("65535"), Some(65535));
    assert_eq!(parse_u16("65536"), None);
    assert_eq!(parse_u16(""), None);
    assert_eq!(parse_u16("+"), None);
    assert_eq!(parse_u16("1x"), None);
    assert_eq!(parse_u16("-1"), None);
}

#[test]
fn lines_split_at_newlines_and_drop_carriage_returns() {
    assert_eq!(
        lines_of("a\nb\r\nc"),
        vec![String::from("a"), String::from("b"), String::from("c")]
    );
    assert_eq!(lines_of("a\n"), vec![String::from("a")]);
    assert_eq!(lines_of(""), Vec::<String>::new());
    assert_eq!(lines_of("\n\n"), vec![String::new(), String::new()]);
}

#[test]
fn distro_comes_from_os_release_on_linux() {
    assert_eq!(resolve_distro(&probe(0, "Linux\n"), &probe(0, "arch\n")), "arch");
}

#[test]
fn distro_is_fixed_on_the_other_known_platforms() {
    assert_eq!(resolve_distro(&probe(0, "Darwin\n"), &probe(1, "")), "macos");
    assert_eq!(resolve_distro(&probe(0, "FreeBSD\n"), &probe(1, "")), "freebsd");
    assert_eq!(resolve_distro(&probe(0, "SunOS\n"), &probe(1, "")), "unknown");
}
