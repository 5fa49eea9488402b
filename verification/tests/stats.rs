use hostinfo::shell::ShellResult;
use hostinfo::stats::{
    get_kernel, get_os, get_packages, get_uptime, is_darwin_host, kernel_command,
};

fn probe(exit_code: i32, stdout: &str) -> ShellResult {
    ShellResult { stdout: String::from(stdout), stderr: String::new(), exit_code }
}

#[test]
fn kernel_is_the_trimmed_probe_output() {
    assert_eq!(kernel_command(), "uname -sr");
    assert_eq!(get_kernel(&probe(0, "Linux 6.1.0-13-amd64\n")), "Linux 6.1.0-13-amd64");
    assert_eq!(get_kernel(&probe(1, "  \t\n")), "");
}

#[test]
fn darwin_detection_trims_before_comparing() {
    assert!(is_darwin_host(&probe(0, "Darwin\n")));
    assert!(is_darwin_host(&probe(0, "  Darwin  ")));
    assert!(!is_darwin_host(&probe(0, "Linux\n")));
    assert!(!is_darwin_host(&probe(0, "darwin\n")));
}

#[test]
fn package_count_is_the_trimmed_script_output() {
    assert_eq!(get_packages(&probe(0, " 1543 \n")), "1543");
}

#[test]
fn os_prefers_the_os_release_probe() {
    assert_eq!(get_os(&probe(0, "Arch Linux\n"), Some(String::from("macOS 14.0"))), "Arch Linux");
}

#[test]
fn os_falls_back_to_the_platform_name_then_a_sentinel() {
    assert_eq!(get_os(&probe(1, ""), Some(String::from("macOS 14.0"))), "macOS 14.0");
    assert_eq!(get_os(&probe(2, "ignored"), None), "Unknown OS");
}

#[test]
fn uptime_of_zero_renders_empty() {
    assert_eq!(get_uptime(0), "");
}

#[test]
fn uptime_below_a_minute_renders_seconds_only() {
    assert_eq!(get_uptime(59), "59 seconds");
    assert_eq!(get_uptime(1), "1 second");
}

#[test]
fn uptime_includes_zero_counts_after_the_first_unit() {
    assert_eq!(get_uptime(3600), "1 hour, 0 minutes, 0 seconds");
    assert_eq!(get_uptime(61), "1 minute, 1 second");
}

#[test]
fn uptime_of_a_day_or_more_drops_the_seconds() {
    assert_eq!(get_uptime(86400), "1 day, 0 hours, 0 minutes");
    assert_eq!(get_uptime(90061), "1 day, 1 hour, 1 minute");
    assert_eq!(get_uptime(2 * 86400 + 59), "2 days, 0 hours, 0 minutes");
}
