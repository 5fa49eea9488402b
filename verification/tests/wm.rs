use hostinfo::shell::ShellResult;
use hostinfo::wm::{get_window_manager, WmOutcome};

fn probe(exit_code: i32, stdout: &str) -> ShellResult {
    ShellResult { stdout: String::from(stdout), stderr: String::new(), exit_code }
}

fn expect_need(out: WmOutcome, cmd: &str) {
    match out {
        WmOutcome::NeedCommand(c) => assert_eq!(c, cmd),
        WmOutcome::Resolved(s) => panic!("resolved too early: {}", s),
    }
}

fn expect_resolved(out: WmOutcome, name: &str) {
    match out {
        WmOutcome::NeedCommand(c) => panic!("still asking for: {}", c),
        WmOutcome::Resolved(s) => assert_eq!(s, name),
    }
}

#[test]
fn wayland_socket_owner_resolves_when_desktop_variable_is_unset() {
    let mut responses: Vec<ShellResult> = vec![];
    expect_need(get_window_manager(&responses), "uname");
    responses.push(probe(0, "Linux\n"));
    expect_need(
        get_window_manager(&responses),
        ": \"${XDG_CURRENT_DESKTOP:?}\" && echo \"$XDG_CURRENT_DESKTOP\"",
    );
    responses.push(probe(1, ""));
    expect_need(get_window_manager(&responses), "command -v fuser");
    responses.push(probe(0, "/usr/bin/fuser\n"));
    expect_need(
        get_window_manager(&responses),
        "fuser \"${XDG_RUNTIME_DIR}/${WAYLAND_DISPLAY:-wayland-0}\"",
    );
    responses.push(probe(0, " 200\n"));
    expect_need(get_window_manager(&responses), "echo 200 | awk '{print $1}'");
    responses.push(probe(0, "200\n"));
    expect_need(get_window_manager(&responses), "ps -p 200 -o comm=");
    responses.push(probe(0, "sway\n"));
    expect_resolved(get_window_manager(&responses), "sway");
}

#[test]
fn desktop_session_variable_wins_over_everything_later() {
    let responses = vec![probe(0, "Linux\n"), probe(0, "GNOME\n")];
    expect_resolved(get_window_manager(&responses), "GNOME");
}

#[test]
fn empty_desktop_session_value_counts_as_absent() {
    let mut responses = vec![probe(0, "Linux\n"), probe(0, "  \n")];
    expect_need(get_window_manager(&responses), "command -v fuser");
    responses.push(probe(1, ""));
    expect_need(get_window_manager(&responses), "command -v lsof");
    responses.push(probe(1, ""));
    expect_resolved(get_window_manager(&responses), "None/Unknown");
}

#[test]
fn apple_platform_first_running_allow_listed_manager_wins() {
    let responses = vec![probe(0, "Darwin\n"), probe(0, "")];
    expect_resolved(get_window_manager(&responses), "yabai");
}

#[test]
fn apple_platform_second_allow_list_entry_is_probed_next() {
    let responses = vec![probe(0, "Darwin\n"), probe(1, ""), probe(0, "")];
    expect_resolved(get_window_manager(&responses), "Amethyst");
}

#[test]
fn apple_platform_defaults_to_aqua() {
    let responses = vec![probe(0, "Darwin\n"), probe(1, ""), probe(1, "")];
    expect_resolved(get_window_manager(&responses), "aqua");
}

#[test]
fn lsof_is_the_fallback_socket_prober() {
    let mut responses = vec![probe(0, "Linux\n"), probe(1, "")];
    expect_need(get_window_manager(&responses), "command -v fuser");
    responses.push(probe(1, ""));
    expect_need(get_window_manager(&responses), "command -v lsof");
    responses.push(probe(0, "/usr/bin/lsof\n"));
    expect_need(
        get_window_manager(&responses),
        "lsof -t \"${XDG_RUNTIME_DIR}/${WAYLAND_DISPLAY:-wayland-0}\" 2>&1",
    );
    responses.push(probe(0, "321\n"));
    expect_need(get_window_manager(&responses), "ps -p 321 -o comm=");
    responses.push(probe(0, "Hyprland\n"));
    expect_resolved(get_window_manager(&responses), "Hyprland");
}

#[test]
fn failed_fuser_run_gives_the_sentinel_without_trying_lsof() {
    let responses = vec![probe(0, "Linux\n"), probe(1, ""), probe(0, ""), probe(1, "")];
    expect_resolved(get_window_manager(&responses), "None/Unknown");
}

#[test]
fn empty_command_name_output_degrades_to_the_sentinel() {
    let responses = vec![
        probe(0, "Linux\n"),
        probe(1, ""),
        probe(0, "/usr/bin/fuser\n"),
        probe(0, "200\n"),
        probe(0, "200\n"),
        probe(0, "  \n"),
    ];
    expect_resolved(get_window_manager(&responses), "None/Unknown");
}

#[test]
fn failed_command_name_lookup_degrades_to_the_sentinel() {
    let responses = vec![
        probe(0, "Linux\n"),
        probe(1, ""),
        probe(0, "/usr/bin/fuser\n"),
        probe(0, "200\n"),
        probe(0, "200\n"),
        probe(1, "ghost\n"),
    ];
    expect_resolved(get_window_manager(&responses), "None/Unknown");
}

#[test]
fn six_probes_always_resolve() {
    let responses = vec![
        probe(1, ""),
        probe(1, ""),
        probe(1, ""),
        probe(1, ""),
        probe(1, ""),
        probe(1, ""),
    ];
    match get_window_manager(&responses) {
        WmOutcome::Resolved(_) => {},
        WmOutcome::NeedCommand(c) => panic!("unresolved after six probes, asking: {}", c),
    }
}
