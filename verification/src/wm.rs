use vstd::prelude::*;
use vstd::string::StrSliceExecFns;
use vstd::string::StringExecFns;
use crate::shell::ShellResult;
use crate::text::{str_eq, trim, trimmed};

verus! {

/// Where the window-manager resolution stands: which probe's answer it is
/// waiting for. The strategies run in a fixed order, first success wins:
/// the Apple-platform allow-list, then the desktop-session variable, then
/// the owner of the Wayland display socket (found with `fuser` when the
/// host has it, else with `lsof`), and a sentinel when everything failed.
/// The capability probes for `fuser` and `lsof` go through the same
/// command primitive as every other probe.
pub enum WmState {
    /// Waiting for the platform name.
    Uname,
    /// Apple platform: waiting for the probe of the first allow-listed
    /// window-manager process.
    MacYabai,
    /// Apple platform: waiting for the probe of the second one.
    MacAmethyst,
    /// Waiting for the desktop-session variable's value.
    Desktop,
    /// Waiting to learn whether the host has `fuser`.
    ProbeFuser,
    /// Waiting for `fuser` on the Wayland socket.
    RunFuser,
    /// Waiting for the first field of the `fuser` output.
    AwkPid,
    /// Waiting to learn whether the host has `lsof`.
    ProbeLsof,
    /// Waiting for `lsof` on the Wayland socket.
    RunLsof,
    /// Waiting for the socket owner's command name.
    PsComm,
}

/// One move of the resolution: either ask for one more probe, or stop with
/// the resolved name. The specification-level form carries command text as
/// a character sequence.
pub enum WmSpecStep {
    Ask(WmState, Seq<char>),
    Done(Seq<char>),
}

/// Executable form of one move.
pub enum WmTransition {
    Ask(WmState, String),
    Done(String),
}

/// The specification-level view of an executable move.
pub open spec fn transition_abs(t: WmTransition) -> WmSpecStep {
    match t {
        WmTransition::Ask(s, c) => WmSpecStep::Ask(s, c@),
        WmTransition::Done(d) => WmSpecStep::Done(d@),
    }
}

/// The resolution's transition function: given the state and the probe
/// result it was waiting for, the next move.
pub open spec fn wm_step_spec(s: WmState, r: ShellResult) -> WmSpecStep {
    match s {
        WmState::Uname => if trimmed(r.stdout@) == "Darwin"@ {
            WmSpecStep::Ask(WmState::MacYabai, "pgrep -x yabai"@)
        } else {
            WmSpecStep::Ask(
                WmState::Desktop,
                ": \"${XDG_CURRENT_DESKTOP:?}\" && echo \"$XDG_CURRENT_DESKTOP\""@,
            )
        },
        WmState::MacYabai => if r.exit_code == 0 {
            WmSpecStep::Done("yabai"@)
        } else {
            WmSpecStep::Ask(WmState::MacAmethyst, "pgrep -x Amethyst"@)
        },
        WmState::MacAmethyst => if r.exit_code == 0 {
            WmSpecStep::Done("Amethyst"@)
        } else {
            WmSpecStep::Done("aqua"@)
        },
        WmState::Desktop => if r.exit_code == 0 && trimmed(r.stdout@).len() != 0 {
            WmSpecStep::Done(trimmed(r.stdout@))
        } else {
            WmSpecStep::Ask(WmState::ProbeFuser, "command -v fuser"@)
        },
        WmState::ProbeFuser => if r.exit_code == 0 {
            WmSpecStep::Ask(
                WmState::RunFuser,
                "fuser \"${XDG_RUNTIME_DIR}/${WAYLAND_DISPLAY:-wayland-0}\""@,
            )
        } else {
            WmSpecStep::Ask(WmState::ProbeLsof, "command -v lsof"@)
        },
        WmState::RunFuser => if r.exit_code == 0 {
            WmSpecStep::Ask(
                WmState::AwkPid,
                "echo "@ + trimmed(r.stdout@) + " | awk '{print $1}'"@,
            )
        } else {
            WmSpecStep::Done("None/Unknown"@)
        },
        WmState::AwkPid => if r.exit_code == 0 {
            WmSpecStep::Ask(WmState::PsComm, "ps -p "@ + trimmed(r.stdout@) + " -o comm="@)
        } else {
            WmSpecStep::Done("None/Unknown"@)
        },
        WmState::ProbeLsof => if r.exit_code == 0 {
            WmSpecStep::Ask(
                WmState::RunLsof,
                "lsof -t \"${XDG_RUNTIME_DIR}/${WAYLAND_DISPLAY:-wayland-0}\" 2>&1"@,
            )
        } else {
            WmSpecStep::Done("None/Unknown"@)
        },
        WmState::RunLsof => if r.exit_code == 0 {
            WmSpecStep::Ask(WmState::PsComm, "ps -p "@ + trimmed(r.stdout@) + " -o comm="@)
        } else {
            WmSpecStep::Done("None/Unknown"@)
        },
        WmState::PsComm => if r.exit_code == 0 && trimmed(r.stdout@).len() != 0 {
            WmSpecStep::Done(trimmed(r.stdout@))
        } else {
            WmSpecStep::Done("None/Unknown"@)
        },
    }
}

/// Executable transition function; it follows `wm_step_spec` exactly.
pub fn wm_step(s: WmState, r: &ShellResult) -> (t: WmTransition)
    ensures
        transition_abs(t) == wm_step_spec(s, *r),
{
    match s {
        WmState::Uname => {
            let tr = trim(r.stdout.as_str());
            if str_eq(tr.as_str(), "Darwin") {
                WmTransition::Ask(WmState::MacYabai, String::from_str("pgrep -x yabai"))
            } else {
                WmTransition::Ask(
                    WmState::Desktop,
                    String::from_str(": \"${XDG_CURRENT_DESKTOP:?}\" && echo \"$XDG_CURRENT_DESKTOP\""),
                )
            }
        },
        WmState::MacYabai => {
            if r.exit_code == 0 {
                WmTransition::Done(String::from_str("yabai"))
            } else {
                WmTransition::Ask(WmState::MacAmethyst, String::from_str("pgrep -x Amethyst"))
            }
        },
        WmState::MacAmethyst => {
            if r.exit_code == 0 {
                WmTransition::Done(String::from_str("Amethyst"))
            } else {
                WmTransition::Done(String::from_str("aqua"))
            }
        },
        WmState::Desktop => {
            let tr = trim(r.stdout.as_str());
            if r.exit_code == 0 && !tr.as_str().is_empty() {
                WmTransition::Done(tr)
            } else {
                WmTransition::Ask(WmState::ProbeFuser, String::from_str("command -v fuser"))
            }
        },
        WmState::ProbeFuser => {
            if r.exit_code == 0 {
                WmTransition::Ask(
                    WmState::RunFuser,
                    String::from_str("fuser \"${XDG_RUNTIME_DIR}/${WAYLAND_DISPLAY:-wayland-0}\""),
                )
            } else {
                WmTransition::Ask(WmState::ProbeLsof, String::from_str("command -v lsof"))
            }
        },
        WmState::RunFuser => {
            if r.exit_code == 0 {
                let tr = trim(r.stdout.as_str());
                let mut c = String::from_str("echo ");
                c.append(tr.as_str());
                c.append(" | awk '{print $1}'");
                WmTransition::Ask(WmState::AwkPid, c)
            } else {
                WmTransition::Done(String::from_str("None/Unknown"))
            }
        },
        WmState::AwkPid => {
            if r.exit_code == 0 {
                WmTransition::Ask(WmState::PsComm, ps_comm_command(&r.stdout))
            } else {
                WmTransition::Done(String::from_str("None/Unknown"))
            }
        },
        WmState::ProbeLsof => {
            if r.exit_code == 0 {
                WmTransition::Ask(
                    WmState::RunLsof,
                    String::from_str(
                        "lsof -t \"${XDG_RUNTIME_DIR}/${WAYLAND_DISPLAY:-wayland-0}\" 2>&1",
                    ),
                )
            } else {
                WmTransition::Done(String::from_str("None/Unknown"))
            }
        },
        WmState::RunLsof => {
            if r.exit_code == 0 {
                WmTransition::Ask(WmState::PsComm, ps_comm_command(&r.stdout))
            } else {
                WmTransition::Done(String::from_str("None/Unknown"))
            }
        },
        WmState::PsComm => {
            let tr = trim(r.stdout.as_str());
            if r.exit_code == 0 && !tr.as_str().is_empty() {
                WmTransition::Done(tr)
            } else {
                // a failed or empty command-name lookup is a strategy
                // failure, never an answer
                WmTransition::Done(String::from_str("None/Unknown"))
            }
        },
    }
}

/// The command that resolves a process id (handed over as raw probe
/// output) to its command name.
fn ps_comm_command(raw_pid: &String) -> (c: String)
    ensures
        c@ == "ps -p "@ + trimmed(raw_pid@) + " -o comm="@,
{
    let tr = trim(raw_pid.as_str());
    let mut c = String::from_str("ps -p ");
    c.append(tr.as_str());
    c.append(" -o comm=");
    c
}

/// Outcome of replaying the machine over a transcript of probe results:
/// either the transcript ran out and the next command to run is named, or
/// the resolution finished with a name.
pub enum WmSpecOutcome {
    Need(Seq<char>),
    Resolved(Seq<char>),
}

/// Executable form of the outcome.
pub enum WmOutcome {
    NeedCommand(String),
    Resolved(String),
}

/// The specification-level view of an executable outcome.
pub open spec fn outcome_abs(o: WmOutcome) -> WmSpecOutcome {
    match o {
        WmOutcome::NeedCommand(c) => WmSpecOutcome::Need(c@),
        WmOutcome::Resolved(d) => WmSpecOutcome::Resolved(d@),
    }
}

/// Replay the machine from state `s` (waiting with command `cmd`
/// outstanding) over the transcript `rs`, one probe result per move.
pub open spec fn wm_replay(s: WmState, cmd: Seq<char>, rs: Seq<ShellResult>) -> WmSpecOutcome
    decreases rs.len(),
{
    if rs.len() == 0 {
        WmSpecOutcome::Need(cmd)
    } else {
        match wm_step_spec(s, rs[0]) {
            WmSpecStep::Done(d) => WmSpecOutcome::Resolved(d),
            WmSpecStep::Ask(s2, c2) => wm_replay(s2, c2, rs.drop_first()),
        }
    }
}

/// The whole resolution as a function of the transcript, starting from the
/// platform probe.
pub open spec fn wm_resolution(rs: Seq<ShellResult>) -> WmSpecOutcome {
    wm_replay(WmState::Uname, "uname"@, rs)
}

/// How many probe results a resolution can still consume from state `s`
/// before it must finish.
pub open spec fn wm_fuel(s: WmState) -> nat {
    match s {
        WmState::Uname => 6,
        WmState::MacYabai => 2,
        WmState::MacAmethyst => 1,
        WmState::Desktop => 5,
        WmState::ProbeFuser => 4,
        WmState::RunFuser => 3,
        WmState::AwkPid => 2,
        WmState::ProbeLsof => 3,
        WmState::RunLsof => 2,
        WmState::PsComm => 1,
    }
}

/// Every fallback chain is a fixed finite sequence: a transcript of
/// `wm_fuel(s)` probe results always drives the machine to a resolved
/// name, so the driving loop terminates.
pub proof fn lemma_replay_bounded(s: WmState, cmd: Seq<char>, rs: Seq<ShellResult>)
    requires
        rs.len() >= wm_fuel(s),
    ensures
        wm_replay(s, cmd, rs) is Resolved,
    decreases rs.len(),
{
    match wm_step_spec(s, rs[0]) {
        WmSpecStep::Done(d) => {},
        WmSpecStep::Ask(s2, c2) => {
            lemma_replay_bounded(s2, c2, rs.drop_first());
        },
    }
}

/// A resolved name is never the empty string: every strategy either
/// yields non-empty trimmed output or falls through to a fixed name or
/// the sentinel, so absence of output is never mistaken for an answer.
pub proof fn lemma_resolution_never_empty(s: WmState, cmd: Seq<char>, rs: Seq<ShellResult>)
    ensures
        wm_replay(s, cmd, rs) matches WmSpecOutcome::Resolved(d) ==> d.len() != 0,
    decreases rs.len(),
{
    if rs.len() > 0 {
        reveal_strlit("yabai");
        reveal_strlit("Amethyst");
        reveal_strlit("aqua");
        reveal_strlit("None/Unknown");
        assert("yabai"@.len() == 5);
        assert("Amethyst"@.len() == 8);
        assert("aqua"@.len() == 4);
        assert("None/Unknown"@.len() == 12);
        match wm_step_spec(s, rs[0]) {
            WmSpecStep::Done(d) => {},
            WmSpecStep::Ask(s2, c2) => {
                lemma_resolution_never_empty(s2, c2, rs.drop_first());
            },
        }
    }
}

/// Resolve the window manager from a transcript of probe results: replay
/// the strategy chain over `responses` and either name the next command
/// the driver must run, or give the resolved name. A transcript of six
/// results always resolves.
pub fn get_window_manager(responses: &Vec<ShellResult>) -> (out: WmOutcome)
    ensures
        outcome_abs(out) == wm_resolution(responses@),
        responses@.len() >= 6 ==> out is Resolved,
{
    proof {
        if responses@.len() >= 6 {
            lemma_replay_bounded(WmState::Uname, "uname"@, responses@);
        }
        assert(responses@.skip(0) =~= responses@);
    }
    let n: usize = responses.len();
    let mut state = WmState::Uname;
    let mut cmd = String::from_str("uname");
    let mut i: usize = 0;
    while i < n
        invariant
            0 <= i <= n,
            n == responses@.len(),
            wm_replay(state, cmd@, responses@.skip(i as int)) == wm_resolution(responses@),
        decreases n - i,
    {
        let t = wm_step(state, &responses[i]);
        proof {
            assert(responses@.skip(i as int)[0] == responses@[i as int]);
            assert(responses@.skip(i as int).drop_first() =~= responses@.skip(i as int + 1));
        }
        match t {
            WmTransition::Done(d) => {
                return WmOutcome::Resolved(d);
            },
            WmTransition::Ask(s2, c2) => {
                state = s2;
                cmd = c2;
            },
        }
        i = i + 1;
    }
    proof {
        assert(responses@.skip(n as int) =~= Seq::<ShellResult>::empty());
    }
    WmOutcome::NeedCommand(cmd)
}

/// The strategy order is fixed: on a host that is not the Apple platform
/// and whose desktop-session variable is set and non-empty, the resolution
/// is that value, trimmed, whatever every later probe (a Wayland socket
/// among them) would have said.
pub proof fn lemma_desktop_session_wins(rs: Seq<ShellResult>)
    requires
        rs.len() >= 2,
        trimmed(rs[0].stdout@) != "Darwin"@,
        rs[1].exit_code == 0,
        trimmed(rs[1].stdout@).len() != 0,
    ensures
        wm_resolution(rs) == WmSpecOutcome::Resolved(trimmed(rs[1].stdout@)),
{
    let mid = wm_step_spec(WmState::Uname, rs[0]);
    match mid {
        WmSpecStep::Ask(s2, c2) => {
            assert(s2 == WmState::Desktop);
            assert(wm_resolution(rs) == wm_replay(s2, c2, rs.drop_first()));
            assert(rs.drop_first()[0] == rs[1]);
            assert(wm_replay(s2, c2, rs.drop_first()) == WmSpecOutcome::Resolved(
                trimmed(rs[1].stdout@),
            ));
        },
        WmSpecStep::Done(_) => {
            assert(false);
        },
    }
}

} // verus!
