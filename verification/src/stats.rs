use vstd::prelude::*;
use vstd::string::StrSliceExecFns;
use vstd::string::StringExecFns;
use crate::shell::ShellResult;
use crate::text::{dec_digits, str_eq, trim, trimmed, u64_to_dec};

verus! {

/// The command whose trimmed output names the kernel and its release.
pub fn kernel_command() -> (c: String)
    ensures
        c@ == "uname -sr"@,
{
    String::from_str("uname -sr")
}

/// The kernel name and release: the probe's output, trimmed. The probe's
/// exit status is not consulted.
pub fn get_kernel(probe: &ShellResult) -> (r: String)
    ensures
        r@ == trimmed(probe.stdout@),
{
    trim(probe.stdout.as_str())
}

/// Whether the platform probe (`uname`) identifies the Apple desktop
/// platform. The driver consults this to pick the platform's
/// package-counting script before calling `get_packages`.
pub fn is_darwin_host(uname: &ShellResult) -> (b: bool)
    ensures
        b == (trimmed(uname.stdout@) == "Darwin"@),
{
    let tr = trim(uname.stdout.as_str());
    str_eq(tr.as_str(), "Darwin")
}

/// The installed-package count: the counting script's output, trimmed. The
/// script's exit status is not consulted.
pub fn get_packages(script_output: &ShellResult) -> (r: String)
    ensures
        r@ == trimmed(script_output.stdout@),
{
    trim(script_output.stdout.as_str())
}

/// The operating system name: the os-release probe's trimmed output when
/// that probe succeeded, else whatever long name the platform offers, else
/// a sentinel.
pub fn get_os(probe: &ShellResult, fallback: Option<String>) -> (r: String)
    ensures
        probe.succeeded() ==> r@ == trimmed(probe.stdout@),
        !probe.succeeded() ==> match fallback {
            Some(f) => r@ == f@,
            None => r@ == "Unknown OS"@,
        },
{
    if probe.exit_code == 0 {
        trim(probe.stdout.as_str())
    } else {
        match fallback {
            Some(f) => f,
            None => String::from_str("Unknown OS"),
        }
    }
}

/// One counted unit of the uptime rendering: the count, the unit's name
/// (with its leading space), and a plural `s` unless the count is one.
pub open spec fn uptime_part(n: nat, unit: Seq<char>) -> Seq<char> {
    dec_digits(n) + unit + (if n == 1 {
        Seq::<char>::empty()
    } else {
        "s"@
    })
}

/// The units the uptime rendering includes, in order: days only when there
/// are any; hours and minutes also when any coarser unit already appears;
/// seconds only on an uptime of less than a day.
pub open spec fn uptime_parts(uptime: u64) -> Seq<Seq<char>> {
    let days = uptime as nat / 86400;
    let hours = (uptime as nat % 86400) / 3600;
    let minutes = (uptime as nat % 3600) / 60;
    let seconds = uptime as nat % 60;
    let p0 = Seq::<Seq<char>>::empty();
    let p1 = if days > 0 {
        p0.push(uptime_part(days, " day"@))
    } else {
        p0
    };
    let p2 = if hours > 0 || p1.len() > 0 {
        p1.push(uptime_part(hours, " hour"@))
    } else {
        p1
    };
    let p3 = if minutes > 0 || p2.len() > 0 {
        p2.push(uptime_part(minutes, " minute"@))
    } else {
        p2
    };
    if (seconds > 0 || p3.len() > 0) && days == 0 {
        p3.push(uptime_part(seconds, " second"@))
    } else {
        p3
    }
}

/// `parts` joined with a comma and a space.
pub open spec fn join_comma(parts: Seq<Seq<char>>) -> Seq<char>
    decreases parts.len(),
{
    if parts.len() == 0 {
        Seq::<char>::empty()
    } else if parts.len() == 1 {
        parts[0]
    } else {
        parts[0] + ", "@ + join_comma(parts.drop_first())
    }
}

/// The human-readable rendering of an uptime given in seconds.
pub open spec fn uptime_text(uptime: u64) -> Seq<char> {
    join_comma(uptime_parts(uptime))
}

proof fn lemma_join_push(parts: Seq<Seq<char>>, p: Seq<char>)
    ensures
        join_comma(parts.push(p)) == if parts.len() == 0 {
            p
        } else {
            join_comma(parts) + ", "@ + p
        },
    decreases parts.len(),
{
    if parts.len() == 0 {
        assert(parts.push(p)[0] == p);
    } else if parts.len() == 1 {
        assert(parts.push(p).drop_first() =~= seq![p]);
        assert(parts.push(p)[0] == parts[0]);
        assert(join_comma(seq![p]) == p);
    } else {
        lemma_join_push(parts.drop_first(), p);
        assert(parts.push(p).drop_first() =~= parts.drop_first().push(p));
        assert(parts.push(p)[0] == parts[0]);
        let a = parts[0];
        let s = ", "@;
        let j = join_comma(parts.drop_first());
        assert(join_comma(parts.push(p)) == (a + s) + ((j + s) + p));
        assert((a + s) + ((j + s) + p) =~= (((a + s) + j) + s) + p);
    }
}

fn part_text(n: u64, unit: &str) -> (p: String)
    ensures
        p@ == uptime_part(n as nat, unit@),
{
    let mut p = u64_to_dec(n);
    p.append(unit);
    if n != 1 {
        p.append("s");
    }
    p
}

/// Render the uptime, given in seconds, as its counted units joined with
/// commas.
pub fn get_uptime(uptime: u64) -> (r: String)
    ensures
        r@ == uptime_text(uptime),
{
    let days: u64 = uptime / 86400;
    let hours: u64 = (uptime % 86400) / 3600;
    let minutes: u64 = (uptime % 3600) / 60;
    let seconds: u64 = uptime % 60;
    let mut out = String::new();
    let ghost mut gparts: Seq<Seq<char>> = Seq::<Seq<char>>::empty();
    let mut has: bool = false;
    if days > 0 {
        let p = part_text(days, " day");
        out.append(p.as_str());
        proof {
            lemma_join_push(gparts, p@);
            gparts = gparts.push(p@);
        }
        has = true;
    }
    if hours > 0 || has {
        let p = part_text(hours, " hour");
        if has {
            out.append(", ");
        }
        out.append(p.as_str());
        proof {
            lemma_join_push(gparts, p@);
            gparts = gparts.push(p@);
        }
        has = true;
    }
    if minutes > 0 || has {
        let p = part_text(minutes, " minute");
        if has {
            out.append(", ");
        }
        out.append(p.as_str());
        proof {
            lemma_join_push(gparts, p@);
            gparts = gparts.push(p@);
        }
        has = true;
    }
    if (seconds > 0 || has) && days == 0 {
        let p = part_text(seconds, " second");
        if has {
            out.append(", ");
        }
        out.append(p.as_str());
        proof {
            lemma_join_push(gparts, p@);
            gparts = gparts.push(p@);
        }
    }
    proof {
        assert(gparts == uptime_parts(uptime));
    }
    out
}

} // verus!
