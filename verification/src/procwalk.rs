use vstd::prelude::*;
use crate::text::{ends_in_sh, ends_with_sh};

verus! {

/// One row of the process-table snapshot: a process id, the command name
/// the table reports for it, and its parent process id. A parent id of
/// `None` records a parent lookup whose answer could not be parsed; the
/// walker substitutes process id 1 for it.
pub struct ProcessInfo {
    pub pid: i32,
    pub name: String,
    pub parent_pid: Option<i32>,
}

/// The first row of the table that carries `pid`, if any. A missing row
/// models a process-table query that failed (the process no longer
/// exists): an ordinary failure, never an error.
pub open spec fn lookup(table: Seq<ProcessInfo>, pid: int) -> Option<ProcessInfo>
    decreases table.len(),
{
    if table.len() == 0 {
        None
    } else if table[0].pid == pid {
        Some(table[0])
    } else {
        lookup(table.drop_first(), pid)
    }
}

/// The command name the table reports for `pid`; empty when the query
/// fails.
pub open spec fn name_of(table: Seq<ProcessInfo>, pid: int) -> Seq<char> {
    match lookup(table, pid) {
        Some(p) => p.name@,
        None => Seq::<char>::empty(),
    }
}

/// The next candidate above `pid`: its recorded parent, or process id 1
/// when the parent cannot be determined.
pub open spec fn parent_of(table: Seq<ProcessInfo>, pid: int) -> int {
    match lookup(table, pid) {
        Some(p) => match p.parent_pid {
            Some(q) => q as int,
            None => 1,
        },
        None => 1,
    }
}

/// The name the ancestry walk reports when started at `pid` with at most
/// `fuel` upward steps left: climb past every command name that ends in
/// `sh`, and answer the first one that does not. A walk that exhausts its
/// fuel while still on shell names (parent links that cycle, which no
/// real process tree has) has failed completely and reports the sentinel.
pub open spec fn walk_name(table: Seq<ProcessInfo>, pid: int, fuel: nat) -> Seq<char>
    decreases fuel,
{
    let n = name_of(table, pid);
    if !ends_with_sh(n) {
        n
    } else if fuel == 0 {
        "None/Unknown"@
    } else {
        walk_name(table, parent_of(table, pid), (fuel - 1) as nat)
    }
}

/// The walk from `pid` settles within `fuel` steps: following parent
/// links reaches a command name that does not end in `sh` before the fuel
/// runs out. Every snapshot whose parent chains reach such a name — every
/// acyclic one in particular — settles within its own length.
pub open spec fn walk_settles(table: Seq<ProcessInfo>, pid: int, fuel: nat) -> bool
    decreases fuel,
{
    let n = name_of(table, pid);
    if !ends_with_sh(n) {
        true
    } else if fuel == 0 {
        false
    } else {
        walk_settles(table, parent_of(table, pid), (fuel - 1) as nat)
    }
}

proof fn lemma_lookup_skip(table: Seq<ProcessInfo>, pid: int, i: int)
    requires
        0 <= i <= table.len(),
        forall|k: int| 0 <= k < i ==> table[k].pid != pid,
    ensures
        lookup(table, pid) == lookup(table.skip(i), pid),
    decreases i,
{
    if i > 0 {
        let t = table.drop_first();
        lemma_lookup_skip(t, pid, i - 1);
        assert(t.skip(i - 1) =~= table.skip(i));
    } else {
        assert(table.skip(0) =~= table);
    }
}

/// Query the snapshot for the command name of `pid`.
pub fn lookup_name(table: &Vec<ProcessInfo>, pid: i32) -> (r: String)
    ensures
        r@ == name_of(table@, pid as int),
{
    match lookup_row(table, pid) {
        Some(row) => row.name.clone(),
        None => String::new(),
    }
}

/// Query the snapshot for the next candidate above `pid`.
pub fn lookup_parent(table: &Vec<ProcessInfo>, pid: i32) -> (r: i32)
    ensures
        r as int == parent_of(table@, pid as int),
{
    match lookup_row(table, pid) {
        Some(row) => match row.parent_pid {
            Some(q) => q,
            None => 1,
        },
        None => 1,
    }
}

fn lookup_row<'a>(table: &'a Vec<ProcessInfo>, pid: i32) -> (r: Option<&'a ProcessInfo>)
    ensures
        r matches Some(row) ==> lookup(table@, pid as int) == Some(*row),
        r is None ==> lookup(table@, pid as int) is None,
{
    let n: usize = table.len();
    let mut i: usize = 0;
    while i < n
        invariant
            0 <= i <= n,
            n == table@.len(),
            forall|k: int| 0 <= k < i ==> (#[trigger] table@[k]).pid != pid,
        decreases n - i,
    {
        if table[i].pid == pid {
            proof {
                lemma_lookup_skip(table@, pid as int, i as int);
                assert(table@.skip(i as int)[0] == table@[i as int]);
            }
            return Some(&table[i]);
        }
        i = i + 1;
    }
    proof {
        lemma_lookup_skip(table@, pid as int, n as int);
        assert(table@.skip(n as int) =~= Seq::<ProcessInfo>::empty());
    }
    None
}

/// Identify the terminal emulator hosting the session: starting from the
/// immediate parent `start_pid`, climb the parent chain while the command
/// name ends in `sh`, and report the first name that does not. The walk
/// spends at most one step per table row plus one, so it terminates even
/// on a snapshot whose parent links form a cycle; there it has failed
/// completely and reports the sentinel.
pub fn get_terminal(table: &Vec<ProcessInfo>, start_pid: i32) -> (r: String)
    ensures
        r@ == walk_name(table@, start_pid as int, (table@.len() + 1) as nat),
{
    let ghost full_fuel: nat = (table@.len() + 1) as nat;
    let mut pid: i32 = start_pid;
    let mut name: String = lookup_name(table, pid);
    let mut fuel: usize = table.len();
    if ends_in_sh(name.as_str()) {
        pid = lookup_parent(table, pid);
        name = lookup_name(table, pid);
        while ends_in_sh(name.as_str()) && fuel > 0
            invariant
                fuel <= table@.len(),
                name@ == name_of(table@, pid as int),
                walk_name(table@, pid as int, fuel as nat) == walk_name(
                    table@,
                    start_pid as int,
                    full_fuel,
                ),
            decreases fuel,
        {
            pid = lookup_parent(table, pid);
            name = lookup_name(table, pid);
            fuel = fuel - 1;
        }
        if ends_in_sh(name.as_str()) {
            return String::from_str("None/Unknown");
        }
    }
    name
}

/// Identify the login shell: the command name of the immediate parent
/// process alone, with no walk.
pub fn get_shell(table: &Vec<ProcessInfo>, parent_pid: i32) -> (r: String)
    ensures
        r@ == name_of(table@, parent_pid as int),
{
    lookup_name(table, parent_pid)
}

/// The ancestry walk needs no more steps than the chain is deep: once it
/// settles within some fuel `f1` (as it does within the chain's depth on
/// any acyclic snapshot), every larger fuel `f2` gives the same answer.
/// In particular a parse failure along the way, which redirects the walk
/// to process id 1, still leaves it settling within the same bound.
pub proof fn lemma_walk_settles(table: Seq<ProcessInfo>, pid: int, f1: nat, f2: nat)
    requires
        f1 <= f2,
        walk_settles(table, pid, f1),
    ensures
        walk_settles(table, pid, f2),
        walk_name(table, pid, f2) == walk_name(table, pid, f1),
    decreases f1,
{
    let n = name_of(table, pid);
    if !ends_with_sh(n) {
    } else {
        assert(f1 > 0);
        lemma_walk_settles(table, parent_of(table, pid), (f1 - 1) as nat, (f2 - 1) as nat);
    }
}

/// The walk only ever reports a name that does not end in `sh`: it stops
/// at the first such name, and where it never finds one it reports the
/// sentinel, which is no shell name either.
pub proof fn lemma_walk_never_shell(table: Seq<ProcessInfo>, pid: int, fuel: nat)
    ensures
        !ends_with_sh(walk_name(table, pid, fuel)),
    decreases fuel,
{
    reveal_strlit("None/Unknown");
    assert("None/Unknown"@.len() == 12);
    assert("None/Unknown"@[10] == 'w');
    let n = name_of(table, pid);
    if ends_with_sh(n) && fuel > 0 {
        lemma_walk_never_shell(table, parent_of(table, pid), (fuel - 1) as nat);
    }
}

} // verus!
