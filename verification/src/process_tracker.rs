//! Process ancestry over a snapshot of the process table.
//!
//! The embedding application reads the OS process table (a status command, a
//! kernel process-info file, or a snapshot walk, depending on the platform)
//! and hands the result to this module as plain `ProcessInfo` records. All
//! walking and matching over that snapshot is verified here.

use vstd::prelude::*;
use crate::text::{is_substring, str_contains};

verus! {

/// One process-table entry: a process id, its parent's id, and its name.
#[derive(Debug)]
pub struct ProcessInfo {
    pub pid: u32,
    pub ppid: u32,
    pub name: String,
}

impl Clone for ProcessInfo {
    fn clone(&self) -> (res: Self)
        ensures
            res == *self,
    {
        ProcessInfo { pid: self.pid, ppid: self.ppid, name: self.name.clone() }
    }
}

/// Process ancestry queries over a process-table snapshot.
pub struct ProcessTracker {
    pub entries: Vec<ProcessInfo>,
}

/// The first entry with the given pid, if any.
pub open spec fn lookup(t: Seq<ProcessInfo>, pid: u32) -> Option<ProcessInfo>
    decreases t.len(),
{
    if t.len() == 0 {
        None
    } else if t[0].pid == pid {
        Some(t[0])
    } else {
        lookup(t.drop_first(), pid)
    }
}

/// The parent pid recorded for `pid`, if the table has an entry for it.
pub open spec fn parent_of(t: Seq<ProcessInfo>, pid: u32) -> Option<u32> {
    match lookup(t, pid) {
        Some(info) => Some(info.ppid),
        None => None,
    }
}

/// Names of known terminal emulator processes; a process counts as a terminal
/// when its name contains one of these as a substring.
pub open spec fn is_terminal_process_name(name: Seq<char>) -> bool {
    ||| is_substring(name, "Terminal"@)
    ||| is_substring(name, "iTerm2"@)
    ||| is_substring(name, "alacritty"@)
    ||| is_substring(name, "kitty"@)
    ||| is_substring(name, "wezterm"@)
    ||| is_substring(name, "gnome-terminal"@)
    ||| is_substring(name, "konsole"@)
    ||| is_substring(name, "xterm"@)
    ||| is_substring(name, "cmd.exe"@)
    ||| is_substring(name, "powershell.exe"@)
    ||| is_substring(name, "WindowsTerminal.exe"@)
}

/// The pid of the nearest ancestor of `pid` (parent first, at most `depth`
/// steps) whose recorded name is a terminal emulator's, if any.
pub open spec fn find_terminal_ancestor_spec(t: Seq<ProcessInfo>, pid: u32, depth: nat) -> Option<
    u32,
>
    decreases depth,
{
    if depth == 0 {
        None
    } else {
        match parent_of(t, pid) {
            None => None,
            Some(p) => if lookup(t, p) matches Some(info) && is_terminal_process_name(info.name@) {
                Some(p)
            } else {
                find_terminal_ancestor_spec(t, p, (depth - 1) as nat)
            },
        }
    }
}

/// The ancestor pids of `pid`, nearest first: its parent, grandparent, and
/// so on, at most `fuel` of them, stopping where the table has no entry.
pub open spec fn ancestors(t: Seq<ProcessInfo>, pid: u32, fuel: nat) -> Seq<u32>
    decreases fuel,
{
    if fuel == 0 {
        Seq::empty()
    } else {
        match parent_of(t, pid) {
            None => Seq::empty(),
            Some(p) => seq![p] + ancestors(t, p, (fuel - 1) as nat),
        }
    }
}

/// The pids visited when walking from `pid` itself toward the root: `pid`
/// first, then its ancestors, at most `fuel` of them, stopping where the
/// table has no entry or the parent is a root pid (0 or 1).
pub open spec fn session_chain(t: Seq<ProcessInfo>, pid: u32, fuel: nat) -> Seq<u32>
    decreases fuel,
{
    if fuel == 0 {
        Seq::empty()
    } else {
        seq![pid] + (match parent_of(t, pid) {
            None => Seq::empty(),
            Some(p) => if p == 0 || p == 1 {
                Seq::empty()
            } else {
                session_chain(t, p, (fuel - 1) as nat)
            },
        })
    }
}

/// The chain of entries visited when walking from `pid` toward the root:
/// each visited entry, stopping after at most `fuel` entries, at a missing
/// entry, or once an entry's parent is a root pid (0 or 1).
pub open spec fn tree_walk(t: Seq<ProcessInfo>, pid: u32, fuel: nat) -> Seq<ProcessInfo>
    decreases fuel,
{
    if fuel == 0 {
        Seq::empty()
    } else {
        match lookup(t, pid) {
            None => Seq::empty(),
            Some(info) => if info.ppid == 0 || info.ppid == 1 {
                seq![info]
            } else {
                seq![info] + tree_walk(t, info.ppid, (fuel - 1) as nat)
            },
        }
    }
}

impl ProcessTracker {
    /// An empty snapshot.
    pub fn new() -> (r: Self)
        ensures
            r.entries@ =~= Seq::<ProcessInfo>::empty(),
    {
        ProcessTracker { entries: Vec::new() }
    }

    /// Record one process-table entry.
    pub fn add_entry(&mut self, info: ProcessInfo)
        ensures
            final(self).entries@ == old(self).entries@.push(info),
    {
        self.entries.push(info);
    }

    /// The parent process id of `pid`, per the snapshot.
    pub fn get_parent_process_id(&self, pid: u32) -> (r: Option<u32>)
        ensures
            r == parent_of(self.entries@, pid),
    {
        let mut i: usize = 0;
        let n = self.entries.len();
        assert(self.entries@.subrange(0, n as int) =~= self.entries@);
        while i < n
            invariant
                n == self.entries@.len(),
                0 <= i <= n,
                lookup(self.entries@, pid) == lookup(self.entries@.subrange(i as int, n as int), pid),
            decreases n - i,
        {
            if self.entries[i].pid == pid {
                proof {
                    let rest = self.entries@.subrange(i as int, n as int);
                    assert(rest[0] == self.entries@[i as int]);
                }
                return Some(self.entries[i].ppid);
            }
            proof {
                let rest = self.entries@.subrange(i as int, n as int);
                assert(rest.drop_first() =~= self.entries@.subrange(i + 1, n as int));
            }
            i = i + 1;
        }
        proof {
            assert(self.entries@.subrange(n as int, n as int) =~= Seq::<ProcessInfo>::empty());
        }
        None
    }

    /// The full entry for `pid`, per the snapshot.
    pub fn get_process_info(&self, pid: u32) -> (r: Option<ProcessInfo>)
        ensures
            r == lookup(self.entries@, pid),
    {
        let mut i: usize = 0;
        let n = self.entries.len();
        assert(self.entries@.subrange(0, n as int) =~= self.entries@);
        while i < n
            invariant
                n == self.entries@.len(),
                0 <= i <= n,
                lookup(self.entries@, pid) == lookup(self.entries@.subrange(i as int, n as int), pid),
            decreases n - i,
        {
            if self.entries[i].pid == pid {
                proof {
                    let rest = self.entries@.subrange(i as int, n as int);
                    assert(rest[0] == self.entries@[i as int]);
                }
                return Some(self.entries[i].clone());
            }
            proof {
                let rest = self.entries@.subrange(i as int, n as int);
                assert(rest.drop_first() =~= self.entries@.subrange(i + 1, n as int));
            }
            i = i + 1;
        }
        proof {
            assert(self.entries@.subrange(n as int, n as int) =~= Seq::<ProcessInfo>::empty());
        }
        None
    }

    /// The entries visited when walking the parent chain from `pid`, at most
    /// twenty steps, stopping at a missing entry or at a root parent (0 or 1).
    pub fn log_process_tree(&self, pid: u32) -> (r: Vec<ProcessInfo>)
        ensures
            r@ == tree_walk(self.entries@, pid, 20),
    {
        let mut out: Vec<ProcessInfo> = Vec::new();
        let mut current_pid = pid;
        let mut depth: usize = 0;
        while depth < 20
            invariant
                0 <= depth <= 20,
                tree_walk(self.entries@, pid, 20) =~= out@ + tree_walk(
                    self.entries@,
                    current_pid,
                    (20 - depth) as nat,
                ),
            decreases 20 - depth,
        {
            match self.get_process_info(current_pid) {
                Some(info) => {
                    let ppid = info.ppid;
                    out.push(info);
                    if ppid == 0 || ppid == 1 {
                        proof {
                            assert(tree_walk(self.entries@, pid, 20) =~= out@);
                        }
                        return out;
                    }
                    current_pid = ppid;
                    depth = depth + 1;
                },
                None => {
                    proof {
                        assert(tree_walk(self.entries@, pid, 20) =~= out@);
                    }
                    return out;
                },
            }
        }
        proof {
            assert(tree_walk(self.entries@, pid, 20) =~= out@);
        }
        out
    }

    /// The nearest terminal-emulator ancestor of `pid`, walking at most
    /// `max_depth` parents.
    pub fn find_terminal_ancestor(&self, pid: u32, max_depth: usize) -> (r: Option<u32>)
        ensures
            r == find_terminal_ancestor_spec(self.entries@, pid, max_depth as nat),
    {
        let mut current_pid = pid;
        let mut depth: usize = 0;
        while depth < max_depth
            invariant
                0 <= depth <= max_depth,
                find_terminal_ancestor_spec(self.entries@, pid, max_depth as nat)
                    == find_terminal_ancestor_spec(
                    self.entries@,
                    current_pid,
                    (max_depth - depth) as nat,
                ),
            decreases max_depth - depth,
        {
            match self.get_parent_process_id(current_pid) {
                Some(parent_pid) => {
                    match self.get_process_info(parent_pid) {
                        Some(info) => {
                            if is_terminal_process(&info.name) {
                                return Some(parent_pid);
                            }
                        },
                        None => {},
                    }
                    current_pid = parent_pid;
                    depth = depth + 1;
                },
                None => {
                    return None;
                },
            }
        }
        None
    }
}

/// Whether a process name is a known terminal emulator's.
fn is_terminal_process(name: &str) -> (r: bool)
    ensures
        r == is_terminal_process_name(name@),
{
    str_contains(name, "Terminal") || str_contains(name, "iTerm2") || str_contains(
        name,
        "alacritty",
    ) || str_contains(name, "kitty") || str_contains(name, "wezterm") || str_contains(
        name,
        "gnome-terminal",
    ) || str_contains(name, "konsole") || str_contains(name, "xterm") || str_contains(
        name,
        "cmd.exe",
    ) || str_contains(name, "powershell.exe") || str_contains(name, "WindowsTerminal.exe")
}

} // verus!
