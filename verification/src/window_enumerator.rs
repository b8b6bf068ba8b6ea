//! Window snapshot records and the verifiable parts of window enumeration.
//!
//! Enumerating on-screen windows needs the OS (an automation bridge, a native
//! callback, or an external listing utility); the embedding application does
//! that and hands the snapshot to this crate as `WindowInfo` records. The
//! fallback strategy that derives pseudo-windows from a process-table scan is
//! pure and lives here, as do the helpers that read identifiers out of titles
//! and tab references.

use vstd::prelude::*;
use crate::process_tracker::ProcessInfo;
use crate::text::{
    digits_prefix, dec_val, find_sub, is_dec_digit, is_substring, lemma_digits_prefix,
    parse_u64, str_contains, str_index_of,
};

verus! {

/// Window geometry in logical pixels.
#[derive(Debug, Clone, Copy, PartialEq, Eq, Structural)]
pub struct WindowBounds {
    pub x: i64,
    pub y: i64,
    pub width: i64,
    pub height: i64,
}

/// One window observed in a single enumeration snapshot.
///
/// The window id is unique only within one snapshot, never a stable
/// cross-call handle: on the primary platform's process-scan fallback it is
/// the owning process id.
#[derive(Debug)]
pub struct WindowInfo {
    pub window_id: u64,
    pub owner_pid: u32,
    pub terminal_app: String,
    pub session_id: String,
    pub created_at: String,
    pub tab_reference: Option<String>,
    pub tab_id: Option<String>,
    pub bounds: Option<WindowBounds>,
    pub title: Option<String>,
}

impl Clone for WindowInfo {
    fn clone(&self) -> (res: Self)
        ensures
            res == *self,
    {
        WindowInfo {
            window_id: self.window_id,
            owner_pid: self.owner_pid,
            terminal_app: self.terminal_app.clone(),
            session_id: self.session_id.clone(),
            created_at: self.created_at.clone(),
            tab_reference: match &self.tab_reference {
                Some(s) => Some(s.clone()),
                None => None,
            },
            tab_id: match &self.tab_id {
                Some(s) => Some(s.clone()),
                None => None,
            },
            bounds: self.bounds,
            title: match &self.title {
                Some(s) => Some(s.clone()),
                None => None,
            },
        }
    }
}

/// The window's title contains `ident` (windows without a title match nothing).
pub open spec fn title_contains(w: WindowInfo, ident: Seq<char>) -> bool {
    match w.title {
        Some(t) => is_substring(t@, ident),
        None => false,
    }
}

/// The marker that precedes the window id in a tab reference.
pub open spec fn wid_pattern() -> Seq<char> {
    "window id "@
}

/// The id embedded in a tab reference of the form `... window id <N> ...`:
/// the run of decimal digits after the first occurrence of the marker, or
/// `None` if the marker is absent, no digit follows it, or the value does not
/// fit in `u64`.
pub open spec fn extract_window_id_spec(s: Seq<char>) -> Option<u64> {
    match find_sub(s, wid_pattern()) {
        None => None,
        Some(p) => {
            let digits = digits_prefix(s.subrange(p + wid_pattern().len(), s.len() as int));
            if digits.len() > 0 && dec_val(digits) <= u64::MAX {
                Some(dec_val(digits) as u64)
            } else {
                None
            }
        },
    }
}

/// The end of the run of decimal digits in `s` that starts at `start`.
fn scan_digits_end(s: &str, start: usize) -> (e: usize)
    requires
        start <= s@.len(),
    ensures
        start <= e <= s@.len(),
        forall|j: int| start <= j < e ==> is_dec_digit(#[trigger] s@[j]),
        e == s@.len() || !is_dec_digit(s@[e as int]),
{
    let len = s.unicode_len();
    let mut e: usize = start;
    while e < len
        invariant
            len == s@.len(),
            start <= e <= len,
            forall|j: int| start <= j < e ==> is_dec_digit(#[trigger] s@[j]),
        decreases len - e,
    {
        let cu = s.get_char(e) as u32;
        if cu < 48 || cu > 57 {
            return e;
        }
        e = e + 1;
    }
    e
}

/// Window enumeration helpers; the OS-facing snapshot itself is taken by the
/// embedding application.
pub struct WindowEnumerator;

impl WindowEnumerator {
    /// Extract the window id from a terminal tab reference.
    pub fn extract_window_id(tab_reference: &str) -> (r: Option<u64>)
        ensures
            r == extract_window_id_spec(tab_reference@),
    {
        proof {
            reveal_strlit("window id ");
        }
        match str_index_of(tab_reference, "window id ") {
            None => None,
            Some(k) => {
                let len = tab_reference.unicode_len();
                let start = k + 10;
                assert(start <= len);
                let e = scan_digits_end(tab_reference, start);
                proof {
                    let rest = tab_reference@.subrange(start as int, len as int);
                    assert(forall|j: int|
                        0 <= j < e - start ==> is_dec_digit(#[trigger] rest[j]));
                    assert(e - start == rest.len() || !is_dec_digit(rest[e - start]));
                    lemma_digits_prefix(rest, e - start);
                    assert(digits_prefix(rest) =~= tab_reference@.subrange(
                        start as int,
                        e as int,
                    ));
                }
                let digs = tab_reference.substring_char(start, e);
                parse_u64(digs)
            },
        }
    }

    /// Check if a window title contains a specific identifier.
    pub fn window_title_contains(window: &WindowInfo, identifier: &str) -> (r: bool)
        ensures
            r == title_contains(*window, identifier@),
    {
        match &window.title {
            Some(title) => str_contains(title.as_str(), identifier),
            None => false,
        }
    }

    /// The process-scan fallback of window enumeration: every process whose
    /// name contains a known terminal application's name yields one
    /// pseudo-window per matching name, with the process id standing in for
    /// the window id. `timestamp` is copied into each record's creation time.
    pub fn terminal_windows_from_processes(processes: &Vec<ProcessInfo>, timestamp: &str) -> (r:
        Vec<WindowInfo>)
        ensures
            r@.len() == scan_pairs(processes@).len(),
            forall|i: int|
                0 <= i < r@.len() ==> fallback_window_ok(
                    r@[i],
                    scan_pairs(processes@)[i],
                    timestamp@,
                ),
    {
        let mut out: Vec<WindowInfo> = Vec::new();
        let mut i: usize = 0;
        let n = processes.len();
        while i < n
            invariant
                n == processes@.len(),
                0 <= i <= n,
                out@.len() == scan_pairs(processes@.subrange(0, i as int)).len(),
                forall|j: int|
                    0 <= j < out@.len() ==> fallback_window_ok(
                        out@[j],
                        scan_pairs(processes@.subrange(0, i as int))[j],
                        timestamp@,
                    ),
            decreases n - i,
        {
            push_windows_for(&mut out, &processes[i], timestamp);
            proof {
                let pre = processes@.subrange(0, i as int);
                let post = processes@.subrange(0, i + 1);
                assert(post.drop_last() =~= pre);
                assert(post.last() == processes@[i as int]);
                assert(scan_pairs(post) =~= scan_pairs(pre) + matched_names(
                    processes@[i as int].name@,
                    6,
                ).map_values(|j: int| ScanPair { pid: processes@[i as int].pid, name_index: j }));
            }
            i = i + 1;
        }
        proof {
            assert(processes@.subrange(0, n as int) =~= processes@);
        }
        out
    }
}

/// The terminal application names the process-scan fallback looks for.
pub open spec fn scan_terminal_names() -> Seq<Seq<char>> {
    seq!["Terminal"@, "iTerm2"@, "Alacritty"@, "kitty"@, "WezTerm"@, "Hyper"@]
}

/// A pending fallback window: an owning pid and an index into
/// `scan_terminal_names`.
pub struct ScanPair {
    pub pid: u32,
    pub name_index: int,
}

/// Indices of the first `j` scan names that `name` contains, in order.
pub open spec fn matched_names(name: Seq<char>, j: int) -> Seq<int>
    decreases j,
{
    if j <= 0 {
        Seq::empty()
    } else {
        matched_names(name, j - 1) + (if is_substring(name, scan_terminal_names()[j - 1]) {
            seq![j - 1]
        } else {
            Seq::empty()
        })
    }
}

/// The pid/name pairs the process-scan fallback turns into windows, in order.
pub open spec fn scan_pairs(ps: Seq<ProcessInfo>) -> Seq<ScanPair>
    decreases ps.len(),
{
    if ps.len() == 0 {
        Seq::empty()
    } else {
        scan_pairs(ps.drop_last()) + matched_names(ps.last().name@, 6).map_values(
            |j: int| ScanPair { pid: ps.last().pid, name_index: j },
        )
    }
}

/// What each fallback window holds: the pid as both window id and owner, the
/// matched terminal name, the supplied timestamp, and nothing else.
pub open spec fn fallback_window_ok(w: WindowInfo, p: ScanPair, ts: Seq<char>) -> bool {
    &&& w.window_id == p.pid as u64
    &&& w.owner_pid == p.pid
    &&& 0 <= p.name_index < 6
    &&& w.terminal_app@ == scan_terminal_names()[p.name_index]
    &&& w.session_id@ == Seq::<char>::empty()
    &&& w.created_at@ == ts
    &&& w.tab_reference is None
    &&& w.tab_id is None
    &&& w.bounds is None
    &&& w.title is None
}

/// Append the fallback windows for one process, one per matching scan name.
fn push_windows_for(out: &mut Vec<WindowInfo>, p: &ProcessInfo, ts: &str)
    ensures
        final(out)@.len() == old(out)@.len() + matched_names(p.name@, 6).len(),
        forall|i: int| 0 <= i < old(out)@.len() ==> final(out)@[i] == old(out)@[i],
        forall|i: int|
            0 <= i < matched_names(p.name@, 6).len() ==> fallback_window_ok(
                final(out)@[old(out)@.len() + i],
                (ScanPair { pid: p.pid, name_index: matched_names(p.name@, 6)[i] }),
                ts@,
            ),
{
    let names: [&str; 6] = ["Terminal", "iTerm2", "Alacritty", "kitty", "WezTerm", "Hyper"];
    proof {
        assert(names@[0]@ == scan_terminal_names()[0]);
        assert(names@[1]@ == scan_terminal_names()[1]);
        assert(names@[2]@ == scan_terminal_names()[2]);
        assert(names@[3]@ == scan_terminal_names()[3]);
        assert(names@[4]@ == scan_terminal_names()[4]);
        assert(names@[5]@ == scan_terminal_names()[5]);
    }
    let ghost base = out@.len() as int;
    let mut j: usize = 0;
    while j < 6
        invariant
            0 <= j <= 6,
            base == old(out)@.len(),
            names@[0]@ == scan_terminal_names()[0],
            names@[1]@ == scan_terminal_names()[1],
            names@[2]@ == scan_terminal_names()[2],
            names@[3]@ == scan_terminal_names()[3],
            names@[4]@ == scan_terminal_names()[4],
            names@[5]@ == scan_terminal_names()[5],
            out@.len() == base + matched_names(p.name@, j as int).len(),
            forall|i: int| 0 <= i < base ==> out@[i] == old(out)@[i],
            forall|i: int|
                0 <= i < matched_names(p.name@, j as int).len() ==> fallback_window_ok(
                    out@[base + i],
                    (ScanPair { pid: p.pid, name_index: matched_names(p.name@, j as int)[i] }),
                    ts@,
                ),
        decreases 6 - j,
    {
        if str_contains(p.name.as_str(), names[j]) {
            let w = WindowInfo {
                window_id: p.pid as u64,
                owner_pid: p.pid,
                terminal_app: String::from_str(names[j]),
                session_id: String::new(),
                created_at: String::from_str(ts),
                tab_reference: None,
                tab_id: None,
                bounds: None,
                title: None,
            };
            out.push(w);
        }
        proof {
            assert(matched_names(p.name@, j + 1) =~= matched_names(p.name@, j as int) + (
            if is_substring(p.name@, scan_terminal_names()[j as int]) {
                seq![j as int]
            } else {
                Seq::<int>::empty()
            }));
        }
        j = j + 1;
    }
}

} // verus!
