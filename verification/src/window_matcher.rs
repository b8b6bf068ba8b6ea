//! Session-to-window matching: an ordered heuristic chain over a window
//! snapshot, backed by an opportunistic session-to-window-id cache.
//!
//! Matching a session to a window is inherently ambiguous, so `find_window`
//! evaluates strategies in strict priority order and returns on the first
//! hit: a validated cache entry, the nearest process ancestor that owns a
//! window, a working-directory title match, an explicit tab reference or tab
//! id, and finally the window with the largest id. The cache is only a hint:
//! a cached id is honoured only when it is present in the snapshot supplied
//! to the call at hand. That membership check is the full contract: if the
//! platform reassigns a closed window's id to a new window, the cache cannot
//! tell the two apart.

use vstd::prelude::*;
use crate::assoc::{
    assoc_get, assoc_wf, lemma_assoc_get_none, lemma_assoc_push, lemma_assoc_update,
    lemma_assoc_remove,
};
use crate::process_tracker::{ancestors, parent_of, session_chain, ProcessInfo, ProcessTracker};
use crate::text::{file_name, file_name_spec, lemma_file_name_substring, lemma_substring_trans, str_eq};
use crate::window_enumerator::{
    extract_window_id_spec, title_contains, WindowEnumerator, WindowInfo,
};

verus! {

/// What a caller knows about a session: its id, the process id it runs as
/// (when known), its working directory, and optional display-name and
/// activity-status strings.
#[derive(Debug)]
pub struct SessionInfo {
    pub id: String,
    pub pid: Option<u32>,
    pub working_dir: String,
    pub name: Option<String>,
    pub activity_status: Option<String>,
}

impl Clone for SessionInfo {
    fn clone(&self) -> (res: Self)
        ensures
            res == *self,
    {
        SessionInfo {
            id: self.id.clone(),
            pid: self.pid,
            working_dir: self.working_dir.clone(),
            name: match &self.name {
                Some(s) => Some(s.clone()),
                None => None,
            },
            activity_status: match &self.activity_status {
                Some(s) => Some(s.clone()),
                None => None,
            },
        }
    }
}

/// The view of an optional string slice.
pub open spec fn opt_view(s: Option<&str>) -> Option<Seq<char>> {
    match s {
        Some(t) => Some(t@),
        None => None,
    }
}

/// The window belongs to the requested terminal application (no request
/// matches every window).
pub open spec fn app_ok(w: WindowInfo, app: Option<Seq<char>>) -> bool {
    match app {
        Some(a) => w.terminal_app@ == a,
        None => true,
    }
}

/// The window's title contains one of the requested strings; no requested
/// string matches every window.
pub open spec fn title_ok(w: WindowInfo, t1: Option<Seq<char>>, t2: Option<Seq<char>>) -> bool {
    if t1 is None && t2 is None {
        true
    } else {
        ||| (t1 matches Some(a) && title_contains(w, a))
        ||| (t2 matches Some(b) && title_contains(w, b))
    }
}

/// The window satisfies every requested criterion: terminal application,
/// window id, owning pid, and title substring.
pub open spec fn win_match_ok(
    w: WindowInfo,
    app: Option<Seq<char>>,
    wid: Option<u64>,
    owner: Option<u32>,
    t1: Option<Seq<char>>,
    t2: Option<Seq<char>>,
) -> bool {
    &&& app_ok(w, app)
    &&& (wid matches Some(x) ==> w.window_id == x)
    &&& (owner matches Some(x) ==> w.owner_pid == x)
    &&& title_ok(w, t1, t2)
}

/// The first window satisfying every requested criterion, if any.
pub open spec fn first_win_match(
    ws: Seq<WindowInfo>,
    app: Option<Seq<char>>,
    wid: Option<u64>,
    owner: Option<u32>,
    t1: Option<Seq<char>>,
    t2: Option<Seq<char>>,
) -> Option<int>
    decreases ws.len(),
{
    if ws.len() == 0 {
        None
    } else if win_match_ok(ws[0], app, wid, owner, t1, t2) {
        Some(0)
    } else {
        match first_win_match(ws.drop_first(), app, wid, owner, t1, t2) {
            Some(i) => Some(i + 1),
            None => None,
        }
    }
}

/// `first_win_match` returns the least matching index, and `None` exactly
/// when nothing matches.
pub proof fn lemma_first_win_match(
    ws: Seq<WindowInfo>,
    app: Option<Seq<char>>,
    wid: Option<u64>,
    owner: Option<u32>,
    t1: Option<Seq<char>>,
    t2: Option<Seq<char>>,
)
    ensures
        match first_win_match(ws, app, wid, owner, t1, t2) {
            Some(i) => 0 <= i < ws.len() && win_match_ok(ws[i], app, wid, owner, t1, t2)
                && forall|j: int|
                0 <= j < i ==> !win_match_ok(#[trigger] ws[j], app, wid, owner, t1, t2),
            None => forall|j: int|
                0 <= j < ws.len() ==> !win_match_ok(#[trigger] ws[j], app, wid, owner, t1, t2),
        },
    decreases ws.len(),
{
    if ws.len() == 0 {
    } else if win_match_ok(ws[0], app, wid, owner, t1, t2) {
    } else {
        lemma_first_win_match(ws.drop_first(), app, wid, owner, t1, t2);
        let t = ws.drop_first();
        match first_win_match(t, app, wid, owner, t1, t2) {
            Some(i) => {
                assert(first_win_match(ws, app, wid, owner, t1, t2) == Some(i + 1));
                assert(t[i] == ws[i + 1]);
                assert forall|j: int| 0 <= j < i + 1 implies !win_match_ok(
                    #[trigger] ws[j],
                    app,
                    wid,
                    owner,
                    t1,
                    t2,
                ) by {
                    if j > 0 {
                        assert(t[j - 1] == ws[j]);
                        assert(!win_match_ok(t[j - 1], app, wid, owner, t1, t2));
                    }
                }
            },
            None => {
                assert forall|j: int| 0 <= j < ws.len() implies !win_match_ok(
                    #[trigger] ws[j],
                    app,
                    wid,
                    owner,
                    t1,
                    t2,
                ) by {
                    if j > 0 {
                        assert(t[j - 1] == ws[j]);
                        assert(!win_match_ok(t[j - 1], app, wid, owner, t1, t2));
                    }
                }
            },
        }
    }
}

pub proof fn lemma_first_win_match_at(
    ws: Seq<WindowInfo>,
    app: Option<Seq<char>>,
    wid: Option<u64>,
    owner: Option<u32>,
    t1: Option<Seq<char>>,
    t2: Option<Seq<char>>,
    i: int,
)
    requires
        0 <= i < ws.len(),
        win_match_ok(ws[i], app, wid, owner, t1, t2),
        forall|j: int| 0 <= j < i ==> !win_match_ok(#[trigger] ws[j], app, wid, owner, t1, t2),
    ensures
        first_win_match(ws, app, wid, owner, t1, t2) == Some(i),
{
    lemma_first_win_match(ws, app, wid, owner, t1, t2);
    match first_win_match(ws, app, wid, owner, t1, t2) {
        Some(k) => {
            if k < i {
                assert(!win_match_ok(ws[k], app, wid, owner, t1, t2));
            }
            if i < k {
                assert(!win_match_ok(ws[i], app, wid, owner, t1, t2));
            }
        },
        None => {
            assert(!win_match_ok(ws[i], app, wid, owner, t1, t2));
        },
    }
}

pub proof fn lemma_first_win_match_none(
    ws: Seq<WindowInfo>,
    app: Option<Seq<char>>,
    wid: Option<u64>,
    owner: Option<u32>,
    t1: Option<Seq<char>>,
    t2: Option<Seq<char>>,
)
    requires
        forall|j: int| 0 <= j < ws.len() ==> !win_match_ok(#[trigger] ws[j], app, wid, owner, t1, t2),
    ensures
        first_win_match(ws, app, wid, owner, t1, t2) is None,
{
    lemma_first_win_match(ws, app, wid, owner, t1, t2);
    match first_win_match(ws, app, wid, owner, t1, t2) {
        Some(k) => {
            assert(!win_match_ok(ws[k], app, wid, owner, t1, t2));
        },
        None => {},
    }
}

/// Whether the window satisfies every requested criterion.
fn win_check(
    w: &WindowInfo,
    app: Option<&str>,
    wid: Option<u64>,
    owner: Option<u32>,
    t1: Option<&str>,
    t2: Option<&str>,
) -> (r: bool)
    ensures
        r == win_match_ok(*w, opt_view(app), wid, owner, opt_view(t1), opt_view(t2)),
{
    let app_match = match app {
        Some(a) => str_eq(w.terminal_app.as_str(), a),
        None => true,
    };
    let wid_match = match wid {
        Some(x) => w.window_id == x,
        None => true,
    };
    let owner_match = match owner {
        Some(x) => w.owner_pid == x,
        None => true,
    };
    let title_match = if t1.is_none() && t2.is_none() {
        true
    } else {
        let m1 = match t1 {
            Some(a) => WindowEnumerator::window_title_contains(w, a),
            None => false,
        };
        let m2 = match t2 {
            Some(b) => WindowEnumerator::window_title_contains(w, b),
            None => false,
        };
        m1 || m2
    };
    app_match && wid_match && owner_match && title_match
}

/// The first window satisfying every requested criterion, if any.
fn find_first_window(
    ws: &Vec<WindowInfo>,
    app: Option<&str>,
    wid: Option<u64>,
    owner: Option<u32>,
    t1: Option<&str>,
    t2: Option<&str>,
) -> (r: Option<usize>)
    ensures
        match r {
            Some(i) => i < ws@.len() && first_win_match(
                ws@,
                opt_view(app),
                wid,
                owner,
                opt_view(t1),
                opt_view(t2),
            ) == Some(i as int),
            None => first_win_match(ws@, opt_view(app), wid, owner, opt_view(t1), opt_view(t2))
                is None,
        },
{
    let n = ws.len();
    let mut i: usize = 0;
    while i < n
        invariant
            n == ws@.len(),
            0 <= i <= n,
            forall|j: int|
                0 <= j < i ==> !win_match_ok(
                    #[trigger] ws@[j],
                    opt_view(app),
                    wid,
                    owner,
                    opt_view(t1),
                    opt_view(t2),
                ),
        decreases n - i,
    {
        if win_check(&ws[i], app, wid, owner, t1, t2) {
            proof {
                lemma_first_win_match_at(
                    ws@,
                    opt_view(app),
                    wid,
                    owner,
                    opt_view(t1),
                    opt_view(t2),
                    i as int,
                );
            }
            return Some(i);
        }
        i = i + 1;
    }
    proof {
        lemma_first_win_match_none(ws@, opt_view(app), wid, owner, opt_view(t1), opt_view(t2));
    }
    None
}

/// The window with the numerically largest id among those of the requested
/// terminal application; on ties, the one latest in the snapshot.
pub open spec fn max_id_idx(ws: Seq<WindowInfo>, app: Option<Seq<char>>) -> Option<int>
    decreases ws.len(),
{
    if ws.len() == 0 {
        None
    } else {
        let rest = max_id_idx(ws.drop_last(), app);
        if app_ok(ws.last(), app) {
            match rest {
                Some(i) => if ws[i].window_id <= ws.last().window_id {
                    Some(ws.len() - 1)
                } else {
                    Some(i)
                },
                None => Some(ws.len() - 1),
            }
        } else {
            rest
        }
    }
}

/// `max_id_idx` picks a window of the requested application with a maximal
/// id, and is `None` exactly when no window has that application.
pub proof fn lemma_max_id_idx(ws: Seq<WindowInfo>, app: Option<Seq<char>>)
    ensures
        match max_id_idx(ws, app) {
            Some(i) => 0 <= i < ws.len() && app_ok(ws[i], app) && forall|j: int|
                0 <= j < ws.len() && app_ok(#[trigger] ws[j], app) ==> ws[j].window_id
                    <= ws[i].window_id,
            None => forall|j: int| 0 <= j < ws.len() ==> !app_ok(#[trigger] ws[j], app),
        },
    decreases ws.len(),
{
    if ws.len() > 0 {
        lemma_max_id_idx(ws.drop_last(), app);
        let t = ws.drop_last();
        let rest = max_id_idx(t, app);
        let lasti = ws.len() - 1;
        assert(forall|j: int| 0 <= j < t.len() ==> #[trigger] t[j] == ws[j]);
        assert(ws.last() == ws[lasti]);
        if app_ok(ws[lasti], app) {
            match rest {
                Some(i) => {
                    assert(t[i] == ws[i]);
                    if ws[i].window_id <= ws[lasti].window_id {
                        assert forall|j: int|
                            0 <= j < ws.len() && app_ok(#[trigger] ws[j], app) implies
                            ws[j].window_id <= ws[lasti].window_id by {
                            if j < lasti {
                                assert(t[j] == ws[j]);
                                assert(ws[j].window_id <= ws[i].window_id);
                            }
                        }
                    } else {
                        assert forall|j: int|
                            0 <= j < ws.len() && app_ok(#[trigger] ws[j], app) implies
                            ws[j].window_id <= ws[i].window_id by {
                            if j < lasti {
                                assert(t[j] == ws[j]);
                            }
                        }
                    }
                },
                None => {
                    assert forall|j: int|
                        0 <= j < ws.len() && app_ok(#[trigger] ws[j], app) implies ws[j].window_id
                        <= ws[lasti].window_id by {
                        if j < lasti {
                            assert(t[j] == ws[j]);
                            assert(!app_ok(ws[j], app));
                        }
                    }
                },
            }
        } else {
            match rest {
                Some(i) => {
                    assert(t[i] == ws[i]);
                    assert forall|j: int|
                        0 <= j < ws.len() && app_ok(#[trigger] ws[j], app) implies ws[j].window_id
                        <= ws[i].window_id by {
                        if j < lasti {
                            assert(t[j] == ws[j]);
                        }
                    }
                },
                None => {
                    assert forall|j: int| 0 <= j < ws.len() implies !app_ok(
                        #[trigger] ws[j],
                        app,
                    ) by {
                        if j < lasti {
                            assert(t[j] == ws[j]);
                        }
                    }
                },
            }
        }
    }
}

/// The windows filtered to the requested application are nonempty.
pub open spec fn filtered_has(ws: Seq<WindowInfo>, app: Seq<char>) -> bool {
    exists|i: int| 0 <= i < ws.len() && app_ok(#[trigger] ws[i], Some(app))
}

/// The index (and window id) the largest-id fallback picks.
fn find_max_id(ws: &Vec<WindowInfo>, app: Option<&str>) -> (r: Option<usize>)
    ensures
        match r {
            Some(i) => i < ws@.len() && max_id_idx(ws@, opt_view(app)) == Some(i as int),
            None => max_id_idx(ws@, opt_view(app)) is None,
        },
{
    let n = ws.len();
    let mut best: Option<usize> = None;
    let mut i: usize = 0;
    proof {
        assert(ws@.subrange(0, 0) =~= Seq::<WindowInfo>::empty());
    }
    while i < n
        invariant
            n == ws@.len(),
            0 <= i <= n,
            match best {
                Some(b) => b < i && max_id_idx(ws@.subrange(0, i as int), opt_view(app)) == Some(
                    b as int,
                ),
                None => max_id_idx(ws@.subrange(0, i as int), opt_view(app)) is None,
            },
        decreases n - i,
    {
        let ghost pre = ws@.subrange(0, i as int);
        let ghost post = ws@.subrange(0, i + 1);
        proof {
            assert(post.drop_last() =~= pre);
            assert(post.last() == ws@[i as int]);
            assert(forall|j: int| 0 <= j < pre.len() ==> #[trigger] pre[j] == post[j]);
        }
        let is_app = match app {
            Some(a) => str_eq(ws[i].terminal_app.as_str(), a),
            None => true,
        };
        if is_app {
            match best {
                Some(b) => {
                    if ws[b].window_id <= ws[i].window_id {
                        best = Some(i);
                    }
                },
                None => {
                    best = Some(i);
                },
            }
        }
        i = i + 1;
    }
    proof {
        assert(ws@.subrange(0, n as int) =~= ws@);
    }
    best
}

/// The first window owned by the nearest pid in `chain`, walking the chain
/// front to back (nearer ancestors take precedence).
pub open spec fn chain_match(ws: Seq<WindowInfo>, app: Option<Seq<char>>, chain: Seq<u32>) -> Option<
    int,
>
    decreases chain.len(),
{
    if chain.len() == 0 {
        None
    } else {
        match first_win_match(ws, app, None, Some(chain[0]), None, None) {
            Some(i) => Some(i),
            None => chain_match(ws, app, chain.drop_first()),
        }
    }
}

/// Strategy: a cached window id for the session, honoured only when a window
/// with that id is present (among the filtered windows).
pub open spec fn cache_strategy(
    cache: Seq<(String, u64)>,
    sid: Seq<char>,
    app: Option<Seq<char>>,
    ws: Seq<WindowInfo>,
) -> Option<int> {
    match assoc_get(cache, sid) {
        Some(wid) => first_win_match(ws, app, Some(wid), None, None, None),
        None => None,
    }
}

/// Strategy: the window owned by the nearest process ancestor of the
/// session's pid, walking at most `depth` ancestors.
pub open spec fn ancestry_strategy(
    sinfo: Option<SessionInfo>,
    app: Option<Seq<char>>,
    ws: Seq<WindowInfo>,
    pt: Seq<ProcessInfo>,
    depth: nat,
) -> Option<int> {
    match sinfo {
        Some(si) => match si.pid {
            Some(pid) => chain_match(ws, app, ancestors(pt, pid, depth)),
            None => None,
        },
        None => None,
    }
}

/// Strategy: a window whose title contains the final component of the
/// session's working directory, or the full directory path. An empty working
/// directory counts as absent.
pub open spec fn title_strategy(
    sinfo: Option<SessionInfo>,
    app: Option<Seq<char>>,
    ws: Seq<WindowInfo>,
) -> Option<int> {
    match sinfo {
        Some(si) => if si.working_dir@.len() > 0 {
            first_win_match(
                ws,
                app,
                None,
                None,
                Some(file_name_spec(si.working_dir@)),
                Some(si.working_dir@),
            )
        } else {
            None
        },
        None => None,
    }
}

/// Strategy (primary platform terminal only): the window whose id is embedded
/// in the caller-supplied tab reference.
pub open spec fn tab_reference_strategy(
    app: Seq<char>,
    tab_ref: Option<Seq<char>>,
    ws: Seq<WindowInfo>,
) -> Option<int> {
    if app == "Terminal"@ {
        match tab_ref {
            Some(tr) => match extract_window_id_spec(tr) {
                Some(wid) => first_win_match(ws, Some(app), Some(wid), None, None, None),
                None => None,
            },
            None => None,
        }
    } else {
        None
    }
}

/// Strategy (alternate terminal only): a window whose title contains the
/// caller-supplied tab id.
pub open spec fn tab_id_strategy(
    app: Seq<char>,
    tab_id: Option<Seq<char>>,
    ws: Seq<WindowInfo>,
) -> Option<int> {
    if app == "iTerm2"@ {
        match tab_id {
            Some(t) => first_win_match(ws, Some(app), None, None, Some(t), None),
            None => None,
        }
    } else {
        None
    }
}

/// The first of two strategy results.
pub open spec fn opt_or(a: Option<int>, b: Option<int>) -> Option<int> {
    if a is Some {
        a
    } else {
        b
    }
}

/// What `find_window` returns: `None` on an empty filtered set, otherwise the
/// first strategy that yields a window, in priority order — cache, ancestry
/// (depth 10), working-directory title, tab reference, tab id, largest id.
pub open spec fn find_window_spec(
    cache: Seq<(String, u64)>,
    app: Seq<char>,
    sid: Seq<char>,
    sinfo: Option<SessionInfo>,
    tab_ref: Option<Seq<char>>,
    tab_id: Option<Seq<char>>,
    ws: Seq<WindowInfo>,
    pt: Seq<ProcessInfo>,
) -> Option<int> {
    if !filtered_has(ws, app) {
        None
    } else {
        opt_or(
            cache_strategy(cache, sid, Some(app), ws),
            opt_or(
                ancestry_strategy(sinfo, Some(app), ws, pt, 10),
                opt_or(
                    title_strategy(sinfo, Some(app), ws),
                    opt_or(
                        tab_reference_strategy(app, tab_ref, ws),
                        opt_or(tab_id_strategy(app, tab_id, ws), max_id_idx(ws, Some(app))),
                    ),
                ),
            ),
        )
    }
}

/// The first window owned by the nearest ancestor of `spid` (parent first,
/// at most `max_depth` ancestors).
fn ancestry_probe(
    ws: &Vec<WindowInfo>,
    app: Option<&str>,
    processes: &ProcessTracker,
    spid: u32,
    max_depth: usize,
) -> (r: Option<usize>)
    ensures
        match r {
            Some(i) => i < ws@.len() && chain_match(
                ws@,
                opt_view(app),
                ancestors(processes.entries@, spid, max_depth as nat),
            ) == Some(i as int),
            None => chain_match(
                ws@,
                opt_view(app),
                ancestors(processes.entries@, spid, max_depth as nat),
            ) is None,
        },
{
    let ghost pt = processes.entries@;
    let ghost appo = opt_view(app);
    let mut current: u32 = spid;
    let mut depth: usize = 0;
    while depth < max_depth
        invariant
            0 <= depth <= max_depth,
            appo == opt_view(app),
            pt == processes.entries@,
            chain_match(ws@, appo, ancestors(pt, spid, max_depth as nat)) == chain_match(
                ws@,
                appo,
                ancestors(pt, current, (max_depth - depth) as nat),
            ),
        decreases max_depth - depth,
    {
        match processes.get_parent_process_id(current) {
            None => {
                proof {
                    assert(ancestors(pt, current, (max_depth - depth) as nat)
                        =~= Seq::<u32>::empty());
                }
                return None;
            },
            Some(p) => {
                proof {
                    assert(ancestors(pt, current, (max_depth - depth) as nat) == seq![p]
                        + ancestors(pt, p, (max_depth - depth - 1) as nat));
                    let c = seq![p] + ancestors(pt, p, (max_depth - depth - 1) as nat);
                    assert(c[0] == p);
                    assert(c.drop_first() =~= ancestors(pt, p, (max_depth - depth - 1) as nat));
                }
                match find_first_window(ws, app, None, Some(p), None, None) {
                    Some(i) => {
                        return Some(i);
                    },
                    None => {},
                }
                current = p;
                depth = depth + 1;
            },
        }
    }
    proof {
        assert(ancestors(pt, current, 0) =~= Seq::<u32>::empty());
    }
    None
}

/// The first window owned by the nearest pid on the walk from `spid` itself
/// toward the root (at most `max_depth` pids, stopping at a root parent).
fn session_chain_probe(
    ws: &Vec<WindowInfo>,
    app: Option<&str>,
    processes: &ProcessTracker,
    spid: u32,
    max_depth: usize,
) -> (r: Option<usize>)
    ensures
        match r {
            Some(i) => i < ws@.len() && chain_match(
                ws@,
                opt_view(app),
                session_chain(processes.entries@, spid, max_depth as nat),
            ) == Some(i as int),
            None => chain_match(
                ws@,
                opt_view(app),
                session_chain(processes.entries@, spid, max_depth as nat),
            ) is None,
        },
{
    let ghost pt = processes.entries@;
    let ghost appo = opt_view(app);
    let mut current: u32 = spid;
    let mut depth: usize = 0;
    while depth < max_depth
        invariant
            0 <= depth <= max_depth,
            appo == opt_view(app),
            pt == processes.entries@,
            chain_match(ws@, appo, session_chain(pt, spid, max_depth as nat)) == chain_match(
                ws@,
                appo,
                session_chain(pt, current, (max_depth - depth) as nat),
            ),
        decreases max_depth - depth,
    {
        let ghost n = (max_depth - depth) as nat;
        let ghost tail = match parent_of(pt, current) {
            None => Seq::<u32>::empty(),
            Some(p) => if p == 0 || p == 1 {
                Seq::<u32>::empty()
            } else {
                session_chain(pt, p, (n - 1) as nat)
            },
        };
        proof {
            assert(session_chain(pt, current, n) == seq![current] + tail);
            let c = seq![current] + tail;
            assert(c[0] == current);
            assert(c.drop_first() =~= tail);
        }
        match find_first_window(ws, app, None, Some(current), None, None) {
            Some(i) => {
                return Some(i);
            },
            None => {},
        }
        match processes.get_parent_process_id(current) {
            None => {
                proof {
                    assert(chain_match(ws@, appo, tail) is None);
                }
                return None;
            },
            Some(p) => {
                if p == 0 || p == 1 {
                    proof {
                        assert(chain_match(ws@, appo, tail) is None);
                    }
                    return None;
                }
                current = p;
                depth = depth + 1;
            },
        }
    }
    proof {
        assert(session_chain(pt, current, 0) =~= Seq::<u32>::empty());
    }
    None
}

/// Window matching with a session-to-window-id cache.
pub struct WindowMatcher {
    session_window_cache: Vec<(String, u64)>,
}

impl WindowMatcher {
    /// The cache's entries.
    pub closed spec fn cache(&self) -> Seq<(String, u64)> {
        self.session_window_cache@
    }

    /// The cache holds at most one entry per session id.
    pub open spec fn wf(&self) -> bool {
        assoc_wf(self.cache())
    }

    /// A matcher with an empty cache.
    pub fn new() -> (r: Self)
        ensures
            r.wf(),
            forall|k: Seq<char>| assoc_get(r.cache(), k) is None,
    {
        WindowMatcher { session_window_cache: Vec::new() }
    }

    /// The cached window id for a session, if any.
    fn cache_lookup(&self, session_id: &str) -> (r: Option<u64>)
        ensures
            r == assoc_get(self.cache(), session_id@),
    {
        let n = self.session_window_cache.len();
        let mut i: usize = 0;
        proof {
            assert(self.cache().subrange(0, n as int) =~= self.cache());
        }
        while i < n
            invariant
                n == self.cache().len(),
                0 <= i <= n,
                assoc_get(self.cache(), session_id@) == assoc_get(
                    self.cache().subrange(i as int, n as int),
                    session_id@,
                ),
            decreases n - i,
        {
            if str_eq(self.session_window_cache[i].0.as_str(), session_id) {
                proof {
                    let rest = self.cache().subrange(i as int, n as int);
                    assert(rest[0] == self.cache()[i as int]);
                }
                return Some(self.session_window_cache[i].1);
            }
            proof {
                let rest = self.cache().subrange(i as int, n as int);
                assert(rest.drop_first() =~= self.cache().subrange(i + 1, n as int));
            }
            i = i + 1;
        }
        proof {
            assert(self.cache().subrange(n as int, n as int) =~= Seq::<(String, u64)>::empty());
        }
        None
    }

    /// Record (or overwrite) the cached window id for a session.
    fn cache_insert(&mut self, session_id: &str, wid: u64)
        requires
            old(self).wf(),
        ensures
            final(self).wf(),
            assoc_get(final(self).cache(), session_id@) == Some(wid),
            forall|k: Seq<char>|
                k != session_id@ ==> assoc_get(final(self).cache(), k) == assoc_get(
                    old(self).cache(),
                    k,
                ),
    {
        let n = self.session_window_cache.len();
        let mut i: usize = 0;
        while i < n
            invariant
                old(self).wf(),
                self.session_window_cache@ == old(self).session_window_cache@,
                n == self.cache().len(),
                0 <= i <= n,
                forall|j: int| 0 <= j < i ==> (#[trigger] self.cache()[j]).0@ != session_id@,
            decreases n - i,
        {
            if str_eq(self.session_window_cache[i].0.as_str(), session_id) {
                let p = (String::from_str(session_id), wid);
                proof {
                    lemma_assoc_update(self.session_window_cache@, i as int, p);
                }
                self.session_window_cache[i] = p;
                return;
            }
            i = i + 1;
        }
        proof {
            lemma_assoc_get_none(self.session_window_cache@, session_id@);
        }
        let p = (String::from_str(session_id), wid);
        proof {
            lemma_assoc_push(self.session_window_cache@, p);
        }
        self.session_window_cache.push(p);
    }

    /// Clear the cached window mapping for one session; a no-op when none is
    /// cached.
    pub fn clear_session_cache(&mut self, session_id: &str)
        requires
            old(self).wf(),
        ensures
            final(self).wf(),
            assoc_get(final(self).cache(), session_id@) is None,
            forall|k: Seq<char>|
                k != session_id@ ==> assoc_get(final(self).cache(), k) == assoc_get(
                    old(self).cache(),
                    k,
                ),
    {
        let n = self.session_window_cache.len();
        let mut i: usize = 0;
        while i < n
            invariant
                old(self).wf(),
                self.session_window_cache@ == old(self).session_window_cache@,
                n == self.cache().len(),
                0 <= i <= n,
                forall|j: int| 0 <= j < i ==> (#[trigger] self.cache()[j]).0@ != session_id@,
            decreases n - i,
        {
            if str_eq(self.session_window_cache[i].0.as_str(), session_id) {
                proof {
                    lemma_assoc_remove(self.session_window_cache@, i as int);
                }
                self.session_window_cache.remove(i);
                return;
            }
            i = i + 1;
        }
        proof {
            lemma_assoc_get_none(self.session_window_cache@, session_id@);
        }
    }

    /// Clear every cached window mapping.
    pub fn clear_all_cache(&mut self)
        ensures
            final(self).wf(),
            forall|k: Seq<char>| assoc_get(final(self).cache(), k) is None,
    {
        self.session_window_cache.clear();
    }

    /// Find the window for a session of a known terminal application.
    ///
    /// Returns the index into `terminal_windows` that the strategy chain
    /// picks (see `find_window_spec`), or `None` when no window of
    /// `terminal_app` is in the snapshot. On success the session's cache
    /// entry is rewritten to the returned window's id; on failure the cache
    /// is untouched.
    pub fn find_window(
        &mut self,
        terminal_app: &str,
        session_id: &str,
        session_info: Option<&SessionInfo>,
        tab_reference: Option<&str>,
        tab_id: Option<&str>,
        terminal_windows: &Vec<WindowInfo>,
        processes: &ProcessTracker,
    ) -> (r: Option<usize>)
        requires
            old(self).wf(),
        ensures
            final(self).wf(),
            ({
                let spec_r = find_window_spec(
                    old(self).cache(),
                    terminal_app@,
                    session_id@,
                    match session_info {
                        Some(si) => Some(*si),
                        None => None,
                    },
                    opt_view(tab_reference),
                    opt_view(tab_id),
                    terminal_windows@,
                    processes.entries@,
                );
                match r {
                    Some(i) => spec_r == Some(i as int) && i < terminal_windows@.len()
                        && assoc_get(final(self).cache(), session_id@) == Some(
                        terminal_windows@[i as int].window_id,
                    ) && (forall|k: Seq<char>|
                        k != session_id@ ==> assoc_get(final(self).cache(), k) == assoc_get(
                            old(self).cache(),
                            k,
                        )),
                    None => spec_r is None && final(self).cache() == old(self).cache(),
                }
            }),
            !filtered_has(terminal_windows@, terminal_app@) ==> r is None,
    {
        let ghost cache0 = self.cache();
        let ghost appo: Option<Seq<char>> = Some(terminal_app@);
        let ghost sinfo_spec: Option<SessionInfo> = match session_info {
            Some(si) => Some(*si),
            None => None,
        };
        let ghost pt = processes.entries@;
        let ghost ws = terminal_windows@;

        // Strategy 6 doubles as the emptiness test: it is `None` exactly when
        // no window of this terminal application is in the snapshot.
        let fallback = find_max_id(terminal_windows, Some(terminal_app));
        proof {
            lemma_max_id_idx(ws, appo);
        }
        let b = match fallback {
            Some(b) => b,
            None => {
                proof {
                    assert(!filtered_has(ws, terminal_app@));
                }
                return None;
            },
        };
        proof {
            let bi = max_id_idx(ws, appo).unwrap();
            assert(app_ok(ws[bi], appo));
            assert(filtered_has(ws, terminal_app@));
        }

        // Strategy 1: a cached id, validated against the filtered snapshot.
        match self.cache_lookup(session_id) {
            Some(wid) => {
                match find_first_window(
                    terminal_windows,
                    Some(terminal_app),
                    Some(wid),
                    None,
                    None,
                    None,
                ) {
                    Some(i) => {
                        self.cache_insert(session_id, terminal_windows[i].window_id);
                        return Some(i);
                    },
                    None => {},
                }
            },
            None => {},
        }
        assert(cache_strategy(cache0, session_id@, appo, ws) is None);

        // Strategy 2: the nearest process ancestor that owns a window.
        if let Some(si) = session_info {
            if let Some(spid) = si.pid {
                match ancestry_probe(terminal_windows, Some(terminal_app), processes, spid, 10) {
                    Some(i) => {
                        self.cache_insert(session_id, terminal_windows[i].window_id);
                        return Some(i);
                    },
                    None => {},
                }
            }
        }
        assert(ancestry_strategy(sinfo_spec, appo, ws, pt, 10) is None);

        // Strategy 3: a title mentioning the working directory.
        if let Some(si) = session_info {
            if si.working_dir.as_str().unicode_len() > 0 {
                let dir = file_name(si.working_dir.as_str());
                match find_first_window(
                    terminal_windows,
                    Some(terminal_app),
                    None,
                    None,
                    Some(dir),
                    Some(si.working_dir.as_str()),
                ) {
                    Some(i) => {
                        self.cache_insert(session_id, terminal_windows[i].window_id);
                        return Some(i);
                    },
                    None => {},
                }
            }
        }
        assert(title_strategy(sinfo_spec, appo, ws) is None);

        // Strategy 4: an explicit tab reference (primary platform terminal).
        if str_eq(terminal_app, "Terminal") {
            if let Some(tr) = tab_reference {
                match WindowEnumerator::extract_window_id(tr) {
                    Some(wid) => {
                        match find_first_window(
                            terminal_windows,
                            Some(terminal_app),
                            Some(wid),
                            None,
                            None,
                            None,
                        ) {
                            Some(i) => {
                                self.cache_insert(session_id, terminal_windows[i].window_id);
                                return Some(i);
                            },
                            None => {},
                        }
                    },
                    None => {},
                }
            }
        }
        assert(tab_reference_strategy(terminal_app@, opt_view(tab_reference), ws) is None);

        // Strategy 5: an explicit tab id (alternate terminal).
        if str_eq(terminal_app, "iTerm2") {
            if let Some(tid) = tab_id {
                match find_first_window(
                    terminal_windows,
                    Some(terminal_app),
                    None,
                    None,
                    Some(tid),
                    None,
                ) {
                    Some(i) => {
                        self.cache_insert(session_id, terminal_windows[i].window_id);
                        return Some(i);
                    },
                    None => {},
                }
            }
        }
        assert(tab_id_strategy(terminal_app@, opt_view(tab_id), ws) is None);

        // Strategy 6: the most recently created window (largest id).
        self.cache_insert(session_id, terminal_windows[b].window_id);
        Some(b)
    }

    /// Find a window for a session whose terminal application is unknown.
    ///
    /// Returns the index into `all_windows` that the strategy chain picks
    /// (see `find_for_session_spec`); no application filter is applied. On
    /// success the session's cache entry is rewritten; on failure the cache
    /// is untouched.
    pub fn find_window_for_session(
        &mut self,
        session_id: &str,
        session_info: &SessionInfo,
        all_windows: &Vec<WindowInfo>,
        processes: &ProcessTracker,
    ) -> (r: Option<usize>)
        requires
            old(self).wf(),
        ensures
            final(self).wf(),
            ({
                let spec_r = find_for_session_spec(
                    old(self).cache(),
                    session_id@,
                    *session_info,
                    all_windows@,
                    processes.entries@,
                );
                match r {
                    Some(i) => spec_r == Some(i as int) && i < all_windows@.len() && assoc_get(
                        final(self).cache(),
                        session_id@,
                    ) == Some(all_windows@[i as int].window_id) && (forall|k: Seq<char>|
                        k != session_id@ ==> assoc_get(final(self).cache(), k) == assoc_get(
                            old(self).cache(),
                            k,
                        )),
                    None => spec_r is None && final(self).cache() == old(self).cache(),
                }
            }),
    {
        let ghost cache0 = self.cache();
        let ghost pt = processes.entries@;
        let ghost ws = all_windows@;

        // Cache hint, validated against the current snapshot.
        match self.cache_lookup(session_id) {
            Some(wid) => {
                match find_first_window(all_windows, None, Some(wid), None, None, None) {
                    Some(i) => {
                        self.cache_insert(session_id, all_windows[i].window_id);
                        return Some(i);
                    },
                    None => {},
                }
            },
            None => {},
        }
        assert(cache_strategy(cache0, session_id@, None, ws) is None);

        // Walk from the session's own pid toward the root.
        if let Some(spid) = session_info.pid {
            match session_chain_probe(all_windows, None, processes, spid, 20) {
                Some(i) => {
                    self.cache_insert(session_id, all_windows[i].window_id);
                    return Some(i);
                },
                None => {},
            }
        }
        assert((match session_info.pid {
            Some(pid) => chain_match(ws, None, session_chain(pt, pid, 20)),
            None => None,
        }) is None);

        // A title mentioning the working directory.
        if session_info.working_dir.as_str().unicode_len() > 0 {
            let dir = file_name(session_info.working_dir.as_str());
            match find_first_window(
                all_windows,
                None,
                None,
                None,
                Some(dir),
                Some(session_info.working_dir.as_str()),
            ) {
                Some(i) => {
                    self.cache_insert(session_id, all_windows[i].window_id);
                    return Some(i);
                },
                None => {},
            }
        }
        assert(title_strategy(Some(*session_info), None, ws) is None);

        // A title mentioning the session's activity status.
        if let Some(activity) = &session_info.activity_status {
            if activity.as_str().unicode_len() > 0 {
                match find_first_window(
                    all_windows,
                    None,
                    None,
                    None,
                    Some(activity.as_str()),
                    None,
                ) {
                    Some(i) => {
                        self.cache_insert(session_id, all_windows[i].window_id);
                        return Some(i);
                    },
                    None => {},
                }
            }
        }
        assert(activity_strategy(*session_info, ws) is None);

        None
    }
}

/// Strategy: a window whose title contains the session's activity status;
/// an empty or absent status matches nothing.
pub open spec fn activity_strategy(sinfo: SessionInfo, ws: Seq<WindowInfo>) -> Option<int> {
    match sinfo.activity_status {
        Some(a) => if a@.len() > 0 {
            first_win_match(ws, None, None, None, Some(a@), None)
        } else {
            None
        },
        None => None,
    }
}

/// What `find_window_for_session` returns: the first strategy that yields a
/// window, in priority order — cache, the walk from the session's pid (depth
/// 20, stopping at a root parent), working-directory title, activity-status
/// title — or `None` when all fail.
pub open spec fn find_for_session_spec(
    cache: Seq<(String, u64)>,
    sid: Seq<char>,
    sinfo: SessionInfo,
    ws: Seq<WindowInfo>,
    pt: Seq<ProcessInfo>,
) -> Option<int> {
    opt_or(
        cache_strategy(cache, sid, None, ws),
        opt_or(
            match sinfo.pid {
                Some(pid) => chain_match(ws, None, session_chain(pt, pid, 20)),
                None => None,
            },
            opt_or(title_strategy(Some(sinfo), None, ws), activity_strategy(sinfo, ws)),
        ),
    )
}

/// `find_window_for_session` reads the cache only at the session's own key.
pub proof fn lemma_find_for_session_cache(
    c1: Seq<(String, u64)>,
    c2: Seq<(String, u64)>,
    sid: Seq<char>,
    sinfo: SessionInfo,
    ws: Seq<WindowInfo>,
    pt: Seq<ProcessInfo>,
)
    requires
        assoc_get(c1, sid) == assoc_get(c2, sid),
    ensures
        find_for_session_spec(c1, sid, sinfo, ws, pt) == find_for_session_spec(
            c2,
            sid,
            sinfo,
            ws,
            pt,
        ),
{
    assert(cache_strategy(c1, sid, None, ws) == cache_strategy(c2, sid, None, ws));
}


/// A chain match picks a window satisfying the owner and application
/// criteria for some pid on the chain.
proof fn lemma_chain_match_sound(ws: Seq<WindowInfo>, app: Option<Seq<char>>, chain: Seq<u32>)
    ensures
        chain_match(ws, app, chain) matches Some(i) ==> 0 <= i < ws.len() && app_ok(ws[i], app),
    decreases chain.len(),
{
    if chain.len() > 0 {
        lemma_first_win_match(ws, app, None, Some(chain[0]), None, None);
        lemma_chain_match_sound(ws, app, chain.drop_first());
    }
}

/// When the nearest pid on the chain with a window is at position `d`, the
/// chain match is that pid's first window.
proof fn lemma_chain_match_at(
    ws: Seq<WindowInfo>,
    app: Option<Seq<char>>,
    chain: Seq<u32>,
    d: int,
)
    requires
        0 <= d < chain.len(),
        first_win_match(ws, app, None, Some(chain[d]), None, None) is Some,
        forall|d2: int|
            0 <= d2 < d ==> first_win_match(ws, app, None, Some(#[trigger] chain[d2]), None, None)
                is None,
    ensures
        chain_match(ws, app, chain) == first_win_match(ws, app, None, Some(chain[d]), None, None),
    decreases d,
{
    if d == 0 {
    } else {
        assert(first_win_match(ws, app, None, Some(chain[0]), None, None) is None);
        assert(forall|d2: int|
            0 <= d2 < d - 1 ==> #[trigger] chain.drop_first()[d2] == chain[d2 + 1]);
        assert(chain.drop_first()[d - 1] == chain[d]);
        lemma_chain_match_at(ws, app, chain.drop_first(), d - 1);
    }
}

/// Any window the strategy chain returns belongs to the requested terminal
/// application.
pub proof fn lemma_find_window_in_filtered(
    cache: Seq<(String, u64)>,
    app: Seq<char>,
    sid: Seq<char>,
    sinfo: Option<SessionInfo>,
    tab_ref: Option<Seq<char>>,
    tab_id: Option<Seq<char>>,
    ws: Seq<WindowInfo>,
    pt: Seq<ProcessInfo>,
)
    ensures
        find_window_spec(cache, app, sid, sinfo, tab_ref, tab_id, ws, pt) matches Some(i) ==> 0
            <= i < ws.len() && ws[i].terminal_app@ == app,
{
    match assoc_get(cache, sid) {
        Some(wid) => {
            lemma_first_win_match(ws, Some(app), Some(wid), None, None, None);
        },
        None => {},
    }
    match sinfo {
        Some(si) => {
            match si.pid {
                Some(pid) => {
                    lemma_chain_match_sound(ws, Some(app), ancestors(pt, pid, 10));
                },
                None => {},
            }
            if si.working_dir@.len() > 0 {
                lemma_first_win_match(
                    ws,
                    Some(app),
                    None,
                    None,
                    Some(file_name_spec(si.working_dir@)),
                    Some(si.working_dir@),
                );
            }
        },
        None => {},
    }
    if app == "Terminal"@ {
        match tab_ref {
            Some(tr) => {
                match extract_window_id_spec(tr) {
                    Some(wid) => {
                        lemma_first_win_match(ws, Some(app), Some(wid), None, None, None);
                    },
                    None => {},
                }
            },
            None => {},
        }
    }
    if app == "iTerm2"@ {
        match tab_id {
            Some(t) => {
                lemma_first_win_match(ws, Some(app), None, None, Some(t), None);
            },
            None => {},
        }
    }
    lemma_max_id_idx(ws, Some(app));
}

/// Nearest-ancestor precedence: when the cache yields no valid hit and the
/// nearest ancestor (within depth 10) of the session's pid owning a window
/// of the requested application sits at chain position `d`, `find_window`
/// picks the first window owned by that ancestor — never one matched by a
/// farther ancestor, a title, a tab identity, or the largest-id fallback.
pub proof fn lemma_nearest_ancestor_precedence(
    cache: Seq<(String, u64)>,
    app: Seq<char>,
    sid: Seq<char>,
    sinfo: SessionInfo,
    tab_ref: Option<Seq<char>>,
    tab_id: Option<Seq<char>>,
    ws: Seq<WindowInfo>,
    pt: Seq<ProcessInfo>,
    d: int,
)
    requires
        cache_strategy(cache, sid, Some(app), ws) is None,
        sinfo.pid is Some,
        0 <= d < ancestors(pt, sinfo.pid.unwrap(), 10).len(),
        first_win_match(
            ws,
            Some(app),
            None,
            Some(ancestors(pt, sinfo.pid.unwrap(), 10)[d]),
            None,
            None,
        ) is Some,
        forall|d2: int|
            0 <= d2 < d ==> first_win_match(
                ws,
                Some(app),
                None,
                Some(#[trigger] ancestors(pt, sinfo.pid.unwrap(), 10)[d2]),
                None,
                None,
            ) is None,
    ensures
        find_window_spec(cache, app, sid, Some(sinfo), tab_ref, tab_id, ws, pt)
            == first_win_match(
            ws,
            Some(app),
            None,
            Some(ancestors(pt, sinfo.pid.unwrap(), 10)[d]),
            None,
            None,
        ),
        find_window_spec(cache, app, sid, Some(sinfo), tab_ref, tab_id, ws, pt) matches Some(i)
            && ws[i].owner_pid == ancestors(pt, sinfo.pid.unwrap(), 10)[d]
            && ws[i].terminal_app@ == app,
{
    let chain = ancestors(pt, sinfo.pid.unwrap(), 10);
    lemma_chain_match_at(ws, Some(app), chain, d);
    lemma_first_win_match(ws, Some(app), None, Some(chain[d]), None, None);
    let i = first_win_match(ws, Some(app), None, Some(chain[d]), None, None).unwrap();
    assert(app_ok(ws[i], Some(app)));
    assert(filtered_has(ws, app));
}

/// Working-directory precedence: when neither the cache nor ancestry yields
/// a window and exactly one window of the requested application has a title
/// containing the final component of the session's working directory, that
/// window is returned.
pub proof fn lemma_working_dir_match(
    cache: Seq<(String, u64)>,
    app: Seq<char>,
    sid: Seq<char>,
    sinfo: SessionInfo,
    tab_ref: Option<Seq<char>>,
    tab_id: Option<Seq<char>>,
    ws: Seq<WindowInfo>,
    pt: Seq<ProcessInfo>,
    i: int,
)
    requires
        cache_strategy(cache, sid, Some(app), ws) is None,
        ancestry_strategy(Some(sinfo), Some(app), ws, pt, 10) is None,
        sinfo.working_dir@.len() > 0,
        0 <= i < ws.len(),
        app_ok(ws[i], Some(app)),
        title_contains(ws[i], file_name_spec(sinfo.working_dir@)),
        forall|j: int|
            0 <= j < ws.len() && j != i && app_ok(#[trigger] ws[j], Some(app)) ==> !title_contains(
                ws[j],
                file_name_spec(sinfo.working_dir@),
            ),
    ensures
        find_window_spec(cache, app, sid, Some(sinfo), tab_ref, tab_id, ws, pt) == Some(i),
{
    let wd = sinfo.working_dir@;
    let dir = file_name_spec(wd);
    assert(filtered_has(ws, app));
    // A title containing the full path contains its final component, so the
    // unique dir-name window is the only candidate.
    assert forall|j: int|
        0 <= j < ws.len() && j != i implies !win_match_ok(
        #[trigger] ws[j],
        Some(app),
        None,
        None,
        Some(dir),
        Some(wd),
    ) by {
        if app_ok(ws[j], Some(app)) {
            if title_contains(ws[j], wd) {
                match ws[j].title {
                    Some(t) => {
                        lemma_file_name_substring(wd);
                        lemma_substring_trans(t@, wd, dir);
                    },
                    None => {},
                }
            }
        }
    }
    assert(win_match_ok(ws[i], Some(app), None, None, Some(dir), Some(wd)));
    lemma_first_win_match_at(ws, Some(app), None, None, Some(dir), Some(wd), i);
    assert(title_strategy(Some(sinfo), Some(app), ws) == Some(i));
}

/// Stale-cache validity: a cached id with no window of the requested
/// application in the current snapshot is ignored — the chain falls through
/// to the remaining strategies — and no window with that id is ever
/// returned.
pub proof fn lemma_stale_cache_ignored(
    cache: Seq<(String, u64)>,
    app: Seq<char>,
    sid: Seq<char>,
    sinfo: Option<SessionInfo>,
    tab_ref: Option<Seq<char>>,
    tab_id: Option<Seq<char>>,
    ws: Seq<WindowInfo>,
    pt: Seq<ProcessInfo>,
    wid: u64,
)
    requires
        assoc_get(cache, sid) == Some(wid),
        forall|j: int|
            0 <= j < ws.len() && app_ok(#[trigger] ws[j], Some(app)) ==> ws[j].window_id != wid,
    ensures
        cache_strategy(cache, sid, Some(app), ws) is None,
        find_window_spec(cache, app, sid, sinfo, tab_ref, tab_id, ws, pt) == (if !filtered_has(
            ws,
            app,
        ) {
            None
        } else {
            opt_or(
                ancestry_strategy(sinfo, Some(app), ws, pt, 10),
                opt_or(
                    title_strategy(sinfo, Some(app), ws),
                    opt_or(
                        tab_reference_strategy(app, tab_ref, ws),
                        opt_or(tab_id_strategy(app, tab_id, ws), max_id_idx(ws, Some(app))),
                    ),
                ),
            )
        }),
        find_window_spec(cache, app, sid, sinfo, tab_ref, tab_id, ws, pt) matches Some(i)
            ==> ws[i].window_id != wid,
{
    assert forall|j: int| 0 <= j < ws.len() implies !win_match_ok(
        #[trigger] ws[j],
        Some(app),
        Some(wid),
        None,
        None,
        None,
    ) by {}
    lemma_first_win_match_none(ws, Some(app), Some(wid), None, None, None);
    lemma_find_window_in_filtered(cache, app, sid, sinfo, tab_ref, tab_id, ws, pt);
    match find_window_spec(cache, app, sid, sinfo, tab_ref, tab_id, ws, pt) {
        Some(i) => {
            assert(app_ok(ws[i], Some(app)));
        },
        None => {},
    }
}

} // verus!
