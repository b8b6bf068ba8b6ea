//! The authoritative session-to-window mapping and the registration,
//! lookup, focus and reconciliation operations over it.
//!
//! A session moves from untracked to tracked by a successful
//! `register_window` attempt and back by `unregister_window` (or by
//! `update_from_sessions` observing that the session is gone). The stored
//! snapshot record may go stale — a tracked window id may no longer exist on
//! screen — and staleness is accepted, not prevented: entries leave the map
//! only through those two paths.
//!
//! Waiting, window enumeration and the platform activation calls need the
//! OS; the embedding application performs them, driving the retry schedule
//! that `registration_schedule` lays out and handing each attempt's snapshot
//! to `register_window`.

use vstd::prelude::*;
use crate::assoc::{
    assoc_delete, assoc_find_index, assoc_get, assoc_set, assoc_wf, lemma_wf_drop_first,
};
use crate::process_tracker::ProcessInfo;
use crate::window_matcher::lemma_find_for_session_cache;
use crate::process_tracker::ProcessTracker;
use crate::text::str_eq;
use crate::window_enumerator::WindowInfo;
use crate::window_matcher::{
    find_for_session_spec, find_window_spec, opt_view, SessionInfo, WindowMatcher,
};

verus! {

/// The stored record `w` is the snapshot record `orig` re-labelled with the
/// session id it was matched to.
pub open spec fn adopted(w: WindowInfo, sid: Seq<char>, orig: WindowInfo) -> bool {
    &&& w.window_id == orig.window_id
    &&& w.owner_pid == orig.owner_pid
    &&& w.terminal_app@ == orig.terminal_app@
    &&& w.session_id@ == sid
    &&& w.created_at@ == orig.created_at@
    &&& w.tab_reference == orig.tab_reference
    &&& w.tab_id == orig.tab_id
    &&& w.bounds == orig.bounds
    &&& w.title == orig.title
}

/// The caller supplied an identity specific to the terminal application: a
/// tab reference for the primary platform terminal, a tab id for the
/// alternate one.
pub open spec fn explicit_identity(
    app: Seq<char>,
    tab_ref: Option<Seq<char>>,
    tab_id: Option<Seq<char>>,
) -> bool {
    ||| (app == "Terminal"@ && tab_ref is Some)
    ||| (app == "iTerm2"@ && tab_id is Some)
}

/// Some live session carries the id `k`.
pub open spec fn has_session(ss: Seq<SessionInfo>, k: Seq<char>) -> bool {
    exists|i: int| 0 <= i < ss.len() && (#[trigger] ss[i]).id@ == k
}

/// One of the first `l` sessions carries the id `k`.
pub open spec fn id_in_prefix(ss: Seq<SessionInfo>, l: int, k: Seq<char>) -> bool {
    exists|j: int| 0 <= j < l && (#[trigger] ss[j]).id@ == k
}

/// The map entries whose session is still live, in order.
pub open spec fn retained(m: Seq<(String, WindowInfo)>, ss: Seq<SessionInfo>) -> Seq<
    (String, WindowInfo),
>
    decreases m.len(),
{
    if m.len() == 0 {
        Seq::empty()
    } else {
        (if has_session(ss, m[0].0@) {
            seq![m[0]]
        } else {
            Seq::<(String, WindowInfo)>::empty()
        }) + retained(m.drop_first(), ss)
    }
}

/// Retention behaves like filtering the map by liveness: a live key keeps its
/// value, a dead key is gone, and distinctness is kept.
proof fn lemma_retained(m: Seq<(String, WindowInfo)>, ss: Seq<SessionInfo>)
    requires
        assoc_wf(m),
    ensures
        assoc_wf(retained(m, ss)),
        forall|k: Seq<char>| #![trigger assoc_get(retained(m, ss), k)]
            assoc_get(retained(m, ss), k) == (if has_session(ss, k) {
                assoc_get(m, k)
            } else {
                None::<WindowInfo>
            }),
        forall|j: int|
            0 <= j < retained(m, ss).len() ==> exists|l: int|
                0 <= l < m.len() && #[trigger] retained(m, ss)[j] == #[trigger] m[l],
    decreases m.len(),
{
    if m.len() == 0 {
    } else {
        lemma_wf_drop_first(m);
        lemma_retained(m.drop_first(), ss);
        let mdf = m.drop_first();
        let rest = retained(mdf, ss);
        if has_session(ss, m[0].0@) {
            let t = retained(m, ss);
            assert(t =~= seq![m[0]] + rest);
            assert(t[0] == m[0]);
            assert(t.drop_first() =~= rest);
            assert forall|j: int| 0 <= j < t.len() implies exists|l: int|
                0 <= l < m.len() && #[trigger] t[j] == #[trigger] m[l] by {
                if j == 0 {
                    assert(t[0] == m[0]);
                } else {
                    let l = choose|l: int| 0 <= l < mdf.len() && rest[j - 1] == mdf[l];
                    assert(mdf[l] == m[l + 1]);
                    assert(t[j] == m[l + 1]);
                }
            }
            assert forall|x: int, y: int| 0 <= x < y < t.len() implies (#[trigger] t[x]).0@
                != (#[trigger] t[y]).0@ by {
                if x == 0 {
                    let l = choose|l: int| 0 <= l < mdf.len() && rest[y - 1] == mdf[l];
                    assert(mdf[l] == m[l + 1]);
                    assert(t[y] == m[l + 1]);
                    assert(m[0].0@ != m[l + 1].0@);
                } else {
                    assert(t[x] == rest[x - 1]);
                    assert(t[y] == rest[y - 1]);
                }
            }
            assert forall|k: Seq<char>|
                assoc_get(t, k) == (if has_session(ss, k) {
                    assoc_get(m, k)
                } else {
                    None::<WindowInfo>
                }) by {
                if m[0].0@ == k {
                    assert(assoc_get(t, k) == Some(m[0].1));
                    assert(assoc_get(m, k) == Some(m[0].1));
                } else {
                    assert(assoc_get(t, k) == assoc_get(rest, k));
                    assert(assoc_get(m, k) == assoc_get(mdf, k));
                }
            }
        } else {
            let t = retained(m, ss);
            assert(t =~= rest);
            assert forall|k: Seq<char>|
                assoc_get(t, k) == (if has_session(ss, k) {
                    assoc_get(m, k)
                } else {
                    None::<WindowInfo>
                }) by {
                if m[0].0@ == k {
                    assert(!has_session(ss, k));
                } else {
                    assert(assoc_get(m, k) == assoc_get(mdf, k));
                }
            }
        }
    }
}

/// Whether some live session carries the id `key`.
fn sessions_contain(sessions: &Vec<SessionInfo>, key: &str) -> (r: bool)
    ensures
        r == has_session(sessions@, key@),
{
    let n = sessions.len();
    let mut i: usize = 0;
    while i < n
        invariant
            n == sessions@.len(),
            0 <= i <= n,
            forall|j: int| 0 <= j < i ==> (#[trigger] sessions@[j]).id@ != key@,
        decreases n - i,
    {
        if str_eq(sessions[i].id.as_str(), key) {
            assert(has_session(sessions@, key@));
            return true;
        }
        i = i + 1;
    }
    false
}

/// The session at `l` is the only occurrence of its id in the list.
pub open spec fn unique_session_id(ss: Seq<SessionInfo>, l: int) -> bool {
    forall|j: int| 0 <= j < ss.len() && (#[trigger] ss[j]).id@ == ss[l].id@ ==> j == l
}

/// The recorded outcome for one live session after reconciliation: a session
/// tracked before keeps its record, an untracked one holds exactly what its
/// probe against the prior cache found.
spec fn processed_ok(
    s: SessionInfo,
    m1: Seq<(String, WindowInfo)>,
    cache0: Seq<(String, u64)>,
    ws: Seq<WindowInfo>,
    pt: Seq<ProcessInfo>,
    m: Seq<(String, WindowInfo)>,
    c: Seq<(String, u64)>,
) -> bool {
    if assoc_get(m1, s.id@) is Some {
        assoc_get(m, s.id@) == assoc_get(m1, s.id@) && assoc_get(c, s.id@) == assoc_get(
            cache0,
            s.id@,
        )
    } else {
        match find_for_session_spec(cache0, s.id@, s, ws, pt) {
            Some(i) => {
                &&& assoc_get(m, s.id@) matches Some(w) && adopted(w, s.id@, ws[i])
                &&& assoc_get(c, s.id@) == Some(ws[i].window_id)
            },
            None => assoc_get(m, s.id@) is None && assoc_get(c, s.id@) == assoc_get(
                cache0,
                s.id@,
            ),
        }
    }
}

/// Tracks which on-screen terminal window belongs to which session.
pub struct WindowTracker {
    session_window_map: Vec<(String, WindowInfo)>,
    window_matcher: WindowMatcher,
}

impl WindowTracker {
    /// The authoritative session-to-window entries.
    pub closed spec fn map(&self) -> Seq<(String, WindowInfo)> {
        self.session_window_map@
    }

    /// The matcher, with its secondary cache.
    pub closed spec fn matcher(&self) -> WindowMatcher {
        self.window_matcher
    }

    /// At most one entry per session, in the map and in the matcher's cache.
    pub open spec fn wf(&self) -> bool {
        assoc_wf(self.map()) && self.matcher().wf()
    }

    /// A tracker with no tracked session.
    pub fn new() -> (r: Self)
        ensures
            r.wf(),
            forall|k: Seq<char>| assoc_get(r.map(), k) is None,
            forall|k: Seq<char>| assoc_get(r.matcher().cache(), k) is None,
    {
        WindowTracker { session_window_map: Vec::new(), window_matcher: WindowMatcher::new() }
    }

    /// The waits, in milliseconds, between the registration attempts for a
    /// session: a single half-second wait when the caller supplied an
    /// explicit identity for the terminal application, else the progressive
    /// schedule whose attempts fall at cumulative offsets of 0.5 s, 1.5 s,
    /// 3.5 s and 6.5 s.
    pub fn registration_schedule(
        terminal_app: &str,
        tab_reference: Option<&str>,
        tab_id: Option<&str>,
    ) -> (r: Vec<u64>)
        ensures
            explicit_identity(terminal_app@, opt_view(tab_reference), opt_view(tab_id)) ==> r@
                =~= seq![500u64],
            !explicit_identity(terminal_app@, opt_view(tab_reference), opt_view(tab_id)) ==> r@
                =~= seq![500u64, 1000u64, 2000u64, 3000u64],
            r@.len() == 1 || (r@.len() == 4 && r@[0] == 500 && r@[0] + r@[1] == 1500 && r@[0]
                + r@[1] + r@[2] == 3500 && r@[0] + r@[1] + r@[2] + r@[3] == 6500),
    {
        let explicit = (str_eq(terminal_app, "Terminal") && tab_reference.is_some()) || (str_eq(
            terminal_app,
            "iTerm2",
        ) && tab_id.is_some());
        let mut r: Vec<u64> = Vec::new();
        r.push(500);
        if !explicit {
            r.push(1000);
            r.push(2000);
            r.push(3000);
        }
        proof {
            if explicit_identity(terminal_app@, opt_view(tab_reference), opt_view(tab_id)) {
                assert(r@ =~= seq![500u64]);
            } else {
                assert(r@ =~= seq![500u64, 1000u64, 2000u64, 3000u64]);
            }
        }
        r
    }

    /// One registration attempt against the supplied snapshot: match the
    /// session to a window (the matcher is given no `SessionInfo`, as the
    /// tracker has none) and, on success, store the matched record under the
    /// session id. Returns whether the session is now tracked by this
    /// attempt.
    ///
    /// The caller drives the waits between attempts (see
    /// `registration_schedule`) and stops at the first success.
    pub fn register_window(
        &mut self,
        session_id: &str,
        terminal_app: &str,
        tab_reference: Option<&str>,
        tab_id: Option<&str>,
        windows: &Vec<WindowInfo>,
        processes: &ProcessTracker,
    ) -> (r: bool)
        requires
            old(self).wf(),
        ensures
            final(self).wf(),
            ({
                let spec_r = find_window_spec(
                    old(self).matcher().cache(),
                    terminal_app@,
                    session_id@,
                    None,
                    opt_view(tab_reference),
                    opt_view(tab_id),
                    windows@,
                    processes.entries@,
                );
                match spec_r {
                    Some(i) => {
                        &&& r
                        &&& assoc_get(final(self).map(), session_id@) matches Some(w) && adopted(
                            w,
                            session_id@,
                            windows@[i],
                        )
                        &&& assoc_get(final(self).matcher().cache(), session_id@) == Some(
                            windows@[i].window_id,
                        )
                    },
                    None => {
                        &&& !r
                        &&& final(self).map() == old(self).map()
                        &&& final(self).matcher().cache() == old(self).matcher().cache()
                    },
                }
            }),
            forall|k: Seq<char>|
                k != session_id@ ==> assoc_get(final(self).map(), k) == assoc_get(
                    old(self).map(),
                    k,
                ),
            forall|k: Seq<char>|
                k != session_id@ ==> assoc_get(final(self).matcher().cache(), k) == assoc_get(
                    old(self).matcher().cache(),
                    k,
                ),
    {
        match self.window_matcher.find_window(
            terminal_app,
            session_id,
            None,
            tab_reference,
            tab_id,
            windows,
            processes,
        ) {
            Some(i) => {
                let mut w = windows[i].clone();
                w.session_id = String::from_str(session_id);
                assoc_set(&mut self.session_window_map, session_id, w);
                true
            },
            None => false,
        }
    }

    /// Stop tracking a session; a no-op when it is not tracked.
    pub fn unregister_window(&mut self, session_id: &str)
        requires
            old(self).wf(),
        ensures
            final(self).wf(),
            assoc_get(final(self).map(), session_id@) is None,
            forall|k: Seq<char>|
                k != session_id@ ==> assoc_get(final(self).map(), k) == assoc_get(
                    old(self).map(),
                    k,
                ),
            final(self).matcher() == old(self).matcher(),
    {
        assoc_delete(&mut self.session_window_map, session_id);
    }

    /// The tracked window record for a session, if any.
    pub fn window_info(&self, session_id: &str) -> (r: Option<WindowInfo>)
        ensures
            r == assoc_get(self.map(), session_id@),
    {
        match assoc_find_index(&self.session_window_map, session_id) {
            Some(i) => Some(self.session_window_map[i].1.clone()),
            None => None,
        }
    }

    /// Every tracked window record, in tracking order.
    pub fn all_tracked_windows(&self) -> (r: Vec<WindowInfo>)
        ensures
            r@.len() == self.map().len(),
            forall|i: int| 0 <= i < r@.len() ==> r@[i] == self.map()[i].1,
    {
        let n = self.session_window_map.len();
        let mut out: Vec<WindowInfo> = Vec::new();
        let mut i: usize = 0;
        while i < n
            invariant
                n == self.map().len(),
                0 <= i <= n,
                out@.len() == i,
                forall|j: int| 0 <= j < i ==> out@[j] == self.map()[j].1,
            decreases n - i,
        {
            out.push(self.session_window_map[i].1.clone());
            i = i + 1;
        }
        out
    }

    /// The window to activate for a session: the tracked record, or a
    /// descriptive error when the session is untracked. Activation itself is
    /// a platform call the embedding application makes with the returned
    /// record; an activation failure must not alter the stored mapping,
    /// which this borrow guarantees.
    pub fn focus_window(&self, session_id: &str) -> (r: Result<WindowInfo, String>)
        ensures
            match assoc_get(self.map(), session_id@) {
                Some(w) => r matches Ok(rw) && rw == w,
                None => r matches Err(e) && e@ == "No window registered for session: "@
                    + session_id@,
            },
    {
        match self.window_info(session_id) {
            Some(w) => Ok(w),
            None => {
                let mut msg = String::from_str("No window registered for session: ");
                msg.append(session_id);
                Err(msg)
            },
        }
    }

    /// Reconcile the tracked map against the live session list: drop every
    /// tracked session that is no longer live, then probe once (no retry
    /// schedule) for each live session that lacks a window, inserting on
    /// success.
    ///
    /// A live session tracked before keeps its record untouched. A live
    /// session whose id appears once in the list and that was untracked ends
    /// up holding exactly what one `find_window_for_session` probe against
    /// the prior cache state finds for it, and stays untracked when that
    /// probe fails.
    pub fn update_from_sessions(
        &mut self,
        sessions: &Vec<SessionInfo>,
        windows: &Vec<WindowInfo>,
        processes: &ProcessTracker,
    )
        requires
            old(self).wf(),
        ensures
            final(self).wf(),
            forall|k: Seq<char>|
                !has_session(sessions@, k) ==> assoc_get(#[trigger] final(self).map(), k) is None
                    && assoc_get(final(self).matcher().cache(), k) == assoc_get(
                    old(self).matcher().cache(),
                    k,
                ),
            forall|k: Seq<char>|
                has_session(sessions@, k) && assoc_get(old(self).map(), k) is Some ==> assoc_get(
                    #[trigger] final(self).map(),
                    k,
                ) == assoc_get(old(self).map(), k) && assoc_get(
                    final(self).matcher().cache(),
                    k,
                ) == assoc_get(old(self).matcher().cache(), k),
            forall|l: int|
                #![trigger sessions@[l]]
                0 <= l < sessions@.len() && unique_session_id(sessions@, l) ==> ({
                    let s = sessions@[l];
                    assoc_get(old(self).map(), s.id@) is None ==> match find_for_session_spec(
                        old(self).matcher().cache(),
                        s.id@,
                        s,
                        windows@,
                        processes.entries@,
                    ) {
                        Some(i) => {
                            &&& assoc_get(final(self).map(), s.id@) matches Some(w) && adopted(
                                w,
                                s.id@,
                                windows@[i],
                            )
                            &&& assoc_get(final(self).matcher().cache(), s.id@) == Some(
                                windows@[i].window_id,
                            )
                        },
                        None => assoc_get(final(self).map(), s.id@) is None && assoc_get(
                            final(self).matcher().cache(),
                            s.id@,
                        ) == assoc_get(old(self).matcher().cache(), s.id@),
                    }
                }),
    {
        let ghost map0 = self.map();
        let ghost cache0 = self.matcher().cache();
        let ghost ss = sessions@;
        let ghost ws = windows@;
        let ghost pt = processes.entries@;

        // First pass: keep only the entries whose session is still live.
        let n = self.session_window_map.len();
        let mut kept: Vec<(String, WindowInfo)> = Vec::new();
        let mut i: usize = 0;
        proof {
            assert(map0.subrange(0, n as int) =~= map0);
        }
        while i < n
            invariant
                n == map0.len(),
                self.session_window_map@ == map0,
                self.window_matcher == old(self).window_matcher,
                0 <= i <= n,
                retained(map0, ss) =~= kept@ + retained(map0.subrange(i as int, n as int), ss),
                ss == sessions@,
            decreases n - i,
        {
            let ghost m_i = map0.subrange(i as int, n as int);
            proof {
                assert(m_i[0] == map0[i as int]);
                assert(m_i.drop_first() =~= map0.subrange(i + 1, n as int));
            }
            if sessions_contain(sessions, self.session_window_map[i].0.as_str()) {
                let p = (
                    self.session_window_map[i].0.clone(),
                    self.session_window_map[i].1.clone(),
                );
                proof {
                    assert(p == map0[i as int]);
                    assert(retained(m_i, ss) =~= seq![map0[i as int]] + retained(
                        m_i.drop_first(),
                        ss,
                    ));
                }
                kept.push(p);
            } else {
                proof {
                    assert(retained(m_i, ss) =~= retained(m_i.drop_first(), ss));
                }
            }
            i = i + 1;
        }
        proof {
            assert(map0.subrange(n as int, n as int) =~= Seq::<(String, WindowInfo)>::empty());
            assert(retained(Seq::<(String, WindowInfo)>::empty(), ss)
                =~= Seq::<(String, WindowInfo)>::empty());
            assert(kept@ =~= retained(map0, ss));
            lemma_retained(map0, ss);
        }
        self.session_window_map = kept;
        let ghost m1 = self.map();

        // Second pass: one probe for each live session without a window.
        let sn = sessions.len();
        let mut l: usize = 0;
        while l < sn
            invariant
                sn == ss.len(),
                ss == sessions@,
                ws == windows@,
                pt == processes.entries@,
                self.wf(),
                assoc_wf(m1),
                forall|k: Seq<char>| #![trigger assoc_get(m1, k)]
                    assoc_get(m1, k) == (if has_session(ss, k) {
                        assoc_get(map0, k)
                    } else {
                        None::<WindowInfo>
                    }),
                0 <= l <= sn,
                forall|k: Seq<char>|
                    !id_in_prefix(ss, l as int, k) ==> assoc_get(#[trigger] self.map(), k)
                        == assoc_get(m1, k),
                forall|k: Seq<char>|
                    !id_in_prefix(ss, l as int, k) ==> assoc_get(
                        #[trigger] self.matcher().cache(),
                        k,
                    ) == assoc_get(cache0, k),
                forall|k: Seq<char>|
                    assoc_get(m1, k) is Some ==> assoc_get(#[trigger] self.map(), k) == assoc_get(
                        m1,
                        k,
                    ) && assoc_get(self.matcher().cache(), k) == assoc_get(cache0, k),
                forall|j: int|
                    #![trigger ss[j]]
                    0 <= j < l && unique_session_id(ss, j) ==> processed_ok(
                        ss[j],
                        m1,
                        cache0,
                        ws,
                        pt,
                        self.map(),
                        self.matcher().cache(),
                    ),
            decreases sn - l,
        {
            let s = &sessions[l];
            let sid = s.id.as_str();
            let ghost sidv = s.id@;
            match assoc_find_index(&self.session_window_map, sid) {
                Some(_) => {
                    proof {
                        assert(assoc_get(self.map(), sidv) is Some);
                        if unique_session_id(ss, l as int) {
                            assert(!id_in_prefix(ss, l as int, sidv)) by {
                                if id_in_prefix(ss, l as int, sidv) {
                                    let j0 = choose|j: int|
                                        0 <= j < l && (#[trigger] ss[j]).id@ == sidv;
                                    assert(ss[j0].id@ == ss[l as int].id@);
                                }
                            }
                            assert(assoc_get(self.map(), sidv) == assoc_get(m1, sidv));
                            assert(assoc_get(self.matcher().cache(), sidv) == assoc_get(
                                cache0,
                                sidv,
                            ));
                            assert(processed_ok(
                                ss[l as int],
                                m1,
                                cache0,
                                ws,
                                pt,
                                self.map(),
                                self.matcher().cache(),
                            ));
                        }
                        assert forall|k: Seq<char>|
                            !id_in_prefix(ss, l + 1, k) implies assoc_get(
                            #[trigger] self.map(),
                            k,
                        ) == assoc_get(m1, k) by {
                            assert(!id_in_prefix(ss, l as int, k));
                        }
                        assert forall|k: Seq<char>|
                            !id_in_prefix(ss, l + 1, k) implies assoc_get(
                            #[trigger] self.matcher().cache(),
                            k,
                        ) == assoc_get(cache0, k) by {
                            assert(!id_in_prefix(ss, l as int, k));
                        }
                    }
                },
                None => {
                    proof {
                        assert(assoc_get(self.map(), sidv) is None);
                        assert(assoc_get(m1, sidv) is None) by {
                            if assoc_get(m1, sidv) is Some {
                                assert(assoc_get(self.map(), sidv) == assoc_get(m1, sidv));
                            }
                        }
                        if unique_session_id(ss, l as int) {
                            assert(!id_in_prefix(ss, l as int, sidv)) by {
                                if id_in_prefix(ss, l as int, sidv) {
                                    let j0 = choose|j: int|
                                        0 <= j < l && (#[trigger] ss[j]).id@ == sidv;
                                    assert(ss[j0].id@ == ss[l as int].id@);
                                }
                            }
                            assert(assoc_get(self.matcher().cache(), sidv) == assoc_get(
                                cache0,
                                sidv,
                            ));
                            lemma_find_for_session_cache(
                                self.matcher().cache(),
                                cache0,
                                sidv,
                                *s,
                                ws,
                                pt,
                            );
                        }
                    }
                    let ghost cache_pre = self.matcher().cache();
                    let ghost map_pre = self.map();
                    match self.window_matcher.find_window_for_session(
                        sid,
                        s,
                        windows,
                        processes,
                    ) {
                        Some(wi) => {
                            let mut w = windows[wi].clone();
                            w.session_id = String::from_str(sid);
                            assoc_set(&mut self.session_window_map, sid, w);
                        },
                        None => {},
                    }
                    proof {
                        assert forall|j: int|
                            #![trigger ss[j]]
                            0 <= j < l + 1 && unique_session_id(ss, j) implies processed_ok(
                            ss[j],
                            m1,
                            cache0,
                            ws,
                            pt,
                            self.map(),
                            self.matcher().cache(),
                        ) by {
                            if j < l {
                                assert(ss[j].id@ != sidv) by {
                                    if ss[j].id@ == sidv {
                                        assert(ss[l as int].id@ == ss[j].id@);
                                    }
                                }
                                assert(assoc_get(self.map(), ss[j].id@) == assoc_get(
                                    map_pre,
                                    ss[j].id@,
                                ));
                                assert(assoc_get(self.matcher().cache(), ss[j].id@) == assoc_get(
                                    cache_pre,
                                    ss[j].id@,
                                ));
                            }
                        }
                        assert forall|k: Seq<char>|
                            !id_in_prefix(ss, l + 1, k) implies assoc_get(
                            #[trigger] self.map(),
                            k,
                        ) == assoc_get(m1, k) by {
                            assert(!id_in_prefix(ss, l as int, k));
                            assert(k != sidv);
                        }
                        assert forall|k: Seq<char>|
                            !id_in_prefix(ss, l + 1, k) implies assoc_get(
                            #[trigger] self.matcher().cache(),
                            k,
                        ) == assoc_get(cache0, k) by {
                            assert(!id_in_prefix(ss, l as int, k));
                            assert(k != sidv);
                        }
                        assert forall|k: Seq<char>|
                            assoc_get(m1, k) is Some implies assoc_get(#[trigger] self.map(), k)
                            == assoc_get(m1, k) && assoc_get(self.matcher().cache(), k)
                            == assoc_get(cache0, k) by {
                            assert(k != sidv);
                            assert(assoc_get(self.map(), k) == assoc_get(map_pre, k));
                            assert(assoc_get(self.matcher().cache(), k) == assoc_get(
                                cache_pre,
                                k,
                            ));
                        }
                    }
                },
            }
            l = l + 1;
        }
        proof {
            assert forall|k: Seq<char>|
                !has_session(ss, k) implies assoc_get(#[trigger] self.map(), k) is None
                && assoc_get(self.matcher().cache(), k) == assoc_get(cache0, k) by {
                assert(!id_in_prefix(ss, sn as int, k));
                assert(assoc_get(self.map(), k) == assoc_get(m1, k));
            }
            assert forall|k: Seq<char>|
                has_session(ss, k) && assoc_get(map0, k) is Some implies assoc_get(
                #[trigger] self.map(),
                k,
            ) == assoc_get(map0, k) && assoc_get(self.matcher().cache(), k) == assoc_get(
                cache0,
                k,
            ) by {
                assert(assoc_get(m1, k) == assoc_get(map0, k));
            }
            assert forall|l2: int|
                #![trigger ss[l2]]
                0 <= l2 < ss.len() && unique_session_id(ss, l2) implies ({
                let s = ss[l2];
                assoc_get(map0, s.id@) is None ==> match find_for_session_spec(
                    cache0,
                    s.id@,
                    s,
                    ws,
                    pt,
                ) {
                    Some(i) => {
                        &&& assoc_get(self.map(), s.id@) matches Some(w) && adopted(
                            w,
                            s.id@,
                            ws[i],
                        )
                        &&& assoc_get(self.matcher().cache(), s.id@) == Some(ws[i].window_id)
                    },
                    None => assoc_get(self.map(), s.id@) is None && assoc_get(
                        self.matcher().cache(),
                        s.id@,
                    ) == assoc_get(cache0, s.id@),
                }
            }) by {
                let s = ss[l2];
                if assoc_get(map0, s.id@) is None {
                    assert(has_session(ss, s.id@));
                    assert(assoc_get(m1, s.id@) is None);
                    assert(processed_ok(
                        s,
                        m1,
                        cache0,
                        ws,
                        pt,
                        self.map(),
                        self.matcher().cache(),
                    ));
                }
            }
        }
    }
}

} // verus!
