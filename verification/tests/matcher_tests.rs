use vibetunnel_core::process_tracker::{ProcessInfo, ProcessTracker};
use vibetunnel_core::window_enumerator::WindowInfo;
use vibetunnel_core::window_matcher::{SessionInfo, WindowMatcher};

fn win(id: u64, pid: u32, app: &str, title: Option<&str>) -> WindowInfo {
    WindowInfo {
        window_id: id,
        owner_pid: pid,
        terminal_app: app.to_string(),
        session_id: String::new(),
        created_at: "2024-01-01T00:00:00Z".to_string(),
        tab_reference: None,
        tab_id: None,
        bounds: None,
        title: title.map(|t| t.to_string()),
    }
}

fn session(id: &str, pid: Option<u32>, dir: &str, activity: Option<&str>) -> SessionInfo {
    SessionInfo {
        id: id.to_string(),
        pid,
        working_dir: dir.to_string(),
        name: None,
        activity_status: activity.map(|a| a.to_string()),
    }
}

fn table(entries: &[(u32, u32, &str)]) -> ProcessTracker {
    let mut t = ProcessTracker::new();
    for &(pid, ppid, name) in entries {
        t.add_entry(ProcessInfo { pid, ppid, name: name.to_string() });
    }
    t
}

#[test]
fn nearest_ancestor_wins_over_farther_and_fallback() {
    // pid 100 -> parent 50 (depth 1) -> grandparent 25 (depth 2).
    // A window is owned by both 50 and 25; the depth-1 ancestor's window must
    // win even though the depth-2 window has the larger id and a matching
    // title.
    let pt = table(&[(100, 50, "zsh"), (50, 25, "login"), (25, 1, "Terminal")]);
    let windows = vec![
        win(9, 25, "Terminal", Some("proj")),
        win(3, 50, "Terminal", None),
    ];
    let mut m = WindowMatcher::new();
    let si = session("s1", Some(100), "/home/u/proj", None);
    let r = m.find_window("Terminal", "s1", Some(&si), None, None, &windows, &pt);
    assert_eq!(r, Some(1));
    assert_eq!(windows[r.unwrap()].owner_pid, 50);
}

#[test]
fn ancestor_at_depth_two_found() {
    let pt = table(&[(100, 50, "zsh"), (50, 25, "login"), (25, 1, "Terminal")]);
    let windows = vec![win(7, 25, "Terminal", None), win(4, 999, "Terminal", None)];
    let mut m = WindowMatcher::new();
    let si = session("s1", Some(100), "", None);
    let r = m.find_window("Terminal", "s1", Some(&si), None, None, &windows, &pt);
    assert_eq!(r, Some(0));
}

#[test]
fn working_dir_title_match_when_no_ancestry() {
    // No process table entries, exactly one window titled with the final
    // path component.
    let pt = ProcessTracker::new();
    let windows = vec![
        win(1, 10, "Terminal", Some("vim - notes")),
        win(2, 11, "Terminal", Some("bash - myproject")),
        win(3, 12, "Terminal", None),
    ];
    let mut m = WindowMatcher::new();
    let si = session("s2", Some(77), "/home/u/myproject", None);
    let r = m.find_window("Terminal", "s2", Some(&si), None, None, &windows, &pt);
    assert_eq!(r, Some(1));
}

#[test]
fn full_path_title_match_counts_too() {
    let pt = ProcessTracker::new();
    let windows = vec![win(1, 10, "Terminal", Some("cwd: /srv/data"))];
    let mut m = WindowMatcher::new();
    let si = session("s2b", None, "/srv/data", None);
    let r = m.find_window("Terminal", "s2b", Some(&si), None, None, &windows, &pt);
    assert_eq!(r, Some(0));
}

#[test]
fn max_id_fallback_picks_largest() {
    // Filtered windows {id:3},{id:7},{id:5}: the fallback returns id 7.
    let pt = ProcessTracker::new();
    let windows = vec![
        win(3, 1, "Terminal", None),
        win(7, 2, "Terminal", None),
        win(5, 3, "Terminal", None),
    ];
    let mut m = WindowMatcher::new();
    let r = m.find_window("Terminal", "s3", None, None, None, &windows, &pt);
    assert_eq!(r, Some(1));
    assert_eq!(windows[r.unwrap()].window_id, 7);
}

#[test]
fn empty_filtered_set_returns_none() {
    let pt = table(&[(100, 50, "zsh"), (50, 1, "Terminal")]);
    let windows = vec![win(3, 50, "iTerm2", None), win(7, 50, "Alacritty", None)];
    let mut m = WindowMatcher::new();
    let si = session("s4", Some(100), "/home/u/proj", None);
    let r = m.find_window(
        "Terminal",
        "s4",
        Some(&si),
        Some("tab id 1 of window id 3"),
        Some("3"),
        &windows,
        &pt,
    );
    assert_eq!(r, None);
}

#[test]
fn empty_snapshot_returns_none() {
    let pt = ProcessTracker::new();
    let windows: Vec<WindowInfo> = Vec::new();
    let mut m = WindowMatcher::new();
    let r = m.find_window("Terminal", "s5", None, None, None, &windows, &pt);
    assert_eq!(r, None);
}

#[test]
fn stale_cache_is_not_trusted() {
    // First call caches window id 42; the second snapshot no longer holds
    // id 42, so the matcher must fall through to the other strategies and
    // never return an id-42 window.
    let pt = ProcessTracker::new();
    let first = vec![win(42, 1, "Terminal", None)];
    let mut m = WindowMatcher::new();
    let r1 = m.find_window("Terminal", "s1", None, None, None, &first, &pt);
    assert_eq!(r1, Some(0));
    assert_eq!(first[r1.unwrap()].window_id, 42);

    let second = vec![win(41, 1, "Terminal", None), win(40, 2, "Terminal", None)];
    let r2 = m.find_window("Terminal", "s1", None, None, None, &second, &pt);
    assert_eq!(r2, Some(0));
    assert_eq!(second[r2.unwrap()].window_id, 41);
}

#[test]
fn cache_hit_validated_against_snapshot() {
    let pt = ProcessTracker::new();
    let first = vec![win(5, 1, "Terminal", None), win(9, 2, "Terminal", None)];
    let mut m = WindowMatcher::new();
    // Fallback caches id 9.
    let r1 = m.find_window("Terminal", "sc", None, None, None, &first, &pt);
    assert_eq!(first[r1.unwrap()].window_id, 9);
    // Reordered snapshot still holding id 9: the cache hit returns it even
    // though the fallback would now pick the same window by id anyway; the
    // cached window sits at a new index.
    let second = vec![win(9, 2, "Terminal", None), win(5, 1, "Terminal", None)];
    let r2 = m.find_window("Terminal", "sc", None, None, None, &second, &pt);
    assert_eq!(r2, Some(0));
}

#[test]
fn tab_reference_matches_terminal_window() {
    // Ancestry and title give nothing; the tab reference names window id 12.
    let pt = ProcessTracker::new();
    let windows = vec![
        win(30, 1, "Terminal", None),
        win(12, 2, "Terminal", None),
    ];
    let mut m = WindowMatcher::new();
    let r = m.find_window(
        "Terminal",
        "s6",
        None,
        Some("tab id 3 of window id 12"),
        None,
        &windows,
        &pt,
    );
    assert_eq!(r, Some(1));
}

#[test]
fn tab_reference_ignored_for_other_terminals() {
    let pt = ProcessTracker::new();
    let windows = vec![win(30, 1, "iTerm2", None), win(12, 2, "iTerm2", None)];
    let mut m = WindowMatcher::new();
    let r = m.find_window(
        "iTerm2",
        "s7",
        None,
        Some("tab id 3 of window id 12"),
        None,
        &windows,
        &pt,
    );
    // Falls through to the largest id.
    assert_eq!(r, Some(0));
}

#[test]
fn tab_id_matches_iterm2_title() {
    let pt = ProcessTracker::new();
    let windows = vec![
        win(30, 1, "iTerm2", Some("w1")),
        win(12, 2, "iTerm2", Some("session w7x")),
    ];
    let mut m = WindowMatcher::new();
    let r = m.find_window("iTerm2", "s8", None, None, Some("w7x"), &windows, &pt);
    assert_eq!(r, Some(1));
}

#[test]
fn find_for_session_matches_own_pid_first() {
    // The session's own pid owns a window: depth 0 wins.
    let pt = table(&[(100, 50, "zsh"), (50, 1, "Terminal")]);
    let windows = vec![win(2, 50, "Terminal", None), win(1, 100, "Alacritty", None)];
    let mut m = WindowMatcher::new();
    let si = session("t1", Some(100), "", None);
    let r = m.find_window_for_session("t1", &si, &windows, &pt);
    assert_eq!(r, Some(1));
}

#[test]
fn find_for_session_stops_at_root_parent() {
    // 100 -> 1 (root): the walk must not look up pid 1's windows.
    let pt = table(&[(100, 1, "zsh"), (1, 0, "init")]);
    let windows = vec![win(2, 1, "Terminal", None)];
    let mut m = WindowMatcher::new();
    let si = session("t2", Some(100), "", None);
    let r = m.find_window_for_session("t2", &si, &windows, &pt);
    assert_eq!(r, None);
}

#[test]
fn find_for_session_activity_match() {
    let pt = ProcessTracker::new();
    let windows = vec![
        win(2, 1, "Terminal", Some("idle")),
        win(3, 2, "Terminal", Some("running cargo build")),
    ];
    let mut m = WindowMatcher::new();
    let si = session("t3", None, "", Some("cargo build"));
    let r = m.find_window_for_session("t3", &si, &windows, &pt);
    assert_eq!(r, Some(1));
}

#[test]
fn find_for_session_empty_activity_ignored() {
    let pt = ProcessTracker::new();
    let windows = vec![win(2, 1, "Terminal", Some("anything"))];
    let mut m = WindowMatcher::new();
    let si = session("t4", None, "", Some(""));
    let r = m.find_window_for_session("t4", &si, &windows, &pt);
    assert_eq!(r, None);
}

#[test]
fn find_for_session_returns_none_and_keeps_cache_empty() {
    let pt = ProcessTracker::new();
    let windows = vec![win(2, 1, "Terminal", None)];
    let mut m = WindowMatcher::new();
    let si = session("t5", None, "", None);
    assert_eq!(m.find_window_for_session("t5", &si, &windows, &pt), None);
    // A later find_window for the same session starts from scratch (no
    // cache entry was written by the failed probe): the fallback picks the
    // largest id.
    let r = m.find_window("Terminal", "t5", None, None, None, &windows, &pt);
    assert_eq!(r, Some(0));
}

#[test]
fn clear_session_cache_forgets_hint() {
    let pt = ProcessTracker::new();
    let windows = vec![win(5, 1, "Terminal", None), win(9, 2, "Terminal", None)];
    let mut m = WindowMatcher::new();
    let r1 = m.find_window("Terminal", "c1", None, None, None, &windows, &pt);
    assert_eq!(windows[r1.unwrap()].window_id, 9);
    m.clear_session_cache("c1");
    // With the hint gone the fallback re-evaluates (and picks 9 again).
    let reordered = vec![win(9, 2, "Terminal", None), win(5, 1, "Terminal", None)];
    let r2 = m.find_window("Terminal", "c1", None, None, None, &reordered, &pt);
    assert_eq!(r2, Some(0));
}

#[test]
fn clear_all_cache_is_idempotent() {
    let mut m = WindowMatcher::new();
    m.clear_all_cache();
    m.clear_session_cache("nothing");
    let pt = ProcessTracker::new();
    let windows: Vec<WindowInfo> = Vec::new();
    assert_eq!(m.find_window("Terminal", "x", None, None, None, &windows, &pt), None);
}
