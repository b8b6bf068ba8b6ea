use vibetunnel_core::process_tracker::ProcessTracker;
use vibetunnel_core::window_enumerator::WindowInfo;
use vibetunnel_core::window_matcher::SessionInfo;
use vibetunnel_core::window_tracker::WindowTracker;

fn win(id: u64, pid: u32, app: &str, title: Option<&str>) -> WindowInfo {
    WindowInfo {
        window_id: id,
        owner_pid: pid,
        terminal_app: app.to_string(),
        session_id: String::new(),
        created_at: "2024-01-01T00:00:00Z".to_string(),
        tab_reference: None,
        tab_id: None,
        bounds: None,
        title: title.map(|t| t.to_string()),
    }
}

fn session(id: &str, pid: Option<u32>, dir: &str) -> SessionInfo {
    SessionInfo {
        id: id.to_string(),
        pid,
        working_dir: dir.to_string(),
        name: None,
        activity_status: None,
    }
}

#[test]
fn explicit_tab_reference_schedules_single_attempt() {
    let r = WindowTracker::registration_schedule(
        "Terminal",
        Some("tab id 1 of window id 3"),
        None,
    );
    assert_eq!(r, vec![500]);
}

#[test]
fn explicit_tab_id_schedules_single_attempt() {
    let r = WindowTracker::registration_schedule("iTerm2", None, Some("w7"));
    assert_eq!(r, vec![500]);
}

#[test]
fn mismatched_identity_gets_full_schedule() {
    // A tab reference means nothing to iTerm2, and a tab id nothing to
    // Terminal: both get the progressive schedule.
    let r1 = WindowTracker::registration_schedule("iTerm2", Some("tab id 1 of window id 3"), None);
    assert_eq!(r1, vec![500, 1000, 2000, 3000]);
    let r2 = WindowTracker::registration_schedule("Terminal", None, Some("w7"));
    assert_eq!(r2, vec![500, 1000, 2000, 3000]);
}

#[test]
fn progressive_schedule_cumulative_offsets() {
    // Four attempts at cumulative offsets 0.5 s, 1.5 s, 3.5 s, 6.5 s.
    let r = WindowTracker::registration_schedule("Alacritty", None, None);
    assert_eq!(r, vec![500, 1000, 2000, 3000]);
    let mut total = 0u64;
    let mut offsets = Vec::new();
    for d in &r {
        total += d;
        offsets.push(total);
    }
    assert_eq!(offsets, vec![500, 1500, 3500, 6500]);
}

#[test]
fn register_window_success_tracks_session() {
    let pt = ProcessTracker::new();
    let windows = vec![win(3, 1, "Terminal", None), win(7, 2, "Terminal", None)];
    let mut t = WindowTracker::new();
    let ok = t.register_window("s1", "Terminal", None, None, &windows, &pt);
    assert!(ok);
    let info = t.window_info("s1").unwrap();
    assert_eq!(info.window_id, 7);
    assert_eq!(info.session_id, "s1");
    assert_eq!(info.terminal_app, "Terminal");
}

#[test]
fn register_window_failure_leaves_session_untracked() {
    let pt = ProcessTracker::new();
    let windows = vec![win(3, 1, "iTerm2", None)];
    let mut t = WindowTracker::new();
    let ok = t.register_window("s1", "Terminal", None, None, &windows, &pt);
    assert!(!ok);
    assert!(t.window_info("s1").is_none());
}

#[test]
fn unregister_window_is_idempotent() {
    let pt = ProcessTracker::new();
    let windows = vec![win(3, 1, "Terminal", None)];
    let mut t = WindowTracker::new();
    assert!(t.register_window("s1", "Terminal", None, None, &windows, &pt));
    t.unregister_window("s1");
    assert!(t.window_info("s1").is_none());
    t.unregister_window("s1");
    assert!(t.window_info("s1").is_none());
}

#[test]
fn all_tracked_windows_lists_records() {
    let pt = ProcessTracker::new();
    let windows = vec![win(3, 1, "Terminal", None)];
    let mut t = WindowTracker::new();
    assert!(t.register_window("a", "Terminal", None, None, &windows, &pt));
    assert!(t.register_window("b", "Terminal", None, None, &windows, &pt));
    let all = t.all_tracked_windows();
    assert_eq!(all.len(), 2);
    assert_eq!(all[0].session_id, "a");
    assert_eq!(all[1].session_id, "b");
}

#[test]
fn focus_window_untracked_session_errors() {
    let t = WindowTracker::new();
    let err = t.focus_window("ghost").unwrap_err();
    assert_eq!(err, "No window registered for session: ghost");
}

#[test]
fn focus_window_returns_tracked_record() {
    let pt = ProcessTracker::new();
    let windows = vec![win(3, 9, "Terminal", None)];
    let mut t = WindowTracker::new();
    assert!(t.register_window("s1", "Terminal", None, None, &windows, &pt));
    let w = t.focus_window("s1").unwrap();
    assert_eq!(w.window_id, 3);
    assert_eq!(w.owner_pid, 9);
}

#[test]
fn update_from_sessions_removes_dead_sessions() {
    // Tracked {"a": W1, "b": W2}, live ["a"]: only {"a": W1} remains.
    let pt = ProcessTracker::new();
    let w1 = vec![win(1, 1, "Terminal", None)];
    let w2 = vec![win(2, 2, "Terminal", None)];
    let mut t = WindowTracker::new();
    assert!(t.register_window("a", "Terminal", None, None, &w1, &pt));
    assert!(t.register_window("b", "Terminal", None, None, &w2, &pt));
    let live = vec![session("a", None, "")];
    let none: Vec<WindowInfo> = Vec::new();
    t.update_from_sessions(&live, &none, &pt);
    let a = t.window_info("a").unwrap();
    assert_eq!(a.window_id, 1);
    assert!(t.window_info("b").is_none());
    assert_eq!(t.all_tracked_windows().len(), 1);
}

#[test]
fn update_from_sessions_keeps_tracked_record_unchanged() {
    let pt = ProcessTracker::new();
    let w1 = vec![win(1, 1, "Terminal", None)];
    let mut t = WindowTracker::new();
    assert!(t.register_window("a", "Terminal", None, None, &w1, &pt));
    // A richer snapshot is available now, but the tracked session keeps its
    // original record: reconciliation never re-matches a tracked session.
    let richer = vec![win(50, 5, "Terminal", None)];
    let live = vec![session("a", None, "")];
    t.update_from_sessions(&live, &richer, &pt);
    assert_eq!(t.window_info("a").unwrap().window_id, 1);
}

#[test]
fn update_from_sessions_backfills_untracked_live_session() {
    let pt = ProcessTracker::new();
    let mut t = WindowTracker::new();
    let live = vec![session("a", None, "/home/u/proj")];
    let windows = vec![win(4, 1, "Terminal", Some("vim - proj"))];
    t.update_from_sessions(&live, &windows, &pt);
    let a = t.window_info("a").unwrap();
    assert_eq!(a.window_id, 4);
    assert_eq!(a.session_id, "a");
}

#[test]
fn update_from_sessions_probe_failure_leaves_untracked() {
    let pt = ProcessTracker::new();
    let mut t = WindowTracker::new();
    let live = vec![session("a", None, "")];
    let windows = vec![win(4, 1, "Terminal", None)];
    // No pid, no working directory, no activity: every strategy fails.
    t.update_from_sessions(&live, &windows, &pt);
    assert!(t.window_info("a").is_none());
}

#[test]
fn update_from_sessions_duplicate_ids_insert_once() {
    let pt = ProcessTracker::new();
    let mut t = WindowTracker::new();
    let live = vec![session("a", None, "/home/u/proj"), session("a", None, "/home/u/proj")];
    let windows = vec![win(4, 1, "Terminal", Some("vim - proj"))];
    t.update_from_sessions(&live, &windows, &pt);
    assert_eq!(t.all_tracked_windows().len(), 1);
    assert_eq!(t.window_info("a").unwrap().window_id, 4);
}

#[test]
fn register_window_carries_snapshot_fields() {
    let pt = ProcessTracker::new();
    let mut w = win(3, 1, "Terminal", Some("title kept"));
    w.tab_reference = Some("tab id 1 of window id 3".to_string());
    w.bounds = Some(vibetunnel_core::window_enumerator::WindowBounds {
        x: 10,
        y: 20,
        width: 640,
        height: 480,
    });
    let windows = vec![w];
    let mut t = WindowTracker::new();
    assert!(t.register_window("s1", "Terminal", None, None, &windows, &pt));
    let stored = t.window_info("s1").unwrap();
    assert_eq!(stored.title.as_deref(), Some("title kept"));
    assert_eq!(stored.tab_reference.as_deref(), Some("tab id 1 of window id 3"));
    let b = stored.bounds.unwrap();
    assert_eq!((b.x, b.y, b.width, b.height), (10, 20, 640, 480));
    assert_eq!(stored.created_at, "2024-01-01T00:00:00Z");
}
