use vibetunnel_core::process_tracker::{ProcessInfo, ProcessTracker};
use vibetunnel_core::text::{
    escape_quotes, file_name, parse_u64, str_contains, str_ends_with, str_eq, str_find_char,
    str_index_of, str_starts_with, trim, u64_to_string,
};
use vibetunnel_core::window_enumerator::WindowEnumerator;

#[test]
fn str_eq_basic() {
    assert!(str_eq("abc", "abc"));
    assert!(!str_eq("abc", "abd"));
    assert!(!str_eq("abc", "ab"));
    assert!(str_eq("", ""));
}

#[test]
fn str_index_of_first_occurrence() {
    assert_eq!(str_index_of("abcabc", "bc"), Some(1));
    assert_eq!(str_index_of("abcabc", "zz"), None);
    assert_eq!(str_index_of("abc", ""), Some(0));
}

#[test]
fn str_contains_basic() {
    assert!(str_contains("hello world", "lo wo"));
    assert!(!str_contains("hello", "world"));
}

#[test]
fn prefix_and_suffix() {
    assert!(str_starts_with("https://github.com/x", "https://"));
    assert!(!str_starts_with("http://", "https://"));
    assert!(str_ends_with("repo.git", ".git"));
    assert!(!str_ends_with("repo.gitx", ".git"));
}

#[test]
fn find_char_first() {
    assert_eq!(str_find_char("a?b?c", '?'), Some(1));
    assert_eq!(str_find_char("abc", '?'), None);
}

#[test]
fn parse_u64_values() {
    assert_eq!(parse_u64("0"), Some(0));
    assert_eq!(parse_u64("18446744073709551615"), Some(u64::MAX));
    assert_eq!(parse_u64("18446744073709551616"), None);
    assert_eq!(parse_u64(""), None);
    assert_eq!(parse_u64("12a"), None);
    assert_eq!(parse_u64(" 12"), None);
}

#[test]
fn u64_to_string_values() {
    assert_eq!(u64_to_string(0), "0");
    assert_eq!(u64_to_string(7), "7");
    assert_eq!(u64_to_string(1234567890), "1234567890");
    assert_eq!(u64_to_string(u64::MAX), "18446744073709551615");
}

#[test]
fn file_name_components() {
    assert_eq!(file_name("/home/u/project"), "project");
    assert_eq!(file_name("/home/u/project/"), "project");
    assert_eq!(file_name("plain"), "plain");
    assert_eq!(file_name(""), "");
    assert_eq!(file_name("/"), "");
    assert_eq!(file_name("/a/.."), "");
}

#[test]
fn escape_quotes_values() {
    assert_eq!(escape_quotes("plain"), "plain");
    assert_eq!(escape_quotes("say \"hi\""), "say \\\"hi\\\"");
    assert_eq!(escape_quotes(""), "");
}

#[test]
fn trim_whitespace() {
    assert_eq!(trim("  x y\t\r\n"), "x y");
    assert_eq!(trim("xy"), "xy");
    assert_eq!(trim(" \t "), "");
}

#[test]
fn extract_window_id_values() {
    assert_eq!(
        WindowEnumerator::extract_window_id("tab id 3 of window id 117"),
        Some(117)
    );
    assert_eq!(WindowEnumerator::extract_window_id("window id 5, more"), Some(5));
    assert_eq!(WindowEnumerator::extract_window_id("window id "), None);
    assert_eq!(WindowEnumerator::extract_window_id("no id here"), None);
    assert_eq!(
        WindowEnumerator::extract_window_id("window id 99999999999999999999999"),
        None
    );
    // Only the first marker counts.
    assert_eq!(
        WindowEnumerator::extract_window_id("window id 1 window id 2"),
        Some(1)
    );
}

#[test]
fn process_tracker_parent_lookup() {
    let mut t = ProcessTracker::new();
    t.add_entry(ProcessInfo { pid: 100, ppid: 50, name: "zsh".to_string() });
    t.add_entry(ProcessInfo { pid: 50, ppid: 1, name: "login".to_string() });
    assert_eq!(t.get_parent_process_id(100), Some(50));
    assert_eq!(t.get_parent_process_id(50), Some(1));
    assert_eq!(t.get_parent_process_id(7), None);
    let info = t.get_process_info(100).unwrap();
    assert_eq!(info.name, "zsh");
    assert_eq!(info.ppid, 50);
}

#[test]
fn find_terminal_ancestor_substring_match() {
    let mut t = ProcessTracker::new();
    t.add_entry(ProcessInfo { pid: 100, ppid: 50, name: "zsh".to_string() });
    t.add_entry(ProcessInfo { pid: 50, ppid: 25, name: "login".to_string() });
    t.add_entry(ProcessInfo { pid: 25, ppid: 1, name: "Terminal.app helper".to_string() });
    assert_eq!(t.find_terminal_ancestor(100, 10), Some(25));
    // Depth 1 only reaches the (non-terminal) parent.
    assert_eq!(t.find_terminal_ancestor(100, 1), None);
    assert_eq!(t.find_terminal_ancestor(100, 2), Some(25));
}

#[test]
fn log_process_tree_walks_to_root() {
    let mut t = ProcessTracker::new();
    t.add_entry(ProcessInfo { pid: 100, ppid: 50, name: "zsh".to_string() });
    t.add_entry(ProcessInfo { pid: 50, ppid: 1, name: "login".to_string() });
    let chain = t.log_process_tree(100);
    assert_eq!(chain.len(), 2);
    assert_eq!(chain[0].pid, 100);
    assert_eq!(chain[1].pid, 50);
    // Walking from an unknown pid yields nothing.
    assert!(t.log_process_tree(7).is_empty());
}

#[test]
fn fallback_windows_from_process_scan() {
    let procs = vec![
        ProcessInfo { pid: 10, ppid: 1, name: "iTerm2".to_string() },
        ProcessInfo { pid: 11, ppid: 1, name: "emacs".to_string() },
        ProcessInfo { pid: 12, ppid: 1, name: "Terminal".to_string() },
    ];
    let ws = WindowEnumerator::terminal_windows_from_processes(&procs, "2024-01-01T00:00:00Z");
    assert_eq!(ws.len(), 2);
    assert_eq!(ws[0].window_id, 10);
    assert_eq!(ws[0].owner_pid, 10);
    assert_eq!(ws[0].terminal_app, "iTerm2");
    assert_eq!(ws[0].created_at, "2024-01-01T00:00:00Z");
    assert_eq!(ws[1].window_id, 12);
    assert_eq!(ws[1].terminal_app, "Terminal");
    assert!(ws[1].title.is_none());
}

#[test]
fn window_title_contains_checks() {
    let w = vibetunnel_core::window_enumerator::WindowInfo {
        window_id: 1,
        owner_pid: 1,
        terminal_app: "Terminal".to_string(),
        session_id: String::new(),
        created_at: String::new(),
        tab_reference: None,
        tab_id: None,
        bounds: None,
        title: Some("bash - notes".to_string()),
    };
    assert!(WindowEnumerator::window_title_contains(&w, "notes"));
    assert!(!WindowEnumerator::window_title_contains(&w, "vim"));
    let untitled = vibetunnel_core::window_enumerator::WindowInfo { title: None, ..w };
    assert!(!WindowEnumerator::window_title_contains(&untitled, "notes"));
}
