use vibetunnel_core::applescript::{AppleScriptRunner, AppleScriptTerminalLauncher, LaunchAction};
use vibetunnel_core::dock_manager::DockManager;
use vibetunnel_core::power_manager::PowerManager;

#[test]
fn launch_terminal_app_default_command() {
    let s = AppleScriptRunner::launch_terminal_app("abc", None);
    assert!(s.contains("do script \"vt connect localhost:4022/abc\""));
    assert!(s.starts_with("tell application \"Terminal\""));
    assert!(s.ends_with("end tell"));
}

#[test]
fn launch_terminal_app_escapes_quotes() {
    let s = AppleScriptRunner::launch_terminal_app("abc", Some("echo \"hi\""));
    assert!(s.contains("do script \"echo \\\"hi\\\"\""));
}

#[test]
fn launch_iterm2_window_and_tab() {
    let w = AppleScriptRunner::launch_iterm2("abc", None, true);
    assert!(w.contains("create window with default profile"));
    assert!(w.contains("write text \"vt connect localhost:4022/abc\""));
    let t = AppleScriptRunner::launch_iterm2("abc", None, false);
    assert!(t.contains("create tab with default profile"));
    assert!(t.contains("return id of newTab as string"));
}

#[test]
fn focus_terminal_scripts() {
    let no_tab = AppleScriptRunner::focus_terminal_window(117, None);
    assert!(no_tab.contains("set targetWindow to window id 117"));
    assert!(!no_tab.contains("selected tab"));
    let with_tab = AppleScriptRunner::focus_terminal_window(117, Some(4));
    assert!(with_tab.contains("set targetWindow to window id 117"));
    assert!(with_tab.contains("set selected tab of targetWindow to tab id 4 of targetWindow"));
}

#[test]
fn focus_iterm2_script_content() {
    let s = AppleScriptRunner::focus_iterm2_window("w9");
    assert!(s.contains("first window whose id is w9"));
    assert!(s.contains("select targetWindow"));
}

#[test]
fn window_list_script_and_parse() {
    let script = AppleScriptRunner::get_terminal_windows();
    assert!(script.contains("(id of w as string) & \"|\" & (name of w as string)"));

    let out = "117|bash - proj\n 42 | second window \nmalformed\nx|y\n999999999999|too big";
    let ws = AppleScriptRunner::parse_terminal_windows(out);
    assert_eq!(ws.len(), 2);
    assert_eq!(ws[0], (117, "bash - proj".to_string()));
    assert_eq!(ws[1], (42, "second window".to_string()));
}

#[test]
fn is_app_running_roundtrip() {
    let s = AppleScriptRunner::is_app_running("Terminal");
    assert!(s.contains("exists (processes where name is \"Terminal\")"));
    assert!(AppleScriptRunner::interpret_is_app_running("true\n"));
    assert!(!AppleScriptRunner::interpret_is_app_running("false"));
    assert!(!AppleScriptRunner::interpret_is_app_running(""));
}

#[test]
fn launch_app_and_keystrokes() {
    let s = AppleScriptRunner::launch_app("/Applications/iTerm.app");
    assert!(s.contains("open POSIX file \"/Applications/iTerm.app\""));
    let k = AppleScriptRunner::send_keystrokes("say \"hi\"");
    assert!(k.contains("keystroke \"say \\\"hi\\\"\""));
    let f = AppleScriptRunner::get_frontmost_app();
    assert!(f.contains("frontmost is true"));
}

#[test]
fn launcher_routes_by_terminal_type() {
    match AppleScriptTerminalLauncher::launch_terminal("Terminal", "s1", None, Some("/srv/x")) {
        LaunchAction::RunScript(s) => {
            assert!(s.contains("do script \"cd '/srv/x' && vt connect localhost:4022/s1\""));
        },
        _ => panic!("expected a script"),
    }
    match AppleScriptTerminalLauncher::launch_terminal("iTerm", "s1", Some("htop"), None) {
        LaunchAction::RunScript(s) => {
            assert!(s.contains("write text \"htop\""));
        },
        _ => panic!("expected a script"),
    }
    match AppleScriptTerminalLauncher::launch_terminal("Alacritty", "s1", None, Some("/srv/x")) {
        LaunchAction::OpenApp { app, working_directory } => {
            assert_eq!(app, "Alacritty");
            assert_eq!(working_directory.as_deref(), Some("/srv/x"));
        },
        _ => panic!("expected an open action"),
    }
}

#[test]
fn launcher_focus_scripts() {
    let ok = AppleScriptTerminalLauncher::focus_terminal_window("Terminal", "117").unwrap();
    assert!(ok.contains("set targetWindow to window id 117"));
    let err = AppleScriptTerminalLauncher::focus_terminal_window("Terminal", "x11").unwrap_err();
    assert_eq!(err, "Invalid window ID");
    let it = AppleScriptTerminalLauncher::focus_terminal_window("iTerm2", "w4").unwrap();
    assert!(it.contains("first window whose id is w4"));
    let other = AppleScriptTerminalLauncher::focus_terminal_window("kitty", "ignored").unwrap();
    assert_eq!(other, "tell application \"kitty\" to activate");
}

#[test]
fn power_manager_state_machine() {
    let mut p = PowerManager::new();
    assert!(!p.is_sleep_prevented());
    assert!(p.prevent_sleep().is_ok());
    assert!(p.is_sleep_prevented());
    assert!(p.prevent_sleep().is_ok());
    assert!(p.is_sleep_prevented());
    assert!(p.allow_sleep().is_ok());
    assert!(!p.is_sleep_prevented());
    p.update_for_sessions(3, true);
    assert!(p.is_sleep_prevented());
    p.update_for_sessions(0, true);
    assert!(!p.is_sleep_prevented());
    p.update_for_sessions(3, false);
    assert!(!p.is_sleep_prevented());
}

#[test]
fn dock_manager_visibility_rule() {
    let mut d = DockManager::new();
    assert!(d.get_show_in_dock());
    assert!(d.update_dock_visibility(0));
    d.set_show_in_dock(false);
    assert!(!d.get_show_in_dock());
    assert!(!d.update_dock_visibility(0));
    assert!(d.update_dock_visibility(2));
    d.set_show_in_dock(true);
    assert!(d.update_dock_visibility(0));
}
