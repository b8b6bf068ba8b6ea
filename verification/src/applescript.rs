//! AppleScript sources for terminal control on the primary platform, and the
//! readers of their output.
//!
//! Running a script needs the OS scripting bridge; the embedding application
//! pipes what these builders return through it and hands the output back.
//! Building the script text — including the quoting of user-supplied
//! commands — and parsing the answers are verified here.

use vstd::prelude::*;
use crate::text::{
    all_dec_digits, dec_val, escape_quotes, escape_quotes_spec, find_char, parse_u64, str_eq,
    str_find_char, trim, trim_spec,
};

verus! {

/// The command a fresh session connects with when the caller gives none.
pub open spec fn default_session_command(session_id: Seq<char>) -> Seq<char> {
    "vt connect localhost:4022/"@ + session_id
}

/// The script that opens a Terminal window running `cmd` and reports the new
/// tab and window ids.
pub open spec fn launch_terminal_app_script(cmd: Seq<char>) -> Seq<char> {
    "tell application \"Terminal\"\n                activate\n                do script \""@
        + escape_quotes_spec(cmd)
        + "\"\n                set newWindow to front window\n                set newTab to selected tab of newWindow\n                return \"tab id \" & (id of newTab) & \" of window id \" & (id of newWindow)\n            end tell"@
}

/// The script that opens a new iTerm2 window running `cmd`.
pub open spec fn launch_iterm2_window_script(cmd: Seq<char>) -> Seq<char> {
    "tell application \"iTerm\"\n                    activate\n                    set newWindow to (create window with default profile)\n                    tell current session of newWindow\n                        write text \""@
        + escape_quotes_spec(cmd)
        + "\"\n                    end tell\n                    return id of newWindow as string\n                end tell"@
}

/// The script that opens a new iTerm2 tab running `cmd`.
pub open spec fn launch_iterm2_tab_script(cmd: Seq<char>) -> Seq<char> {
    "tell application \"iTerm\"\n                    activate\n                    tell current window\n                        set newTab to (create tab with default profile)\n                        tell current session of newTab\n                            write text \""@
        + escape_quotes_spec(cmd)
        + "\"\n                        end tell\n                        return id of newTab as string\n                    end tell\n                end tell"@
}

/// The chosen session command: the caller's, or the default connect line.
pub open spec fn session_command(session_id: Seq<char>, command: Option<Seq<char>>) -> Seq<
    char,
> {
    match command {
        Some(c) => c,
        None => default_session_command(session_id),
    }
}

/// The script that focuses a Terminal window.
pub open spec fn focus_terminal_script(wid: nat) -> Seq<char> {
    "tell application \"Terminal\"\n                    activate\n                    set targetWindow to window id "@
        + crate::text::dec_str(wid)
        + "\n                    set frontmost of targetWindow to true\n                end tell"@
}

/// The script that focuses a Terminal window and selects one of its tabs.
pub open spec fn focus_terminal_tab_script(wid: nat, tid: nat) -> Seq<char> {
    "tell application \"Terminal\"\n                    activate\n                    set targetWindow to window id "@
        + crate::text::dec_str(wid)
        + "\n                    set selected tab of targetWindow to tab id "@
        + crate::text::dec_str(tid)
        + " of targetWindow\n                    set frontmost of targetWindow to true\n                end tell"@
}

/// The script that focuses an iTerm2 window by its id string.
pub open spec fn focus_iterm2_script(wid: Seq<char>) -> Seq<char> {
    "tell application \"iTerm\"\n                activate\n                set targetWindow to (first window whose id is "@
        + wid + ")\n                select targetWindow\n            end tell"@
}

/// Script runner for the primary platform's terminals. Executing a script is
/// the embedding application's job; these functions produce the script text
/// and read the answers.
pub struct AppleScriptRunner;

impl AppleScriptRunner {
    /// The chosen session command as a string.
    fn build_command(session_id: &str, command: Option<&str>) -> (r: String)
        ensures
            r@ == session_command(
                session_id@,
                match command {
                    Some(c) => Some(c@),
                    None => None,
                },
            ),
    {
        match command {
            Some(c) => String::from_str(c),
            None => {
                let mut r = String::from_str("vt connect localhost:4022/");
                r.append(session_id);
                r
            },
        }
    }

    /// The script that launches a Terminal window for a session.
    pub fn launch_terminal_app(session_id: &str, command: Option<&str>) -> (r: String)
        ensures
            r@ == launch_terminal_app_script(
                session_command(
                    session_id@,
                    match command {
                        Some(c) => Some(c@),
                        None => None,
                    },
                ),
            ),
    {
        let cmd = Self::build_command(session_id, command);
        let mut r = String::from_str(
            "tell application \"Terminal\"\n                activate\n                do script \"",
        );
        let esc = escape_quotes(cmd.as_str());
        r.append(esc.as_str());
        r.append(
            "\"\n                set newWindow to front window\n                set newTab to selected tab of newWindow\n                return \"tab id \" & (id of newTab) & \" of window id \" & (id of newWindow)\n            end tell",
        );
        proof {
            assert(r@ =~= launch_terminal_app_script(cmd@));
        }
        r
    }

    /// The script that launches an iTerm2 window (or tab) for a session.
    pub fn launch_iterm2(session_id: &str, command: Option<&str>, new_window: bool) -> (r:
        String)
        ensures
            ({
                let cmd = session_command(
                    session_id@,
                    match command {
                        Some(c) => Some(c@),
                        None => None,
                    },
                );
                if new_window {
                    r@ == launch_iterm2_window_script(cmd)
                } else {
                    r@ == launch_iterm2_tab_script(cmd)
                }
            }),
    {
        let cmd = Self::build_command(session_id, command);
        let esc = escape_quotes(cmd.as_str());
        if new_window {
            let mut r = String::from_str(
                "tell application \"iTerm\"\n                    activate\n                    set newWindow to (create window with default profile)\n                    tell current session of newWindow\n                        write text \"",
            );
            r.append(esc.as_str());
            r.append(
                "\"\n                    end tell\n                    return id of newWindow as string\n                end tell",
            );
            proof {
                assert(r@ =~= launch_iterm2_window_script(cmd@));
            }
            r
        } else {
            let mut r = String::from_str(
                "tell application \"iTerm\"\n                    activate\n                    tell current window\n                        set newTab to (create tab with default profile)\n                        tell current session of newTab\n                            write text \"",
            );
            r.append(esc.as_str());
            r.append(
                "\"\n                        end tell\n                        return id of newTab as string\n                    end tell\n                end tell",
            );
            proof {
                assert(r@ =~= launch_iterm2_tab_script(cmd@));
            }
            r
        }
    }

    /// The script that focuses a Terminal window, and one of its tabs when a
    /// tab id is given.
    pub fn focus_terminal_window(window_id: u64, tab_id: Option<u64>) -> (r: String)
        ensures
            match tab_id {
                Some(tid) => r@ == focus_terminal_tab_script(window_id as nat, tid as nat),
                None => r@ == focus_terminal_script(window_id as nat),
            },
    {
        let wid = crate::text::u64_to_string(window_id);
        match tab_id {
            Some(tid) => {
                let tids = crate::text::u64_to_string(tid);
                let mut r = String::from_str(
                    "tell application \"Terminal\"\n                    activate\n                    set targetWindow to window id ",
                );
                r.append(wid.as_str());
                r.append("\n                    set selected tab of targetWindow to tab id ");
                r.append(tids.as_str());
                r.append(
                    " of targetWindow\n                    set frontmost of targetWindow to true\n                end tell",
                );
                proof {
                    assert(r@ =~= focus_terminal_tab_script(window_id as nat, tid as nat));
                }
                r
            },
            None => {
                let mut r = String::from_str(
                    "tell application \"Terminal\"\n                    activate\n                    set targetWindow to window id ",
                );
                r.append(wid.as_str());
                r.append(
                    "\n                    set frontmost of targetWindow to true\n                end tell",
                );
                proof {
                    assert(r@ =~= focus_terminal_script(window_id as nat));
                }
                r
            },
        }
    }

    /// The script that focuses an iTerm2 window by its id string.
    pub fn focus_iterm2_window(window_id: &str) -> (r: String)
        ensures
            r@ == focus_iterm2_script(window_id@),
    {
        let mut r = String::from_str(
            "tell application \"iTerm\"\n                activate\n                set targetWindow to (first window whose id is ",
        );
        r.append(window_id);
        r.append(")\n                select targetWindow\n            end tell");
        proof {
            assert(r@ =~= focus_iterm2_script(window_id@));
        }
        r
    }

    /// The script that lists Terminal windows as `id|title` lines.
    pub fn get_terminal_windows() -> (r: &'static str)
        ensures
            r@ == "tell application \"Terminal\"\n            set windowList to {}\n            repeat with w in windows\n                set windowInfo to (id of w as string) & \"|\" & (name of w as string)\n                set end of windowList to windowInfo\n            end repeat\n            return windowList\n        end tell"@,
    {
        "tell application \"Terminal\"\n            set windowList to {}\n            repeat with w in windows\n                set windowInfo to (id of w as string) & \"|\" & (name of w as string)\n                set end of windowList to windowInfo\n            end repeat\n            return windowList\n        end tell"
    }

    /// The script that asks whether an application process exists.
    pub fn is_app_running(app_name: &str) -> (r: String)
        ensures
            r@ == "tell application \"System Events\"\n                return exists (processes where name is \""@
                + app_name@ + "\")\n            end tell"@,
    {
        let mut r = String::from_str(
            "tell application \"System Events\"\n                return exists (processes where name is \"",
        );
        r.append(app_name);
        r.append("\")\n            end tell");
        proof {
            assert(r@ =~= "tell application \"System Events\"\n                return exists (processes where name is \""@
                + app_name@ + "\")\n            end tell"@);
        }
        r
    }

    /// Read an `is_app_running` answer: the trimmed output is `true`.
    pub fn interpret_is_app_running(output: &str) -> (r: bool)
        ensures
            r == (trim_spec(output@) == "true"@),
    {
        let t = trim(output);
        str_eq(t, "true")
    }

    /// The script that opens an application by its filesystem path.
    pub fn launch_app(app_path: &str) -> (r: String)
        ensures
            r@ == "tell application \"Finder\"\n                open POSIX file \""@ + app_path@
                + "\"\n            end tell"@,
    {
        let mut r = String::from_str(
            "tell application \"Finder\"\n                open POSIX file \"",
        );
        r.append(app_path);
        r.append("\"\n            end tell");
        proof {
            assert(r@ =~= "tell application \"Finder\"\n                open POSIX file \""@
                + app_path@ + "\"\n            end tell"@);
        }
        r
    }

    /// The script that types `text` into the frontmost application.
    pub fn send_keystrokes(text: &str) -> (r: String)
        ensures
            r@ == "tell application \"System Events\"\n                keystroke \""@
                + escape_quotes_spec(text@) + "\"\n            end tell"@,
    {
        let esc = escape_quotes(text);
        let mut r = String::from_str(
            "tell application \"System Events\"\n                keystroke \"",
        );
        r.append(esc.as_str());
        r.append("\"\n            end tell");
        proof {
            assert(r@ =~= "tell application \"System Events\"\n                keystroke \""@
                + escape_quotes_spec(text@) + "\"\n            end tell"@);
        }
        r
    }

    /// The script that names the frontmost application.
    pub fn get_frontmost_app() -> (r: &'static str)
        ensures
            r@ == "tell application \"System Events\"\n            return name of first application process whose frontmost is true\n        end tell"@,
    {
        "tell application \"System Events\"\n            return name of first application process whose frontmost is true\n        end tell"
    }
}


/// The window parsed from one `id|title` output line: empty when the line
/// has no separator or its id is not a (32-bit) number.
pub open spec fn window_line_entry(line: Seq<char>) -> Seq<(u32, Seq<char>)> {
    match find_char(line, '|') {
        None => Seq::empty(),
        Some(p) => {
            let idpart = trim_spec(line.subrange(0, p));
            let title = trim_spec(line.subrange(p + 1, line.len() as int));
            if idpart.len() > 0 && all_dec_digits(idpart) && dec_val(idpart) <= u32::MAX {
                seq![(dec_val(idpart) as u32, title)]
            } else {
                Seq::empty()
            }
        },
    }
}

/// The windows parsed from a full `get_terminal_windows` answer, line by
/// line.
pub open spec fn window_list_spec(out: Seq<char>) -> Seq<(u32, Seq<char>)>
    decreases out.len(),
{
    match find_char(out, '\n') {
        None => window_line_entry(out),
        Some(k) => if 0 <= k < out.len() {
            window_line_entry(out.subrange(0, k)) + window_list_spec(
                out.subrange(k + 1, out.len() as int),
            )
        } else {
            Seq::empty()
        },
    }
}

impl AppleScriptRunner {
    /// Read a `get_terminal_windows` answer into id/title pairs, skipping
    /// malformed lines.
    pub fn parse_terminal_windows(output: &str) -> (r: Vec<(u32, String)>)
        ensures
            r@.len() == window_list_spec(output@).len(),
            forall|i: int|
                0 <= i < r@.len() ==> (#[trigger] r@[i]).0 == window_list_spec(output@)[i].0
                    && r@[i].1@ == window_list_spec(output@)[i].1,
    {
        let mut out: Vec<(u32, String)> = Vec::new();
        let ghost full = output@;
        let mut rest: &str = output;
        let ghost mut done: Seq<(u32, Seq<char>)> = Seq::empty();
        proof {
            assert(Seq::<(u32, Seq<char>)>::empty() + window_list_spec(rest@) =~= window_list_spec(
                full,
            ));
        }
        loop
            invariant
                full == output@,
                window_list_spec(full) =~= done + window_list_spec(rest@),
                out@.len() == done.len(),
                forall|i: int|
                    0 <= i < out@.len() ==> (#[trigger] out@[i]).0 == done[i].0 && out@[i].1@
                        == done[i].1,
            decreases rest@.len(),
        {
            let ghost done_pre = done;
            match str_find_char(rest, '\n') {
                Some(kpos) => {
                    let rlen = rest.unicode_len();
                    let line = rest.substring_char(0, kpos);
                    let next = rest.substring_char(kpos + 1, rlen);
                    proof {
                        assert(line@ =~= rest@.subrange(0, kpos as int));
                        assert(next@ =~= rest@.subrange(kpos + 1, rest@.len() as int));
                    }
                    parse_window_line(&mut out, line);
                    proof {
                        done = done + window_line_entry(line@);
                        assert(window_list_spec(rest@) == window_line_entry(line@)
                            + window_list_spec(next@));
                        assert(window_list_spec(full) =~= done + window_list_spec(next@)) by {
                            assert(done_pre + (window_line_entry(line@) + window_list_spec(next@))
                                =~= (done_pre + window_line_entry(line@)) + window_list_spec(
                                next@,
                            ));
                        }
                    }
                    rest = next;
                },
                None => {
                    parse_window_line(&mut out, rest);
                    proof {
                        done = done + window_line_entry(rest@);
                        assert(window_list_spec(rest@) == window_line_entry(rest@));
                        assert(window_list_spec(full) =~= done);
                    }
                    return out;
                },
            }
        }
    }
}

/// Fold one output line into the window list.
fn parse_window_line(out: &mut Vec<(u32, String)>, line: &str)
    ensures
        final(out)@.len() == old(out)@.len() + window_line_entry(line@).len(),
        forall|i: int| 0 <= i < old(out)@.len() ==> final(out)@[i] == old(out)@[i],
        forall|i: int|
            old(out)@.len() <= i < final(out)@.len() ==> (#[trigger] final(out)@[i]).0
                == window_line_entry(line@)[i - old(out)@.len()].0 && final(out)@[i].1@
                == window_line_entry(line@)[i - old(out)@.len()].1,
{
    match str_find_char(line, '|') {
        Some(p) => {
            let llen = line.unicode_len();
            let id_str = trim(line.substring_char(0, p));
            let title = trim(line.substring_char(p + 1, llen));
            proof {
                assert(id_str@ == trim_spec(line@.subrange(0, p as int)));
                assert(title@ == trim_spec(line@.subrange(p + 1, line@.len() as int)));
            }
            match parse_u64(id_str) {
                Some(v) => {
                    if v <= 0xffff_ffff {
                        let id: u32 = v as u32;
                        out.push((id, String::from_str(title)));
                        proof {
                            assert(window_line_entry(line@).len() == 1);
                            assert(window_line_entry(line@)[0].0 == id);
                            assert(window_line_entry(line@)[0].1 == title@);
                        }
                    } else {
                        assert(window_line_entry(line@).len() == 0);
                    }
                },
                None => {
                    assert(window_line_entry(line@).len() == 0);
                },
            }
        },
        None => {
            assert(window_line_entry(line@).len() == 0);
        },
    }
}

/// What launching a terminal amounts to on the primary platform: run a
/// script through the scripting bridge, or open an application by name.
#[derive(Debug)]
pub enum LaunchAction {
    RunScript(String),
    OpenApp { app: String, working_directory: Option<String> },
}

/// The full command a launched terminal runs: the session command, prefixed
/// by a change into the working directory when one is given.
pub open spec fn full_launch_command(
    session_id: Seq<char>,
    command: Option<Seq<char>>,
    cwd: Option<Seq<char>>,
) -> Seq<char> {
    match cwd {
        Some(d) => "cd '"@ + d + "' && "@ + session_command(session_id, command),
        None => session_command(session_id, command),
    }
}

/// Terminal launching and focusing built on the script runner.
pub struct AppleScriptTerminalLauncher;

impl AppleScriptTerminalLauncher {
    /// What to do to launch a terminal of the given type for a session: the
    /// known terminals get a launch script, anything else is opened as an
    /// application (the embedding application runs the `open` call).
    pub fn launch_terminal(
        terminal_type: &str,
        session_id: &str,
        command: Option<&str>,
        working_directory: Option<&str>,
    ) -> (r: LaunchAction)
        ensures
            ({
                let cmd = full_launch_command(
                    session_id@,
                    match command {
                        Some(c) => Some(c@),
                        None => None,
                    },
                    match working_directory {
                        Some(d) => Some(d@),
                        None => None,
                    },
                );
                let tt = terminal_type@;
                if tt == "Terminal"@ || tt == "Terminal.app"@ {
                    r matches LaunchAction::RunScript(s) && s@ == launch_terminal_app_script(cmd)
                } else if tt == "iTerm2"@ || tt == "iTerm"@ {
                    r matches LaunchAction::RunScript(s) && s@ == launch_iterm2_window_script(cmd)
                } else {
                    r matches LaunchAction::OpenApp { app, working_directory: wd } && app@ == tt
                        && (match (wd, working_directory) {
                        (Some(w), Some(d)) => w@ == d@,
                        (None, None) => true,
                        _ => false,
                    })
                }
            }),
    {
        let mut full = String::new();
        match working_directory {
            Some(d) => {
                full.append("cd '");
                full.append(d);
                full.append("' && ");
                let base = AppleScriptRunner::build_command(session_id, command);
                full.append(base.as_str());
                proof {
                    reveal_strlit("cd '");
                    reveal_strlit("' && ");
                    assert(full@ =~= "cd '"@ + d@ + "' && "@ + base@);
                }
            },
            None => {
                let base = AppleScriptRunner::build_command(session_id, command);
                full.append(base.as_str());
                proof {
                    assert(full@ =~= base@);
                }
            },
        }
        if str_eq(terminal_type, "Terminal") || str_eq(terminal_type, "Terminal.app") {
            LaunchAction::RunScript(
                AppleScriptRunner::launch_terminal_app(session_id, Some(full.as_str())),
            )
        } else if str_eq(terminal_type, "iTerm2") || str_eq(terminal_type, "iTerm") {
            LaunchAction::RunScript(
                AppleScriptRunner::launch_iterm2(session_id, Some(full.as_str()), true),
            )
        } else {
            let wd = match working_directory {
                Some(d) => Some(String::from_str(d)),
                None => None,
            };
            LaunchAction::OpenApp { app: String::from_str(terminal_type), working_directory: wd }
        }
    }

    /// The script that focuses a terminal window of the given type: a window
    /// id script for the known terminals (a non-numeric id for the primary
    /// terminal is rejected), a bare activation for anything else.
    pub fn focus_terminal_window(terminal_type: &str, window_info: &str) -> (r: Result<
        String,
        String,
    >)
        ensures
            ({
                let tt = terminal_type@;
                let w = window_info@;
                if tt == "Terminal"@ || tt == "Terminal.app"@ {
                    if w.len() > 0 && all_dec_digits(w) && dec_val(w) <= u64::MAX {
                        r matches Ok(s) && s@ == focus_terminal_script(dec_val(w))
                    } else {
                        r matches Err(e) && e@ == "Invalid window ID"@
                    }
                } else if tt == "iTerm2"@ || tt == "iTerm"@ {
                    r matches Ok(s) && s@ == focus_iterm2_script(w)
                } else {
                    r matches Ok(s) && s@ == "tell application \""@ + tt + "\" to activate"@
                }
            }),
    {
        if str_eq(terminal_type, "Terminal") || str_eq(terminal_type, "Terminal.app") {
            match parse_u64(window_info) {
                Some(wid) => Ok(AppleScriptRunner::focus_terminal_window(wid, None)),
                None => Err(String::from_str("Invalid window ID")),
            }
        } else if str_eq(terminal_type, "iTerm2") || str_eq(terminal_type, "iTerm") {
            Ok(AppleScriptRunner::focus_iterm2_window(window_info))
        } else {
            let mut s = String::from_str("tell application \"");
            s.append(terminal_type);
            s.append("\" to activate");
            proof {
                assert(s@ =~= "tell application \""@ + terminal_type@ + "\" to activate"@);
            }
            Ok(s)
        }
    }
}

} // verus!
