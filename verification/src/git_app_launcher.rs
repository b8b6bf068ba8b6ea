//! Choosing the Git application a repository opens in.
//!
//! The known applications, their settings names, bundle identifiers and
//! auto-detection priorities are fixed tables; which of them are installed,
//! and launching one, are OS queries the embedding application performs. The
//! selection rules over those query results are verified here.

use vstd::prelude::*;
use crate::text::str_eq;

verus! {

/// A Git application the tracker can open repositories in.
#[derive(Debug, Clone, Copy, PartialEq, Eq, Structural)]
pub enum GitApp {
    Cursor,
    Fork,
    GitHubDesktop,
    GitUp,
    SourceTree,
    SublimeMerge,
    Tower,
    VSCode,
    Windsurf,
}

/// The settings name of each application.
pub open spec fn raw_value_spec(app: GitApp) -> Seq<char> {
    match app {
        GitApp::Cursor => "Cursor"@,
        GitApp::Fork => "Fork"@,
        GitApp::GitHubDesktop => "GitHub Desktop"@,
        GitApp::GitUp => "GitUp"@,
        GitApp::SourceTree => "SourceTree"@,
        GitApp::SublimeMerge => "Sublime Merge"@,
        GitApp::Tower => "Tower"@,
        GitApp::VSCode => "Visual Studio Code"@,
        GitApp::Windsurf => "Windsurf"@,
    }
}

/// The application a settings name denotes, if any.
pub open spec fn from_raw_value_spec(v: Seq<char>) -> Option<GitApp> {
    if v == "Cursor"@ {
        Some(GitApp::Cursor)
    } else if v == "Fork"@ {
        Some(GitApp::Fork)
    } else if v == "GitHub Desktop"@ {
        Some(GitApp::GitHubDesktop)
    } else if v == "GitUp"@ {
        Some(GitApp::GitUp)
    } else if v == "SourceTree"@ {
        Some(GitApp::SourceTree)
    } else if v == "Sublime Merge"@ {
        Some(GitApp::SublimeMerge)
    } else if v == "Tower"@ {
        Some(GitApp::Tower)
    } else if v == "Visual Studio Code"@ {
        Some(GitApp::VSCode)
    } else if v == "Windsurf"@ {
        Some(GitApp::Windsurf)
    } else {
        None
    }
}

/// The bundle identifier of each application on the primary platform.
pub open spec fn bundle_identifier_spec(app: GitApp) -> Seq<char> {
    match app {
        GitApp::Cursor => "com.todesktop.230313mzl4w4u92"@,
        GitApp::Fork => "com.DanPristupov.Fork"@,
        GitApp::GitHubDesktop => "com.github.GitHubClient"@,
        GitApp::GitUp => "co.gitup.mac"@,
        GitApp::SourceTree => "com.torusknot.SourceTreeNotMAS"@,
        GitApp::SublimeMerge => "com.sublimemerge"@,
        GitApp::Tower => "com.fournova.Tower3"@,
        GitApp::VSCode => "com.microsoft.VSCode"@,
        GitApp::Windsurf => "com.codeiumapp.windsurf"@,
    }
}

/// Auto-detection priority; a larger value wins.
pub open spec fn detection_priority_spec(app: GitApp) -> u8 {
    match app {
        GitApp::Cursor => 70,
        GitApp::Fork => 75,
        GitApp::GitHubDesktop => 90,
        GitApp::GitUp => 60,
        GitApp::SourceTree => 80,
        GitApp::SublimeMerge => 85,
        GitApp::Tower => 100,
        GitApp::VSCode => 95,
        GitApp::Windsurf => 65,
    }
}

impl GitApp {
    /// Every known application, in a fixed order.
    pub fn all() -> (r: Vec<GitApp>)
        ensures
            r@ =~= seq![
                GitApp::Cursor,
                GitApp::Fork,
                GitApp::GitHubDesktop,
                GitApp::GitUp,
                GitApp::SourceTree,
                GitApp::SublimeMerge,
                GitApp::Tower,
                GitApp::VSCode,
                GitApp::Windsurf,
            ],
    {
        let mut r: Vec<GitApp> = Vec::new();
        r.push(GitApp::Cursor);
        r.push(GitApp::Fork);
        r.push(GitApp::GitHubDesktop);
        r.push(GitApp::GitUp);
        r.push(GitApp::SourceTree);
        r.push(GitApp::SublimeMerge);
        r.push(GitApp::Tower);
        r.push(GitApp::VSCode);
        r.push(GitApp::Windsurf);
        r
    }

    /// The name the application is stored under in settings.
    pub fn raw_value(&self) -> (r: &'static str)
        ensures
            r@ == raw_value_spec(*self),
    {
        match self {
            GitApp::Cursor => "Cursor",
            GitApp::Fork => "Fork",
            GitApp::GitHubDesktop => "GitHub Desktop",
            GitApp::GitUp => "GitUp",
            GitApp::SourceTree => "SourceTree",
            GitApp::SublimeMerge => "Sublime Merge",
            GitApp::Tower => "Tower",
            GitApp::VSCode => "Visual Studio Code",
            GitApp::Windsurf => "Windsurf",
        }
    }

    /// The application a settings name denotes, if any.
    pub fn from_raw_value(value: &str) -> (r: Option<GitApp>)
        ensures
            r == from_raw_value_spec(value@),
    {
        if str_eq(value, "Cursor") {
            Some(GitApp::Cursor)
        } else if str_eq(value, "Fork") {
            Some(GitApp::Fork)
        } else if str_eq(value, "GitHub Desktop") {
            Some(GitApp::GitHubDesktop)
        } else if str_eq(value, "GitUp") {
            Some(GitApp::GitUp)
        } else if str_eq(value, "SourceTree") {
            Some(GitApp::SourceTree)
        } else if str_eq(value, "Sublime Merge") {
            Some(GitApp::SublimeMerge)
        } else if str_eq(value, "Tower") {
            Some(GitApp::Tower)
        } else if str_eq(value, "Visual Studio Code") {
            Some(GitApp::VSCode)
        } else if str_eq(value, "Windsurf") {
            Some(GitApp::Windsurf)
        } else {
            None
        }
    }

    /// The application's bundle identifier on the primary platform.
    pub fn bundle_identifier(&self) -> (r: &'static str)
        ensures
            r@ == bundle_identifier_spec(*self),
    {
        match self {
            GitApp::Cursor => "com.todesktop.230313mzl4w4u92",
            GitApp::Fork => "com.DanPristupov.Fork",
            GitApp::GitHubDesktop => "com.github.GitHubClient",
            GitApp::GitUp => "co.gitup.mac",
            GitApp::SourceTree => "com.torusknot.SourceTreeNotMAS",
            GitApp::SublimeMerge => "com.sublimemerge",
            GitApp::Tower => "com.fournova.Tower3",
            GitApp::VSCode => "com.microsoft.VSCode",
            GitApp::Windsurf => "com.codeiumapp.windsurf",
        }
    }

    /// The application's auto-detection priority; a larger value wins.
    pub fn detection_priority(&self) -> (r: u8)
        ensures
            r == detection_priority_spec(*self),
    {
        match self {
            GitApp::Cursor => 70,
            GitApp::Fork => 75,
            GitApp::GitHubDesktop => 90,
            GitApp::GitUp => 60,
            GitApp::SourceTree => 80,
            GitApp::SublimeMerge => 85,
            GitApp::Tower => 100,
            GitApp::VSCode => 95,
            GitApp::Windsurf => 65,
        }
    }

    /// The name shown to the user; the settings name serves as both.
    pub fn display_name(&self) -> (r: &'static str)
        ensures
            r@ == raw_value_spec(*self),
    {
        self.raw_value()
    }

    /// The known applications among those the embedding application detected
    /// as installed, in detection order. Whether one is installed is an OS
    /// query (a metadata lookup or a path probe) made by the caller.
    pub fn installed_apps(detected: &Vec<GitApp>) -> (r: Vec<GitApp>)
        ensures
            r@ =~= detected@,
    {
        let mut r: Vec<GitApp> = Vec::new();
        let n = detected.len();
        let mut i: usize = 0;
        while i < n
            invariant
                n == detected@.len(),
                0 <= i <= n,
                r@ =~= detected@.subrange(0, i as int),
            decreases n - i,
        {
            r.push(detected[i]);
            proof {
                assert(r@ =~= detected@.subrange(0, i + 1));
            }
            i = i + 1;
        }
        proof {
            assert(detected@.subrange(0, n as int) =~= detected@);
        }
        r
    }
}

/// The app at the latest position with maximal detection priority, if any.
pub open spec fn max_priority_app(apps: Seq<GitApp>) -> Option<GitApp>
    decreases apps.len(),
{
    if apps.len() == 0 {
        None
    } else {
        match max_priority_app(apps.drop_last()) {
            Some(best) => if detection_priority_spec(best) <= detection_priority_spec(
                apps.last(),
            ) {
                Some(apps.last())
            } else {
                Some(best)
            },
            None => Some(apps.last()),
        }
    }
}

/// Choosing the Git application to open repositories in.
pub struct GitAppLauncher;

impl GitAppLauncher {
    /// The highest-priority application among the installed ones.
    pub fn auto_detect_git_app(installed: &Vec<GitApp>) -> (r: Option<GitApp>)
        ensures
            r == max_priority_app(installed@),
    {
        let n = installed.len();
        let mut best: Option<GitApp> = None;
        let mut i: usize = 0;
        proof {
            assert(installed@.subrange(0, 0) =~= Seq::<GitApp>::empty());
        }
        while i < n
            invariant
                n == installed@.len(),
                0 <= i <= n,
                best == max_priority_app(installed@.subrange(0, i as int)),
            decreases n - i,
        {
            let ghost pre = installed@.subrange(0, i as int);
            proof {
                let post = installed@.subrange(0, i + 1);
                assert(post.drop_last() =~= pre);
                assert(post.last() == installed@[i as int]);
            }
            match best {
                Some(b) => {
                    if b.detection_priority() <= installed[i].detection_priority() {
                        best = Some(installed[i]);
                    }
                },
                None => {
                    best = Some(installed[i]);
                },
            }
            i = i + 1;
        }
        proof {
            assert(installed@.subrange(0, n as int) =~= installed@);
        }
        best
    }

    /// The preferred application: the stored settings name when one is set
    /// (unparsable names yield `None`), else the best installed one.
    pub fn get_preferred_git_app(stored: Option<&str>, installed: &Vec<GitApp>) -> (r: Option<
        GitApp,
    >)
        ensures
            r == (match stored {
                Some(name) => from_raw_value_spec(name@),
                None => max_priority_app(installed@),
            }),
    {
        match stored {
            Some(name) => GitApp::from_raw_value(name),
            None => Self::auto_detect_git_app(installed),
        }
    }

    /// The settings value that stores a preference: the application's name,
    /// or nothing to clear it. Persisting the value is the embedding
    /// application's job.
    pub fn set_preferred_git_app(app: Option<&GitApp>) -> (r: Option<String>)
        ensures
            match app {
                Some(a) => r matches Some(v) && v@ == raw_value_spec(*a),
                None => r is None,
            },
    {
        match app {
            Some(a) => Some(String::from_str(a.raw_value())),
            None => None,
        }
    }

    /// The stored preference after checking it is still installed: cleared
    /// when the preferred application is no longer among the installed ones,
    /// untouched otherwise.
    pub fn verify_preferred_git_app(stored: Option<&str>, installed: &Vec<GitApp>) -> (r: Option<
        String,
    >)
        ensures
            ({
                let preferred = match stored {
                    Some(name) => from_raw_value_spec(name@),
                    None => max_priority_app(installed@),
                };
                match preferred {
                    Some(a) => if installed@.contains(a) {
                        opt_ref_view(r) == opt_ref_view_src(stored)
                    } else {
                        r is None
                    },
                    None => opt_ref_view(r) == opt_ref_view_src(stored),
                }
            }),
    {
        match Self::get_preferred_git_app(stored, installed) {
            Some(app) => {
                if !app_installed(installed, app) {
                    return None;
                }
                match stored {
                    Some(name) => Some(String::from_str(name)),
                    None => None,
                }
            },
            None => match stored {
                Some(name) => Some(String::from_str(name)),
                None => None,
            },
        }
    }
}

/// The view of an optional owned string.
pub open spec fn opt_ref_view(s: Option<String>) -> Option<Seq<char>> {
    match s {
        Some(t) => Some(t@),
        None => None,
    }
}

/// The view of an optional string slice.
pub open spec fn opt_ref_view_src(s: Option<&str>) -> Option<Seq<char>> {
    match s {
        Some(t) => Some(t@),
        None => None,
    }
}

/// Whether `app` is among the installed ones.
fn app_installed(installed: &Vec<GitApp>, app: GitApp) -> (r: bool)
    ensures
        r == installed@.contains(app),
{
    let n = installed.len();
    let mut i: usize = 0;
    while i < n
        invariant
            n == installed@.len(),
            0 <= i <= n,
            forall|j: int| 0 <= j < i ==> installed@[j] != app,
        decreases n - i,
    {
        if installed[i] == app {
            assert(installed@.contains(app));
            return true;
        }
        i = i + 1;
    }
    proof {
        if installed@.contains(app) {
            let j = choose|j: int| 0 <= j < installed@.len() && installed@[j] == app;
            assert(installed@[j] != app);
        }
    }
    false
}

/// A choice offered to the user: a settings value and its label.
#[derive(Debug)]
pub struct GitAppOption {
    pub value: String,
    pub label: String,
}

} // verus!
