use vibetunnel_core::git_app_launcher::{GitApp, GitAppLauncher};
use vibetunnel_core::git_repository::{parse_git_status, GitRepository};

#[test]
fn new_repository_is_clean() {
    let r = GitRepository::new("/srv/repo".to_string());
    assert!(!r.has_changes());
    assert_eq!(r.total_changed_files(), 0);
    assert_eq!(r.status_text(), "clean");
    assert_eq!(r.folder_name(), "repo");
    assert!(r.current_branch.is_none());
    assert!(r.github_url.is_none());
}

#[test]
fn status_text_formats_counts() {
    let mut r = GitRepository::new("/srv/repo".to_string());
    r.modified_count = 3;
    r.added_count = 2;
    assert!(r.has_changes());
    assert_eq!(r.total_changed_files(), 5);
    assert_eq!(r.status_text(), "3M 2A");
    r.deleted_count = 1;
    r.untracked_count = 4;
    assert_eq!(r.status_text(), "3M 2A 1D 4U");
    assert_eq!(r.total_changed_files(), 10);
}

#[test]
fn status_text_single_kind() {
    let mut r = GitRepository::new("/x".to_string());
    r.untracked_count = 12;
    assert_eq!(r.status_text(), "12U");
}

#[test]
fn parse_github_url_https() {
    assert_eq!(
        GitRepository::parse_github_url("https://github.com/user/repo.git").as_deref(),
        Some("https://github.com/user/repo")
    );
    assert_eq!(
        GitRepository::parse_github_url("https://github.com/user/repo").as_deref(),
        Some("https://github.com/user/repo")
    );
}

#[test]
fn parse_github_url_ssh() {
    assert_eq!(
        GitRepository::parse_github_url("git@github.com:user/repo.git").as_deref(),
        Some("https://github.com/user/repo")
    );
    assert_eq!(
        GitRepository::parse_github_url("git@github.com:user/repo").as_deref(),
        Some("https://github.com/user/repo")
    );
}

#[test]
fn parse_github_url_other_remotes() {
    assert!(GitRepository::parse_github_url("https://gitlab.com/u/r.git").is_none());
    assert!(GitRepository::parse_github_url("ssh://git@github.com/u/r").is_none());
    assert!(GitRepository::parse_github_url("").is_none());
}

#[test]
fn git_app_raw_value_roundtrip() {
    for app in GitApp::all() {
        assert_eq!(GitApp::from_raw_value(app.raw_value()), Some(app));
        assert_eq!(app.display_name(), app.raw_value());
    }
    assert_eq!(GitApp::from_raw_value("NotAnApp"), None);
}

#[test]
fn git_app_tables() {
    assert_eq!(GitApp::all().len(), 9);
    assert_eq!(GitApp::Tower.detection_priority(), 100);
    assert_eq!(GitApp::VSCode.raw_value(), "Visual Studio Code");
    assert_eq!(GitApp::VSCode.bundle_identifier(), "com.microsoft.VSCode");
    assert_eq!(GitApp::GitUp.detection_priority(), 60);
}

#[test]
fn auto_detect_prefers_highest_priority() {
    let installed = vec![GitApp::Cursor, GitApp::VSCode, GitApp::Fork];
    assert_eq!(GitAppLauncher::auto_detect_git_app(&installed), Some(GitApp::VSCode));
    let none: Vec<GitApp> = Vec::new();
    assert_eq!(GitAppLauncher::auto_detect_git_app(&none), None);
}

#[test]
fn preferred_app_reads_settings_first() {
    let installed = vec![GitApp::Tower];
    assert_eq!(
        GitAppLauncher::get_preferred_git_app(Some("Fork"), &installed),
        Some(GitApp::Fork)
    );
    // An unparsable stored name yields nothing, without auto-detection.
    assert_eq!(GitAppLauncher::get_preferred_git_app(Some("Zed"), &installed), None);
    // No stored name: auto-detect.
    assert_eq!(
        GitAppLauncher::get_preferred_git_app(None, &installed),
        Some(GitApp::Tower)
    );
}

#[test]
fn set_preferred_app_value() {
    assert_eq!(
        GitAppLauncher::set_preferred_git_app(Some(&GitApp::SublimeMerge)).as_deref(),
        Some("Sublime Merge")
    );
    assert!(GitAppLauncher::set_preferred_git_app(None).is_none());
}

#[test]
fn verify_preferred_clears_uninstalled() {
    let installed = vec![GitApp::VSCode];
    // Preferred Fork is not installed: the stored preference is cleared.
    assert!(GitAppLauncher::verify_preferred_git_app(Some("Fork"), &installed).is_none());
    // Preferred VSCode is installed: the stored name stays.
    assert_eq!(
        GitAppLauncher::verify_preferred_git_app(Some("Visual Studio Code"), &installed)
            .as_deref(),
        Some("Visual Studio Code")
    );
    // No preference stored: nothing to clear or keep.
    assert!(GitAppLauncher::verify_preferred_git_app(None, &installed).is_none());
}

#[test]
fn installed_apps_passthrough() {
    let detected = vec![GitApp::Fork, GitApp::Tower];
    let apps = GitApp::installed_apps(&detected);
    assert_eq!(apps, detected);
}

#[test]
fn parse_git_status_counts_and_branch() {
    let out = "## main...origin/main\n M src/a.rs\nA  src/b.rs\n D gone.rs\n?? new.rs\nR  renamed.rs\nUU conflict.rs\n";
    let r = parse_git_status(out, "/srv/repo");
    assert_eq!(r.path, "/srv/repo");
    assert_eq!(r.current_branch.as_deref(), Some("main"));
    // M, R and U all count as modified.
    assert_eq!(r.modified_count, 3);
    assert_eq!(r.added_count, 1);
    assert_eq!(r.deleted_count, 1);
    assert_eq!(r.untracked_count, 1);
    assert_eq!(r.status_text(), "3M 1A 1D 1U");
    assert!(r.github_url.is_none());
}

#[test]
fn parse_git_status_clean_repo() {
    let r = parse_git_status("## trunk\n", "/x");
    assert_eq!(r.current_branch.as_deref(), Some("trunk"));
    assert!(!r.has_changes());
    assert_eq!(r.status_text(), "clean");
}

#[test]
fn parse_git_status_empty_output() {
    let r = parse_git_status("", "/x");
    assert!(r.current_branch.is_none());
    assert_eq!(r.total_changed_files(), 0);
}
