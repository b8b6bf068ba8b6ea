use vibetunnel_core::url_scheme::{URLSchemeAction, URLSchemeHandler};

#[test]
fn open_session_url() {
    let a = URLSchemeHandler::parse_url("vibetunnel://session?id=abc123").unwrap();
    match a {
        URLSchemeAction::OpenSession { session_id } => assert_eq!(session_id, "abc123"),
        _ => panic!("wrong action"),
    }
}

#[test]
fn sessions_alias_works() {
    let a = URLSchemeHandler::parse_url("vibetunnel://sessions?id=s9").unwrap();
    match a {
        URLSchemeAction::OpenSession { session_id } => assert_eq!(session_id, "s9"),
        _ => panic!("wrong action"),
    }
}

#[test]
fn session_without_id_is_rejected() {
    let e = URLSchemeHandler::parse_url("vibetunnel://session?name=x").unwrap_err();
    assert_eq!(e, "Missing session ID parameter");
}

#[test]
fn create_session_with_decoded_params() {
    // The percent-encoded command must come back decoded: this exercises the
    // real percent-decoder behind the query parser.
    let a =
        URLSchemeHandler::parse_url("vibetunnel://create?name=dev&command=ls%20-la").unwrap();
    match a {
        URLSchemeAction::CreateSession { name, command } => {
            assert_eq!(name.as_deref(), Some("dev"));
            assert_eq!(command.as_deref(), Some("ls -la"));
        },
        _ => panic!("wrong action"),
    }
}

#[test]
fn create_without_params() {
    let a = URLSchemeHandler::parse_url("vibetunnel://new").unwrap();
    match a {
        URLSchemeAction::CreateSession { name, command } => {
            assert!(name.is_none());
            assert!(command.is_none());
        },
        _ => panic!("wrong action"),
    }
}

#[test]
fn duplicate_key_last_wins() {
    let a = URLSchemeHandler::parse_url("vibetunnel://session?id=first&id=second").unwrap();
    match a {
        URLSchemeAction::OpenSession { session_id } => assert_eq!(session_id, "second"),
        _ => panic!("wrong action"),
    }
}

#[test]
fn settings_with_tab() {
    let a = URLSchemeHandler::parse_url("vibetunnel://settings?tab=network").unwrap();
    match a {
        URLSchemeAction::OpenSettings { tab } => assert_eq!(tab.as_deref(), Some("network")),
        _ => panic!("wrong action"),
    }
    let b = URLSchemeHandler::parse_url("vibetunnel://preferences").unwrap();
    match b {
        URLSchemeAction::OpenSettings { tab } => assert!(tab.is_none()),
        _ => panic!("wrong action"),
    }
}

#[test]
fn welcome_and_empty_paths() {
    assert!(matches!(
        URLSchemeHandler::parse_url("vibetunnel://welcome").unwrap(),
        URLSchemeAction::ShowWelcome
    ));
    assert!(matches!(
        URLSchemeHandler::parse_url("vibetunnel://").unwrap(),
        URLSchemeAction::ShowWelcome
    ));
}

#[test]
fn wrong_scheme_rejected() {
    let e = URLSchemeHandler::parse_url("https://example.com").unwrap_err();
    assert_eq!(e, "Invalid URL scheme: must start with vibetunnel://");
}

#[test]
fn unknown_path_rejected_with_path_in_message() {
    let e = URLSchemeHandler::parse_url("vibetunnel://frobnicate?x=1").unwrap_err();
    assert_eq!(e, "Unknown URL path: frobnicate");
}

#[test]
fn malformed_pairs_are_skipped() {
    // A segment without `=` contributes nothing.
    let a = URLSchemeHandler::parse_url("vibetunnel://session?garbage&id=ok").unwrap();
    match a {
        URLSchemeAction::OpenSession { session_id } => assert_eq!(session_id, "ok"),
        _ => panic!("wrong action"),
    }
}
