use rusty_search::session::{parse_control, Control, CrawlSession, EngineCommand, SessionError, SessionState};
use rusty_search::sites::{add_new_url, get_sitelist, AppState, SiteList};

#[test]
fn control_tokens() {
    assert_eq!(parse_control("continue"), Some(Control::Continue));
    assert_eq!(parse_control("\"shutdown\""), Some(Control::Shutdown));
    assert_eq!(parse_control("\"\"continue\""), Some(Control::Continue));
    assert_eq!(parse_control("pause"), None);
    assert_eq!(parse_control(" shutdown"), None);
    assert_eq!(parse_control(""), None);
}

#[test]
fn invalid_target_is_rejected() {
    assert!(matches!(CrawlSession::new("not a url"), Err(SessionError::InvalidInput)));
}

#[test]
fn shutdown_mid_crawl_tears_down() {
    let mut s = CrawlSession::new("https://example.test/a").unwrap();
    assert_eq!(s.state(), SessionState::Idle);
    assert_eq!(s.target(), "https://example.test/a");
    s.start().unwrap();
    assert_eq!(s.state(), SessionState::Running);
    let cmds = s.on_message("\"shutdown\"");
    assert_eq!(
        cmds,
        vec![
            EngineCommand::AbortConsumer,
            EngineCommand::Unsubscribe,
            EngineCommand::Stop,
            EngineCommand::ClearCaches
        ]
    );
    assert_eq!(s.state(), SessionState::Stopping);
    s.finish_teardown();
    assert_eq!(s.state(), SessionState::Stopped);
    assert!(s.on_message("shutdown").is_empty());
    assert_eq!(s.start(), Err(SessionError::NotIdle));
}

#[test]
fn continue_tears_down_without_abort() {
    let mut s = CrawlSession::new("https://example.test/").unwrap();
    s.start().unwrap();
    assert!(s.on_message("hello").is_empty());
    assert_eq!(s.state(), SessionState::Running);
    let cmds = s.on_control(Control::Continue);
    assert_eq!(cmds, vec![EngineCommand::Unsubscribe, EngineCommand::Stop, EngineCommand::ClearCaches]);
    assert_eq!(s.state(), SessionState::Stopping);
}

#[test]
fn engine_failure_stops_session() {
    let mut s = CrawlSession::new("https://example.test/").unwrap();
    s.start().unwrap();
    s.engine_failed();
    assert_eq!(s.state(), SessionState::Stopped);
}

#[test]
fn sites_are_canonical_and_unique() {
    let mut state = AppState::new();
    assert!(add_new_url(&mut state, "https://Example.test"));
    assert!(!add_new_url(&mut state, "https://example.test/"));
    assert!(!add_new_url(&mut state, "no url here"));
    assert!(add_new_url(&mut state, "https://example.test/b"));
    assert_eq!(get_sitelist(&state), vec!["https://example.test/".to_string(), "https://example.test/b".to_string()]);
}

#[test]
fn sitelist_text_round_trip() {
    let mut list = SiteList::new();
    list.load("https://a.test/\nnot a url\nhttps://b.test/x\nhttps://a.test/\n");
    assert_eq!(list.addresses(), vec!["https://a.test/".to_string(), "https://b.test/x".to_string()]);
    let text = list.to_text();
    assert_eq!(text, "https://a.test/\nhttps://b.test/x\n");
    let mut again = SiteList::new();
    again.load(&text);
    assert_eq!(again.addresses(), list.addresses());
}
