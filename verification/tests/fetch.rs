use zellij_sessions::error::SessionError;
use zellij_sessions::fetch::{cached_layout_path, fetch_all, parse_session_tabs, FetchedLayout};
use zellij_sessions::layout::TabInfo;
use zellij_sessions::session::SessionInfo;

const LAYOUT: &str =
    "layout {\n    tab name=\"code\" {\n        pane command=\"nvim\" cwd=\"/work\"\n    }\n}\n";

fn text(layout: &str) -> FetchedLayout {
    FetchedLayout::Text(layout.to_string())
}

fn code_tab() -> TabInfo {
    TabInfo {
        name: "code".to_string(),
        command: Some("nvim".to_string()),
        cwd: Some("/work".to_string()),
    }
}

#[test]
fn a_failed_fetch_stays_with_its_session() {
    let one = SessionInfo::new("one", false, false);
    let two = SessionInfo::new("two", false, false);
    let three = SessionInfo::new("three", false, false);
    let batch = vec![
        (one.clone(), text(LAYOUT)),
        (two.clone(), FetchedLayout::Failed),
        (three.clone(), text("layout {\n    tab\n}\n")),
    ];
    let results = fetch_all(batch);
    assert_eq!(results.len(), 3);
    assert_eq!(results[0], (one, Ok(vec![code_tab()])));
    assert_eq!(results[1], (two, Err(SessionError::LayoutUnavailable)));
    assert_eq!(
        results[2],
        (three, Ok(vec![TabInfo { name: "Tab".to_string(), command: None, cwd: None }]))
    );
}

#[test]
fn a_malformed_layout_fails_its_own_session_only() {
    let batch = vec![
        (SessionInfo::new("bad", false, false), text("layout {")),
        (SessionInfo::new("good", false, false), text(LAYOUT)),
        (SessionInfo::new("worse", true, false), text("layout {\n tab (null)")),
        (SessionInfo::new("gone", false, true), FetchedLayout::Missing),
    ];
    let results = fetch_all(batch);
    assert_eq!(results[0].1, Err(SessionError::LayoutParse));
    assert_eq!(results[1].1, Ok(vec![code_tab()]));
    assert_eq!(results[2].1, Err(SessionError::LayoutParse));
    assert_eq!(results[3].1, Ok(vec![]));
    let names: Vec<&str> = results.iter().map(|r| r.0.name.as_str()).collect();
    assert_eq!(names, vec!["bad", "good", "worse", "gone"]);
}

#[test]
fn an_empty_batch_gives_no_results() {
    assert_eq!(fetch_all(vec![]), vec![]);
}

#[test]
fn an_exited_session_without_a_cached_layout_has_no_tabs() {
    let gone = SessionInfo::new("gone", false, true);
    assert_eq!(parse_session_tabs(&gone, &FetchedLayout::Missing), Ok(vec![]));
    assert_eq!(parse_session_tabs(&gone, &text(LAYOUT)), Ok(vec![code_tab()]));
    assert_eq!(parse_session_tabs(&gone, &text("tab {")), Err(SessionError::LayoutParse));
}

#[test]
fn a_cached_layout_that_cannot_be_read_is_an_error() {
    let gone = SessionInfo::new("gone", false, true);
    assert_eq!(
        parse_session_tabs(&gone, &FetchedLayout::Failed),
        Err(SessionError::LayoutUnavailable)
    );
}

#[test]
fn a_live_session_without_a_layout_is_an_error() {
    let live = SessionInfo::new("live", true, false);
    assert_eq!(
        parse_session_tabs(&live, &FetchedLayout::Failed),
        Err(SessionError::LayoutUnavailable)
    );
    assert_eq!(
        parse_session_tabs(&live, &FetchedLayout::Missing),
        Err(SessionError::LayoutUnavailable)
    );
    assert_eq!(parse_session_tabs(&live, &text(LAYOUT)), Ok(vec![code_tab()]));
}

#[test]
fn the_cached_layout_lies_below_the_cache_of_the_platform() {
    assert_eq!(
        cached_layout_path("/home/me", "0.42.2", "main", false),
        vec!["/home/me", ".cache", "zellij", "0.42.2", "session_info", "main", "session-layout.kdl"]
    );
    assert_eq!(
        cached_layout_path("/Users/me", "0.42.2", "main", true),
        vec![
            "/Users/me",
            "Library",
            "Caches",
            "org.Zellij-Contributors.Zellij",
            "0.42.2",
            "session_info",
            "main",
            "session-layout.kdl"
        ]
    );
}
