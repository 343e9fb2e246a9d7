use zellij_sessions::digest::compute_hash_prefix;
use zellij_sessions::error::SessionError;
use zellij_sessions::session::{list_sessions, read_listing, SessionInfo};

fn names(sessions: &[SessionInfo]) -> Vec<&str> {
    sessions.iter().map(|s| s.name.as_str()).collect()
}

const LIVE: &str = "\u{1b}[32;1mmain\u{1b}[m [Created \u{1b}[35;1m2h 3m\u{1b}[m ago]";
const DEAD: &str =
    "\u{1b}[31;1mold\u{1b}[m [Created \u{1b}[35;1m5days\u{1b}[m ago] (\u{1b}[31;1mEXITED\u{1b}[m - attach to resurrect)";

#[test]
fn exited_sessions_are_left_out_unless_asked_for() {
    let listing = format!("{DEAD}\n{LIVE}\n");
    let sessions = read_listing(&listing, None, false);
    assert_eq!(
        sessions,
        vec![SessionInfo {
            name: "main".to_string(),
            is_current: false,
            is_exited: false,
            hash_prefix: compute_hash_prefix("main"),
        }]
    );
}

#[test]
fn exited_sessions_are_listed_when_asked_for() {
    let listing = format!("{DEAD}\n{LIVE}\n");
    let sessions = read_listing(&listing, None, true);
    assert_eq!(names(&sessions), vec!["old", "main"]);
    assert!(sessions[0].is_exited);
    assert!(!sessions[1].is_exited);
    assert_eq!(sessions[0].hash_prefix, compute_hash_prefix("old"));
}

#[test]
fn the_current_session_is_marked() {
    let listing = format!("{LIVE}\n\u{1b}[32;1mwork\u{1b}[m [Created now]\n");
    let sessions = read_listing(&listing, Some("work"), false);
    assert_eq!(names(&sessions), vec!["main", "work"]);
    assert!(!sessions[0].is_current);
    assert!(sessions[1].is_current);
    let nowhere = read_listing(&listing, Some("elsewhere"), false);
    assert!(nowhere.iter().all(|s| !s.is_current));
    let outside = read_listing(&listing, None, false);
    assert!(outside.iter().all(|s| !s.is_current));
}

#[test]
fn a_plain_line_gives_its_first_word() {
    let sessions = read_listing("  plain [Created 1h ago]\nsecond\n", None, false);
    assert_eq!(names(&sessions), vec!["plain", "second"]);
}

#[test]
fn a_styled_name_is_trimmed() {
    let sessions = read_listing("\u{1b}[1m  my session \u{1b}[0m rest", None, false);
    assert_eq!(names(&sessions), vec!["my session"]);
}

#[test]
fn a_styling_sequence_that_is_not_closed_falls_back_to_the_first_word() {
    let no_m = read_listing("\u{1b}[32 rest of line", None, false);
    assert_eq!(names(&no_m), vec!["\u{1b}[32"]);
    let no_second_escape = read_listing("\u{1b}[32mname rest", None, false);
    assert_eq!(names(&no_second_escape), vec!["\u{1b}[32mname"]);
    let m_before_escape = read_listing("main \u{1b}[32;1 x", None, false);
    assert_eq!(names(&m_before_escape), vec!["main"]);
}

#[test]
fn blank_lines_and_lines_without_a_name_are_dropped() {
    let listing = "\n   \n\t\n\u{1b}[32m   \u{1b}[0m [Created]\nreal\n\n";
    let sessions = read_listing(listing, None, true);
    assert_eq!(names(&sessions), vec!["real"]);
    assert_eq!(read_listing("", None, true), vec![]);
    assert_eq!(read_listing("\n", None, true), vec![]);
}

#[test]
fn carriage_returns_and_other_white_space_do_not_reach_the_name() {
    let sessions = read_listing("alpha\r\nbeta \r\n\u{2003}gamma\u{a0}tail\r\n", None, false);
    assert_eq!(names(&sessions), vec!["alpha", "beta", "gamma"]);
}

#[test]
fn a_listing_without_a_final_line_feed_gives_the_same_sessions() {
    let with_feed = read_listing("a\nb\n", None, false);
    let without = read_listing("a\nb", None, false);
    assert_eq!(with_feed, without);
    assert_eq!(names(&with_feed), vec!["a", "b"]);
}

#[test]
fn the_exited_mark_is_found_anywhere_in_the_line() {
    let sessions = read_listing("name EXITED\nEXITEDnot\nexited lower\n", None, false);
    assert_eq!(names(&sessions), vec!["exited"]);
    let all = read_listing("name EXITED\nEXITEDnot\nexited lower\n", None, true);
    assert_eq!(names(&all), vec!["name", "EXITEDnot", "exited"]);
    assert_eq!(all.iter().map(|s| s.is_exited).collect::<Vec<_>>(), vec![true, true, false]);
}

#[test]
fn an_unavailable_listing_fails_the_request() {
    assert_eq!(list_sessions(None, None, false), Err(SessionError::ListingUnavailable));
    assert_eq!(list_sessions(None, Some("main"), true), Err(SessionError::ListingUnavailable));
}

#[test]
fn an_available_listing_is_read() {
    let listing = format!("{LIVE}\n{DEAD}\n");
    let sessions = list_sessions(Some(&listing), Some("main"), true).unwrap();
    assert_eq!(names(&sessions), vec!["main", "old"]);
    assert!(sessions[0].is_current);
    assert_eq!(list_sessions(Some(""), None, false), Ok(vec![]));
}

#[test]
fn a_new_record_carries_the_digest_of_its_name() {
    let session = SessionInfo::new("main", true, false);
    assert_eq!(session.name, "main");
    assert!(session.is_current);
    assert!(!session.is_exited);
    assert_eq!(session.hash_prefix, compute_hash_prefix("main"));
    assert_eq!(session.duplicate(), session);
}

fn name_by_the_standard_library(line: &str) -> String {
    let first_word = || line.split_whitespace().next().unwrap_or("").to_string();
    let Some(start) = line.find('\u{1b}') else {
        return first_word();
    };
    let Some(m) = line[start..].find('m') else {
        return first_word();
    };
    let name_start = start + m + 1;
    match line[name_start..].find('\u{1b}') {
        Some(len) => line[name_start..name_start + len].trim().to_string(),
        None => first_word(),
    }
}

fn listing_by_the_standard_library(listing: &str, include_exited: bool) -> Vec<(String, bool)> {
    listing
        .lines()
        .filter(|line| !line.trim().is_empty() && (include_exited || !line.contains("EXITED")))
        .map(|line| (name_by_the_standard_library(line), line.contains("EXITED")))
        .filter(|(name, _)| !name.is_empty())
        .collect()
}

#[test]
fn a_listing_is_read_as_the_standard_library_reads_it() {
    let pieces = [
        "", " ", "\t", "\r", "name", "two words", "\u{1b}", "\u{1b}[32m", "\u{1b}[0m", "m", "EXITED",
        "(EXITED - attach to resurrect)", "é", "\u{a0}", "\u{3000}", "[Created 1h ago]",
    ];
    let mut lines = Vec::new();
    for a in pieces {
        for b in pieces {
            for c in pieces {
                lines.push(format!("{a}{b}{c}"));
            }
        }
    }
    for chunk in lines.chunks(7) {
        for ending in ["\n", "\r\n"] {
            let mut listing = chunk.join(ending);
            for closed in [false, true] {
                if closed {
                    listing.push_str(ending);
                }
                for include_exited in [false, true] {
                    let read: Vec<(String, bool)> = read_listing(&listing, None, include_exited)
                        .into_iter()
                        .map(|s| (s.name, s.is_exited))
                        .collect();
                    assert_eq!(
                        read,
                        listing_by_the_standard_library(&listing, include_exited),
                        "{listing:?}"
                    );
                }
            }
        }
    }
}
