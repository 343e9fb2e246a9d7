//! The rows in which a batch of sessions is shown.

use vstd::prelude::*;
use vstd::string::*;
use crate::fetch::SessionTabs;
use crate::layout::{TabInfo, TabView};
use crate::prefix::{find_shortest_prefixes, lemma_prefix_map_names, prefix_map};
use crate::session::{sessions_view, SessionInfo, SessionView};

verus! {

/// One tab as it is shown: a dash stands for what it does not have.
#[derive(Clone, Debug, PartialEq, Eq)]
pub struct TabLine {
    pub name: String,
    pub command: String,
    pub cwd: String,
}

/// One session as it is shown.
#[derive(Clone, Debug, PartialEq, Eq)]
pub struct SessionRow {
    /// The shortest unique prefix of the session's identifier.
    pub prefix: String,
    pub name: String,
    pub is_current: bool,
    /// The session's tabs; `None` where they could not be fetched.
    pub tabs: Option<Vec<TabLine>>,
    /// Whether a blank line follows the session: it does but after the last.
    pub spaced: bool,
}

/// What a `TabLine` holds.
pub struct TabLineView {
    pub name: Seq<char>,
    pub command: Seq<char>,
    pub cwd: Seq<char>,
}

/// What a `SessionRow` holds.
pub struct SessionRowView {
    pub prefix: Seq<char>,
    pub name: Seq<char>,
    pub is_current: bool,
    pub tabs: Option<Seq<TabLineView>>,
    pub spaced: bool,
}

impl View for TabLine {
    type V = TabLineView;

    open spec fn view(&self) -> TabLineView {
        TabLineView { name: self.name@, command: self.command@, cwd: self.cwd@ }
    }
}

/// What each of a sequence of lines holds.
pub open spec fn lines_view(lines: Seq<TabLine>) -> Seq<TabLineView> {
    Seq::new(lines.len(), |i: int| lines[i]@)
}

impl View for SessionRow {
    type V = SessionRowView;

    open spec fn view(&self) -> SessionRowView {
        SessionRowView {
            prefix: self.prefix@,
            name: self.name@,
            is_current: self.is_current,
            tabs: match self.tabs {
                Some(lines) => Some(lines_view(lines@)),
                None => None,
            },
            spaced: self.spaced,
        }
    }
}

/// The text shown for a command or a working directory.
pub open spec fn or_dash(text: Option<Seq<char>>) -> Seq<char> {
    match text {
        Some(t) => t,
        None => "-"@,
    }
}

/// The line shown for a tab.
pub open spec fn tab_line(tab: TabView) -> TabLineView {
    TabLineView { name: tab.name, command: or_dash(tab.command), cwd: or_dash(tab.cwd) }
}

/// The sessions of a batch.
pub open spec fn batch_sessions(batch: Seq<SessionTabs>) -> Seq<SessionView> {
    Seq::new(batch.len(), |i: int| batch[i].0@)
}

/// The row shown for the session at position `i` of a batch.
pub open spec fn session_row(batch: Seq<SessionTabs>, i: int) -> SessionRowView {
    let session = batch[i].0@;
    SessionRowView {
        prefix: prefix_map(batch_sessions(batch))[session.name],
        name: session.name,
        is_current: session.is_current,
        tabs: match batch[i].1 {
            Ok(tabs) => Some(Seq::new(tabs@.len(), |k: int| tab_line(tabs@[k]@))),
            Err(_) => None,
        },
        spaced: i + 1 < batch.len(),
    }
}

fn dash_or(text: &Option<String>) -> (shown: String)
    ensures
        shown@ == or_dash(crate::text::opt_chars(*text)),
{
    match text {
        Some(t) => t.clone(),
        None => "-".to_owned(),
    }
}

fn tab_lines(tabs: &[TabInfo]) -> (lines: Vec<TabLine>)
    ensures
        lines_view(lines@) == Seq::new(tabs@.len(), |k: int| tab_line(tabs@[k]@)),
{
    let mut lines: Vec<TabLine> = Vec::new();
    let mut k: usize = 0;
    while k < tabs.len()
        invariant
            k <= tabs@.len(),
            lines@.len() == k,
            forall|n: int| 0 <= n < k ==> (#[trigger] lines@[n])@ == tab_line(tabs@[n]@),
        decreases tabs@.len() - k,
    {
        let tab = &tabs[k];
        lines.push(
            TabLine {
                name: tab.name.clone(),
                command: dash_or(&tab.command),
                cwd: dash_or(&tab.cwd),
            },
        );
        k += 1;
    }
    lines
}

/// Lays out a batch of sessions for showing: one row per session, in the
/// order of the batch, each with the shortest unique prefix of its
/// identifier and with its tabs.
pub fn display_sessions_with_tabs(batch: &[SessionTabs]) -> (rows: Vec<SessionRow>)
    ensures
        rows@.len() == batch@.len(),
        forall|i: int| 0 <= i < batch@.len() ==> (#[trigger] rows@[i])@ == session_row(batch@, i),
{
    let ghost all = batch_sessions(batch@);
    let mut sessions: Vec<SessionInfo> = Vec::new();
    let mut k: usize = 0;
    while k < batch.len()
        invariant
            k <= batch@.len(),
            sessions@.len() == k,
            forall|n: int| 0 <= n < k ==> (#[trigger] sessions@[n])@ == batch@[n].0@,
        decreases batch@.len() - k,
    {
        sessions.push(batch[k].0.duplicate());
        k += 1;
    }
    assert(sessions_view(sessions@) =~= all);
    let prefixes = find_shortest_prefixes(&sessions);
    let mut rows: Vec<SessionRow> = Vec::new();
    let mut i: usize = 0;
    while i < batch.len()
        invariant
            i <= batch@.len(),
            all == batch_sessions(batch@),
            prefixes.wf(),
            prefixes@ == prefix_map(all),
            rows@.len() == i,
            forall|n: int| 0 <= n < i ==> (#[trigger] rows@[n])@ == session_row(batch@, n),
        decreases batch@.len() - i,
    {
        let session = &batch[i].0;
        proof {
            lemma_prefix_map_names(all, session.name@);
            assert(all[i as int].name == session.name@);
        }
        let prefix = match prefixes.get(session.name.as_str()) {
            Some(found) => found.clone(),
            None => String::new(),
        };
        let tabs = match &batch[i].1 {
            Ok(tabs) => Some(tab_lines(tabs)),
            Err(_) => None,
        };
        rows.push(
            SessionRow {
                prefix: prefix,
                name: session.name.clone(),
                is_current: session.is_current,
                tabs: tabs,
                spaced: i + 1 < batch.len(),
            },
        );
        i += 1;
    }
    rows
}

} // verus!
