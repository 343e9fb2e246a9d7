//! Tab summaries for a batch of sessions.

use vstd::prelude::*;
use vstd::string::*;
use crate::error::SessionError;
use crate::layout::{
    layout_summary, outcome_view, parse_kdl_layout, tabs_view, TabInfo, TabView,
};
use crate::session::{SessionInfo, SessionView};
use crate::text::texts_view;

verus! {

/// What came of fetching the layout of a session.
#[derive(Clone, Debug, PartialEq, Eq)]
pub enum FetchedLayout {
    /// The layout text.
    Text(String),
    /// There is nothing to fetch: no layout is kept for the session.
    Missing,
    /// Fetching failed.
    Failed,
}

/// What a `FetchedLayout` holds.
pub enum LayoutView {
    Text(Seq<char>),
    Missing,
    Failed,
}

impl View for FetchedLayout {
    type V = LayoutView;

    open spec fn view(&self) -> LayoutView {
        match *self {
            FetchedLayout::Text(text) => LayoutView::Text(text@),
            FetchedLayout::Missing => LayoutView::Missing,
            FetchedLayout::Failed => LayoutView::Failed,
        }
    }
}

/// A session together with what came of fetching its layout.
pub type Fetched = (SessionInfo, FetchedLayout);

/// A session together with its tab summary, or with the reason why it has
/// none.
pub type SessionTabs = (SessionInfo, Result<Vec<TabInfo>, SessionError>);

/// The tab summary of one session, given what came of fetching its layout.
/// A layout that was fetched is summarised. A fetch that failed is the
/// session's error. Where no layout is kept, an exited session has an empty
/// summary and a live one has none.
pub open spec fn session_tabs(session: SessionView, layout: LayoutView) -> Result<
    Seq<TabView>,
    SessionError,
> {
    match layout {
        LayoutView::Text(text) => layout_summary(text),
        LayoutView::Failed => Err(SessionError::LayoutUnavailable),
        LayoutView::Missing => if session.is_exited {
            Ok(Seq::empty())
        } else {
            Err(SessionError::LayoutUnavailable)
        },
    }
}

/// Law: a session fails for one of two reasons only, its layout could not
/// be fetched or could not be read, and both concern that session alone. A
/// fetch that failed is an error of any session; an exited session for which
/// no layout is kept has an empty summary.
pub proof fn lemma_session_failures(session: SessionView, layout: LayoutView)
    ensures
        session_tabs(session, layout) matches Err(error) ==> error.is_local(),
        session_tabs(session, layout) == Err::<Seq<TabView>, SessionError>(
            SessionError::LayoutUnavailable,
        ) <==> layout is Failed || (layout is Missing && !session.is_exited),
        layout is Failed ==> session_tabs(session, layout) is Err,
        session.is_exited && layout is Missing ==> session_tabs(session, layout) == Ok::<
            Seq<TabView>,
            SessionError,
        >(Seq::empty()),
{
}

/// Summarises the tabs of one session from what came of fetching its layout.
pub fn parse_session_tabs(session: &SessionInfo, layout: &FetchedLayout) -> (outcome: Result<
    Vec<TabInfo>,
    SessionError,
>)
    ensures
        outcome_view(outcome) == session_tabs(session@, layout@),
{
    match layout {
        FetchedLayout::Text(text) => parse_kdl_layout(text.as_str()),
        FetchedLayout::Failed => Err(SessionError::LayoutUnavailable),
        FetchedLayout::Missing => {
            if session.is_exited {
                let tabs: Vec<TabInfo> = Vec::new();
                assert(tabs_view(tabs@) =~= Seq::<TabView>::empty());
                Ok(tabs)
            } else {
                Err(SessionError::LayoutUnavailable)
            }
        },
    }
}

/// Summarises the tabs of each session of a batch. Every session is worked
/// on by itself: one that fails carries its own error, and the others are
/// neither dropped nor moved.
pub fn fetch_all(batch: Vec<Fetched>) -> (results: Vec<SessionTabs>)
    ensures
        results@.len() == batch@.len(),
        forall|i: int|
            0 <= i < batch@.len() ==> (#[trigger] results@[i]).0@ == batch@[i].0@ && outcome_view(
                results@[i].1,
            ) == session_tabs(batch@[i].0@, batch@[i].1@),
{
    let mut results: Vec<SessionTabs> = Vec::new();
    for pair in it: batch
        invariant
            results@.len() == it.index(),
            forall|i: int|
                0 <= i < it.index() ==> (#[trigger] results@[i]).0@ == it.seq()[i].0@
                    && outcome_view(results@[i].1) == session_tabs(
                    it.seq()[i].0@,
                    it.seq()[i].1@,
                ),
    {
        let (session, layout) = pair;
        let outcome = parse_session_tabs(&session, &layout);
        results.push((session, outcome));
    }
    results
}

/// The components of the path under which the multiplexer caches the layout
/// of an exited session: below the home directory, the cache directory of
/// the platform, the multiplexer's version, and the session's name.
pub open spec fn cached_layout_components(
    home: Seq<char>,
    version: Seq<char>,
    session: Seq<char>,
    macos: bool,
) -> Seq<Seq<char>> {
    if macos {
        seq![
            home,
            "Library"@,
            "Caches"@,
            "org.Zellij-Contributors.Zellij"@,
            version,
            "session_info"@,
            session,
            "session-layout.kdl"@,
        ]
    } else {
        seq![
            home,
            ".cache"@,
            "zellij"@,
            version,
            "session_info"@,
            session,
            "session-layout.kdl"@,
        ]
    }
}

/// Lists the components of the path of an exited session's cached layout.
pub fn cached_layout_path(home: &str, version: &str, session: &str, macos: bool) -> (path: Vec<
    String,
>)
    ensures
        texts_view(path@) == cached_layout_components(home@, version@, session@, macos),
{
    let mut path: Vec<String> = Vec::new();
    path.push(home.to_owned());
    if macos {
        path.push("Library".to_owned());
        path.push("Caches".to_owned());
        path.push("org.Zellij-Contributors.Zellij".to_owned());
    } else {
        path.push(".cache".to_owned());
        path.push("zellij".to_owned());
    }
    path.push(version.to_owned());
    path.push("session_info".to_owned());
    path.push(session.to_owned());
    path.push("session-layout.kdl".to_owned());
    path
}

} // verus!
