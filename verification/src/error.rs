//! The ways in which a request on sessions can fail.

use vstd::prelude::*;

verus! {

/// A failure of one request, or of one session's part in a batch.
#[derive(Clone, Copy, Debug, PartialEq, Eq)]
pub enum SessionError {
    /// The raw session listing could not be obtained.
    ListingUnavailable,
    /// The layout of one session could not be fetched.
    LayoutUnavailable,
    /// The layout that was fetched is not a well-formed document.
    LayoutParse,
    /// No session matches the name or identifier prefix that was asked for.
    NotFound,
    /// The session to kill is the one the caller is in.
    KillCurrent,
    /// The new name of a rename is already taken by a session.
    NameTaken,
    /// The user declined to replace a session that could not be resurrected.
    Cancelled,
}

impl SessionError {
    /// Whether the failure concerns one session only and leaves the rest of a
    /// batch untouched.
    pub open spec fn is_local(self) -> bool {
        self == SessionError::LayoutUnavailable || self == SessionError::LayoutParse
    }

    /// The text shown to the user for this failure.
    pub fn message(&self) -> (text: String)
        ensures
            text@ == match *self {
                SessionError::ListingUnavailable => "Failed to list zellij sessions"@,
                SessionError::LayoutUnavailable => "Failed to dump layout"@,
                SessionError::LayoutParse => "Failed to parse KDL layout"@,
                SessionError::NotFound => "No session found matching that name or hash prefix"@,
                SessionError::KillCurrent =>
                    "Cannot kill the current session. Exit first or switch to another session."@,
                SessionError::NameTaken => "Session already exists"@,
                SessionError::Cancelled => "Session resurrection cancelled"@,
            },
    {
        let text = match self {
            SessionError::ListingUnavailable => "Failed to list zellij sessions",
            SessionError::LayoutUnavailable => "Failed to dump layout",
            SessionError::LayoutParse => "Failed to parse KDL layout",
            SessionError::NotFound => "No session found matching that name or hash prefix",
            SessionError::KillCurrent =>
                "Cannot kill the current session. Exit first or switch to another session.",
            SessionError::NameTaken => "Session already exists",
            SessionError::Cancelled => "Session resurrection cancelled",
        };
        text.to_owned()
    }
}

} // verus!
