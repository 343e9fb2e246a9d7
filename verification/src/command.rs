//! The decisions behind the commands on sessions: which session a request
//! means, and what is to be done for it. Carrying a decision out is left to
//! the caller.

use vstd::prelude::*;
use vstd::string::*;
use crate::error::SessionError;
use crate::session::{opt_str_chars, sessions_view, SessionInfo, SessionView};
use crate::text::{
    same_text, skip_spaces, skip_spaces_from, skip_word_from, to_chars, trim_end, trim_end_from,
    word_at,
};

verus! {

/// Whether a request for `query` means this session: `query` is its name, or
/// starts its identifier.
pub open spec fn answers_to(session: SessionView, query: Seq<char>) -> bool {
    session.name == query || query.is_prefix_of(session.hash_prefix)
}

/// Looking from position `from` on: the position of the first session that a
/// request for `query` means.
pub open spec fn first_match_from(sessions: Seq<SessionView>, query: Seq<char>, from: int)
    -> Option<int>
    decreases sessions.len() - from,
{
    if from < 0 || from >= sessions.len() {
        None
    } else if answers_to(sessions[from], query) {
        Some(from)
    } else {
        first_match_from(sessions, query, from + 1)
    }
}

/// The position of the first session that a request for `query` means.
pub open spec fn first_match(sessions: Seq<SessionView>, query: Seq<char>) -> Option<int> {
    first_match_from(sessions, query, 0)
}

/// Whether some session has the given name.
pub open spec fn name_taken(sessions: Seq<SessionView>, name: Seq<char>) -> bool {
    exists|i: int| 0 <= i < sessions.len() && (#[trigger] sessions[i]).name == name
}

/// Looking from position `from` on: the position of the first exited session
/// with the given name.
pub open spec fn first_dead_from(sessions: Seq<SessionView>, name: Seq<char>, from: int)
    -> Option<int>
    decreases sessions.len() - from,
{
    if from < 0 || from >= sessions.len() {
        None
    } else if sessions[from].name == name && sessions[from].is_exited {
        Some(from)
    } else {
        first_dead_from(sessions, name, from + 1)
    }
}

/// The position of the first exited session with the given name.
pub open spec fn first_dead(sessions: Seq<SessionView>, name: Seq<char>) -> Option<int> {
    first_dead_from(sessions, name, 0)
}

/// Whether some session with the given name has not exited.
pub open spec fn is_alive(sessions: Seq<SessionView>, name: Seq<char>) -> bool {
    exists|i: int|
        0 <= i < sessions.len() && (#[trigger] sessions[i]).name == name && !sessions[i].is_exited
}

/// Whether `query` starts the text.
fn starts_text(text: &str, query: &str) -> (starts: bool)
    ensures
        starts == query@.is_prefix_of(text@),
{
    let whole = to_chars(text);
    let start = to_chars(query);
    if start.len() > whole.len() {
        return false;
    }
    let mut k: usize = 0;
    while k < start.len()
        invariant
            k <= start@.len() <= whole@.len(),
            start@ == query@,
            whole@ == text@,
            forall|n: int| 0 <= n < k ==> start@[n] == whole@[n],
        decreases start@.len() - k,
    {
        if start[k] != whole[k] {
            return false;
        }
        k += 1;
    }
    true
}

/// Finds the session that a request for `query` means: the first whose name
/// is `query` or whose identifier starts with it.
pub fn find_session(sessions: &[SessionInfo], query: &str) -> (found: Option<usize>)
    ensures
        match found {
            Some(i) => first_match(sessions_view(sessions@), query@) == Some(i as int) && i
                < sessions@.len(),
            None => first_match(sessions_view(sessions@), query@) is None,
        },
{
    let ghost all = sessions_view(sessions@);
    let mut i: usize = 0;
    while i < sessions.len()
        invariant
            i <= sessions@.len(),
            all == sessions_view(sessions@),
            first_match(all, query@) == first_match_from(all, query@, i as int),
        decreases sessions@.len() - i,
    {
        if same_text(sessions[i].name.as_str(), query) || starts_text(
            sessions[i].hash_prefix.as_str(),
            query,
        ) {
            return Some(i);
        }
        i += 1;
    }
    None
}

/// Whether some session has the given name.
pub fn has_session_named(sessions: &[SessionInfo], name: &str) -> (taken: bool)
    ensures
        taken == name_taken(sessions_view(sessions@), name@),
{
    let ghost all = sessions_view(sessions@);
    let mut i: usize = 0;
    while i < sessions.len()
        invariant
            i <= sessions@.len(),
            all == sessions_view(sessions@),
            forall|k: int| 0 <= k < i ==> (#[trigger] all[k]).name != name@,
        decreases sessions@.len() - i,
    {
        assert(all[i as int] == sessions@[i as int]@);
        if same_text(sessions[i].name.as_str(), name) {
            return true;
        }
        i += 1;
    }
    false
}

/// Finds the exited session with the given name in a listing that includes
/// the exited ones.
pub fn check_dead_session(sessions: &[SessionInfo], name: &str) -> (found: Option<usize>)
    ensures
        match found {
            Some(i) => first_dead(sessions_view(sessions@), name@) == Some(i as int) && i
                < sessions@.len(),
            None => first_dead(sessions_view(sessions@), name@) is None,
        },
{
    let ghost all = sessions_view(sessions@);
    let mut i: usize = 0;
    while i < sessions.len()
        invariant
            i <= sessions@.len(),
            all == sessions_view(sessions@),
            first_dead(all, name@) == first_dead_from(all, name@, i as int),
        decreases sessions@.len() - i,
    {
        if sessions[i].is_exited && same_text(sessions[i].name.as_str(), name) {
            return Some(i);
        }
        i += 1;
    }
    None
}

/// Whether `current` is the name of this session.
fn is_current_name(current: Option<&str>, session: &SessionInfo) -> (same: bool)
    ensures
        same == (opt_str_chars(current) == Some(session.name@)),
{
    match current {
        Some(name) => same_text(name, session.name.as_str()),
        None => false,
    }
}

/// What is to be done for a request to attach to a session.
#[derive(Clone, Copy, Debug, PartialEq, Eq)]
pub enum AttachPlan {
    /// The caller is in the session already: nothing to do.
    AlreadyThere(usize),
    /// The caller is in another session: switch to the session at this
    /// position.
    Switch(usize),
    /// The caller is in no session: attach to the session at this position.
    Attach(usize),
    /// No session is meant: offer to create one of that name.
    OfferCreate,
}

/// The plan for a request to attach to `query`, made by a caller who is in
/// the session `current`, if in any.
pub open spec fn attach_plan(
    query: Seq<char>,
    sessions: Seq<SessionView>,
    current: Option<Seq<char>>,
) -> AttachPlan {
    match first_match(sessions, query) {
        Some(i) => if current is None {
            AttachPlan::Attach(i as usize)
        } else if current == Some(sessions[i].name) {
            AttachPlan::AlreadyThere(i as usize)
        } else {
            AttachPlan::Switch(i as usize)
        },
        None => AttachPlan::OfferCreate,
    }
}

/// Decides what is to be done for a request to attach to `query`.
pub fn attach_or_switch_session(query: &str, sessions: &[SessionInfo], current: Option<&str>)
    -> (plan: AttachPlan)
    ensures
        plan == attach_plan(query@, sessions_view(sessions@), opt_str_chars(current)),
        plan matches AttachPlan::AlreadyThere(i) ==> i < sessions@.len(),
        plan matches AttachPlan::Switch(i) ==> i < sessions@.len(),
        plan matches AttachPlan::Attach(i) ==> i < sessions@.len(),
{
    match find_session(sessions, query) {
        Some(i) => {
            if current.is_none() {
                AttachPlan::Attach(i)
            } else if is_current_name(current, &sessions[i]) {
                AttachPlan::AlreadyThere(i)
            } else {
                AttachPlan::Switch(i)
            }
        },
        None => AttachPlan::OfferCreate,
    }
}

/// The outcome of a request to kill `query`: the position of the session to
/// kill, or why none is killed.
pub open spec fn kill_plan(query: Seq<char>, sessions: Seq<SessionView>, current: Option<Seq<char>>)
    -> Result<usize, SessionError> {
    match first_match(sessions, query) {
        Some(i) => if current == Some(sessions[i].name) {
            Err(SessionError::KillCurrent)
        } else {
            Ok(i as usize)
        },
        None => Err(SessionError::NotFound),
    }
}

/// Decides which session a request to kill `query` kills. The session that
/// the caller is in is never killed.
pub fn kill_session(query: &str, sessions: &[SessionInfo], current: Option<&str>) -> (plan:
    Result<usize, SessionError>)
    ensures
        plan == kill_plan(query@, sessions_view(sessions@), opt_str_chars(current)),
        plan matches Ok(i) ==> i < sessions@.len(),
{
    match find_session(sessions, query) {
        Some(i) => {
            if is_current_name(current, &sessions[i]) {
                Err(SessionError::KillCurrent)
            } else {
                Ok(i)
            }
        },
        None => Err(SessionError::NotFound),
    }
}

/// What is to be done for a request to rename a session.
#[derive(Clone, Copy, Debug, PartialEq, Eq)]
pub enum RenamePlan {
    /// Rename the session that the caller is in, from within.
    Current(usize),
    /// Rename the session at this position from outside.
    Other(usize),
}

/// The outcome of a request to rename `query` to `new_name`.
pub open spec fn rename_plan(
    query: Seq<char>,
    new_name: Seq<char>,
    sessions: Seq<SessionView>,
    current: Option<Seq<char>>,
) -> Result<RenamePlan, SessionError> {
    match first_match(sessions, query) {
        Some(i) => if name_taken(sessions, new_name) {
            Err(SessionError::NameTaken)
        } else if current == Some(sessions[i].name) {
            Ok(RenamePlan::Current(i as usize))
        } else {
            Ok(RenamePlan::Other(i as usize))
        },
        None => Err(SessionError::NotFound),
    }
}

/// Decides how a request to rename `query` to `new_name` is carried out. A
/// name that a session already has is refused.
pub fn rename_session(
    query: &str,
    new_name: &str,
    sessions: &[SessionInfo],
    current: Option<&str>,
) -> (plan: Result<RenamePlan, SessionError>)
    ensures
        plan == rename_plan(query@, new_name@, sessions_view(sessions@), opt_str_chars(current)),
        plan matches Ok(RenamePlan::Current(i)) ==> i < sessions@.len(),
        plan matches Ok(RenamePlan::Other(i)) ==> i < sessions@.len(),
{
    match find_session(sessions, query) {
        Some(i) => {
            if has_session_named(sessions, new_name) {
                Err(SessionError::NameTaken)
            } else if is_current_name(current, &sessions[i]) {
                Ok(RenamePlan::Current(i))
            } else {
                Ok(RenamePlan::Other(i))
            }
        },
        None => Err(SessionError::NotFound),
    }
}

/// How a new session is started.
#[derive(Clone, Copy, Debug, PartialEq, Eq)]
pub enum CreatePlan {
    /// From within a session: start the new one detached.
    Detached,
    /// From outside: start the new one and attach to it.
    Attached,
}

/// Decides how a new session is started by a caller who is in the session
/// `current`, if in any.
pub fn create_session(current: Option<&str>) -> (plan: CreatePlan)
    ensures
        plan == if current is Some {
            CreatePlan::Detached
        } else {
            CreatePlan::Attached
        },
{
    if current.is_some() {
        CreatePlan::Detached
    } else {
        CreatePlan::Attached
    }
}

/// Whether a character is the given lower-case letter or its upper-case
/// form.
pub open spec fn is_letter(c: char, lower: char) -> bool {
    c == lower || c as u32 + 32 == lower as u32
}

/// Whether an answer to a yes-or-no question says yes: trimmed, it is empty
/// or reads `y` or `yes`, in either case of each letter.
pub open spec fn is_affirmative(answer: Seq<char>) -> bool {
    let start = skip_spaces(answer, 0);
    let end = trim_end(answer, start, answer.len() as int);
    let said = answer.subrange(start, end);
    said.len() == 0 || (said.len() == 1 && is_letter(said[0], 'y')) || (said.len() == 3
        && is_letter(said[0], 'y') && is_letter(said[1], 'e') && is_letter(said[2], 's'))
}

fn is_letter_char(c: char, lower: char) -> (same: bool)
    requires
        lower as u32 >= 32,
    ensures
        same == is_letter(c, lower),
{
    c == lower || c as u32 == lower as u32 - 32
}

/// Whether an answer to a yes-or-no question says yes.
pub fn says_yes(answer: &str) -> (yes: bool)
    ensures
        yes == is_affirmative(answer@),
{
    let chars = to_chars(answer);
    let start = skip_spaces_from(&chars, 0);
    let end = trim_end_from(&chars, start);
    let len = end - start;
    if len == 0 {
        true
    } else if len == 1 {
        is_letter_char(chars[start], 'y')
    } else if len == 3 {
        is_letter_char(chars[start], 'y') && is_letter_char(chars[start + 1], 'e')
            && is_letter_char(chars[start + 2], 's')
    } else {
        false
    }
}

/// What follows the offer made for a name that no session answers to.
#[derive(Clone, Copy, Debug, PartialEq, Eq)]
pub enum OfferOutcome {
    /// An exited session has the name, and the user wants it back.
    Resurrect,
    /// No session has the name, and the user wants one.
    Create,
    /// The user declined.
    Declined,
}

/// Decides what follows the offer made for `name`, given the listing with
/// the exited sessions in it and the user's answer: to resurrect the exited
/// session of that name, to create a new one, or nothing.
pub fn offer_to_create_session(name: &str, sessions: &[SessionInfo], answer: &str) -> (outcome:
    OfferOutcome)
    ensures
        outcome == if !is_affirmative(answer@) {
            OfferOutcome::Declined
        } else if first_dead(sessions_view(sessions@), name@) is Some {
            OfferOutcome::Resurrect
        } else {
            OfferOutcome::Create
        },
{
    if !says_yes(answer) {
        OfferOutcome::Declined
    } else if check_dead_session(sessions, name).is_some() {
        OfferOutcome::Resurrect
    } else {
        OfferOutcome::Create
    }
}

/// What follows a failed attempt to attach to an exited session.
#[derive(Clone, Copy, Debug, PartialEq, Eq)]
pub enum Resurrection {
    /// The session is alive all the same.
    Resurrected,
    /// The session is still dead: it is deleted and created anew.
    Replace,
}

/// Decides what follows a failed attempt to attach to the exited session
/// `name`, given the listing of the live sessions taken after it and the
/// user's answer to the offer to replace the session. The answer counts only
/// where the session is still dead.
pub fn resurrect_dead_session(name: &str, live: &[SessionInfo], answer: &str) -> (outcome: Result<
    Resurrection,
    SessionError,
>)
    ensures
        outcome == if is_alive(sessions_view(live@), name@) {
            Ok::<Resurrection, SessionError>(Resurrection::Resurrected)
        } else if is_affirmative(answer@) {
            Ok(Resurrection::Replace)
        } else {
            Err(SessionError::Cancelled)
        },
{
    if is_session_alive(live, name) {
        Ok(Resurrection::Resurrected)
    } else if says_yes(answer) {
        Ok(Resurrection::Replace)
    } else {
        Err(SessionError::Cancelled)
    }
}

/// Whether some session with the given name has not exited.
pub fn is_session_alive(sessions: &[SessionInfo], name: &str) -> (alive: bool)
    ensures
        alive == is_alive(sessions_view(sessions@), name@),
{
    let ghost all = sessions_view(sessions@);
    let mut i: usize = 0;
    while i < sessions.len()
        invariant
            i <= sessions@.len(),
            all == sessions_view(sessions@),
            forall|k: int| 0 <= k < i ==> !((#[trigger] all[k]).name == name@ && !all[k].is_exited),
        decreases sessions@.len() - i,
    {
        assert(all[i as int] == sessions@[i as int]@);
        if !sessions[i].is_exited && same_text(sessions[i].name.as_str(), name) {
            return true;
        }
        i += 1;
    }
    false
}

/// The names of the sessions, in their order.
pub fn session_names(sessions: &[SessionInfo]) -> (names: Vec<String>)
    ensures
        names@.len() == sessions@.len(),
        forall|i: int| 0 <= i < sessions@.len() ==> (#[trigger] names@[i])@ == sessions@[i].name@,
{
    let mut names: Vec<String> = Vec::new();
    let mut i: usize = 0;
    while i < sessions.len()
        invariant
            i <= sessions@.len(),
            names@.len() == i,
            forall|k: int| 0 <= k < i ==> (#[trigger] names@[k])@ == sessions@[k].name@,
        decreases sessions@.len() - i,
    {
        names.push(sessions[i].name.clone());
        i += 1;
    }
    names
}

/// The version that the multiplexer reports: the second word of what it
/// prints when asked; `None` where it prints fewer than two words.
pub open spec fn reported_version(output: Seq<char>) -> Option<Seq<char>> {
    let version = word_at(output, 1, 0);
    if version.len() == 0 {
        None
    } else {
        Some(version)
    }
}

/// Reads the version out of what the multiplexer prints when asked for it.
pub fn parse_version(output: &str) -> (version: Option<String>)
    ensures
        match version {
            Some(text) => reported_version(output@) == Some(text@),
            None => reported_version(output@) is None,
        },
{
    let chars = to_chars(output);
    let first = skip_spaces_from(&chars, 0);
    let first_end = skip_word_from(&chars, first);
    let start = skip_spaces_from(&chars, first_end);
    let end = skip_word_from(&chars, start);
    assert(word_at(output@, 1, 0) == word_at(output@, 0, first_end as int)) by {
        reveal_with_fuel(word_at, 2);
    }
    if start == end {
        None
    } else {
        Some(output.substring_char(start, end).to_owned())
    }
}

} // verus!
