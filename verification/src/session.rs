//! Session records, and the reading of a raw session listing.

use vstd::prelude::*;
use vstd::string::*;
use crate::digest::{compute_hash_prefix, digest_of, is_hex_digit, DIGEST_LEN};
use crate::error::SessionError;
use crate::text::{
    contains_chars, contains_text, find_char, find_char_from, first_word, is_blank,
    lemma_find_char_bounds, same_text, skip_spaces_from, skip_word_from, to_chars,
    trim_end_from, trimmed,
};

verus! {

/// The record of one session of a listing.
#[derive(Clone, Debug, PartialEq, Eq)]
pub struct SessionInfo {
    pub name: String,
    /// Whether this is the session that the caller is in.
    pub is_current: bool,
    /// Whether the session has exited and can only be resurrected.
    pub is_exited: bool,
    /// The identifier of the session: the digest of its name.
    pub hash_prefix: String,
}

/// What a `SessionInfo` holds.
pub struct SessionView {
    pub name: Seq<char>,
    pub is_current: bool,
    pub is_exited: bool,
    pub hash_prefix: Seq<char>,
}

impl View for SessionInfo {
    type V = SessionView;

    open spec fn view(&self) -> SessionView {
        SessionView {
            name: self.name@,
            is_current: self.is_current,
            is_exited: self.is_exited,
            hash_prefix: self.hash_prefix@,
        }
    }
}

impl SessionView {
    /// A record is valid when its name is not empty and its identifier is the
    /// digest of its name: `DIGEST_LEN` lowercase hexadecimal digits.
    pub open spec fn valid(self) -> bool {
        &&& self.name.len() > 0
        &&& self.hash_prefix == digest_of(self.name)
        &&& self.hash_prefix.len() == DIGEST_LEN
        &&& forall|i: int|
            0 <= i < self.hash_prefix.len() ==> is_hex_digit(#[trigger] self.hash_prefix[i])
    }
}

impl SessionInfo {
    /// Makes the record of the session with the given name.
    pub fn new(name: &str, is_current: bool, is_exited: bool) -> (session: SessionInfo)
        requires
            name@.len() > 0,
        ensures
            session@.valid(),
            session@.name == name@,
            session@.is_current == is_current,
            session@.is_exited == is_exited,
    {
        SessionInfo {
            name: name.to_owned(),
            is_current,
            is_exited,
            hash_prefix: compute_hash_prefix(name),
        }
    }

    /// A copy of the record.
    pub fn duplicate(&self) -> (copy: SessionInfo)
        ensures
            copy@ == self@,
    {
        SessionInfo {
            name: self.name.clone(),
            is_current: self.is_current,
            is_exited: self.is_exited,
            hash_prefix: self.hash_prefix.clone(),
        }
    }
}

/// What each of a sequence of records holds.
pub open spec fn sessions_view(sessions: Seq<SessionInfo>) -> Seq<SessionView> {
    Seq::new(sessions.len(), |i: int| sessions[i]@)
}

/// The character that opens a styling sequence.
pub const ESCAPE: char = '\u{1b}';

/// The lines of a text from position `from` on: the pieces between line
/// feeds. A line feed at the very end opens no further line; a carriage
/// return before a line feed stays with its line, where it is white space.
pub open spec fn lines_from(text: Seq<char>, from: int) -> Seq<Seq<char>>
    decreases text.len() + 1 - from,
{
    if from < 0 || from >= text.len() {
        Seq::empty()
    } else {
        let end = find_char(text, '\n', from);
        proof {
            lemma_find_char_bounds(text, '\n', from);
        }
        seq![text.subrange(from, end)] + lines_from(text, end + 1)
    }
}

/// The span of a line that stands between the end of its first styling
/// sequence (an escape character up to the next `m`) and the next escape
/// character; `None` where the line is not styled in that way.
pub open spec fn styled_span(line: Seq<char>) -> Option<(int, int)> {
    let open = find_char(line, ESCAPE, 0);
    let start = find_char(line, 'm', open) + 1;
    let end = find_char(line, ESCAPE, start);
    if open < line.len() && start <= line.len() && end < line.len() {
        Some((start, end))
    } else {
        None
    }
}

/// The session name that a line of the listing gives: the trimmed text of
/// its styled span, or its first word where it has no such span.
pub open spec fn line_name(line: Seq<char>) -> Seq<char> {
    match styled_span(line) {
        Some((start, end)) => trimmed(line.subrange(start, end)),
        None => first_word(line),
    }
}

/// Whether a line of the listing is marked as that of an exited session.
pub open spec fn marked_exited(line: Seq<char>) -> bool {
    contains_text(line, "EXITED"@)
}

/// The record that a line of the listing gives; `None` for a blank line, for
/// the line of an exited session where those are left out, and for a line
/// that gives no name.
pub open spec fn line_session(line: Seq<char>, current: Option<Seq<char>>, include_exited: bool)
    -> Option<SessionView> {
    let name = line_name(line);
    if is_blank(line) || (marked_exited(line) && !include_exited) || name.len() == 0 {
        None
    } else {
        Some(
            SessionView {
                name: name,
                is_current: current == Some(name),
                is_exited: marked_exited(line),
                hash_prefix: digest_of(name),
            },
        )
    }
}

/// The records that a sequence of lines gives, in the order of the lines.
pub open spec fn sessions_among(
    lines: Seq<Seq<char>>,
    current: Option<Seq<char>>,
    include_exited: bool,
) -> Seq<SessionView>
    decreases lines.len(),
{
    if lines.len() == 0 {
        Seq::empty()
    } else {
        let rest = sessions_among(lines.drop_first(), current, include_exited);
        match line_session(lines[0], current, include_exited) {
            Some(session) => seq![session] + rest,
            None => rest,
        }
    }
}

/// Law: the records of two runs of lines, one after the other, are the
/// records of the first run followed by those of the second; so the records
/// keep the order of their lines.
pub proof fn lemma_sessions_among_concat(
    first: Seq<Seq<char>>,
    second: Seq<Seq<char>>,
    current: Option<Seq<char>>,
    include_exited: bool,
)
    ensures
        sessions_among(first + second, current, include_exited) == sessions_among(
            first,
            current,
            include_exited,
        ) + sessions_among(second, current, include_exited),
    decreases first.len(),
{
    if first.len() > 0 {
        assert((first + second).drop_first() =~= first.drop_first() + second);
        lemma_sessions_among_concat(first.drop_first(), second, current, include_exited);
    }
}

/// Law: every record of a listing has a name, which its line gives, and the
/// digest of that name; it is marked exited exactly where its line is, and
/// none is where the exited sessions are left out.
pub proof fn lemma_sessions_among_records(
    lines: Seq<Seq<char>>,
    current: Option<Seq<char>>,
    include_exited: bool,
    i: int,
)
    requires
        0 <= i < sessions_among(lines, current, include_exited).len(),
    ensures
        ({
            let session = sessions_among(lines, current, include_exited)[i];
            &&& session.name.len() > 0
            &&& session.hash_prefix == digest_of(session.name)
            &&& session.is_current == (current == Some(session.name))
            &&& !include_exited ==> !session.is_exited
            &&& exists|k: int|
                0 <= k < lines.len() && line_session(#[trigger] lines[k], current, include_exited)
                    == Some(session)
        }),
    decreases lines.len(),
{
    match line_session(lines[0], current, include_exited) {
        Some(_) => {
            if i > 0 {
                lemma_sessions_among_records(lines.drop_first(), current, include_exited, i - 1);
            }
        },
        None => {
            lemma_sessions_among_records(lines.drop_first(), current, include_exited, i);
        },
    }
}

/// The records that a raw listing gives.
pub open spec fn listing_sessions(
    listing: Seq<char>,
    current: Option<Seq<char>>,
    include_exited: bool,
) -> Seq<SessionView> {
    sessions_among(lines_from(listing, 0), current, include_exited)
}

/// The characters of an optional string slice.
pub open spec fn opt_str_chars(text: Option<&str>) -> Option<Seq<char>> {
    match text {
        Some(s) => Some(s@),
        None => None,
    }
}

/// Reads the session name off a line of the listing; `chars` are the
/// characters of the line.
fn read_name(line: &str, chars: &[char]) -> (name: String)
    requires
        chars@ == line@,
    ensures
        name@ == line_name(line@),
{
    let open = find_char_from(chars, ESCAPE, 0);
    if open < chars.len() {
        let m = find_char_from(chars, 'm', open);
        if m < chars.len() {
            let start = m + 1;
            let end = find_char_from(chars, ESCAPE, start);
            if end < chars.len() {
                let inner = line.substring_char(start, end);
                let inner_chars = to_chars(inner);
                let from = skip_spaces_from(&inner_chars, 0);
                let to = trim_end_from(&inner_chars, from);
                return inner.substring_char(from, to).to_owned();
            }
        }
    }
    let from = skip_spaces_from(chars, 0);
    let to = skip_word_from(chars, from);
    line.substring_char(from, to).to_owned()
}

/// Reads one line of the listing.
fn read_line(line: &str, current: Option<&str>, include_exited: bool) -> (session: Option<
    SessionInfo,
>)
    ensures
        match session {
            Some(info) => line_session(line@, opt_str_chars(current), include_exited) == Some(
                info@,
            ),
            None => line_session(line@, opt_str_chars(current), include_exited) is None,
        },
        session matches Some(info) ==> info@.valid(),
{
    let chars = to_chars(line);
    if skip_spaces_from(&chars, 0) == chars.len() {
        return None;
    }
    let marker = to_chars("EXITED");
    let exited = contains_chars(&chars, &marker);
    if exited && !include_exited {
        return None;
    }
    let name = read_name(line, &chars);
    if name.as_str().unicode_len() == 0 {
        return None;
    }
    let is_current = match current {
        Some(wanted) => same_text(wanted, name.as_str()),
        None => false,
    };
    let hash_prefix = compute_hash_prefix(name.as_str());
    Some(SessionInfo { name, is_current, is_exited: exited, hash_prefix })
}

/// Reads a raw session listing: one record per line that names a session,
/// in the order of the lines. The lines of exited sessions are left out
/// unless `include_exited` is set; `current` is the name of the session that
/// the caller is in.
pub fn read_listing(listing: &str, current: Option<&str>, include_exited: bool) -> (sessions: Vec<
    SessionInfo,
>)
    ensures
        sessions_view(sessions@) == listing_sessions(
            listing@,
            opt_str_chars(current),
            include_exited,
        ),
        forall|i: int| 0 <= i < sessions@.len() ==> (#[trigger] sessions@[i]@).valid(),
        !include_exited ==> forall|i: int|
            0 <= i < sessions@.len() ==> !(#[trigger] sessions@[i]).is_exited,
{
    let chars = to_chars(listing);
    let ghost wanted = opt_str_chars(current);
    let mut sessions: Vec<SessionInfo> = Vec::new();
    let mut pos: usize = 0;
    while pos < chars.len()
        invariant
            pos <= chars@.len(),
            chars@ == listing@,
            wanted == opt_str_chars(current),
            forall|i: int| 0 <= i < sessions@.len() ==> (#[trigger] sessions@[i]@).valid(),
            !include_exited ==> forall|i: int|
                0 <= i < sessions@.len() ==> !(#[trigger] sessions@[i]).is_exited,
            sessions_view(sessions@) + sessions_among(
                lines_from(listing@, pos as int),
                wanted,
                include_exited,
            ) == listing_sessions(listing@, wanted, include_exited),
        decreases chars@.len() - pos,
    {
        let end = find_char_from(&chars, '\n', pos);
        let line = listing.substring_char(pos, end);
        assert(lines_from(listing@, pos as int).drop_first() =~= lines_from(listing@, end + 1));
        if let Some(info) = read_line(line, current, include_exited) {
            sessions.push(info);
        }
        if end < chars.len() {
            pos = end + 1;
        } else {
            pos = end;
        }
    }
    sessions
}

/// Lists the sessions of a raw listing. `listing` is `None` where the raw
/// listing could not be obtained, which fails the whole request.
pub fn list_sessions(listing: Option<&str>, current: Option<&str>, include_exited: bool) -> (result:
    Result<Vec<SessionInfo>, SessionError>)
    ensures
        match listing {
            Some(text) => result matches Ok(sessions) && sessions_view(sessions@)
                == listing_sessions(text@, opt_str_chars(current), include_exited) && (forall|
                i: int,
            | 0 <= i < sessions@.len() ==> (#[trigger] sessions@[i]@).valid()),
            None => result matches Err(error) && error == SessionError::ListingUnavailable,
        },
{
    match listing {
        Some(text) => Ok(read_listing(text, current, include_exited)),
        None => Err(SessionError::ListingUnavailable),
    }
}

} // verus!
