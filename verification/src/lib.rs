//! Session identification and tab summaries for a terminal multiplexer's
//! sessions.
//!
//! The library reads what the multiplexer prints and decides what a session
//! manager shows and does; it runs no process and touches no file itself.
//!
//! - [`digest`]: the identifier of a session, the start of the hexadecimal
//!   BLAKE3 hash of its name.
//! - [`session`]: session records, and the reading of a raw session listing.
//! - [`prefix`]: the shortest prefix of each identifier that tells its
//!   session from the others.
//! - [`document`] and [`layout`]: layout documents, and the rows of tabs and
//!   panes that summarise one.
//! - [`fetch`]: the summaries of a batch of sessions, each with its own
//!   failure.
//! - [`report`]: the rows in which a batch is shown.
//! - [`command`]: which session a request means, and what is done for it.
//! - [`install`]: the rules by which scripts and completions are installed.
//! - [`text`]: the character-level helpers under all of these.
//! - [`error`]: the failures.

pub mod command;
pub mod digest;
pub mod document;
pub mod error;
pub mod fetch;
pub mod install;
pub mod layout;
pub mod prefix;
pub mod report;
pub mod session;
pub mod text;
