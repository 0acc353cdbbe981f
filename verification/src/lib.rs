//! Core of a command-line client that keeps multi-turn conversational state
//! with a remote generative endpoint and persists each conversation as a
//! durable, resumable session.
//!
//! The crate owns the parts with real invariants: the ordered, append-only
//! context log and its on-disk document format, the request envelope, the
//! normalization of replies, the session directory layout, and the rule that
//! durable state changes only after a successful exchange.  Reading and
//! writing the actual files, the HTTP call, and the interactive prompts are
//! left to a thin unverified shell around this library.

use vstd::prelude::*;

pub mod attach;
pub mod config;
pub mod context;
pub mod display;
pub mod exchange;
pub mod flags;
pub mod json;
pub mod normalize;
pub mod reply;
pub mod session;
pub mod utils;

verus! {

/// The error taxonomy of the library.
///
/// `NotFound` is an expected file or session missing, `IOError` a filesystem
/// failure reported by the caller, `ParseError` a malformed document,
/// `HTTPFailure` a non-2xx status (not a transport exception), and
/// `UserAborted` a declined confirmation on a destructive action.
#[derive(Clone, Copy, Debug, PartialEq, Eq, Structural)]
pub enum CoreError {
    NotFound,
    IOError,
    ParseError,
    HTTPFailure,
    UserAborted,
}

} // verus!
