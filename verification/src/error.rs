use vstd::prelude::*;
use std::time::Duration;
use vstd::string::*;

use crate::clock::{duration_debug, duration_debug_text};

verus! {

/// An error of std's I/O; opaque here.
#[verifier::external_type_specification]
#[verifier::external_body]
pub struct ExIoError(std::io::Error);

/// An error of serde_json; opaque here.
#[verifier::external_type_specification]
#[verifier::external_body]
pub struct ExJsonError(serde_json::Error);

/// Errors of the framework and of the agents it runs.
#[derive(Debug)]
pub enum SpiceError {
    AgentError(String),
    Timeout(Duration),
    AssertionFailed(String),
    ConfigError(String),
    Io(std::io::Error),
    Json(serde_json::Error),
}

/// Formats an I/O error with its `Display` impl from std. Nothing is claimed of the
/// text: for an OS error it holds the system's message, which depends on the machine.
#[verifier::external_body]
fn io_error_text(e: &std::io::Error) -> String {
    format!("{}", e)
}

/// Formats a serde_json error with its `Display` impl. Nothing is claimed of the text:
/// for an error that wraps an I/O error it holds that error's system message.
#[verifier::external_body]
fn json_error_text(e: &serde_json::Error) -> String {
    format!("{}", e)
}

/// `"Timeout after "` followed by the `Debug` text of `d`.
pub open spec fn timeout_text(d: Duration) -> Seq<char> {
    "Timeout after "@ + duration_debug_text(d)
}

/// The message of an error whose text the framework composes; `None` for the two
/// that wrap an outside error and show its own text.
pub open spec fn error_text(e: SpiceError) -> Option<Seq<char>> {
    match e {
        SpiceError::AgentError(s) => Some("Agent error: "@ + s@),
        SpiceError::Timeout(d) => Some(timeout_text(d)),
        SpiceError::AssertionFailed(s) => Some("Assertion failed: "@ + s@),
        SpiceError::ConfigError(s) => Some("Configuration error: "@ + s@),
        SpiceError::Io(_) => None,
        SpiceError::Json(_) => None,
    }
}

/// `"Timeout after {d:?}"`.
pub fn timeout_message(d: &Duration) -> (r: String)
    ensures
        r@ == timeout_text(*d),
{
    String::from_str("Timeout after ").concat(duration_debug(d).as_str())
}

/// The message of `e` as its `Display` shows it, where `shown` is the `Display` text
/// of the outside error that an `Io` or a `Json` error wraps (unused for the others).
pub open spec fn message_text(e: SpiceError, shown: Seq<char>) -> Seq<char> {
    match e {
        SpiceError::Io(_) => "IO error: "@ + shown,
        SpiceError::Json(_) => "JSON error: "@ + shown,
        _ => error_text(e)->0,
    }
}

impl SpiceError {
    /// The error's message, given the text `shown` of the outside error it wraps.
    pub fn message_showing(&self, shown: &str) -> (r: String)
        ensures
            r@ == message_text(*self, shown@),
    {
        match self {
            SpiceError::AgentError(s) => String::from_str("Agent error: ").concat(s.as_str()),
            SpiceError::Timeout(d) => timeout_message(d),
            SpiceError::AssertionFailed(s) => String::from_str("Assertion failed: ").concat(
                s.as_str(),
            ),
            SpiceError::ConfigError(s) => String::from_str("Configuration error: ").concat(
                s.as_str(),
            ),
            SpiceError::Io(_) => String::from_str("IO error: ").concat(shown),
            SpiceError::Json(_) => String::from_str("JSON error: ").concat(shown),
        }
    }

    /// The error's message, as its `Display` shows it: for an `Io` or `Json` error, the
    /// wrapped error's own `Display` text after the prefix.
    pub fn message(&self) -> (r: String)
        ensures
            error_text(*self) matches Some(t) ==> r@ == t,
            exists|shown: Seq<char>| r@ == message_text(*self, shown),
    {
        match self {
            SpiceError::Io(e) => {
                let shown = io_error_text(e);
                self.message_showing(shown.as_str())
            },
            SpiceError::Json(e) => {
                let shown = json_error_text(e);
                self.message_showing(shown.as_str())
            },
            _ => {
                let r = self.message_showing("");
                assert(r@ == message_text(*self, ""@));
                r
            },
        }
    }
}

impl From<std::io::Error> for SpiceError {
    fn from(e: std::io::Error) -> (r: Self) {
        SpiceError::Io(e)
    }
}

impl vstd::std_specs::convert::FromSpecImpl<std::io::Error> for SpiceError {
    open spec fn obeys_from_spec() -> bool {
        true
    }

    open spec fn from_spec(e: std::io::Error) -> Self {
        SpiceError::Io(e)
    }
}

impl From<serde_json::Error> for SpiceError {
    fn from(e: serde_json::Error) -> (r: Self) {
        SpiceError::Json(e)
    }
}

impl vstd::std_specs::convert::FromSpecImpl<serde_json::Error> for SpiceError {
    open spec fn obeys_from_spec() -> bool {
        true
    }

    open spec fn from_spec(e: serde_json::Error) -> Self {
        SpiceError::Json(e)
    }
}

} // verus!
