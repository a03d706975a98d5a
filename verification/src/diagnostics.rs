//! Diagnostic messages handed back by analysis passes.

use vstd::prelude::*;

use crate::term::Tid;

verus! {

/// The severity of a diagnostic message.
#[derive(Clone, Copy, PartialEq, Eq, Structural, Debug)]
pub enum LogLevel {
    /// A message useful for debugging an analysis.
    Debug,
    /// An informational message.
    Info,
    /// An error message.
    Error,
}

/// A diagnostic record: free text, a severity, and optionally the term it
/// refers to and the name of the analysis that produced it.
#[derive(Debug)]
pub struct LogMessage {
    /// The message text.
    pub text: String,
    /// The severity of the message.
    pub level: LogLevel,
    /// The term the message refers to, if any.
    pub location: Option<Tid>,
    /// The name of the analysis that produced the message, if any.
    pub source: Option<String>,
}

impl LogMessage {
    /// Creates an informational message without location or source.
    pub fn new_info(text: &str) -> (m: LogMessage)
        ensures
            m.text@ == text@,
            m.level is Info,
            m.location is None,
            m.source is None,
    {
        LogMessage { text: text.to_owned(), level: LogLevel::Info, location: None, source: None }
    }

    /// Attaches a location to the message.
    pub fn location(self, location: Tid) -> (m: LogMessage)
        ensures
            m.text == self.text,
            m.level == self.level,
            m.location == Some(location),
            m.source == self.source,
    {
        LogMessage { text: self.text, level: self.level, location: Some(location), source: self.source }
    }
}

} // verus!
