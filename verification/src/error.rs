//! What can go wrong in a turn.

use vstd::prelude::*;
use vstd::string::StringExecFns;

verus! {

/// A failure of a turn.
///
/// A tool's failure never ends the turn: it is written into the conversation as
/// the tool's result, so that the model can correct itself. Every other failure
/// ends the turn and goes to the caller.
#[derive(Debug, Clone, PartialEq)]
pub enum Error {
    /// The endpoint could not be reached, or the connection broke.
    Transport,
    /// The endpoint answered with a status outside 200 to 299.
    Remote { status: u16, body: String },
    /// The answer had not the expected shape.
    Decode,
    /// The arguments of a tool call were no JSON document; holds the reason.
    ToolArgument(String),
    /// A tool ran and failed; holds what it reported.
    ToolExecution(String),
    /// The endpoint answered without a choice.
    EmptyResponse,
}

pub enum ErrorView {
    Transport,
    Remote { status: u16, body: Seq<char> },
    Decode,
    ToolArgument(Seq<char>),
    ToolExecution(Seq<char>),
    EmptyResponse,
}

impl View for Error {
    type V = ErrorView;

    open spec fn view(&self) -> ErrorView {
        match self {
            Error::Transport => ErrorView::Transport,
            Error::Remote { status, body } => ErrorView::Remote { status: *status, body: body@ },
            Error::Decode => ErrorView::Decode,
            Error::ToolArgument(reason) => ErrorView::ToolArgument(reason@),
            Error::ToolExecution(text) => ErrorView::ToolExecution(text@),
            Error::EmptyResponse => ErrorView::EmptyResponse,
        }
    }
}

impl ErrorView {
    /// Whether the failure ends the turn.
    pub open spec fn fatal(self) -> bool {
        !(self is ToolArgument || self is ToolExecution)
    }

    /// The failure in words. The body of a remote failure is given as it came.
    pub open spec fn message(self) -> Seq<char> {
        match self {
            ErrorView::Transport => "Request failed"@,
            ErrorView::Remote { status, body } => body,
            ErrorView::Decode => "Failed to parse response"@,
            ErrorView::ToolArgument(reason) => "Failed to parse arguments: "@ + reason,
            ErrorView::ToolExecution(text) => text,
            ErrorView::EmptyResponse => "No choices returned from API"@,
        }
    }
}

impl Error {
    /// Whether the failure ends the turn.
    pub fn is_fatal(&self) -> (r: bool)
        ensures
            r == self@.fatal(),
    {
        match self {
            Error::ToolArgument(_) => false,
            Error::ToolExecution(_) => false,
            _ => true,
        }
    }

    /// The failure in words.
    pub fn message(&self) -> (r: String)
        ensures
            r@ == self@.message(),
    {
        match self {
            Error::Transport => "Request failed".to_owned(),
            Error::Remote { status, body } => body.clone(),
            Error::Decode => "Failed to parse response".to_owned(),
            Error::ToolArgument(reason) => "Failed to parse arguments: ".to_owned().concat(
                reason.as_str(),
            ),
            Error::ToolExecution(text) => text.clone(),
            Error::EmptyResponse => "No choices returned from API".to_owned(),
        }
    }
}

} // verus!
