//! The errors that the nodes report.

use vstd::prelude::*;

verus! {

/// What an error is about.
#[derive(Clone, Copy, Debug, PartialEq, Eq, Structural)]
pub enum ErrorKind {
    /// The step could not be completed.
    Other,
    /// Bytes from the network were not what they had to be.
    InvalidData,
}

/// An error with a text for the log.
#[derive(Debug)]
pub struct NodeError {
    pub kind: ErrorKind,
    pub message: String,
}

impl NodeError {
    /// Whether this is the error of that kind with that text.
    pub open spec fn is(self, kind: ErrorKind, message: Seq<char>) -> bool {
        self.kind == kind && self.message@ == message
    }

    /// An error of the given kind and text.
    pub fn new(kind: ErrorKind, message: &str) -> (error: NodeError)
        ensures
            error.is(kind, message@),
    {
        NodeError { kind, message: message.to_string() }
    }
}

/// Shorthand for failing with a text.
pub fn return_err<T>(msg: &'static str) -> (failed: Result<T, NodeError>)
    ensures
        failed matches Err(error) && error.is(ErrorKind::Other, msg@),
{
    Err(NodeError::new(ErrorKind::Other, msg))
}

/// Turns the text of any failure into an error about bad data; a value is
/// handed on as it is.
pub fn io_err<T>(result: Result<T, String>) -> (mapped: Result<T, NodeError>)
    ensures
        match result {
            Ok(value) => mapped == Ok::<T, NodeError>(value),
            Err(text) => mapped matches Err(error) && error.is(ErrorKind::InvalidData, text@),
        },
{
    match result {
        Ok(value) => Ok(value),
        Err(message) => Err(NodeError { kind: ErrorKind::InvalidData, message }),
    }
}

} // verus!
