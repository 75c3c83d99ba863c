//! The closed set of failures that a transformation can report.

use vstd::prelude::*;

verus! {

/// What went wrong, independent of the wording of the message.
#[derive(Clone, Copy, Debug, PartialEq, Eq, Structural)]
pub enum ErrorKind {
    /// The CSV input could not be split into records, or has no header.
    Parse,
    /// The operation name is not one of the known ones.
    InvalidOperation,
}

/// A failure: its kind and a message for the user.
#[derive(Debug)]
pub struct TextError {
    pub kind: ErrorKind,
    pub message: String,
}

impl TextError {
    /// The parse failure reported for CSV input without a header.
    pub fn empty_headers() -> (e: TextError)
        ensures
            e.kind == ErrorKind::Parse,
            e.message@ == empty_headers_message(),
    {
        TextError { kind: ErrorKind::Parse, message: "Empty CSV headers".to_owned() }
    }

    /// A parse failure with the given message.
    pub fn parse(message: String) -> (e: TextError)
        ensures
            e.kind == ErrorKind::Parse,
            e.message == message,
    {
        TextError { kind: ErrorKind::Parse, message }
    }

    /// The failure reported for an unknown operation name; its message
    /// lists the valid names.
    pub fn invalid_operation() -> (e: TextError)
        ensures
            e.kind == ErrorKind::InvalidOperation,
            e.message@ == invalid_operation_message(),
    {
        TextError {
            kind: ErrorKind::InvalidOperation,
            message: "Invalid operation. Use: lowercase, uppercase, no-spaces, slugify, or csv".to_owned(),
        }
    }

    /// The message, as shown to the user.
    pub fn to_string(&self) -> (s: String)
        ensures
            s@ == self.message@,
    {
        self.message.clone()
    }
}

/// Message of an [`ErrorKind::InvalidOperation`] failure.
pub open spec fn invalid_operation_message() -> Seq<char> {
    "Invalid operation. Use: lowercase, uppercase, no-spaces, slugify, or csv"@
}

/// Message of the parse failure for CSV input without a header.
pub open spec fn empty_headers_message() -> Seq<char> {
    "Empty CSV headers"@
}

} // verus!
