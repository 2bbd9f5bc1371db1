//! The one error type: a message for the user.

use vstd::prelude::*;

verus! {

/// An error, known by the message that a user sees.
#[derive(Debug, Clone)]
pub struct Error {
    pub message: String,
}

impl View for Error {
    type V = Seq<char>;

    open spec fn view(&self) -> Seq<char> {
        self.message@
    }
}

impl Error {
    /// An error with this message.
    pub fn new(message: String) -> (result: Error)
        ensures
            result@ == message@,
    {
        Error { message }
    }
}

/// What a result holds, with the error as its message.
pub open spec fn outcome<T>(result: Result<T, Error>) -> Result<T, Seq<char>> {
    match result {
        Ok(value) => Ok(value),
        Err(error) => Err(error@),
    }
}

/// What came of asking for a text, as characters.
pub open spec fn text_outcome(result: Result<String, Error>) -> Result<Seq<char>, Seq<char>> {
    match result {
        Ok(text) => Ok(text@),
        Err(error) => Err(error@),
    }
}

/// A message put before the message of its cause.
pub open spec fn with_cause(message: Seq<char>, cause: Seq<char>) -> Seq<char> {
    message + ": "@ + cause
}

/// Puts a message before the message of its cause.
pub fn caused(message: String, cause: &str) -> (result: Error)
    ensures
        result@ == with_cause(message@, cause@),
{
    Error { message: message.concat(": ").concat(cause) }
}

} // verus!
