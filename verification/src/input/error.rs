//! The error of the readers.

use vstd::prelude::*;
use vstd::string::*;

verus! {

/// Why a configuration could not be read.
#[derive(Debug)]
pub enum Error {
    /// The configuration does not say what it should; the text says what.
    Config(String),
}

impl Error {
    /// The text of the error.
    pub open spec fn text(&self) -> Seq<char> {
        match self {
            Error::Config(text) => text@,
        }
    }

    /// The text of the error.
    pub fn message(&self) -> (text: &str)
        ensures
            text@ == self.text(),
    {
        match self {
            Error::Config(text) => text.as_str(),
        }
    }

    /// The error that says `text`.
    pub fn from(text: &str) -> (error: Error)
        ensures
            error.text() == text@,
    {
        Error::Config(String::from_str(text))
    }

    /// The error whose text is `first`, `second`, `third` and `fourth`, one
    /// after the other.
    pub fn from_parts(first: &str, second: &str, third: &str, fourth: &str) -> (error: Error)
        ensures
            error.text() == first@ + second@ + third@ + fourth@,
    {
        let mut text = String::from_str(first);
        text.append(second);
        text.append(third);
        text.append(fourth);
        Error::Config(text)
    }
}

/// `result` is the error that says `text`.
pub open spec fn fails_with<T>(result: Result<T, Error>, text: Seq<char>) -> bool {
    result matches Err(error) && error.text() == text
}

/// What `value` holds, or the error that says `message` if it holds
/// nothing.
pub fn or_error<T>(value: Option<T>, message: &str) -> (result: Result<T, Error>)
    ensures
        match value {
            Some(held) => result == Ok::<T, Error>(held),
            None => fails_with(result, message@),
        },
{
    match value {
        Some(held) => Ok(held),
        None => Err(Error::from(message)),
    }
}

} // verus!
