//! The error type of the library: a message for the user.
use vstd::prelude::*;

use crate::text::to_owned;

verus! {

/// An error, carried as the message shown to the user.
pub struct AppError {
    message: String,
}

impl AppError {
    /// The message of this error.
    pub closed spec fn text(&self) -> Seq<char> {
        self.message@
    }

    /// An error with the given message.
    pub fn msg(message: &str) -> (e: AppError)
        ensures
            e.text() == message@,
    {
        AppError { message: to_owned(message) }
    }

    /// An error with the given message.
    pub fn from_string(message: String) -> (e: AppError)
        ensures
            e.text() == message@,
    {
        AppError { message }
    }

    /// The message, as shown to the user.
    pub fn message(&self) -> (m: &str)
        ensures
            m@ == self.text(),
    {
        self.message.as_str()
    }

    /// The message, as an owned string.
    pub fn to_string(&self) -> (m: String)
        ensures
            m@ == self.text(),
    {
        to_owned(self.message.as_str())
    }
}

} // verus!
