//! The error type of the library.
use vstd::prelude::*;

verus! {

/// An error with a human-readable message.
#[derive(Debug)]
pub enum AppError {
    Message(String),
}

impl AppError {
    /// The message text of the error.
    pub open spec fn message(&self) -> Seq<char> {
        match self {
            AppError::Message(m) => m@,
        }
    }

    /// The message of the error, as the error's display text.
    pub fn to_string(&self) -> (r: String)
        ensures
            r@ == self.message(),
    {
        match self {
            AppError::Message(m) => m.clone(),
        }
    }
}

} // verus!
