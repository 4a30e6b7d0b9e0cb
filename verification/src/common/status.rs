//! The envelope in which a server hands out an answer or an error.

use vstd::prelude::*;
use crate::text::{to_chars, to_string};

verus! {

/// An answer of a server: the data asked for, or the message of an error.
#[derive(Clone, Debug, PartialEq)]
pub enum Status<T> {
    Success { data: T },
    Error { message: String },
}

/// The words that stand before the message of a call that failed.
pub open spec fn call_failure() -> Seq<char> {
    "failed to call: "@
}

impl<T> Status<T> {
    /// The envelope of the outcome `result`, whose error is its message.
    pub fn from_result(result: Result<T, String>) -> (r: Status<T>)
        ensures
            match result {
                Ok(data) => r == (Status::Success { data }),
                Err(message) => r matches Status::Error { message: m } && m@ == message@,
            },
    {
        match result {
            Ok(data) => Status::Success { data },
            Err(message) => Status::Error { message },
        }
    }

    /// The outcome that the envelope holds: the data, or the message of the
    /// error behind the words that say the call failed.
    pub fn into_result(self) -> (r: Result<T, String>)
        ensures
            match self {
                Status::Success { data } => r == Ok::<T, String>(data),
                Status::Error { message } => r matches Err(m) && m@ == call_failure() + message@,
            },
    {
        match self {
            Status::Success { data } => Ok(data),
            Status::Error { message } => {
                let mut text = to_chars("failed to call: ");
                let mut rest = to_chars(message.as_str());
                text.append(&mut rest);
                Err(to_string(&text))
            },
        }
    }
}

} // verus!
