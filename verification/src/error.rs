//! The crate's error type.

use vstd::prelude::*;

verus! {

/// An error of this crate: a configuration problem, or an I/O failure
/// carried as its textual description.
#[derive(Debug)]
pub enum RqError {
    /// Configuration-related errors, with a message.
    Config(String),
    /// I/O-related failures, with the underlying error's description.
    Io(String),
}

impl RqError {
    /// A human-readable description of the error.
    pub fn message(&self) -> (r: String)
        ensures
            self matches RqError::Config(m) ==> r@ == "Configuration error: "@ + m@,
            self matches RqError::Io(m) ==> r@ == "IO error: "@ + m@,
    {
        match self {
            RqError::Config(m) => String::from_str("Configuration error: ").concat(m.as_str()),
            RqError::Io(m) => String::from_str("IO error: ").concat(m.as_str()),
        }
    }
}

} // verus!
