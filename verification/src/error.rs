//! Errors surfaced while a route table is compiled into a router.

use vstd::prelude::*;

use crate::regexes::error_text;

verus! {

/// What can go wrong while constructing a router: one of the registered
/// patterns, or the combined matcher built over all of them, was rejected by
/// the regular-expression compiler.
#[derive(Debug)]
pub enum Error {
    BadRegex(regex::Error),
}

impl Error {
    /// A human-readable description of the failure.
    pub fn message(&self) -> String {
        match self {
            Error::BadRegex(e) => error_text(e),
        }
    }
}

impl From<regex::Error> for Error {
    fn from(error: regex::Error) -> (r: Error) {
        Error::BadRegex(error)
    }
}

impl vstd::std_specs::convert::FromSpecImpl<regex::Error> for Error {
    open spec fn obeys_from_spec() -> bool {
        true
    }

    open spec fn from_spec(error: regex::Error) -> Error {
        Error::BadRegex(error)
    }
}

} // verus!
