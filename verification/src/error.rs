//! The engine's error type: a plain message, produced by registration
//! failures and carried through backend streams as a per-event item.

use vstd::prelude::*;

verus! {

/// An operational error of the engine or one of its backends.
///
/// Errors are always local: a registration that fails reports one, and a
/// backend stream may carry one per event, but none of them ever stops the
/// engine itself.
#[derive(Debug)]
pub struct Error {
    message: String,
}

impl Error {
    /// The error's text.
    pub closed spec fn spec_message(self) -> Seq<char> {
        self.message@
    }

    pub fn new(message: String) -> (r: Error)
        ensures
            r.spec_message() == message@,
    {
        Error { message }
    }

    /// A readable rendering of the error, for the host's logging.
    pub fn message(&self) -> (r: &String)
        ensures
            r@ == self.spec_message(),
    {
        &self.message
    }
}

} // verus!
