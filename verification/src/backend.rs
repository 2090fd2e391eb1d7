//! The error a backend operation surfaces.
use vstd::prelude::*;

verus! {

/// Error surfaced by a backend operation. Wraps the underlying cause as a message
/// so callers (and the UI) never depend on the D-Bus crate's error type.
#[derive(Debug, Clone, PartialEq, Eq)]
pub struct BackendError(pub String);

impl BackendError {
    /// An error with this message.
    pub fn new(message: String) -> (r: BackendError)
        ensures
            r.0@ == message@,
    {
        BackendError(message)
    }

    /// The message, as the error displays itself.
    pub fn message(&self) -> (r: String)
        ensures
            r@ == self.0@,
    {
        self.0.clone()
    }
}

} // verus!
