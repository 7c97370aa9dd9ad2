//! The error the desktop commands return.

use vstd::prelude::*;

verus! {

#[verifier::external_type_specification]
#[verifier::external_body]
pub struct ExIoError(std::io::Error);

/// All errors the desktop commands can surface to the UI.
pub enum SafaiError {
    /// Filesystem / IO failure.
    Io(std::io::Error),
    /// Any other failure, carrying a message.
    Other(String),
}

impl SafaiError {
    /// An IO failure.
    pub fn from_io(e: std::io::Error) -> (r: Self)
        ensures
            r == SafaiError::Io(e),
    {
        SafaiError::Io(e)
    }
}

} // verus!
