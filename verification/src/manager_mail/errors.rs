//! The error of the mail provider.

use vstd::prelude::*;
use crate::errors::prefixed;

verus! {

/// Error in the communication with the mail provider.
#[derive(Debug)]
pub struct MailError(pub String);

impl MailError {
    /// The message of the error.
    pub fn message(&self) -> (r: String)
        ensures
            r@ == "error in communication with mail provider cloud: "@ + self.0@,
    {
        prefixed("error in communication with mail provider cloud: ", self.0.as_str())
    }
}

} // verus!
