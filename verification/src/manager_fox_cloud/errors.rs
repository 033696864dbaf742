//! The error of the inverter's cloud service.

use vstd::prelude::*;
use crate::errors::prefixed;

verus! {

/// Error in the communication with the inverter's cloud service.
#[derive(Debug)]
pub struct FoxError(pub String);

impl FoxError {
    /// The message of the error.
    pub fn message(&self) -> (r: String)
        ensures
            r@ == "error in communication with FoxESS cloud: "@ + self.0@,
    {
        prefixed("error in communication with FoxESS cloud: ", self.0.as_str())
    }
}

} // verus!
