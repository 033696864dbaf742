//! The errors of the weather service.

use vstd::prelude::*;
use crate::errors::prefixed;

verus! {

/// Error of the weather service.
#[derive(Debug)]
pub enum SMHIError {
    /// The service could not be reached, or has no forecast.
    SMHI(String),
    /// The service's answer is not what it should be.
    Document(String),
}

impl SMHIError {
    /// The message of the error, by its kind.
    pub fn message(&self) -> (r: String)
        ensures
            r@ == match self {
                SMHIError::SMHI(e) => "SMHIError::SMHI: "@ + e@,
                SMHIError::Document(e) => "SMHIError::Document: "@ + e@,
            },
    {
        match self {
            SMHIError::SMHI(e) => prefixed("SMHIError::SMHI: ", e.as_str()),
            SMHIError::Document(e) => prefixed("SMHIError::Document: ", e.as_str()),
        }
    }
}

} // verus!
