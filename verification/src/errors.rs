//! The errors that the library reports. Each carries a text, and gives its
//! message: the text after a few words that say where it comes from.

use vstd::prelude::*;
use vstd::string::StringExecFns;

verus! {

/// Error that occurs while the program is set up.
#[derive(Debug)]
pub struct MyGridInitError(pub String);

/// Error that occurs while the schedule is followed.
#[derive(Debug)]
pub struct MyGridWorkerError(pub String);

/// Error that occurs while the configuration is loaded.
#[derive(Debug)]
pub struct ConfigError(pub String);

/// Error that occurs while logging is set up.
#[derive(Debug)]
pub struct LoggingError(pub String);

/// Error that occurs while schedules are created, loaded or looked up.
#[derive(Debug)]
pub struct SchedulingError(pub String);

/// Error that occurs while a spline is made.
#[derive(Debug)]
pub struct SplineError(pub String);

/// Error that occurs while the days of manual operation are read.
#[derive(Debug)]
pub struct SkipError(pub String);

/// `text` after `prefix`.
pub fn prefixed(prefix: &str, text: &str) -> (r: String)
    ensures
        r@ == prefix@ + text@,
{
    String::from_str(prefix).concat(text)
}

impl MyGridInitError {
    /// The message of the error.
    pub fn message(&self) -> (r: String)
        ensures
            r@ == "error while initializing mygrid: "@ + self.0@,
    {
        prefixed("error while initializing mygrid: ", self.0.as_str())
    }
}

impl MyGridWorkerError {
    /// The message of the error.
    pub fn message(&self) -> (r: String)
        ensures
            r@ == "error while running schedule: "@ + self.0@,
    {
        prefixed("error while running schedule: ", self.0.as_str())
    }
}

impl ConfigError {
    /// The message of the error.
    pub fn message(&self) -> (r: String)
        ensures
            r@ == "error while loading configuration: "@ + self.0@,
    {
        prefixed("error while loading configuration: ", self.0.as_str())
    }
}

impl LoggingError {
    /// The message of the error.
    pub fn message(&self) -> (r: String)
        ensures
            r@ == "error while setting up logging: "@ + self.0@,
    {
        prefixed("error while setting up logging: ", self.0.as_str())
    }
}

impl SchedulingError {
    /// The message of the error.
    pub fn message(&self) -> (r: String)
        ensures
            r@ == "error while managing/loading schedules: "@ + self.0@,
    {
        prefixed("error while managing/loading schedules: ", self.0.as_str())
    }
}

impl SplineError {
    /// The message of the error.
    pub fn message(&self) -> (r: String)
        ensures
            r@ == "error while making a spline: "@ + self.0@,
    {
        prefixed("error while making a spline: ", self.0.as_str())
    }
}

impl SkipError {
    /// The message of the error.
    pub fn message(&self) -> (r: String)
        ensures
            r@ == "error while managing manual days: "@ + self.0@,
    {
        prefixed("error while managing manual days: ", self.0.as_str())
    }
}

} // verus!
