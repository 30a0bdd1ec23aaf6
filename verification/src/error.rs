use vstd::prelude::*;

verus! {

/// Error returned by the capture library: a human-readable message.
#[derive(Debug)]
pub struct CaptureError {
    pub message: String,
}

impl CaptureError {
    /// Builds an error carrying `message`.
    pub fn new(message: String) -> (e: CaptureError)
        ensures
            e.message@ == message@,
    {
        CaptureError { message }
    }

    /// Builds an error from a message literal.
    pub fn from_str(message: &str) -> (e: CaptureError)
        ensures
            e.message@ == message@,
    {
        CaptureError { message: String::from_str(message) }
    }

    /// The error message, as `to_string` would render it.
    pub fn message(&self) -> (s: String)
        ensures
            s@ == self.message@,
    {
        self.message.clone()
    }
}

} // verus!
