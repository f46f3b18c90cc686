//! The error taxonomy of the printing core.
//!
//! Every platform failure is converted at its call site into one of these
//! structured kinds; no platform-native error type crosses the backend
//! boundary.

use vstd::prelude::*;

verus! {

/// A terminal error of one printing call: a kind plus the platform's own
/// message text.
#[derive(Debug, Clone)]
pub enum Error {
    /// Rendering or job-lifecycle failure, with the platform error text.
    PrintCommandFailed(String),
    /// Malformed input, such as an undecodable base64 payload.
    ReadFailed(String),
    /// Temporary-file staging failure.
    WriteFailed(String),
    /// Printer enumeration or capability query failure.
    PrinterLookupFailed(String),
    /// The build has no backend for the host platform.
    UnsupportedPlatform,
}

impl Error {
    /// The user-facing description: a fixed phrase for the kind, followed by
    /// the platform detail where one exists.
    pub open spec fn message_spec(self) -> Seq<char> {
        match self {
            Error::PrintCommandFailed(m) => ("Print command failed: ")@ + m@,
            Error::ReadFailed(m) => ("Failed to read file: ")@ + m@,
            Error::WriteFailed(m) => ("Failed to write file: ")@ + m@,
            Error::PrinterLookupFailed(m) => ("Failed to resolve printer: ")@ + m@,
            Error::UnsupportedPlatform => ("Unsupported platform")@,
        }
    }

    /// Render the error as one line of text.
    pub fn message(&self) -> (r: String)
        ensures
            r@ == self.message_spec(),
    {
        match self {
            Error::PrintCommandFailed(m) => {
                String::from_str("Print command failed: ").concat(m.as_str())
            },
            Error::ReadFailed(m) => String::from_str("Failed to read file: ").concat(m.as_str()),
            Error::WriteFailed(m) => String::from_str("Failed to write file: ").concat(m.as_str()),
            Error::PrinterLookupFailed(m) => {
                String::from_str("Failed to resolve printer: ").concat(m.as_str())
            },
            Error::UnsupportedPlatform => String::from_str("Unsupported platform"),
        }
    }
}

} // verus!
