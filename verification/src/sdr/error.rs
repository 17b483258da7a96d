//! Error types for SDR source operations.
//!
//! The I/O errors behind these are held as their messages, so that the
//! error carries plain values; the code that opens and reads files
//! converts its I/O errors.

use vstd::prelude::*;
use vstd::string::StringExecFns;

verus! {

/// Errors that can occur when reading IQ sample data.
#[derive(Debug)]
pub enum SdrError {
    /// Failed to open an IQ sample file.
    OpenFile {
        /// Path to the file that could not be opened.
        path: String,
        /// Message of the underlying I/O error.
        source: String,
    },
    /// Failed to read from an IQ sample file.
    Read(String),
}

/// The message of an SDR error.
pub open spec fn sdr_error_text(e: SdrError) -> Seq<char> {
    match e {
        SdrError::OpenFile { path, source } => "failed to open IQ file "@ + path@ + ": "@ + source@,
        SdrError::Read(message) => "read error on IQ file: "@ + message@,
    }
}

impl SdrError {
    /// The error's message.
    pub fn to_string(&self) -> (r: String)
        ensures
            r@ == sdr_error_text(*self),
    {
        match self {
            SdrError::OpenFile { path, source } => {
                let mut s = String::from_str("failed to open IQ file ");
                s.append(path.as_str());
                s.append(": ");
                s.append(source.as_str());
                s
            },
            SdrError::Read(message) => {
                let mut s = String::from_str("read error on IQ file: ");
                s.append(message.as_str());
                s
            },
        }
    }
}

} // verus!
