//! Error values returned by the codecs and by scheme readers. Every failure
//! is a value carrying enough context for a diagnostic message; nothing in
//! this crate panics.

use vstd::prelude::*;
use vstd::string::*;

use crate::formats::ColorFormats;

verus! {

/// A failure of the hexadecimal codec.
#[derive(Debug)]
pub enum ColorError {
    /// The digit portion of the input was neither 6 nor 8 characters long;
    /// carries the offending input.
    ParseHexError(String),
    /// A two-character group was not valid base 16; carries the offending
    /// group and the whole input.
    ParseToIntError(String, String),
}

/// A failure of a scheme reader.
#[derive(Debug)]
pub enum SchemeReaderError {
    /// An I/O failure, described by the reader; carries the description and
    /// a context string.
    IOError(String, String),
    /// The scheme source held no lines at all.
    NoLinesError,
}

/// A failure of a function-notation codec: the format that was attempted,
/// and either the offending input or a description of the invalid component.
#[derive(Debug)]
pub struct ParseFormatError(pub ColorFormats, pub String);

impl ColorError {
    /// A diagnostic message for this error.
    pub fn message(&self) -> (m: String)
        ensures
            match self {
                ColorError::ParseHexError(input) => m@ == "Failed to parse hex "@ + input@,
                ColorError::ParseToIntError(part, input) => m@ == "Failed to parse string "@
                    + part@ + " into Int in "@ + input@,
            },
    {
        match self {
            ColorError::ParseHexError(input) => {
                let mut m = String::from_str("Failed to parse hex ");
                m.append(input.as_str());
                m
            },
            ColorError::ParseToIntError(part, input) => {
                let mut m = String::from_str("Failed to parse string ");
                m.append(part.as_str());
                m.append(" into Int in ");
                m.append(input.as_str());
                m
            },
        }
    }
}

impl SchemeReaderError {
    /// A diagnostic message for this error.
    pub fn message(&self) -> (m: String)
        ensures
            match self {
                SchemeReaderError::IOError(cause, context) => m@ == "io::Error occurred: "@
                    + cause@ + ". "@ + context@,
                SchemeReaderError::NoLinesError => m@ == "The file read appears to be empty"@,
            },
    {
        match self {
            SchemeReaderError::IOError(cause, context) => {
                let mut m = String::from_str("io::Error occurred: ");
                m.append(cause.as_str());
                m.append(". ");
                m.append(context.as_str());
                m
            },
            SchemeReaderError::NoLinesError => String::from_str(
                "The file read appears to be empty",
            ),
        }
    }
}

impl ParseFormatError {
    /// A diagnostic message for this error.
    pub fn message(&self) -> (m: String)
        ensures
            m@ == "failed to parse color format: "@ + self.1@,
    {
        let mut m = String::from_str("failed to parse color format: ");
        m.append(self.1.as_str());
        m
    }
}

} // verus!
