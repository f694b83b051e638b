//! Error values surfaced around the core: a failure of the underlying input
//! stream, or a failure to read a configuration. The parser itself is total
//! and raises neither; callers that drive it from a real stream wrap their
//! I/O errors in these variants.

use vstd::prelude::*;

verus! {

/// An error surfaced to callers of the formatting pipeline.
#[derive(Debug)]
pub enum FormatterError {
    /// The underlying stream failed to produce the next line.
    IoError(String),
    /// A configuration document could not be parsed.
    ParseError(String),
}

impl FormatterError {
    /// The message carried by this error.
    pub fn message(&self) -> (m: &String)
        ensures
            m@ == match self {
                FormatterError::IoError(s) => s@,
                FormatterError::ParseError(s) => s@,
            },
    {
        match self {
            FormatterError::IoError(s) => s,
            FormatterError::ParseError(s) => s,
        }
    }
}

} // verus!
