//! Errors of the library.

use vstd::prelude::*;

use crate::text::{chars_of, concat_chars, string_from_chars};

verus! {

/// Everything that can go wrong while building a motion photo. Failures of outside
/// services and I/O carry the message they were reported with.
#[derive(Debug)]
pub enum LiveMuxError {
    Io(String),
    ExifTool { message: String },
    FFmpeg { message: String },
    XmpParse(String),
    XmpElementMissing(String),
    InvalidFile(String),
    ArgConflict(String),
    Regex(String),
    Json(String),
}

/// The human-readable text of an error.
pub open spec fn error_message(e: LiveMuxError) -> Seq<char> {
    match e {
        LiveMuxError::Io(m) => "I/O error: "@ + m@,
        LiveMuxError::ExifTool { message } => "ExifTool error: "@ + message@,
        LiveMuxError::FFmpeg { message } => "FFmpeg error: "@ + message@,
        LiveMuxError::XmpParse(m) => "XMP parse error: "@ + m@,
        LiveMuxError::XmpElementMissing(m) => "XMP element not found: "@ + m@,
        LiveMuxError::InvalidFile(m) => "Invalid file: "@ + m@,
        LiveMuxError::ArgConflict(m) => "Argument conflict: "@ + m@,
        LiveMuxError::Regex(m) => "Regex error: "@ + m@,
        LiveMuxError::Json(m) => "JSON parse error: "@ + m@,
    }
}

impl LiveMuxError {
    /// The human-readable text of this error (what it displays as).
    pub fn message(&self) -> (r: String)
        ensures
            r@ == error_message(*self),
    {
        let (prefix, inner) = match self {
            LiveMuxError::Io(m) => ("I/O error: ", m),
            LiveMuxError::ExifTool { message } => ("ExifTool error: ", message),
            LiveMuxError::FFmpeg { message } => ("FFmpeg error: ", message),
            LiveMuxError::XmpParse(m) => ("XMP parse error: ", m),
            LiveMuxError::XmpElementMissing(m) => ("XMP element not found: ", m),
            LiveMuxError::InvalidFile(m) => ("Invalid file: ", m),
            LiveMuxError::ArgConflict(m) => ("Argument conflict: ", m),
            LiveMuxError::Regex(m) => ("Regex error: ", m),
            LiveMuxError::Json(m) => ("JSON parse error: ", m),
        };
        let text = concat_chars(&chars_of(prefix), &chars_of(inner.as_str()));
        string_from_chars(&text)
    }
}

} // verus!
