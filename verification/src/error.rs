//! Errors of the conversions.
use vstd::prelude::*;
use crate::chars::to_string;
use crate::text::{chars_of, extend_str};

verus! {

/// An error of a conversion.  An I/O failure is carried as its message.
#[derive(Debug)]
pub enum MarkitdownError {
    Io(String),
    Zip(String),
    Conversion(String),
    InvalidFile(String),
    ParseError(String),
    NetworkError(String),
    LlmError(String),
    ObjectStoreError(String),
    UnsupportedFormat(String),
}

/// The message shown for an error: a heading naming the kind of error,
/// the error's own text and a hint.
pub open spec fn error_message(e: MarkitdownError) -> Seq<char> {
    match e {
        MarkitdownError::Io(m) => "IO error: "@ + m@ + " - Please check file permissions and path"@,
        MarkitdownError::Zip(m) => "ZIP archive error: "@ + m@
            + " - The archive may be corrupted or unsupported"@,
        MarkitdownError::Conversion(m) => "Conversion error: "@ + m@
            + " - The file format may not be supported"@,
        MarkitdownError::InvalidFile(m) => "Invalid file: "@ + m@
            + " - Please verify the file exists and is accessible"@,
        MarkitdownError::ParseError(m) => "Parse error: "@ + m@
            + " - The document structure may be invalid"@,
        MarkitdownError::NetworkError(m) => "Network error: "@ + m@
            + " - Please check your internet connection"@,
        MarkitdownError::LlmError(m) => "LLM error: "@ + m@ + " - Please check your API configuration"@,
        MarkitdownError::ObjectStoreError(m) => "Object store error: "@ + m@
            + " - Please verify your storage configuration"@,
        MarkitdownError::UnsupportedFormat(m) => "Unsupported format: "@ + m@
            + " - This file type is not supported"@,
    }
}

fn framed(head: &str, m: &String, tail: &str) -> (r: String)
    ensures
        r@ == head@ + m@ + tail@,
{
    let mut out: Vec<char> = Vec::new();
    extend_str(&mut out, head);
    extend_str(&mut out, m.as_str());
    extend_str(&mut out, tail);
    to_string(out.as_slice())
}

impl MarkitdownError {
    /// The message shown for the error (what `Display` writes for it).
    pub fn message(&self) -> (r: String)
        ensures
            r@ == error_message(*self),
    {
        match self {
            MarkitdownError::Io(m) => framed("IO error: ", m, " - Please check file permissions and path"),
            MarkitdownError::Zip(m) => framed(
                "ZIP archive error: ",
                m,
                " - The archive may be corrupted or unsupported",
            ),
            MarkitdownError::Conversion(m) => framed(
                "Conversion error: ",
                m,
                " - The file format may not be supported",
            ),
            MarkitdownError::InvalidFile(m) => framed(
                "Invalid file: ",
                m,
                " - Please verify the file exists and is accessible",
            ),
            MarkitdownError::ParseError(m) => framed(
                "Parse error: ",
                m,
                " - The document structure may be invalid",
            ),
            MarkitdownError::NetworkError(m) => framed(
                "Network error: ",
                m,
                " - Please check your internet connection",
            ),
            MarkitdownError::LlmError(m) => framed("LLM error: ", m, " - Please check your API configuration"),
            MarkitdownError::ObjectStoreError(m) => framed(
                "Object store error: ",
                m,
                " - Please verify your storage configuration",
            ),
            MarkitdownError::UnsupportedFormat(m) => framed(
                "Unsupported format: ",
                m,
                " - This file type is not supported",
            ),
        }
    }

    /// A conversion error carrying the text (what `From<&str>` gives).
    pub fn from_text(t: &str) -> (r: Self)
        ensures
            r matches MarkitdownError::Conversion(m) && m@ == t@,
    {
        let c = chars_of(t);
        MarkitdownError::Conversion(to_string(c.as_slice()))
    }
}

impl From<String> for MarkitdownError {
    fn from(error: String) -> (r: Self) {
        MarkitdownError::Conversion(error)
    }
}

impl vstd::std_specs::convert::FromSpecImpl<String> for MarkitdownError {
    open spec fn obeys_from_spec() -> bool {
        true
    }

    open spec fn from_spec(error: String) -> Self {
        MarkitdownError::Conversion(error)
    }
}

/// A parse error whose message is the prefix followed by the detail.
pub fn parse_error(prefix: &str, detail: &[char]) -> (r: MarkitdownError)
    ensures
        r matches MarkitdownError::ParseError(m) && m@ == prefix@ + detail@,
{
    let mut out: Vec<char> = Vec::new();
    extend_str(&mut out, prefix);
    crate::text::extend_chars(&mut out, detail);
    MarkitdownError::ParseError(to_string(out.as_slice()))
}

/// The error is a parse error with the message.
pub open spec fn is_parse_error(e: MarkitdownError, m: Seq<char>) -> bool {
    e matches MarkitdownError::ParseError(x) && x@ == m
}

} // verus!
