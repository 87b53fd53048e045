//! The ways in which handling one file can fail.

use vstd::prelude::*;
use vstd::string::StringExecFns;

verus! {

/// Why a file could not be handled. An error ends the handling of that one
/// file and of no other.
#[derive(Clone, Debug)]
pub enum PipelineError {
    /// The path does not exist.
    NotFound,
    /// Reading or writing failed; the text is the system's own.
    Io(String),
    /// The encoding name is not one that the decoders know.
    UnknownEncoding(String),
    /// Decoding met malformed input. Conversion is lossy and never gives
    /// this; it is kept for a strict mode.
    DecodeFailure(String),
}

impl PipelineError {
    /// The message shown for the error.
    pub open spec fn spec_message(self) -> Seq<char> {
        match self {
            PipelineError::NotFound => "File not found"@,
            PipelineError::Io(detail) => detail@,
            PipelineError::UnknownEncoding(name) => "Unknown encoding: "@ + name@,
            PipelineError::DecodeFailure(detail) => "Decode failure: "@ + detail@,
        }
    }

    pub fn message(&self) -> (r: String)
        ensures
            r@ == self.spec_message(),
    {
        match self {
            PipelineError::NotFound => String::from_str("File not found"),
            PipelineError::Io(detail) => detail.clone(),
            PipelineError::UnknownEncoding(name) => String::from_str("Unknown encoding: ").concat(
                name.as_str(),
            ),
            PipelineError::DecodeFailure(detail) => String::from_str("Decode failure: ").concat(
                detail.as_str(),
            ),
        }
    }
}

} // verus!
