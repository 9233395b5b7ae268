//! The ways in which decoding and segmenting can fail.

use vstd::prelude::*;

verus! {

/// Why an audio operation produced nothing.
#[derive(Clone, Copy, Debug, PartialEq, Eq, Structural)]
pub enum AudioError {
    /// The container header is malformed, or the payload is corrupt.
    DecodeError,
    /// The samples are not 16-bit integers, or the declared sample rate and
    /// channel count cannot be carried by a segment container.
    UnsupportedFormat,
    /// The requested range of the stream holds no samples.
    EmptyOrShort,
    /// The output container could not be written.
    SerializationFailure,
}

impl AudioError {
    /// The text shown to a client for each kind of failure.
    pub open spec fn spec_message(self) -> Seq<char> {
        match self {
            AudioError::DecodeError => "Error opening audio file"@,
            AudioError::UnsupportedFormat => "Error reading samples"@,
            AudioError::EmptyOrShort => "No audio in the requested range"@,
            AudioError::SerializationFailure => "Error writing audio file"@,
        }
    }

    /// A short description of the failure.
    pub fn message(&self) -> (text: &'static str)
        ensures
            text@ == self.spec_message(),
    {
        match self {
            AudioError::DecodeError => "Error opening audio file",
            AudioError::UnsupportedFormat => "Error reading samples",
            AudioError::EmptyOrShort => "No audio in the requested range",
            AudioError::SerializationFailure => "Error writing audio file",
        }
    }
}

} // verus!
