use vstd::prelude::*;

verus! {

/// Why a stream update could not be turned into a stream.
#[derive(Debug, Clone, Copy, PartialEq, Eq)]
pub enum StreamConversionError {
    /// The update carries no stream id.
    NoStreamID,
}

/// Why a diff could not be turned into a full fragment.
#[derive(Debug, Clone, Copy, PartialEq, Eq)]
pub enum MergeError {
    /// A stream update inside the diff could not be converted.
    Stream(StreamConversionError),
}

} // verus!
