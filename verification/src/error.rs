use vstd::prelude::*;

verus! {

/// The kind of a failure: the closed set of recoverable errors that the
/// animation operations can return. No operation panics or aborts; every
/// internal failure is mapped to exactly one of these kinds.
#[derive(Clone, Copy, Debug, PartialEq, Eq, Structural)]
pub enum ErrorKind {
    /// Malformed header, truncated stream, or a decoded frame whose pixel
    /// count does not match its declared dimensions.
    Decode,
    /// An operation that needs an animated input (more than one frame) was
    /// given a single frame or none.
    AnimationTooShort,
    /// A composition was asked of zero input images.
    EmptyInput,
    /// A resolved pixel buffer does not hold width * height * 4 bytes.
    Conversion,
    /// Output serialization failed: an oversized or ragged palette, a frame
    /// whose buffer does not match its dimensions, a frame with no usable
    /// palette, or a failure in the underlying encoder.
    Encode,
}

/// A recoverable, value-level failure: its kind, with a human-readable message.
#[derive(Debug)]
pub struct GifError {
    pub kind: ErrorKind,
    pub message: String,
}

impl GifError {
    pub fn new(kind: ErrorKind, message: String) -> (e: GifError)
        ensures
            e.kind == kind,
            e.message == message,
    {
        GifError { kind, message }
    }

    /// The error's message, for display by a caller.
    pub fn describe(&self) -> (m: String)
        ensures
            m == self.message,
    {
        self.message.clone()
    }
}

} // verus!
