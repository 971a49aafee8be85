//! Failures reported by the codecs and the framing layer.
use vstd::prelude::*;

verus! {

/// Why a radar string could not be decoded. Never fatal to a session: the
/// turn is skipped.
#[derive(Clone, Copy, Debug, PartialEq, Eq, Structural)]
pub enum DecodeError {
    /// The trimmed text has a length that no base64 text has.
    InvalidLength,
    /// A character outside the base64 alphabet.
    InvalidCharacter(char),
    /// Fewer than the six separator bytes.
    TruncatedInput,
    /// Fewer than nine hexadecimal digits of room data.
    InsufficientRoomData,
}

/// The framing layer lost its stream before a frame was complete.
#[derive(Clone, Copy, Debug, PartialEq, Eq, Structural)]
pub enum FrameError {
    ConnectionError,
}

} // verus!
