//! What can go wrong when a recording is written, read or combined.

use vstd::prelude::*;

verus! {

/// Why bytes were refused as a recording or as an artifact.
#[derive(Clone, Copy, Debug, PartialEq, Eq, Structural)]
pub enum DecodeError {
    /// The bytes end before the data that they announce.
    Truncated,
    /// The bytes do not start with the signature that is expected.
    BadMagic,
    /// The bytes were written in a version of the format that this reader
    /// does not know.
    UnsupportedVersion { found: u16 },
    /// A record does not split into fields, or a field that the reader knows
    /// has a payload of the wrong size or an invalid flag.
    Malformed,
    /// A text field does not hold UTF-8.
    InvalidText,
    /// Bytes follow the last frame of a recording, or the end of an
    /// artifact.
    TrailingBytes,
}

/// Why a recording was refused for writing.
#[derive(Clone, Copy, Debug, PartialEq, Eq, Structural)]
pub enum EncodeError {
    /// A text of the header is too long for a field.
    HeaderTextTooLong,
    /// An actuator config, with its name, is too large for a field.
    ActuatorConfigTooLarge,
}

/// Why a video and a recording were refused for combination.
#[derive(Clone, Copy, Debug, PartialEq, Eq, Structural)]
pub enum CombineError {
    /// The video holds no byte, so there is no stream to attach a recording
    /// to.
    EmptyVideo,
    /// The identifier is too long for a label of the artifact.
    UuidTooLong,
    /// The task is too long for a label of the artifact.
    TaskTooLong,
}

/// Why a file could not be read.
#[derive(Clone, Copy, Debug, PartialEq, Eq, Structural)]
pub enum ReadFailure {
    /// There is no file at the path.
    NotFound,
    /// The file is there and could not be read.
    Unreadable,
}

/// Why saving, loading or combining failed. Each kind is told from the
/// others, and none is retried or recovered from on the way.
#[derive(Clone, Copy, Debug, PartialEq, Eq, Structural)]
pub enum KRecError {
    /// A file that was to be read does not exist.
    NotFound,
    /// A file could not be read or written.
    IoFailure,
    /// The bytes that were read are no recording.
    DecodeFailure(DecodeError),
    /// The recording cannot be written.
    EncodeFailure(EncodeError),
    /// The video and the recording cannot be combined.
    CombineFailure(CombineError),
}

} // verus!
