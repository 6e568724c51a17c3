//! Errors of marshaling, packing and unpacking.

use vstd::prelude::*;
use vstd::std_specs::convert::FromSpecImpl;

verus! {

/// Errors of payload marshaling and of [`RawFrame::unmarshal`](crate::frame::RawFrame::unmarshal).
#[allow(inconsistent_fields)]
#[derive(Debug, Clone, Copy, PartialEq, Eq, Structural)]
pub enum MarshalerError {
    /// The frame's command ID is not the one of the expected type.
    InvalidCmdID { expected: u16, found: u16 },
    /// The payload length is not the payload size of the expected type.
    InvalidDataLength { expected: usize, found: usize },
    /// The destination buffer is too small; `need` bytes are required.
    BufferTooSmall { need: usize },
    /// A field of the payload holds a value that its type does not have;
    /// `field` tells which field of the message it is.
    InvalidData { field: usize },
}

/// Errors of [`Messager::pack`](crate::frame::Messager::pack).
#[derive(Debug, Clone, Copy, PartialEq, Eq, Structural)]
pub enum PackError {
    /// The destination buffer cannot hold the frame; `need` is the frame's size.
    BufferTooSmall { need: usize },
    /// The marshaler reported more bytes than a frame can carry (`max` is `u16::MAX`).
    InputTooLarge { max: usize },
    /// The marshaler reported a byte count other than the payload size.
    InvalidPayloadSize { expected: usize, found: usize },
    /// The marshaler failed.
    MarshalerError(MarshalerError),
}

/// Errors of [`Messager::unpack`](crate::frame::Messager::unpack) and
/// [`Messager::unmarshal`](crate::frame::Messager::unmarshal).
#[derive(Debug, Clone, Copy, PartialEq, Eq, Structural)]
pub enum UnPackError {
    /// The input does not start with a start-of-frame byte; the first one is at `skip`.
    ReSync { skip: usize },
    /// The input holds no start-of-frame byte; `skip` is its length.
    MissingHeader { skip: usize },
    /// The frame is truncated; `read` bytes are available.
    UnexpectedEnd { read: usize },
    /// A checksum did not match; `at` is the read position when it was found.
    InvalidChecksum { at: usize },
    /// The payload could not be decoded into the target type.
    MarshalerError(MarshalerError),
}

impl UnPackError {
    /// The number of bytes to discard before the next parse attempt.
    pub open spec fn spec_skip(&self) -> usize {
        match *self {
            UnPackError::MissingHeader { skip } => skip,
            UnPackError::ReSync { skip } => skip,
            UnPackError::UnexpectedEnd { .. } => 0,
            UnPackError::InvalidChecksum { at } => at,
            UnPackError::MarshalerError(_) => 0,
        }
    }

    /// Returns the number of bytes to discard before the next parse attempt.
    #[verifier::when_used_as_spec(spec_skip)]
    pub fn skip(&self) -> (r: usize)
        ensures
            r == self.spec_skip(),
    {
        match self {
            UnPackError::MissingHeader { skip } => *skip,
            UnPackError::ReSync { skip } => *skip,
            UnPackError::UnexpectedEnd { .. } => 0,
            UnPackError::InvalidChecksum { at } => *at,
            UnPackError::MarshalerError(_) => 0,
        }
    }
}

impl From<usize> for MarshalerError {
    fn from(field: usize) -> (r: Self) {
        MarshalerError::InvalidData { field }
    }
}

impl FromSpecImpl<usize> for MarshalerError {
    open spec fn obeys_from_spec() -> bool {
        true
    }

    open spec fn from_spec(field: usize) -> Self {
        MarshalerError::InvalidData { field }
    }
}

impl From<MarshalerError> for PackError {
    fn from(err: MarshalerError) -> (r: Self) {
        PackError::MarshalerError(err)
    }
}

impl FromSpecImpl<MarshalerError> for PackError {
    open spec fn obeys_from_spec() -> bool {
        true
    }

    open spec fn from_spec(err: MarshalerError) -> Self {
        PackError::MarshalerError(err)
    }
}

impl From<MarshalerError> for UnPackError {
    fn from(err: MarshalerError) -> (r: Self) {
        UnPackError::MarshalerError(err)
    }
}

impl FromSpecImpl<MarshalerError> for UnPackError {
    open spec fn obeys_from_spec() -> bool {
        true
    }

    open spec fn from_spec(err: MarshalerError) -> Self {
        UnPackError::MarshalerError(err)
    }
}

} // verus!
