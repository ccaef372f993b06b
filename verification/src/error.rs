//! The error kinds of the framing layer, of the byte-stream layer and of the
//! boundary to the underlying stream.
use vstd::prelude::*;

verus! {

/// A violation of the framing protocol.
#[derive(PartialEq, Eq, Debug, Clone)]
pub enum ParserError {
    /// The buffer layer is short by this many bytes.
    Need(usize),
    /// The header names a version that has no codec.
    Unsupported(u16),
    /// A guard byte was expected and this value was found.
    Guard(u8),
    /// The stream does not begin with the magic bytes; these were found.
    MagicBytes([u8; 4]),
    /// A declared length is structurally impossible.
    Length(u64),
    /// An end-of-stream marker where a record was owed.
    UnexpectedEos,
    /// An operation on a stream that has already ended.
    IsEos,
}

/// What went wrong in the underlying stream.
#[derive(PartialEq, Eq, Debug, Clone, Copy, Structural)]
pub enum IoKind {
    /// The stream ended this many bytes before a read was complete.
    UnexpectedEof(usize),
    /// The bytes read do not have the form that was asked for.
    InvalidData,
    /// The destination lacks room for this many bytes of a write.
    WriteZero(usize),
}

/// An error of a reader or writer: a protocol error of kind `E`, or a failure
/// of the underlying stream, which is passed through unchanged.
#[derive(PartialEq, Eq, Debug, Clone)]
pub enum IoError<E> {
    Parser(E),
    Io(IoKind),
}

impl From<ParserError> for IoError<ParserError> {
    fn from(value: ParserError) -> (e: Self) {
        IoError::Parser(value)
    }
}

impl vstd::std_specs::convert::FromSpecImpl<ParserError> for IoError<ParserError> {
    open spec fn obeys_from_spec() -> bool {
        true
    }

    open spec fn from_spec(value: ParserError) -> Self {
        IoError::Parser(value)
    }
}

impl<E> From<IoKind> for IoError<E> {
    fn from(value: IoKind) -> (e: Self) {
        IoError::Io(value)
    }
}

impl<E> vstd::std_specs::convert::FromSpecImpl<IoKind> for IoError<E> {
    open spec fn obeys_from_spec() -> bool {
        true
    }

    open spec fn from_spec(value: IoKind) -> Self {
        IoError::Io(value)
    }
}

/// An error of the byte-stream layer.
#[derive(PartialEq, Eq, Debug, Clone)]
pub enum CodecError {
    /// The buffer is short by this many bytes.
    Needed(usize),
    /// The magic bytes were expected and these were found.
    MagicByte([u8; 4]),
    /// A guard byte was expected and this value was found.
    Guard(u8),
    /// A record length that is neither zero nor large enough for the ids.
    RecordLength(u64),
}

pub type CodecResult<T> = Result<T, CodecError>;

impl From<CodecError> for ParserError {
    fn from(value: CodecError) -> (e: Self) {
        match value {
            CodecError::Needed(n) => ParserError::Need(n),
            CodecError::MagicByte(found) => ParserError::MagicBytes(found),
            CodecError::Guard(g) => ParserError::Guard(g),
            CodecError::RecordLength(n) => ParserError::Length(n),
        }
    }
}

impl vstd::std_specs::convert::FromSpecImpl<CodecError> for ParserError {
    open spec fn obeys_from_spec() -> bool {
        true
    }

    open spec fn from_spec(value: CodecError) -> Self {
        match value {
            CodecError::Needed(n) => ParserError::Need(n),
            CodecError::MagicByte(found) => ParserError::MagicBytes(found),
            CodecError::Guard(g) => ParserError::Guard(g),
            CodecError::RecordLength(n) => ParserError::Length(n),
        }
    }
}

impl CodecError {
    /// The failure of the underlying stream that a deficit stands for.
    pub open spec fn spec_io_kind(self) -> IoKind {
        match self {
            CodecError::Needed(n) => IoKind::UnexpectedEof(n),
            _ => IoKind::InvalidData,
        }
    }

    /// Passes a deficit of the buffer layer on as a short read.
    pub fn io_kind(&self) -> (k: IoKind)
        ensures
            k == self.spec_io_kind(),
    {
        match self {
            CodecError::Needed(n) => IoKind::UnexpectedEof(*n),
            _ => IoKind::InvalidData,
        }
    }
}

} // verus!
