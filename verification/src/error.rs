//! The errors of the streaming layer, and the classes they fall into.

use vstd::prelude::*;
use crate::engine::{error_name, error_text};

verus! {

/// The engine call during which a failure was reported.
#[derive(Clone, Copy, Debug, PartialEq, Eq)]
pub enum Stage {
    /// Declaring the total source size to a compression context.
    SetPledgedSize,
    /// A compression step.
    Compress,
    /// Resetting a decompression context.
    Reset,
    /// Limiting the window of a decompression context.
    SetMaxWindowSize,
    /// Choosing the frame format of a decompression context.
    SetFormat,
    /// Loading a dictionary into a decompression context.
    LoadDictionary,
    /// A decompression step.
    Decompress,
}

/// A request that the configuration rules out.
#[derive(Clone, Copy, Debug, PartialEq, Eq)]
pub enum ConfigurationIssue {
    /// The flush mode is neither `FLUSH_BLOCK` nor `FLUSH_FRAME`.
    UnknownFlushMode(usize),
    /// The frame format is neither `FORMAT_ZSTD1` nor `FORMAT_ZSTD1_MAGICLESS`.
    InvalidFormat(u32),
    /// The frame does not declare its content size and no output bound was given.
    MissingOutputBound,
    /// An output buffer of zero bytes was asked for.
    WriteSizeNotPositive,
    /// As many bytes, or more, are to be skipped as one read brings.
    SkipBytesNotBelowReadSize,
}

/// An operation that the stream's lifecycle rules out.
#[derive(Clone, Copy, Debug, PartialEq, Eq)]
pub enum StateIssue {
    /// The stream is closed.
    Closed,
    /// The stream's scope was entered before and not left.
    AlreadyEntered,
}

/// Input that cannot be worked on.
#[derive(Clone, Copy, Debug, PartialEq, Eq)]
pub enum InputIssue {
    /// The chain holds no frame.
    EmptyChain,
    /// The header of the frame could not be read.
    UnreadableHeader,
    /// The header of a chained frame does not declare its content size.
    MissingContentSize,
}

/// A member that a collaborator may lack.
#[derive(Clone, Copy, Debug, PartialEq, Eq)]
pub enum Capability {
    Fileno,
}

/// What a sink or a source reported when a call on it failed.
#[derive(Clone, Copy, Debug, PartialEq, Eq)]
pub struct IoError {
    pub code: i32,
}

/// The classes of failure.
#[derive(Clone, Copy, Debug, PartialEq, Eq)]
pub enum ErrorKind {
    Configuration,
    State,
    Codec,
    IncompleteFrame,
    SizeMismatch,
    UnsupportedOperation,
    OutOfMemory,
    InvalidInput,
    MissingCapability,
    NotImplemented,
    NoProgress,
    CounterOverflow,
    Io,
}

/// A failure of the streaming layer. `frame` is the index of the frame in a
/// chain, where there is a chain.
#[derive(Clone, Copy, Debug, PartialEq, Eq)]
pub enum ZstdError {
    Configuration(ConfigurationIssue),
    State(StateIssue),
    /// The engine reported the error `code`.
    Codec { stage: Stage, code: usize, frame: Option<usize> },
    /// The engine was given all there is and still asks for more.
    IncompleteFrame { frame: Option<usize> },
    /// The engine produced another number of bytes than the frame declares.
    SizeMismatch { produced: usize, expected: u64, frame: Option<usize> },
    /// The stream cannot do this in any state.
    UnsupportedOperation,
    /// A buffer or a context could not be allocated.
    OutOfMemory,
    InvalidInput { issue: InputIssue, frame: Option<usize> },
    MissingCapability(Capability),
    NotImplemented,
    /// An engine step neither took input nor gave output while work was left.
    NoProgress,
    /// A byte counter would pass `usize::MAX`.
    CounterOverflow,
    /// A sink or a source failed.
    Io(IoError),
}

impl ZstdError {
    /// The class of this failure.
    pub open spec fn spec_kind(&self) -> ErrorKind {
        match *self {
            ZstdError::Configuration(_) => ErrorKind::Configuration,
            ZstdError::State(_) => ErrorKind::State,
            ZstdError::Codec { .. } => ErrorKind::Codec,
            ZstdError::IncompleteFrame { .. } => ErrorKind::IncompleteFrame,
            ZstdError::SizeMismatch { .. } => ErrorKind::SizeMismatch,
            ZstdError::UnsupportedOperation => ErrorKind::UnsupportedOperation,
            ZstdError::OutOfMemory => ErrorKind::OutOfMemory,
            ZstdError::InvalidInput { .. } => ErrorKind::InvalidInput,
            ZstdError::MissingCapability(_) => ErrorKind::MissingCapability,
            ZstdError::NotImplemented => ErrorKind::NotImplemented,
            ZstdError::NoProgress => ErrorKind::NoProgress,
            ZstdError::CounterOverflow => ErrorKind::CounterOverflow,
            ZstdError::Io(_) => ErrorKind::Io,
        }
    }

    #[verifier::when_used_as_spec(spec_kind)]
    pub fn kind(&self) -> (k: ErrorKind)
        ensures
            k == self.spec_kind(),
    {
        match *self {
            ZstdError::Configuration(_) => ErrorKind::Configuration,
            ZstdError::State(_) => ErrorKind::State,
            ZstdError::Codec { .. } => ErrorKind::Codec,
            ZstdError::IncompleteFrame { .. } => ErrorKind::IncompleteFrame,
            ZstdError::SizeMismatch { .. } => ErrorKind::SizeMismatch,
            ZstdError::UnsupportedOperation => ErrorKind::UnsupportedOperation,
            ZstdError::OutOfMemory => ErrorKind::OutOfMemory,
            ZstdError::InvalidInput { .. } => ErrorKind::InvalidInput,
            ZstdError::MissingCapability(_) => ErrorKind::MissingCapability,
            ZstdError::NotImplemented => ErrorKind::NotImplemented,
            ZstdError::NoProgress => ErrorKind::NoProgress,
            ZstdError::CounterOverflow => ErrorKind::CounterOverflow,
            ZstdError::Io(_) => ErrorKind::Io,
        }
    }

    /// The engine's own words for what it reported, where the failure is the
    /// engine's; `None` for every other failure.
    pub fn diagnostic(&self) -> (text: Option<String>)
        ensures
            match *self {
                ZstdError::Codec { code, .. } => text matches Some(words) && words@ == error_name(
                    code,
                ),
                _ => text is None,
            },
    {
        match *self {
            ZstdError::Codec { code, .. } => Some(error_text(code)),
            _ => None,
        }
    }

    /// The index of the chained frame that the failure names, if it names one.
    pub open spec fn spec_frame(&self) -> Option<usize> {
        match *self {
            ZstdError::Codec { frame, .. } => frame,
            ZstdError::IncompleteFrame { frame } => frame,
            ZstdError::SizeMismatch { frame, .. } => frame,
            ZstdError::InvalidInput { frame, .. } => frame,
            _ => None,
        }
    }

    #[verifier::when_used_as_spec(spec_frame)]
    pub fn frame(&self) -> (f: Option<usize>)
        ensures
            f == self.spec_frame(),
    {
        match *self {
            ZstdError::Codec { frame, .. } => frame,
            ZstdError::IncompleteFrame { frame } => frame,
            ZstdError::SizeMismatch { frame, .. } => frame,
            ZstdError::InvalidInput { frame, .. } => frame,
            _ => None,
        }
    }
}

} // verus!
