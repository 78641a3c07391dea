//! Why an operation on the display fails.
use vstd::prelude::*;

verus! {

/// A failure of the pulse generator.
#[derive(Debug, Clone, Copy, PartialEq, Eq)]
pub enum RmtError {
    Overflow,
    InvalidArgument,
    TransmissionError,
    EndMarkerMissing,
    InvalidDataLength,
    ReceiverError,
}

/// A pulse generator channel that could not be set up.
#[derive(Debug, Clone, Copy, PartialEq, Eq)]
pub enum RmtConfigError {
    UnreachableTargetFrequency,
    IdleThresholdOutOfRange,
    MemsizeOutOfRange,
    MemoryBlockNotAvailable,
}

/// What is misaligned in a transfer.
#[derive(Debug, Clone, Copy, PartialEq, Eq)]
pub enum DmaAlignmentError {
    Address,
    Size,
}

/// A failure of a transfer to the panel.
#[derive(Debug, Clone, Copy, PartialEq, Eq)]
pub enum DmaError {
    InvalidAlignment(DmaAlignmentError),
    OutOfDescriptors,
    DescriptorError,
    Overflow,
    BufferTooSmall,
    UnsupportedMemoryRegion,
    InvalidChunkSize,
}

/// A transfer buffer that could not be made.
#[derive(Debug, Clone, Copy, PartialEq, Eq)]
pub enum DmaBufError {
    BufferTooSmall,
    InsufficientDescriptors,
    UnsupportedMemoryRegion,
    InvalidAlignment(DmaAlignmentError),
    InvalidChunkSize,
}

/// Why an operation on the display fails.
#[derive(Debug, Clone, Copy, PartialEq, Eq)]
pub enum Error {
    Rmt(RmtError),
    RmtConfig(RmtConfigError),
    Dma(DmaError),
    DmaBuffer(DmaBufError),
    /// A coordinate lies outside the panel.
    OutOfBounds,
    /// A gray level above 15.
    InvalidColor,
    /// The bus to the panel was lost in an earlier failure.
    Unknown,
}

} // verus!
