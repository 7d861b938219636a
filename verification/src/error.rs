use vstd::prelude::*;

verus! {

/// The reason a codec-level failure was raised while reading or writing a
/// frame. Every fault is fatal to the stream that raised it.
#[derive(Clone, Copy, Debug, PartialEq, Eq, Structural)]
pub enum Fault {
    /// The stream does not begin with the frame magic number.
    WrongMagic,
    /// The frame descriptor carries a version other than the supported one.
    UnsupportedVersion,
    /// A reserved bit of the frame descriptor is set.
    ReservedBitsSet,
    /// The frame descriptor names a block-size class that does not exist.
    UnsupportedBlockSize,
    /// The descriptor checksum byte does not match the descriptor.
    HeaderChecksumMismatch,
    /// A block announces a payload larger than the frame's block-size limit.
    BlockTooLarge,
    /// A block checksum does not match the block's payload.
    BlockChecksumMismatch,
    /// The whole-content checksum at the end of the frame does not match.
    ContentChecksumMismatch,
    /// The content size the descriptor declared does not match the decoded
    /// length.
    ContentSizeMismatch,
    /// A compressed block could not be decoded.
    CorruptBlock,
}

/// An error surfaced by an encoder or a decoder.
#[derive(Clone, Copy, Debug, PartialEq, Eq, Structural)]
pub enum Error {
    /// A codec step failed; the sink or source that raised it is unusable.
    Codec(Fault),
    /// A decoding source was finalized before the compressed stream was
    /// completely read.
    IncompleteStream,
}

impl Fault {
    /// A human-readable name for the fault.
    pub fn message(&self) -> &'static str {
        match self {
            Fault::WrongMagic => "wrong magic number",
            Fault::UnsupportedVersion => "unsupported frame version",
            Fault::ReservedBitsSet => "reserved bits set in frame descriptor",
            Fault::UnsupportedBlockSize => "unsupported block size class",
            Fault::HeaderChecksumMismatch => "frame descriptor checksum mismatch",
            Fault::BlockTooLarge => "block larger than the frame's block size limit",
            Fault::BlockChecksumMismatch => "block checksum mismatch",
            Fault::ContentChecksumMismatch => "content checksum mismatch",
            Fault::ContentSizeMismatch => "declared content size does not match decoded length",
            Fault::CorruptBlock => "malformed compressed block",
        }
    }
}

impl Error {
    /// A human-readable description of the error.
    pub fn message(&self) -> &'static str {
        match self {
            Error::Codec(fault) => fault.message(),
            Error::IncompleteStream => {
                "finish called before compressed stream was completely read"
            },
        }
    }
}

} // verus!
