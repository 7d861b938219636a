use vstd::prelude::*;

verus! {

/// The block-size classes a frame can declare. Each class fixes the maximum
/// number of uncompressed bytes a single block may carry.
#[derive(Clone, Copy, Debug, PartialEq, Eq, Structural)]
pub enum BlockSize {
    Default,
    Max64KB,
    Max256KB,
    Max1MB,
    Max4MB,
}

/// Whether blocks of a frame may reference data of earlier blocks.
#[derive(Clone, Copy, Debug, PartialEq, Eq, Structural)]
pub enum BlockMode {
    Linked,
    Independent,
}

/// Whether a whole-content checksum is appended at the end of the frame.
#[derive(Clone, Copy, Debug, PartialEq, Eq, Structural)]
pub enum ContentChecksum {
    NoChecksum,
    ChecksumEnabled,
}

/// Whether each block is followed by a checksum of its payload.
#[derive(Clone, Copy, Debug, PartialEq, Eq, Structural)]
pub enum BlockChecksum {
    NoChecksum,
    ChecksumEnabled,
}

/// The kind of frame a stream carries.
#[derive(Clone, Copy, Debug, PartialEq, Eq, Structural)]
pub enum LZ4FrameType {
    LZ4Frame,
    SkippableFrame,
}

/// Everything a frame descriptor announces about the stream that follows it.
#[derive(Clone, Copy, Debug, PartialEq, Eq, Structural)]
pub struct LZ4FFrameInfo {
    pub block_size_id: BlockSize,
    pub block_mode: BlockMode,
    pub content_checksum_flag: ContentChecksum,
    pub frame_type: LZ4FrameType,
    pub content_size: u64,
    pub dict_id: u32,
    pub block_checksum_flag: BlockChecksum,
}

impl BlockSize {
    /// The maximum number of uncompressed bytes of one block of this class.
    pub open spec fn bytes_spec(self) -> int {
        match self {
            BlockSize::Default => (64 * 1024) as int,
            BlockSize::Max64KB => (64 * 1024) as int,
            BlockSize::Max256KB => (256 * 1024) as int,
            BlockSize::Max1MB => (1024 * 1024) as int,
            BlockSize::Max4MB => (4096 * 1024) as int,
        }
    }

    /// The identifier under which this class appears in a frame descriptor.
    pub open spec fn id_spec(self) -> u8 {
        match self {
            BlockSize::Default => 4,
            BlockSize::Max64KB => 4,
            BlockSize::Max256KB => 5,
            BlockSize::Max1MB => 6,
            BlockSize::Max4MB => 7,
        }
    }

    pub fn bytes(&self) -> (r: usize)
        ensures
            r == self.bytes_spec(),
    {
        match self {
            BlockSize::Default => 64 * 1024,
            BlockSize::Max64KB => 64 * 1024,
            BlockSize::Max256KB => 256 * 1024,
            BlockSize::Max1MB => 1024 * 1024,
            BlockSize::Max4MB => 4096 * 1024,
        }
    }

    /// The identifier under which this class appears in a frame descriptor.
    pub fn id(&self) -> (r: u8)
        ensures
            r == self.id_spec(),
    {
        match self {
            BlockSize::Default => 4,
            BlockSize::Max64KB => 4,
            BlockSize::Max256KB => 5,
            BlockSize::Max1MB => 6,
            BlockSize::Max4MB => 7,
        }
    }
}

} // verus!
