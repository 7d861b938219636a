//! The decompressing source: a frame-reading state machine that turns an
//! incrementally fed compressed stream back into its content, and a source
//! object that reads from an owned in-memory stream.
//!
//! The machine tracks how many more stream bytes it needs to make progress;
//! that count reaching zero is the sole end-of-stream signal. A stream that
//! runs dry earlier is truncated: reads stop producing output without an
//! error, and finalizing the source fails.

use vstd::prelude::*;

use crate::codec::decompress_block;
use crate::codec::lz4_unblock;
use crate::codec::hasher_bytes;
use crate::codec::hasher_new;
use crate::codec::hasher_push;
use crate::codec::hasher_sum;
use crate::codec::xxh32;
use crate::codec::xxh32_spec;
use crate::config::BlockChecksum;
use crate::config::BlockMode;
use crate::config::BlockSize;
use crate::config::ContentChecksum;
use crate::config::LZ4FFrameInfo;
use crate::config::LZ4FrameType;
use crate::error::Error;
use crate::error::Fault;
use crate::frame::dict_for;
use crate::frame::from_le32;
use crate::frame::push_slice;
use crate::frame::read_le32;
use crate::frame::shrink_to_window;
use crate::frame::window;

verus! {

/// What the frame reader is collecting next.
#[derive(Clone, Copy, Debug, PartialEq, Eq, Structural)]
pub enum Stage {
    /// The frame descriptor, magic number included.
    Header,
    /// The four-byte word that announces a block or the end mark.
    BlockInfo,
    /// A block's payload, and its checksum when blocks carry one.
    BlockData,
    /// The four-byte whole-content checksum after the end mark.
    Trailer,
    /// The announced body of a skippable frame, discarded byte for byte.
    SkipBody,
    /// The frame is fully decoded; nothing more is needed.
    Done,
    /// A codec fault was raised; the machine is unusable.
    Failed,
}

/// The optional-field bytes a descriptor carries after its two fixed bytes.
pub open spec fn hdr_extra(flg: u8) -> int {
    (if flg & 8 != 0 {
        8int
    } else {
        0int
    }) + (if flg & 1 != 0 {
        4int
    } else {
        0int
    })
}

/// Whether collected prelude bytes open a skippable frame.
pub open spec fn skippable_magic(g: Seq<u8>) -> bool {
    g.len() >= 4 && 0x184D2A50 <= from_le32(g[0], g[1], g[2], g[3]) <= 0x184D2A5F
}

/// How long the whole frame prelude is, as far as the collected prefix
/// shows: a skippable frame's magic and size word, or the descriptor.
pub open spec fn header_total(g: Seq<u8>) -> int {
    if skippable_magic(g) {
        8
    } else if g.len() >= 5 {
        7 + hdr_extra(g[4])
    } else {
        7
    }
}

/// The payload length a block-info word announces.
pub open spec fn block_len(word: u32) -> int {
    (word % 0x80000000) as int
}

/// Whether a block-info word announces an uncompressed payload.
pub open spec fn block_stored(word: u32) -> bool {
    word >= 0x80000000
}

/// The two forms of block-info word a frame writer emits mean to a frame
/// reader exactly what the writer intended: a stored-block word carries its
/// payload length under the stored flag, and a compressed-block word carries
/// the compressed length without it.
pub proof fn lemma_block_word(n: u32)
    requires
        n < 0x80000000,
    ensures
        block_stored((0x80000000 + n) as u32),
        block_len((0x80000000 + n) as u32) == n,
        n > 0 ==> !block_stored(n) && block_len(n) == n,
{
    assert(((0x80000000 + n) as u32) % 0x80000000u32 == n) by (bit_vector)
        requires
            n < 0x80000000u32,
    ;
    assert(n % 0x80000000u32 == n) by (bit_vector)
        requires
            n < 0x80000000u32,
    ;
}

/// Whether the frame carries per-block checksums.
pub open spec fn bc_flag(info: Option<LZ4FFrameInfo>) -> bool {
    match info {
        Option::Some(i) => i.block_checksum_flag == BlockChecksum::ChecksumEnabled,
        Option::None => false,
    }
}

/// Whether the frame ends with a whole-content checksum.
pub open spec fn cc_flag(info: Option<LZ4FFrameInfo>) -> bool {
    match info {
        Option::Some(i) => i.content_checksum_flag == ContentChecksum::ChecksumEnabled,
        Option::None => false,
    }
}

/// The block mode the frame announced.
pub open spec fn mode_of(info: Option<LZ4FFrameInfo>) -> BlockMode {
    match info {
        Option::Some(i) => i.block_mode,
        Option::None => BlockMode::Linked,
    }
}

/// Everything a block-data stage still has to collect: the payload and, when
/// blocks carry one, the four checksum bytes.
pub open spec fn data_total(word: u32, bc: bool) -> int {
    block_len(word) + if bc {
        4int
    } else {
        0int
    }
}

/// The frame-reading state machine behind a decompressing source. It owns no
/// source: the caller feeds it stream bytes and takes decoded bytes back.
/// `content` names everything decoded so far, `delivered` the part already
/// handed to the caller; the rest sits in `out` from `out_pos` on.
pub struct FrameReader {
    pub stage: Stage,
    pub fault: Fault,
    pub fed: Ghost<Seq<u8>>,
    pub got: Vec<u8>,
    pub word: u32,
    pub info: Option<LZ4FFrameInfo>,
    pub limit: usize,
    pub out: Vec<u8>,
    pub out_pos: usize,
    pub declared: u64,
    pub has_size: bool,
    pub oversize: bool,
    pub history: Vec<u8>,
    pub hasher: twox_hash::XxHash32,
    pub content: Ghost<Seq<u8>>,
    pub delivered: Ghost<Seq<u8>>,
}

impl FrameReader {
    /// The parts of well-formedness that do not depend on the stage.
    pub open spec fn wf_core(self) -> bool {
        &&& self.out_pos <= self.out@.len()
        &&& self.content@ == self.delivered@ + self.out@.skip(self.out_pos as int)
        &&& match self.info {
            Option::Some(i) => {
                &&& self.limit == i.block_size_id.bytes_spec()
                &&& 65536 <= self.limit <= 4194304
                &&& (i.content_checksum_flag == ContentChecksum::ChecksumEnabled ==> hasher_bytes(
                    self.hasher,
                ) == self.content@)
                &&& (i.block_mode == BlockMode::Linked ==> self.history@ == window(self.content@))
                &&& (i.block_mode == BlockMode::Independent ==> self.history@ == Seq::<u8>::empty())
            },
            Option::None => {
                &&& self.content@ == Seq::<u8>::empty()
                &&& self.history@ == Seq::<u8>::empty()
                &&& hasher_bytes(self.hasher) == Seq::<u8>::empty()
            },
        }
    }

    /// The stage is still collecting: what it has is strictly less than what
    /// it needs.
    pub open spec fn stage_inv(self) -> bool {
        match self.stage {
            Stage::Header => self.info is None && self.got@.len() < header_total(self.got@),
            Stage::BlockInfo => self.info is Some && self.got@.len() < 4,
            Stage::BlockData => self.info is Some && self.got@.len() < data_total(
                self.word,
                bc_flag(self.info),
            ) && block_len(self.word) <= self.limit,
            Stage::Trailer => self.info is Some && cc_flag(self.info) && self.got@.len() < 4,
            Stage::SkipBody => self.info is None && self.got@.len() == 0 && self.word >= 1,
            Stage::Done => true,
            Stage::Failed => true,
        }
    }

    pub open spec fn wf(self) -> bool {
        self.wf_core() && self.stage_inv()
    }

    /// How many more stream bytes the machine needs to make progress; zero
    /// exactly when the frame is fully decoded.
    pub open spec fn needed_spec(self) -> int {
        match self.stage {
            Stage::Header => header_total(self.got@) - self.got@.len(),
            Stage::BlockInfo => 4 - self.got@.len(),
            Stage::BlockData => data_total(self.word, bc_flag(self.info)) - self.got@.len(),
            Stage::Trailer => 4 - self.got@.len(),
            Stage::SkipBody => self.word as int,
            Stage::Done => 0,
            Stage::Failed => 1,
        }
    }

    /// Everything the current stage collects, in bytes.
    pub open spec fn stage_total(self) -> int {
        match self.stage {
            Stage::Header => header_total(self.got@),
            Stage::BlockInfo => 4,
            Stage::BlockData => data_total(self.word, bc_flag(self.info)),
            Stage::Trailer => 4,
            Stage::SkipBody => self.word as int,
            Stage::Done => 0,
            Stage::Failed => 0,
        }
    }

    /// The decoded bytes not yet handed to the caller.
    pub open spec fn pending_spec(self) -> Seq<u8> {
        self.out@.skip(self.out_pos as int)
    }

    /// A fresh machine expecting a frame header.
    pub fn new() -> (r: FrameReader)
        ensures
            r.wf(),
            r.stage == Stage::Header,
            r.fed@ == Seq::<u8>::empty(),
            r.delivered@ == Seq::<u8>::empty(),
            r.content@ == Seq::<u8>::empty(),
            r.pending_spec() == Seq::<u8>::empty(),
    {
        let r = FrameReader {
            stage: Stage::Header,
            // Meaningful only once the machine fails; any value serves here.
            fault: Fault::WrongMagic,
            fed: Ghost(Seq::<u8>::empty()),
            got: Vec::new(),
            word: 0,
            info: None,
            limit: 0,
            out: Vec::new(),
            out_pos: 0,
            declared: 0,
            has_size: false,
            oversize: false,
            history: Vec::new(),
            hasher: hasher_new(),
            content: Ghost(Seq::<u8>::empty()),
            delivered: Ghost(Seq::<u8>::empty()),
        };
        proof {
            assert(r.out@.skip(0) =~= Seq::<u8>::empty());
            assert(r.content@ =~= r.delivered@ + r.out@.skip(0));
        }
        r
    }

    /// How many more stream bytes to pull before the machine can progress.
    pub fn needed(&self) -> (r: usize)
        requires
            self.wf(),
        ensures
            r == self.needed_spec(),
            r == 0 <==> self.stage == Stage::Done,
    {
        match self.stage {
            Stage::Header => {
                if self.got.len() >= 4 {
                    let magic: u32 = read_le32(self.got[0], self.got[1], self.got[2], self.got[3]);
                    if 0x184D2A50u32 <= magic && magic <= 0x184D2A5Fu32 {
                        return 8 - self.got.len();
                    }
                }
                if self.got.len() >= 5 {
                    let flg: u8 = self.got[4];
                    let extra: usize = (if flg & 8 != 0 {
                        8usize
                    } else {
                        0usize
                    }) + (if flg & 1 != 0 {
                        4usize
                    } else {
                        0usize
                    });
                    7 + extra - self.got.len()
                } else {
                    7 - self.got.len()
                }
            },
            Stage::BlockInfo => 4 - self.got.len(),
            Stage::BlockData => {
                let bc: bool = match &self.info {
                    Option::Some(i) => matches!(i.block_checksum_flag, BlockChecksum::ChecksumEnabled),
                    Option::None => false,
                };
                let len: usize = (self.word % 0x80000000u32) as usize;
                let total: usize = len + (if bc {
                    4usize
                } else {
                    0usize
                });
                total - self.got.len()
            },
            Stage::Trailer => 4 - self.got.len(),
            Stage::SkipBody => self.word as usize,
            Stage::Done => 0,
            Stage::Failed => 1,
        }
    }

    /// How many decoded bytes are already waiting to be handed out.
    pub fn pending_len(&self) -> (r: usize)
        requires
            self.wf(),
        ensures
            r == self.pending_spec().len(),
    {
        self.out.len() - self.out_pos
    }

    /// Hands out up to `room` decoded bytes that are already waiting.
    pub fn take_output(&mut self, room: usize) -> (r: Vec<u8>)
        requires
            old(self).wf(),
        ensures
            final(self).wf(),
            r@.len() <= room,
            r@ == old(self).pending_spec().take(r@.len() as int),
            final(self).delivered@ == old(self).delivered@ + r@,
            final(self).content@ == old(self).content@,
            final(self).fed@ == old(self).fed@,
            final(self).stage == old(self).stage,
            final(self).got == old(self).got,
            final(self).needed_spec() == old(self).needed_spec(),
            final(self).pending_spec().len() == old(self).pending_spec().len() - r@.len(),
            room > 0 && r@.len() == 0 ==> final(self).pending_spec().len() == 0,
    {
        let avail: usize = self.out.len() - self.out_pos;
        let n: usize = if avail < room {
            avail
        } else {
            room
        };
        let r = vstd::slice::slice_to_vec(
            vstd::slice::slice_subrange(self.out.as_slice(), self.out_pos, self.out_pos + n),
        );
        let ghost pos0 = self.out_pos as int;
        self.out_pos = self.out_pos + n;
        self.delivered = Ghost(self.delivered@ + r@);
        proof {
            assert(self.out@.skip(pos0) =~= r@ + self.out@.skip(self.out_pos as int));
            assert(r@ =~= self.out@.skip(pos0).take(n as int));
            assert(self.content@ =~= self.delivered@ + self.out@.skip(self.out_pos as int));
        }
        if self.out_pos == self.out.len() {
            self.out.clear();
            self.out_pos = 0;
            proof {
                assert(self.out@.skip(0) =~= Seq::<u8>::empty());
                assert(self.content@ =~= self.delivered@ + self.out@.skip(0));
            }
        }
        r
    }

    /// Processes one fully collected item: validates the descriptor, reads a
    /// block-info word, decodes a block, or checks the content checksum.
    fn complete_stage(&mut self) -> (r: Result<(), Error>)
        requires
            old(self).wf_core(),
            match old(self).stage {
                Stage::Header => old(self).info is None && old(self).got@.len() == header_total(
                    old(self).got@,
                ),
                Stage::BlockInfo => old(self).info is Some && old(self).got@.len() == 4,
                Stage::BlockData => old(self).info is Some && old(self).got@.len() == data_total(
                    old(self).word,
                    bc_flag(old(self).info),
                ) && block_len(old(self).word) <= old(self).limit && 65536 <= old(self).limit,
                Stage::Trailer => old(self).info is Some && cc_flag(old(self).info) && old(
                    self,
                ).got@.len() == 4,
                Stage::SkipBody => false,
                Stage::Done => false,
                Stage::Failed => false,
            },
        ensures
            final(self).wf(),
            final(self).delivered@ == old(self).delivered@,
            final(self).pending_spec().len() >= old(self).pending_spec().len(),
            final(self).fed@ == old(self).fed@,
            old(self).content@.is_prefix_of(final(self).content@),
            r is Ok ==> final(self).stage != Stage::Failed,
            r is Ok && old(self).stage == Stage::BlockData ==> final(self).content@ == old(
                self,
            ).content@ + (if block_stored(old(self).word) {
                old(self).got@.take(block_len(old(self).word))
            } else {
                lz4_unblock(
                    old(self).got@.take(block_len(old(self).word)),
                    dict_for(mode_of(old(self).info), old(self).content@),
                )
            }),
            r is Ok && old(self).stage == Stage::Trailer ==> from_le32(
                old(self).got@[0],
                old(self).got@[1],
                old(self).got@[2],
                old(self).got@[3],
            ) == xxh32_spec(0, final(self).content@),
            r is Ok && old(self).stage != Stage::BlockData ==> final(self).content@ == old(
                self,
            ).content@,
            r is Err ==> final(self).stage == Stage::Failed && r->Err_0 is Codec,
    {
        match self.stage {
            Stage::Header => {
                let magic: u32 = read_le32(self.got[0], self.got[1], self.got[2], self.got[3]);
                if 0x184D2A50u32 <= magic && magic <= 0x184D2A5Fu32 {
                    // A skippable frame: its size word is already collected;
                    // skim the announced body, then expect a frame again.
                    let skip: u32 = read_le32(self.got[4], self.got[5], self.got[6], self.got[7]);
                    self.got.clear();
                    if skip == 0 {
                        self.stage = Stage::Header;
                        return Ok(());
                    }
                    self.word = skip;
                    self.stage = Stage::SkipBody;
                    return Ok(());
                }
                if !(self.got[0] == 4 && self.got[1] == 34 && self.got[2] == 77 && self.got[3]
                    == 24) {
                    self.stage = Stage::Failed;
                    self.fault = Fault::WrongMagic;
                    return Err(Error::Codec(Fault::WrongMagic));
                }
                let flg: u8 = self.got[4];
                let bd: u8 = self.got[5];
                if flg & 0xC0 != 0x40 {
                    self.stage = Stage::Failed;
                    self.fault = Fault::UnsupportedVersion;
                    return Err(Error::Codec(Fault::UnsupportedVersion));
                }
                if flg & 0x02 != 0 || bd & 0x8F != 0 {
                    self.stage = Stage::Failed;
                    self.fault = Fault::ReservedBitsSet;
                    return Err(Error::Codec(Fault::ReservedBitsSet));
                }
                let bsid: u8 = bd / 16;
                let block_size_id: BlockSize = if bsid == 4 {
                    BlockSize::Max64KB
                } else if bsid == 5 {
                    BlockSize::Max256KB
                } else if bsid == 6 {
                    BlockSize::Max1MB
                } else if bsid == 7 {
                    BlockSize::Max4MB
                } else {
                    self.stage = Stage::Failed;
                    self.fault = Fault::UnsupportedBlockSize;
                    return Err(Error::Codec(Fault::UnsupportedBlockSize));
                };
                let hc_pos: usize = self.got.len() - 1;
                let sum: u32 = xxh32(
                    0,
                    vstd::slice::slice_subrange(self.got.as_slice(), 4, hc_pos),
                );
                if ((sum / 256) % 256) as u8 != self.got[hc_pos] {
                    self.stage = Stage::Failed;
                    self.fault = Fault::HeaderChecksumMismatch;
                    return Err(Error::Codec(Fault::HeaderChecksumMismatch));
                }
                let content_size: u64 = if flg & 8 != 0 {
                    let lo: u32 = read_le32(self.got[6], self.got[7], self.got[8], self.got[9]);
                    let hi: u32 = read_le32(self.got[10], self.got[11], self.got[12], self.got[13]);
                    (lo as u64) + (hi as u64) * 4294967296u64
                } else {
                    0u64
                };
                let dict_off: usize = if flg & 8 != 0 {
                    14
                } else {
                    6
                };
                let dict_id: u32 = if flg & 1 != 0 {
                    read_le32(
                        self.got[dict_off],
                        self.got[dict_off + 1],
                        self.got[dict_off + 2],
                        self.got[dict_off + 3],
                    )
                } else {
                    0u32
                };
                let info = LZ4FFrameInfo {
                    block_size_id,
                    block_mode: if flg & 0x20 != 0 {
                        BlockMode::Independent
                    } else {
                        BlockMode::Linked
                    },
                    content_checksum_flag: if flg & 4 != 0 {
                        ContentChecksum::ChecksumEnabled
                    } else {
                        ContentChecksum::NoChecksum
                    },
                    frame_type: LZ4FrameType::LZ4Frame,
                    content_size,
                    dict_id,
                    block_checksum_flag: if flg & 0x10 != 0 {
                        BlockChecksum::ChecksumEnabled
                    } else {
                        BlockChecksum::NoChecksum
                    },
                };
                self.limit = block_size_id.bytes();
                self.info = Some(info);
                self.has_size = flg & 8 != 0;
                self.declared = content_size;
                self.got.clear();
                self.stage = Stage::BlockInfo;
                proof {
                    assert(window(Seq::<u8>::empty()) =~= Seq::<u8>::empty());
                }
                Ok(())
            },
            Stage::BlockInfo => {
                let word: u32 = read_le32(self.got[0], self.got[1], self.got[2], self.got[3]);
                self.got.clear();
                if word == 0 {
                    if self.has_size && (self.declared != 0 || self.oversize) {
                        self.stage = Stage::Failed;
                        self.fault = Fault::ContentSizeMismatch;
                        return Err(Error::Codec(Fault::ContentSizeMismatch));
                    }
                    let cc: bool = match &self.info {
                        Option::Some(i) => matches!(
                            i.content_checksum_flag,
                            ContentChecksum::ChecksumEnabled
                        ),
                        Option::None => false,
                    };
                    if cc {
                        self.stage = Stage::Trailer;
                    } else {
                        self.stage = Stage::Done;
                    }
                    return Ok(());
                }
                let size: u32 = word % 0x80000000u32;
                if size as usize > self.limit {
                    self.stage = Stage::Failed;
                    self.fault = Fault::BlockTooLarge;
                    return Err(Error::Codec(Fault::BlockTooLarge));
                }
                let bc: bool = match &self.info {
                    Option::Some(i) => matches!(i.block_checksum_flag, BlockChecksum::ChecksumEnabled),
                    Option::None => false,
                };
                if size == 0 && !bc {
                    // An empty stored block: nothing to collect, nothing
                    // decoded; the next block-info word follows directly.
                    return Ok(());
                }
                self.word = word;
                self.stage = Stage::BlockData;
                Ok(())
            },
            Stage::BlockData => {
                let size: usize = (self.word % 0x80000000u32) as usize;
                let bc: bool = match &self.info {
                    Option::Some(i) => matches!(i.block_checksum_flag, BlockChecksum::ChecksumEnabled),
                    Option::None => false,
                };
                if bc {
                    let expect: u32 = read_le32(
                        self.got[size],
                        self.got[size + 1],
                        self.got[size + 2],
                        self.got[size + 3],
                    );
                    let actual: u32 = xxh32(
                        0,
                        vstd::slice::slice_subrange(self.got.as_slice(), 0, size),
                    );
                    if actual != expect {
                        self.stage = Stage::Failed;
                        self.fault = Fault::BlockChecksumMismatch;
                        return Err(Error::Codec(Fault::BlockChecksumMismatch));
                    }
                }
                let decoded: Vec<u8> = if self.word >= 0x80000000u32 {
                    vstd::slice::slice_to_vec(
                        vstd::slice::slice_subrange(self.got.as_slice(), 0, size),
                    )
                } else {
                    let res = decompress_block(
                        vstd::slice::slice_subrange(self.got.as_slice(), 0, size),
                        self.history.as_slice(),
                        self.limit,
                    );
                    match res {
                        Ok(v) => v,
                        Err(f) => {
                            self.stage = Stage::Failed;
                            self.fault = f;
                            return Err(Error::Codec(f));
                        },
                    }
                };
                let ghost content0 = self.content@;
                proof {
                    assert(self.got@.subrange(0, block_len(self.word)) =~= self.got@.take(
                        block_len(self.word),
                    ));
                    match self.info {
                        Option::Some(i) => {
                            if i.block_mode == BlockMode::Linked {
                                assert(self.history@ == dict_for(mode_of(self.info), content0));
                            } else {
                                assert(self.history@ == dict_for(mode_of(self.info), content0));
                            }
                        },
                        Option::None => {},
                    }
                }
                let (cc, linked): (bool, bool) = match &self.info {
                    Option::Some(i) => (
                        matches!(i.content_checksum_flag, ContentChecksum::ChecksumEnabled),
                        matches!(i.block_mode, BlockMode::Linked),
                    ),
                    Option::None => (false, false),
                };
                if cc {
                    hasher_push(&mut self.hasher, decoded.as_slice());
                }
                if linked {
                    push_slice(&mut self.history, decoded.as_slice());
                    shrink_to_window(&mut self.history);
                    proof {
                        crate::frame::lemma_window_extend(content0, decoded@);
                    }
                }
                if self.has_size {
                    if decoded.len() as u64 <= self.declared {
                        self.declared = self.declared - decoded.len() as u64;
                    } else {
                        self.declared = 0;
                        self.oversize = true;
                    }
                }
                push_slice(&mut self.out, decoded.as_slice());
                self.content = Ghost(self.content@ + decoded@);
                self.got.clear();
                self.stage = Stage::BlockInfo;
                proof {
                    assert(self.out@.skip(self.out_pos as int) =~= old(self).out@.skip(
                        self.out_pos as int,
                    ) + decoded@);
                    assert(self.content@ =~= self.delivered@ + self.out@.skip(self.out_pos as int));
                }
                Ok(())
            },
            Stage::Trailer => {
                let expect: u32 = read_le32(self.got[0], self.got[1], self.got[2], self.got[3]);
                let actual: u32 = hasher_sum(&self.hasher);
                self.got.clear();
                if actual != expect {
                    self.stage = Stage::Failed;
                    self.fault = Fault::ContentChecksumMismatch;
                    return Err(Error::Codec(Fault::ContentChecksumMismatch));
                }
                self.stage = Stage::Done;
                Ok(())
            },
            Stage::SkipBody => Ok(()),
            Stage::Done => Ok(()),
            Stage::Failed => Ok(()),
        }
    }

    /// Whether the current stage has collected everything it needs.
    fn ready(&self) -> (r: bool)
        ensures
            r == (self.got@.len() == self.stage_total()),
    {
        match self.stage {
            Stage::Header => {
                if self.got.len() >= 4 {
                    let magic: u32 = read_le32(self.got[0], self.got[1], self.got[2], self.got[3]);
                    if 0x184D2A50u32 <= magic && magic <= 0x184D2A5Fu32 {
                        return self.got.len() == 8;
                    }
                }
                if self.got.len() < 7 {
                    false
                } else {
                    let flg: u8 = self.got[4];
                    let extra: usize = (if flg & 8 != 0 {
                        8usize
                    } else {
                        0usize
                    }) + (if flg & 1 != 0 {
                        4usize
                    } else {
                        0usize
                    });
                    self.got.len() == 7 + extra
                }
            },
            Stage::BlockInfo => self.got.len() == 4,
            Stage::BlockData => {
                let bc: bool = match &self.info {
                    Option::Some(i) => matches!(i.block_checksum_flag, BlockChecksum::ChecksumEnabled),
                    Option::None => false,
                };
                let total: usize = (self.word % 0x80000000u32) as usize + (if bc {
                    4usize
                } else {
                    0usize
                });
                self.got.len() == total
            },
            Stage::Trailer => self.got.len() == 4,
            Stage::SkipBody => self.got.len() == self.word as usize,
            Stage::Done => self.got.len() == 0,
            Stage::Failed => self.got.len() == 0,
        }
    }

    /// Feeds freshly pulled stream bytes through the machine, decoding every
    /// item they complete, then hands out up to `room` decoded bytes. Bytes
    /// fed past the end of the frame are ignored.
    pub fn advance(&mut self, chunk: &[u8], room: usize) -> (r: Result<Vec<u8>, Error>)
        requires
            old(self).wf(),
        ensures
            final(self).wf(),
            old(self).content@.is_prefix_of(final(self).content@),
            r matches Ok(v) ==> v@.len() <= room && final(self).delivered@ == old(
                self,
            ).delivered@ + v@,
            r is Ok ==> final(self).stage != Stage::Failed || old(self).stage == Stage::Failed,
            r is Ok ==> final(self).fed@.len() <= old(self).fed@.len() + chunk@.len()
                && final(self).fed@ == old(self).fed@ + chunk@.take(
                final(self).fed@.len() - old(self).fed@.len(),
            ),
            r is Ok && chunk@.len() <= old(self).needed_spec() ==> final(self).fed@ == old(
                self,
            ).fed@ + chunk@,
            r matches Ok(v) ==> (v@.len() == 0 && room > 0 ==> final(self).pending_spec().len()
                == 0),
            r is Err ==> final(self).delivered@ == old(self).delivered@ && r->Err_0 is Codec
                && final(self).stage == Stage::Failed,
    {
        if matches!(self.stage, Stage::Failed) {
            let f: Fault = self.fault;
            return Err(Error::Codec(f));
        }
        proof {
            assert(self.fed@ =~= old(self).fed@ + chunk@.take(0));
        }
        let mut i: usize = 0;
        while i < chunk.len()
            invariant
                i <= chunk@.len(),
                self.wf(),
                self.stage != Stage::Failed,
                self.delivered@ == old(self).delivered@,
                old(self).content@.is_prefix_of(self.content@),
                self.fed@ == old(self).fed@ + chunk@.take(i as int),
                chunk@.len() <= old(self).needed_spec() ==> self.needed_spec() >= chunk@.len()
                    - i,
            ensures
                chunk@.len() <= old(self).needed_spec() ==> i == chunk@.len(),
            decreases chunk@.len() - i,
        {
            let need: usize = self.needed();
            if need == 0 {
                break ;
            }
            let avail: usize = chunk.len() - i;
            let take: usize = if need < avail {
                need
            } else {
                avail
            };
            if matches!(self.stage, Stage::SkipBody) {
                // Skimmed bytes are consumed and dropped, never buffered.
                self.fed = Ghost(self.fed@ + chunk@.subrange(i as int, i + take));
                let ghost i0 = i as int;
                i = i + take;
                let remaining: usize = self.word as usize;
                if take == remaining {
                    self.word = 0;
                    self.stage = Stage::Header;
                } else {
                    self.word = (remaining - take) as u32;
                }
                proof {
                    assert(chunk@.take(i as int) =~= chunk@.take(i0) + chunk@.subrange(
                        i0,
                        i0 + take,
                    ));
                    assert(self.fed@ =~= old(self).fed@ + chunk@.take(i as int));
                    assert(self.needed_spec() >= 0);
                }
                continue ;
            }
            push_slice(&mut self.got, vstd::slice::slice_subrange(chunk, i, i + take));
            self.fed = Ghost(self.fed@ + chunk@.subrange(i as int, i + take));
            let ghost i0 = i as int;
            i = i + take;
            proof {
                assert(chunk@.take(i as int) =~= chunk@.take(i0) + chunk@.subrange(
                    i0,
                    i0 + take,
                ));
                assert(self.fed@ =~= old(self).fed@ + chunk@.take(i as int));
            }
            if self.ready() {
                match self.complete_stage() {
                    Ok(()) => {},
                    Err(e) => {
                        return Err(e);
                    },
                }
            }
            proof {
                assert(self.needed_spec() >= 0) by {
                    match self.stage {
                        Stage::Header => {
                            assert(self.got@.len() < header_total(self.got@));
                        },
                        _ => {},
                    }
                }
            }
        }
        proof {
            assert(old(self).fed@.is_prefix_of(self.fed@)) by {
                assert(self.fed@.take(old(self).fed@.len() as int) =~= old(self).fed@);
            }
            if chunk@.len() <= old(self).needed_spec() {
                assert(i == chunk@.len());
                assert(chunk@.take(chunk@.len() as int) =~= chunk@);
            }
        }
        let v = self.take_output(room);
        Ok(v)
    }
}

/// A decompressing source over an owned in-memory compressed stream.
pub struct Decoder {
    pub inner: FrameReader,
    pub source: Vec<u8>,
    pub spos: usize,
}

impl Decoder {
    pub open spec fn wf(self) -> bool {
        self.inner.wf() && self.spos <= self.source@.len()
    }

    /// Wraps an in-memory compressed stream for incremental decoding.
    pub fn new(source: Vec<u8>) -> (r: Result<Decoder, Error>)
        ensures
            r is Ok,
            r->Ok_0.wf(),
            r->Ok_0.source@ == source@,
            r->Ok_0.spos == 0,
            r->Ok_0.inner.delivered@ == Seq::<u8>::empty(),
            r->Ok_0.inner.stage == Stage::Header,
            r->Ok_0.inner.pending_spec() == Seq::<u8>::empty(),
    {
        Ok(Decoder { inner: FrameReader::new(), source, spos: 0 })
    }

    /// Reads up to `room` decoded bytes. Pulls from the stream only what the
    /// machine says it needs, and keeps pulling until it can hand out at
    /// least one byte, the frame ends, or the stream runs dry. A stream that
    /// runs dry early is truncation: the call returns what was decoded, and
    /// only a later `finish` reports the damage. A zero-length read is a
    /// no-op that touches neither the stream nor the codec.
    pub fn read(&mut self, room: usize) -> (r: Result<Vec<u8>, Error>)
        requires
            old(self).wf(),
        ensures
            final(self).wf(),
            final(self).source@ == old(self).source@,
            final(self).spos >= old(self).spos,
            room == 0 ==> r is Ok && r->Ok_0@ == Seq::<u8>::empty() && *final(self) == *old(self),
            old(self).inner.needed_spec() == 0 && old(self).inner.pending_spec().len() == 0
                ==> r is Ok && r->Ok_0@ == Seq::<u8>::empty() && *final(self) == *old(self),
            old(self).inner.needed_spec() == 0 ==> final(self).spos == old(self).spos,
            r is Ok ==> final(self).inner.fed@ == old(self).inner.fed@ + old(
                self,
            ).source@.subrange(old(self).spos as int, final(self).spos as int),
            r matches Ok(v) ==> v@.len() <= room && final(self).inner.delivered@ == old(
                self,
            ).inner.delivered@ + v@,
            r matches Ok(v) ==> (v@.len() > 0 ==> (final(self).spos > old(self).spos
                || (final(self).spos == old(self).spos
                && final(self).inner.pending_spec().len() < old(self).inner.pending_spec().len()))),
            final(self).spos == old(self).spos ==> final(self).inner.pending_spec().len() <= old(
                self,
            ).inner.pending_spec().len(),
            old(self).inner.content@.is_prefix_of(final(self).inner.content@),
            old(self).spos == old(self).source@.len() ==> r is Ok,
            r matches Ok(v) ==> (v@.len() == 0 && room > 0 ==> final(self).inner.stage
                == Stage::Done || final(self).spos == final(self).source@.len()),
            r is Err ==> r->Err_0 is Codec && final(self).inner.stage == Stage::Failed,
    {
        if room == 0 {
            proof {
                assert(self.inner.fed@ =~= self.inner.fed@ + self.source@.subrange(
                    self.spos as int,
                    self.spos as int,
                ));
            }
            return Ok(Vec::new());
        }
        if self.inner.needed() == 0 && self.inner.pending_len() == 0 {
            proof {
                assert(self.inner.fed@ =~= self.inner.fed@ + self.source@.subrange(
                    self.spos as int,
                    self.spos as int,
                ));
            }
            return Ok(Vec::new());
        }
        let mut got = self.inner.take_output(room);
        proof {
            assert(self.inner.fed@ =~= old(self).inner.fed@ + old(self).source@.subrange(
                old(self).spos as int,
                self.spos as int,
            ));
        }
        if got.len() > 0 {
            return Ok(got);
        }
        while got.len() == 0
            invariant
                room > 0,
                !(old(self).inner.needed_spec() == 0 && old(self).inner.pending_spec().len()
                    == 0),
                old(self).inner.needed_spec() == 0 ==> self.spos == old(self).spos
                    && self.inner.needed_spec() == 0,
                self.wf(),
                self.source@ == old(self).source@,
                self.spos >= old(self).spos,
                old(self).inner.content@.is_prefix_of(self.inner.content@),
                self.inner.fed@ == old(self).inner.fed@ + old(self).source@.subrange(
                    old(self).spos as int,
                    self.spos as int,
                ),
                got@.len() <= room,
                self.inner.delivered@ == old(self).inner.delivered@ + got@,
                got@.len() > 0 ==> self.spos > old(self).spos,
                self.spos == old(self).spos ==> self.inner.pending_spec().len() <= old(
                    self,
                ).inner.pending_spec().len(),
            ensures
                got@.len() == 0 ==> self.inner.stage == Stage::Done || self.spos
                    == self.source@.len(),
            decreases self.source@.len() - self.spos,
        {
            let need: usize = self.inner.needed();
            if need == 0 {
                break ;
            }
            let remaining: usize = self.source.len() - self.spos;
            let mut n: usize = if need < remaining {
                need
            } else {
                remaining
            };
            // One read-ahead pull is bounded, however large the need.
            if n > 32768 {
                n = 32768;
            }
            if n == 0 {
                break ;
            }
            let ghost spos0 = self.spos as int;
            let chunk = vstd::slice::slice_to_vec(
                vstd::slice::slice_subrange(self.source.as_slice(), self.spos, self.spos + n),
            );
            self.spos = self.spos + n;
            got = match self.inner.advance(chunk.as_slice(), room) {
                Ok(v) => v,
                Err(e) => {
                    return Err(e);
                },
            };
            proof {
                assert(old(self).source@.subrange(old(self).spos as int, self.spos as int)
                    =~= old(self).source@.subrange(old(self).spos as int, spos0)
                    + old(self).source@.subrange(spos0, self.spos as int));
                assert(self.inner.fed@ =~= old(self).inner.fed@ + old(self).source@.subrange(
                    old(self).spos as int,
                    self.spos as int,
                ));
            }
        }
        Ok(got)
    }

    /// Hands the underlying stream back, but only when the frame was read to
    /// its logical end; otherwise the stream was abandoned early or
    /// truncated, and the call fails.
    pub fn finish(self) -> (r: Result<Vec<u8>, Error>)
        ensures
            r is Ok <==> self.inner.stage == Stage::Done,
            r matches Ok(v) ==> v@ == self.source@,
            r is Err ==> r->Err_0 == Error::IncompleteStream,
    {
        if matches!(self.inner.stage, Stage::Done) {
            Ok(self.source)
        } else {
            Err(Error::IncompleteStream)
        }
    }

    /// Decodes the whole stream: drives `read` to exhaustion and returns the
    /// accumulated bytes. Truncation ends the output silently, as repeated
    /// reads would.
    pub fn decode(self) -> (r: Result<Vec<u8>, Error>)
        requires
            self.wf(),
        ensures
            r is Err ==> r->Err_0 is Codec,
    {
        let mut me = self;
        let mut acc: Vec<u8> = Vec::new();
        let mut done: bool = false;
        while !done
            invariant
                me.wf(),
            decreases me.source@.len() - me.spos, me.inner.pending_spec().len(), if done { 0int } else { 1int },
        {
            let got = match me.read(65536) {
                Ok(v) => v,
                Err(e) => {
                    return Err(e);
                },
            };
            if got.len() == 0 {
                done = true;
            } else {
                push_slice(&mut acc, got.as_slice());
            }
        }
        Ok(acc)
    }
}

/// Whole-buffer decompression for byte containers.
pub trait Decode {
    /// Decodes the receiver as one complete frame. A failure is always a
    /// codec fault; truncation ends the output silently instead.
    fn decode(&self) -> (r: Result<Vec<u8>, Error>)
        ensures
            r is Err ==> r->Err_0 is Codec,
    ;
}

impl Decode for Vec<u8> {
    fn decode(&self) -> (r: Result<Vec<u8>, Error>) {
        let copy: Vec<u8> = vstd::slice::slice_to_vec(self.as_slice());
        let dec = match Decoder::new(copy) {
            Ok(d) => d,
            Err(e) => {
                return Err(e);
            },
        };
        dec.decode()
    }
}

} // verus!
