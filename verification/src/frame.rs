//! The wire layout of a frame: little-endian words, the frame descriptor and
//! its checksum byte.

use vstd::prelude::*;

use crate::codec::xxh32;
use crate::codec::xxh32_spec;
use crate::config::BlockMode;
use crate::config::BlockSize;
use crate::config::ContentChecksum;

verus! {

/// The little-endian encoding of a 32-bit word.
pub open spec fn le32(x: u32) -> Seq<u8> {
    seq![
        (x % 256) as u8,
        ((x / 256) % 256) as u8,
        ((x / 65536) % 256) as u8,
        ((x / 16777216) % 256) as u8,
    ]
}

/// The 32-bit word four little-endian bytes stand for.
pub open spec fn from_le32(b0: u8, b1: u8, b2: u8, b3: u8) -> u32 {
    (b0 + b1 * 256 + b2 * 65536 + b3 * 16777216) as u32
}

/// Reading back the four bytes a word was encoded to yields the word: the
/// block-size words a frame writer emits mean the same to a frame reader.
pub proof fn lemma_le32_inverse(x: u32)
    ensures
        from_le32(le32(x)[0], le32(x)[1], le32(x)[2], le32(x)[3]) == x,
{
    assert((x % 256) + ((x / 256) % 256) * 256 + ((x / 65536) % 256) * 65536 + ((x / 16777216)
        % 256) * 16777216 == x) by (bit_vector);
}

/// The flag byte of a frame descriptor: version bits, block independence and
/// content-checksum enablement.
pub open spec fn flg_byte(mode: BlockMode, check: ContentChecksum) -> u8 {
    (0x40 + (if mode == BlockMode::Independent {
        0x20int
    } else {
        0int
    }) + (if check == ContentChecksum::ChecksumEnabled {
        0x04int
    } else {
        0int
    })) as u8
}

/// The block-descriptor byte: the block-size class identifier in bits 4 to 6.
pub open spec fn bd_byte(bs: BlockSize) -> u8 {
    (bs.id_spec() * 16) as u8
}

/// The descriptor checksum: the second byte of the xxHash of the descriptor.
pub open spec fn hc_byte(flg: u8, bd: u8) -> u8 {
    ((xxh32_spec(0, seq![flg, bd]) / 256) % 256) as u8
}

/// The complete seven-byte frame header a configuration produces: magic
/// number, flag byte, block-descriptor byte and descriptor checksum.
pub open spec fn header_bytes(bs: BlockSize, mode: BlockMode, check: ContentChecksum) -> Seq<u8> {
    seq![4u8, 34u8, 77u8, 24u8, flg_byte(mode, check), bd_byte(bs), hc_byte(
        flg_byte(mode, check),
        bd_byte(bs),
    )]
}

/// Appends the little-endian encoding of a word to a byte vector.
pub fn le32_push(out: &mut Vec<u8>, x: u32)
    ensures
        final(out)@ == old(out)@ + le32(x),
{
    out.push((x % 256) as u8);
    out.push(((x / 256) % 256) as u8);
    out.push(((x / 65536) % 256) as u8);
    out.push(((x / 16777216) % 256) as u8);
    assert(out@ =~= old(out)@ + le32(x));
}

/// Reads the word four little-endian bytes stand for.
pub fn read_le32(b0: u8, b1: u8, b2: u8, b3: u8) -> (r: u32)
    ensures
        r == from_le32(b0, b1, b2, b3),
{
    (b0 as u32) + (b1 as u32) * 256 + (b2 as u32) * 65536 + (b3 as u32) * 16777216
}

/// Builds the seven-byte frame header for a configuration.
pub fn write_header(bs: &BlockSize, mode: &BlockMode, check: &ContentChecksum) -> (r: Vec<u8>)
    ensures
        r@ == header_bytes(*bs, *mode, *check),
{
    let flg: u8 = descriptor_flg(mode, check);
    let bd: u8 = bs.id() * 16;
    let mut desc: Vec<u8> = Vec::new();
    desc.push(flg);
    desc.push(bd);
    assert(desc@ =~= seq![flg, bd]);
    let sum: u32 = xxh32(0, desc.as_slice());
    let hc: u8 = ((sum / 256) % 256) as u8;
    let mut out: Vec<u8> = Vec::new();
    out.push(4);
    out.push(34);
    out.push(77);
    out.push(24);
    out.push(flg);
    out.push(bd);
    out.push(hc);
    assert(out@ =~= header_bytes(*bs, *mode, *check));
    out
}

/// The dictionary a block is coded against: the window of everything that
/// came before it in the content when blocks are linked, nothing when they
/// are independent.
pub open spec fn dict_for(mode: crate::config::BlockMode, prior: Seq<u8>) -> Seq<u8> {
    if mode == crate::config::BlockMode::Linked {
        window(prior)
    } else {
        Seq::<u8>::empty()
    }
}

/// The trailing part of a byte sequence that linked blocks may reference:
/// the last 64 KiB, or everything when the sequence is shorter.
pub open spec fn window(s: Seq<u8>) -> Seq<u8> {
    if s.len() <= 65536 {
        s
    } else {
        s.subrange(s.len() - 65536, s.len() as int)
    }
}

/// Extending a sequence moves its window as if the whole prefix were kept.
pub proof fn lemma_window_extend(a: Seq<u8>, b: Seq<u8>)
    ensures
        window(window(a) + b) == window(a + b),
{
    if a.len() <= 65536 {
        assert(window(a) + b =~= a + b);
    } else {
        let w = window(a) + b;
        let full = a + b;
        assert(w.len() == 65536 + b.len());
        if w.len() <= 65536 {
            assert(b.len() == 0);
            assert(w =~= window(full));
        } else {
            assert(window(w) =~= window(full));
        }
    }
}

/// Appends a copy of a byte slice to a vector.
pub fn push_slice(dst: &mut Vec<u8>, src: &[u8])
    ensures
        final(dst)@ == old(dst)@ + src@,
{
    let mut i: usize = 0;
    while i < src.len()
        invariant
            i <= src@.len(),
            dst@ == old(dst)@ + src@.subrange(0, i as int),
        decreases src@.len() - i,
    {
        let b: u8 = *vstd::slice::slice_index_get(src, i);
        dst.push(b);
        i = i + 1;
        assert(dst@ =~= old(dst)@ + src@.subrange(0, i as int));
    }
    assert(src@.subrange(0, src@.len() as int) =~= src@);
}

/// Keeps only the last 64 KiB of a vector, in place.
pub fn shrink_to_window(v: &mut Vec<u8>)
    ensures
        final(v)@ == window(old(v)@),
{
    if v.len() > 65536 {
        let start: usize = v.len() - 65536;
        let tail: Vec<u8> = vstd::slice::slice_to_vec(
            vstd::slice::slice_subrange(v.as_slice(), start, v.len()),
        );
        *v = tail;
    }
}

/// Builds the flag byte for a configuration.
pub fn descriptor_flg(mode: &BlockMode, check: &ContentChecksum) -> (r: u8)
    ensures
        r == flg_byte(*mode, *check),
{
    let mut flg: u8 = 0x40;
    if matches!(mode, BlockMode::Independent) {
        flg = flg + 0x20;
    }
    if matches!(check, ContentChecksum::ChecksumEnabled) {
        flg = flg + 0x04;
    }
    flg
}

} // verus!
