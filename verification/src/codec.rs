//! The outside codec capabilities this library is built on: raw LZ4 block
//! compression and the 32-bit xxHash function. Everything here is trusted;
//! the streaming logic of the rest of the crate is verified against these
//! contracts.

use vstd::prelude::*;

use crate::error::Fault;

verus! {

/// What LZ4 block compression produces for a payload and a dictionary. The
/// result depends on the two arguments alone.
pub uninterp spec fn lz4_block(src: Seq<u8>, dict: Seq<u8>) -> Seq<u8>;

/// Whether a byte sequence is a well-formed LZ4 block against a dictionary.
pub uninterp spec fn lz4_unblock_ok(data: Seq<u8>, dict: Seq<u8>) -> bool;

/// What decoding a well-formed LZ4 block against a dictionary yields.
pub uninterp spec fn lz4_unblock(data: Seq<u8>, dict: Seq<u8>) -> Seq<u8>;

/// The 32-bit xxHash of a byte sequence under a seed.
pub uninterp spec fn xxh32_spec(seed: u32, data: Seq<u8>) -> u32;

/// The bytes fed so far to a running 32-bit xxHash state that was created
/// with seed zero. The state is opaque; this names what it has absorbed, as
/// one names the contents of an outside collection. The clauses below hold
/// of seed-zero states only: every state this crate reasons about comes from
/// `hasher_new`, and a state obtained any other way (for example written
/// directly into a machine's public field) would void them.
pub uninterp spec fn hasher_bytes(h: twox_hash::XxHash32) -> Seq<u8>;

#[verifier::external_type_specification]
#[verifier::external_body]
pub struct ExXxHash32(twox_hash::XxHash32);

/// Relies on lz4_flex::block::compress_with_dict: deterministic LZ4 block
/// compression whose output decodes back to its input under the same
/// dictionary (the crate's documented round-trip guarantee), and which emits
/// at least one byte for a non-empty input.
#[verifier::external_body]
pub(crate) fn compress_block(src: &[u8], dict: &[u8]) -> (r: Vec<u8>)
    ensures
        r@ == lz4_block(src@, dict@),
        src@.len() > 0 ==> r@.len() > 0,
        lz4_unblock_ok(r@, dict@),
        lz4_unblock(r@, dict@) == src@,
{
    lz4_flex::block::compress_with_dict(src, dict)
}

/// Relies on lz4_flex::block::decompress_into_with_dict: decodes a whole LZ4
/// block against a dictionary, writing at most the room made available, and
/// fails exactly when the block is malformed or its payload does not fit.
#[verifier::external_body]
pub(crate) fn decompress_block(data: &[u8], dict: &[u8], max_out: usize) -> (r: Result<Vec<u8>, Fault>)
    ensures
        lz4_unblock_ok(data@, dict@) && lz4_unblock(data@, dict@).len() <= max_out ==> r is Ok,
        r is Ok ==> r->Ok_0@ == lz4_unblock(data@, dict@) && lz4_unblock_ok(data@, dict@)
            && lz4_unblock(data@, dict@).len() <= max_out,
        r is Err ==> r->Err_0 == Fault::CorruptBlock,
{
    let mut buf = vec![0u8; max_out];
    match lz4_flex::block::decompress_into_with_dict(data, &mut buf, dict) {
        Ok(n) => {
            buf.truncate(n);
            Ok(buf)
        },
        Err(_) => Err(Fault::CorruptBlock),
    }
}

/// Relies on twox_hash::XxHash32::oneshot: the 32-bit xxHash of the data,
/// a function of the seed and the bytes alone.
#[verifier::external_body]
pub(crate) fn xxh32(seed: u32, data: &[u8]) -> (r: u32)
    ensures
        r == xxh32_spec(seed, data@),
{
    twox_hash::XxHash32::oneshot(seed, data)
}

/// Relies on twox_hash::XxHash32::with_seed: a fresh hash state that has
/// absorbed nothing. This crate only ever creates states with seed zero, so
/// `hasher_bytes` speaks of seed-zero states alone.
#[verifier::external_body]
pub(crate) fn hasher_new() -> (r: twox_hash::XxHash32)
    ensures
        hasher_bytes(r) == Seq::<u8>::empty(),
{
    twox_hash::XxHash32::with_seed(0)
}

/// Relies on std::hash::Hasher::write for twox_hash::XxHash32: absorbs the
/// given bytes after everything absorbed before.
#[verifier::external_body]
pub(crate) fn hasher_push(h: &mut twox_hash::XxHash32, data: &[u8])
    ensures
        hasher_bytes(*final(h)) == hasher_bytes(*old(h)) + data@,
{
    std::hash::Hasher::write(h, data)
}

/// Relies on twox_hash::XxHash32::finish_32: the streamed hash equals the
/// one-shot hash of everything absorbed, under the state's seed.
#[verifier::external_body]
pub(crate) fn hasher_sum(h: &twox_hash::XxHash32) -> (r: u32)
    ensures
        r == xxh32_spec(0, hasher_bytes(*h)),
{
    h.finish_32()
}

} // verus!
