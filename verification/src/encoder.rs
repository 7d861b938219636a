//! The compressing sink: a builder for its configuration, a frame-writing
//! state machine that turns arbitrary byte writes into frame blocks, and a
//! sink object that collects the frame into an owned byte vector.

use vstd::prelude::*;

use crate::codec::compress_block;
use crate::codec::hasher_bytes;
use crate::codec::hasher_new;
use crate::codec::hasher_push;
use crate::codec::hasher_sum;
use crate::codec::lz4_block;
use crate::codec::xxh32_spec;
use crate::config::BlockMode;
use crate::config::BlockSize;
use crate::config::ContentChecksum;
use crate::error::Error;
use crate::frame::dict_for;
use crate::frame::header_bytes;
use crate::frame::le32;
use crate::frame::le32_push;
use crate::frame::lemma_window_extend;
use crate::frame::push_slice;
use crate::frame::shrink_to_window;
use crate::frame::window;
use crate::frame::write_header;

verus! {

/// The bytes one block contributes to the stream: a four-byte size word and
/// the payload, stored uncompressed whenever compression does not shrink it.
pub open spec fn encoded_block(mode: BlockMode, data: Seq<u8>, prior: Seq<u8>) -> Seq<u8> {
    let c = lz4_block(data, dict_for(mode, prior));
    if c.len() >= data.len() {
        le32((0x80000000 + data.len()) as u32) + data
    } else {
        le32(c.len() as u32) + c
    }
}

/// The block bytes produced for `rest`, cut into blocks of at most `limit`
/// bytes, after `prior` has already been emitted.
pub open spec fn body_from(mode: BlockMode, prior: Seq<u8>, rest: Seq<u8>, limit: int) -> Seq<u8>
    decreases rest.len(),
{
    if limit <= 0 || rest.len() == 0 {
        Seq::<u8>::empty()
    } else {
        let k: int = if rest.len() <= limit {
            rest.len() as int
        } else {
            limit
        };
        encoded_block(mode, rest.take(k), prior) + body_from(
            mode,
            prior + rest.take(k),
            rest.skip(k),
            limit,
        )
    }
}

/// The end of a frame: the end mark, then the content checksum when enabled.
pub open spec fn footer_bytes(check: ContentChecksum, content: Seq<u8>) -> Seq<u8> {
    le32(0) + if check == ContentChecksum::ChecksumEnabled {
        le32(xxh32_spec(0, content))
    } else {
        Seq::<u8>::empty()
    }
}

/// The whole frame a configuration produces for a content, when the content
/// is cut at block boundaries alone.
pub open spec fn encoded_stream(
    bs: BlockSize,
    mode: BlockMode,
    check: ContentChecksum,
    content: Seq<u8>,
) -> Seq<u8> {
    header_bytes(bs, mode, check) + body_from(mode, Seq::<u8>::empty(), content, bs.bytes_spec())
        + footer_bytes(check, content)
}

/// Cutting a content at a block-aligned point cuts its stream of blocks at
/// the corresponding point.
pub proof fn lemma_body_append(mode: BlockMode, a: Seq<u8>, b: Seq<u8>, limit: int)
    requires
        limit >= 1,
        a.len() as int % limit == 0,
    ensures
        body_from(mode, Seq::<u8>::empty(), a + b, limit) == body_from(
            mode,
            Seq::<u8>::empty(),
            a,
            limit,
        ) + body_from(mode, a, b, limit),
    decreases a.len(),
{
    lemma_body_append_from(mode, Seq::<u8>::empty(), a, b, limit);
}

/// The same cut, after an arbitrary prior prefix.
pub proof fn lemma_body_append_from(mode: BlockMode, prior: Seq<u8>, a: Seq<u8>, b: Seq<u8>, limit: int)
    requires
        limit >= 1,
        a.len() as int % limit == 0,
    ensures
        body_from(mode, prior, a + b, limit) == body_from(mode, prior, a, limit) + body_from(
            mode,
            prior + a,
            b,
            limit,
        ),
    decreases a.len(),
{
    if a.len() == 0 {
        assert(a + b =~= b);
        assert(prior + a =~= prior);
        assert(body_from(mode, prior, a, limit) =~= Seq::<u8>::empty());
        assert(body_from(mode, prior, a + b, limit) == body_from(mode, prior, b, limit));
        assert(body_from(mode, prior, a, limit) + body_from(mode, prior + a, b, limit)
            =~= body_from(mode, prior, b, limit));
    } else {
        assert(a.len() >= limit) by {
            if a.len() < limit {
                vstd::arithmetic::div_mod::lemma_small_mod(a.len(), limit as nat);
            }
        }
        let k = limit;
        let chunk = a.take(k);
        assert((a + b).len() >= limit);
        assert((a + b).take(k) =~= chunk);
        assert((a + b).skip(k) =~= a.skip(k) + b);
        assert(a.skip(k).len() == a.len() - limit);
        assert((a.len() - limit) % limit == 0) by {
            vstd::arithmetic::div_mod::lemma_mod_sub_multiples_vanish(a.len() as int, limit);
        }
        lemma_body_append_from(mode, prior + chunk, a.skip(k), b, limit);
        assert(prior + chunk + a.skip(k) =~= prior + a);
        if a.len() == limit {
            assert(a.take(k) =~= a);
            assert(a.skip(k) =~= Seq::<u8>::empty());
        }
        assert(body_from(mode, prior, a + b, limit) == encoded_block(mode, chunk, prior)
            + body_from(mode, prior + chunk, a.skip(k) + b, limit));
        assert(body_from(mode, prior, a, limit) == encoded_block(mode, chunk, prior) + body_from(
            mode,
            prior + chunk,
            a.skip(k),
            limit,
        ));
        assert(body_from(mode, prior, a + b, limit) =~= body_from(mode, prior, a, limit)
            + body_from(mode, prior + a, b, limit));
    }
}

/// A sequence no longer than the limit forms a single block.
pub proof fn lemma_body_single(mode: BlockMode, prior: Seq<u8>, b: Seq<u8>, limit: int)
    requires
        limit >= 1,
        1 <= b.len() <= limit,
    ensures
        body_from(mode, prior, b, limit) == encoded_block(mode, b, prior),
{
    let k: int = b.len() as int;
    assert(b.take(k) =~= b);
    assert(b.skip(k) =~= Seq::<u8>::empty());
    assert(body_from(mode, prior + b.take(k), b.skip(k), limit) == Seq::<u8>::empty());
    assert(body_from(mode, prior, b, limit) == encoded_block(mode, b.take(k), prior) + body_from(
        mode,
        prior + b.take(k),
        b.skip(k),
        limit,
    ));
    assert(body_from(mode, prior, b, limit) =~= encoded_block(mode, b, prior));
}

/// The frame-writing state machine behind a compressing sink. It owns no
/// destination: every operation returns the frame bytes it produced, and the
/// caller forwards them. `content` names every byte accepted so far,
/// `emitted` the prefix already packed into blocks, and `body` the block
/// bytes produced so far; `chunked` records that blocks have been cut at
/// block-size boundaries alone, which makes the output a function of the
/// content.
pub struct FrameWriter {
    pub block_size: BlockSize,
    pub block_mode: BlockMode,
    pub checksum: ContentChecksum,
    pub auto_flush: bool,
    pub limit: usize,
    pub pending: Vec<u8>,
    pub history: Vec<u8>,
    pub hasher: twox_hash::XxHash32,
    pub content: Ghost<Seq<u8>>,
    pub emitted: Ghost<Seq<u8>>,
    pub body: Ghost<Seq<u8>>,
    pub chunked: Ghost<bool>,
}

impl FrameWriter {
    pub open spec fn wf(self) -> bool {
        &&& self.limit == self.block_size.bytes_spec()
        &&& 65536 <= self.limit <= 4194304
        &&& self.pending@.len() < self.limit
        &&& self.content@ == self.emitted@ + self.pending@
        &&& (self.checksum == ContentChecksum::ChecksumEnabled ==> hasher_bytes(self.hasher)
            == self.content@)
        &&& (self.block_mode == BlockMode::Linked ==> self.history@ == window(self.emitted@))
        &&& (self.block_mode == BlockMode::Independent ==> self.history@ == Seq::<u8>::empty())
        &&& (self.auto_flush ==> self.pending@.len() == 0 && !self.chunked@)
        &&& (self.chunked@ ==> self.emitted@.len() as int % (self.limit as int) == 0
            && self.body@ == body_from(
            self.block_mode,
            Seq::<u8>::empty(),
            self.emitted@,
            self.limit as int,
        ))
    }

    /// A fresh machine for a configuration; nothing accepted, nothing
    /// produced.
    pub fn new(builder: &EncoderBuilder) -> (r: FrameWriter)
        ensures
            r.wf(),
            r.block_size == builder.block_size,
            r.block_mode == builder.block_mode,
            r.checksum == builder.checksum,
            r.auto_flush == builder.auto_flush,
            r.content@ == Seq::<u8>::empty(),
            r.emitted@ == Seq::<u8>::empty(),
            r.pending@.len() == 0,
            r.body@ == Seq::<u8>::empty(),
            r.chunked@ == !builder.auto_flush,
    {
        let limit: usize = builder.block_size.bytes();
        let r = FrameWriter {
            block_size: builder.block_size,
            block_mode: builder.block_mode,
            checksum: builder.checksum,
            auto_flush: builder.auto_flush,
            limit,
            pending: Vec::new(),
            history: Vec::new(),
            hasher: hasher_new(),
            content: Ghost(Seq::<u8>::empty()),
            emitted: Ghost(Seq::<u8>::empty()),
            body: Ghost(Seq::<u8>::empty()),
            chunked: Ghost(!builder.auto_flush),
        };
        proof {
            vstd::arithmetic::div_mod::lemma_small_mod(0, limit as nat);
            assert(r.content@ =~= r.emitted@ + r.pending@);
        }
        r
    }

    /// Packs the pending bytes into one block and appends its encoding to
    /// `out`.
    fn emit_pending(&mut self, out: &mut Vec<u8>)
        requires
            old(self).limit == old(self).block_size.bytes_spec(),
            65536 <= old(self).limit <= 4194304,
            1 <= old(self).pending@.len() <= old(self).limit,
            old(self).block_mode == BlockMode::Linked ==> old(self).history@ == window(
                old(self).emitted@,
            ),
            old(self).block_mode == BlockMode::Independent ==> old(self).history@ == Seq::<
                u8,
            >::empty(),
        ensures
            final(self).block_size == old(self).block_size,
            final(self).block_mode == old(self).block_mode,
            final(self).checksum == old(self).checksum,
            final(self).auto_flush == old(self).auto_flush,
            final(self).limit == old(self).limit,
            final(self).hasher == old(self).hasher,
            final(self).content@ == old(self).content@,
            final(self).pending@.len() == 0,
            final(self).emitted@ == old(self).emitted@ + old(self).pending@,
            final(self).body@ == old(self).body@ + encoded_block(
                old(self).block_mode,
                old(self).pending@,
                old(self).emitted@,
            ),
            final(out)@ == old(out)@ + encoded_block(
                old(self).block_mode,
                old(self).pending@,
                old(self).emitted@,
            ),
            final(self).chunked@ == (old(self).chunked@ && old(self).pending@.len() == old(
                self,
            ).limit),
            final(self).block_mode == BlockMode::Linked ==> final(self).history@ == window(
                final(self).emitted@,
            ),
            final(self).block_mode == BlockMode::Independent ==> final(self).history@ == Seq::<
                u8,
            >::empty(),
    {
        let ghost pend0 = self.pending@;
        let ghost emit0 = self.emitted@;
        let ghost mode = self.block_mode;
        let comp = compress_block(self.pending.as_slice(), self.history.as_slice());
        proof {
            assert(self.history@ == dict_for(mode, emit0));
        }
        if comp.len() >= self.pending.len() {
            let word: u32 = (self.pending.len() as u32) + 0x80000000u32;
            le32_push(out, word);
            push_slice(out, self.pending.as_slice());
            proof {
                assert(out@ =~= old(out)@ + encoded_block(mode, pend0, emit0));
            }
        } else {
            le32_push(out, comp.len() as u32);
            push_slice(out, comp.as_slice());
            proof {
                assert(out@ =~= old(out)@ + encoded_block(mode, pend0, emit0));
            }
        }
        if matches!(self.block_mode, BlockMode::Linked) {
            push_slice(&mut self.history, self.pending.as_slice());
            shrink_to_window(&mut self.history);
            proof {
                lemma_window_extend(emit0, pend0);
            }
        }
        let ghost new_chunked: bool = self.chunked@ && pend0.len() == self.limit as int;
        self.emitted = Ghost(emit0 + pend0);
        self.chunked = Ghost(new_chunked);
        self.body = Ghost(self.body@ + encoded_block(mode, pend0, emit0));
        self.pending.clear();
    }

    /// Accepts arbitrary bytes: cuts them into blocks of at most the
    /// configured limit, emits every block that fills, and returns the frame
    /// bytes produced. Always accepts the whole input.
    pub fn write(&mut self, buf: &[u8]) -> (r: Result<Vec<u8>, Error>)
        requires
            old(self).wf(),
        ensures
            final(self).wf(),
            r is Ok,
            final(self).block_size == old(self).block_size,
            final(self).block_mode == old(self).block_mode,
            final(self).checksum == old(self).checksum,
            final(self).auto_flush == old(self).auto_flush,
            final(self).content@ == old(self).content@ + buf@,
            final(self).body@ == old(self).body@ + r->Ok_0@,
            final(self).chunked@ == old(self).chunked@,
            old(self).auto_flush ==> r->Ok_0@ == body_from(
                old(self).block_mode,
                old(self).emitted@,
                buf@,
                old(self).limit as int,
            ),
            buf@.len() == 0 ==> *final(self) == *old(self) && r->Ok_0@ == Seq::<u8>::empty(),
    {
        if buf.len() == 0 {
            proof {
                assert(self.content@ =~= self.content@ + buf@);
                assert(self.body@ =~= self.body@ + Seq::<u8>::empty());
            }
            return Ok(Vec::new());
        }
        if matches!(self.checksum, ContentChecksum::ChecksumEnabled) {
            hasher_push(&mut self.hasher, buf);
        }
        self.content = Ghost(self.content@ + buf@);
        let ghost body0 = self.body@;
        let mut out: Vec<u8> = Vec::new();
        let mut offset: usize = 0;
        proof {
            assert(buf@.subrange(0, 0) =~= Seq::<u8>::empty());
            assert(self.emitted@ + self.pending@ =~= old(self).content@ + buf@.subrange(0, 0));
            assert(self.content@ =~= old(self).content@ + buf@);
            if self.auto_flush {
                vstd::arithmetic::div_mod::lemma_small_mod(0, self.limit as nat);
                assert(self.pending@ =~= buf@.subrange(0, 0));
                assert(buf@.take(0) =~= Seq::<u8>::empty());
                assert(self.emitted@ =~= old(self).emitted@ + buf@.take(0));
                assert(out@ =~= body_from(
                    self.block_mode,
                    old(self).emitted@,
                    buf@.take(0),
                    self.limit as int,
                ));
            }
        }
        while offset < buf.len()
            invariant
                offset <= buf@.len(),
                self.limit == self.block_size.bytes_spec(),
                65536 <= self.limit <= 4194304,
                self.block_size == old(self).block_size,
                self.block_mode == old(self).block_mode,
                self.checksum == old(self).checksum,
                self.auto_flush == old(self).auto_flush,
                self.pending@.len() < self.limit,
                self.content@ == old(self).content@ + buf@,
                self.emitted@ + self.pending@ == old(self).content@ + buf@.subrange(
                    0,
                    offset as int,
                ),
                self.checksum == ContentChecksum::ChecksumEnabled ==> hasher_bytes(self.hasher)
                    == self.content@,
                self.block_mode == BlockMode::Linked ==> self.history@ == window(self.emitted@),
                self.block_mode == BlockMode::Independent ==> self.history@ == Seq::<u8>::empty(),
                self.body@ == body0 + out@,
                self.chunked@ == old(self).chunked@,
                self.chunked@ ==> self.emitted@.len() as int % (self.limit as int) == 0
                    && self.body@ == body_from(
                    self.block_mode,
                    Seq::<u8>::empty(),
                    self.emitted@,
                    self.limit as int,
                ),
                old(self).auto_flush ==> self.pending@.len() <= offset,
                old(self).auto_flush ==> self.pending@ == buf@.subrange(
                    offset - self.pending@.len(),
                    offset as int,
                ),
                old(self).auto_flush ==> (offset - self.pending@.len()) % (self.limit as int)
                    == 0,
                old(self).auto_flush ==> self.emitted@ == old(self).emitted@ + buf@.take(
                    offset - self.pending@.len(),
                ),
                old(self).auto_flush ==> out@ == body_from(
                    self.block_mode,
                    old(self).emitted@,
                    buf@.take(offset - self.pending@.len()),
                    self.limit as int,
                ),
            decreases buf@.len() - offset,
        {
            let room: usize = self.limit - self.pending.len();
            let rest: usize = buf.len() - offset;
            let take: usize = if room < rest {
                room
            } else {
                rest
            };
            let ghost off0 = offset as int;
            let ghost pend_old = self.pending@;
            let ghost acc_old = self.emitted@ + self.pending@;
            let chunk = vstd::slice::slice_subrange(buf, offset, offset + take);
            push_slice(&mut self.pending, chunk);
            offset = offset + take;
            proof {
                assert(acc_old == old(self).content@ + buf@.subrange(0, off0));
                assert(self.pending@ == pend_old + buf@.subrange(off0, off0 + take));
                assert(buf@.subrange(0, offset as int) =~= buf@.subrange(0, off0) + buf@.subrange(
                    off0,
                    off0 + take,
                ));
                assert(self.emitted@ + self.pending@ =~= acc_old + buf@.subrange(
                    off0,
                    off0 + take,
                ));
                assert(self.emitted@ + self.pending@ =~= old(self).content@ + buf@.subrange(
                    0,
                    offset as int,
                ));
                if old(self).auto_flush {
                    assert(off0 - pend_old.len() == offset - self.pending@.len());
                    assert(self.pending@ =~= buf@.subrange(
                        offset - self.pending@.len(),
                        offset as int,
                    ));
                }
            }
            if self.pending.len() == self.limit {
                let ghost emit_before = self.emitted@;
                let ghost pend_before = self.pending@;
                let ghost out_before = out@;
                self.emit_pending(&mut out);
                proof {
                    assert(self.body@ =~= body0 + out@);
                    if old(self).auto_flush {
                        let kb = offset - pend_before.len();
                        vstd::arithmetic::div_mod::lemma_mod_add_multiples_vanish(
                            kb,
                            self.limit as int,
                        );
                        assert((offset - self.pending@.len()) % (self.limit as int) == 0);
                        lemma_body_append_from(
                            self.block_mode,
                            old(self).emitted@,
                            buf@.take(kb),
                            pend_before,
                            self.limit as int,
                        );
                        lemma_body_single(
                            self.block_mode,
                            old(self).emitted@ + buf@.take(kb),
                            pend_before,
                            self.limit as int,
                        );
                        assert(buf@.take(kb) + pend_before =~= buf@.take(offset as int));
                        assert(emit_before == old(self).emitted@ + buf@.take(kb));
                        assert(self.emitted@ =~= old(self).emitted@ + buf@.take(offset as int));
                        assert(out@ =~= body_from(
                            self.block_mode,
                            old(self).emitted@,
                            buf@.take(offset as int),
                            self.limit as int,
                        ));
                    }
                    if self.chunked@ {
                        vstd::arithmetic::div_mod::lemma_mod_add_multiples_vanish(
                            emit_before.len() as int,
                            self.limit as int,
                        );
                        assert(self.emitted@.len() as int % (self.limit as int) == 0);
                        lemma_body_append(
                            self.block_mode,
                            emit_before,
                            pend_before,
                            self.limit as int,
                        );
                        lemma_body_single(
                            self.block_mode,
                            emit_before,
                            pend_before,
                            self.limit as int,
                        );
                        assert(self.body@ == body_from(
                            self.block_mode,
                            Seq::<u8>::empty(),
                            self.emitted@,
                            self.limit as int,
                        ));
                    }
                }
            }
        }
        proof {
            assert(buf@.subrange(0, buf@.len() as int) =~= buf@);
        }
        if self.auto_flush && self.pending.len() > 0 {
            let ghost k2 = buf@.len() - self.pending@.len();
            let ghost pend2 = self.pending@;
            self.emit_pending(&mut out);
            proof {
                lemma_body_append_from(
                    self.block_mode,
                    old(self).emitted@,
                    buf@.take(k2 as int),
                    pend2,
                    self.limit as int,
                );
                lemma_body_single(
                    self.block_mode,
                    old(self).emitted@ + buf@.take(k2 as int),
                    pend2,
                    self.limit as int,
                );
                assert(buf@.take(k2 as int) + pend2 =~= buf@);
                assert(out@ =~= body_from(
                    self.block_mode,
                    old(self).emitted@,
                    buf@,
                    self.limit as int,
                ));
            }
        } else {
            proof {
                if old(self).auto_flush {
                    assert(self.pending@.len() == 0);
                    assert(buf@.take(buf@.len() as int) =~= buf@);
                    assert(out@ == body_from(
                        self.block_mode,
                        old(self).emitted@,
                        buf@,
                        self.limit as int,
                    ));
                }
            }
        }
        proof {
            assert(self.body@ =~= body0 + out@);
        }
        Ok(out)
    }

    /// Forces everything accepted but not yet emitted out as one partial
    /// block, and returns the frame bytes produced.
    pub fn flush(&mut self) -> (r: Result<Vec<u8>, Error>)
        requires
            old(self).wf(),
        ensures
            final(self).wf(),
            r is Ok,
            final(self).block_size == old(self).block_size,
            final(self).block_mode == old(self).block_mode,
            final(self).checksum == old(self).checksum,
            final(self).auto_flush == old(self).auto_flush,
            final(self).content@ == old(self).content@,
            final(self).body@ == old(self).body@ + r->Ok_0@,
            final(self).pending@.len() == 0,
            r->Ok_0@ == (if old(self).pending@.len() == 0 {
                Seq::<u8>::empty()
            } else {
                encoded_block(old(self).block_mode, old(self).pending@, old(self).emitted@)
            }),
    {
        let mut out: Vec<u8> = Vec::new();
        if self.pending.len() > 0 {
            self.emit_pending(&mut out);
        }
        proof {
            if old(self).pending@.len() == 0 {
                assert(out@ =~= Seq::<u8>::empty());
            }
        }
        Ok(out)
    }

    /// Ends the frame: emits any pending partial block, the end mark, and
    /// the content checksum when enabled. Consumes the machine; the returned
    /// bytes complete the frame exactly once. When blocks were cut at
    /// block-size boundaries alone, everything produced over the machine's
    /// lifetime is exactly the stream the configuration assigns to the
    /// accepted content.
    pub fn end(self) -> (r: Result<Vec<u8>, Error>)
        requires
            self.wf(),
        ensures
            r is Ok,
            r->Ok_0@ == (if self.pending@.len() == 0 {
                Seq::<u8>::empty()
            } else {
                encoded_block(self.block_mode, self.pending@, self.emitted@)
            }) + footer_bytes(self.checksum, self.content@),
            self.chunked@ ==> self.body@ + r->Ok_0@ == body_from(
                self.block_mode,
                Seq::<u8>::empty(),
                self.content@,
                self.limit as int,
            ) + footer_bytes(self.checksum, self.content@),
    {
        let ghost pend0 = self.pending@;
        let ghost emit0 = self.emitted@;
        let ghost mode = self.block_mode;
        let ghost check0 = self.checksum;
        let ghost content0 = self.content@;
        let ghost body0 = self.body@;
        let ghost chunked0 = self.chunked@;
        let ghost limit0 = self.limit as int;
        let mut this = self;
        let mut out: Vec<u8> = Vec::new();
        if this.pending.len() > 0 {
            this.emit_pending(&mut out);
        }
        le32_push(&mut out, 0);
        if matches!(this.checksum, ContentChecksum::ChecksumEnabled) {
            let sum: u32 = hasher_sum(&this.hasher);
            le32_push(&mut out, sum);
        }
        proof {
            assert(out@ =~= (if pend0.len() == 0 {
                Seq::<u8>::empty()
            } else {
                encoded_block(mode, pend0, emit0)
            }) + footer_bytes(check0, content0));
            if chunked0 {
                lemma_body_append(mode, emit0, pend0, limit0);
                if pend0.len() > 0 {
                    lemma_body_single(mode, emit0, pend0, limit0);
                } else {
                    assert(body_from(mode, emit0, pend0, limit0) =~= Seq::<u8>::empty());
                }
                assert(emit0 + pend0 =~= content0);
                assert(body0 + out@ =~= body_from(mode, Seq::<u8>::empty(), content0, limit0)
                    + footer_bytes(check0, content0));
            }
        }
        Ok(out)
    }
}

/// Configuration for a compressing sink.
#[derive(Clone, Copy, Debug)]
pub struct EncoderBuilder {
    pub block_size: BlockSize,
    pub block_mode: BlockMode,
    pub checksum: ContentChecksum,
    pub level: u32,
    pub auto_flush: bool,
    pub favor_dec_speed: bool,
}

impl Default for EncoderBuilder {
    /// The default configuration: 64 KiB linked blocks with a content
    /// checksum, engine-default level, no auto-flush.
    fn default() -> (r: Self)
        ensures
            r.block_size == BlockSize::Max64KB,
            r.block_mode == BlockMode::Linked,
            r.checksum == ContentChecksum::ChecksumEnabled,
            r.level == 0,
            !r.auto_flush,
            !r.favor_dec_speed,
    {
        EncoderBuilder {
            block_size: BlockSize::Max64KB,
            block_mode: BlockMode::Linked,
            checksum: ContentChecksum::ChecksumEnabled,
            level: 0,
            auto_flush: false,
            favor_dec_speed: false,
        }
    }
}

impl EncoderBuilder {
    pub fn new() -> (r: Self)
        ensures
            r.block_size == BlockSize::Max64KB,
            r.block_mode == BlockMode::Linked,
            r.checksum == ContentChecksum::ChecksumEnabled,
            r.level == 0,
            !r.auto_flush,
            !r.favor_dec_speed,
    {
        Self::default()
    }

    pub fn block_size(self, block_size: BlockSize) -> (r: Self)
        ensures
            r == (EncoderBuilder { block_size, ..self }),
    {
        EncoderBuilder { block_size, ..self }
    }

    pub fn block_mode(self, block_mode: BlockMode) -> (r: Self)
        ensures
            r == (EncoderBuilder { block_mode, ..self }),
    {
        EncoderBuilder { block_mode, ..self }
    }

    pub fn checksum(self, checksum: ContentChecksum) -> (r: Self)
        ensures
            r == (EncoderBuilder { checksum, ..self }),
    {
        EncoderBuilder { checksum, ..self }
    }

    /// The compression level handed to the engine; the engine of this crate
    /// has a single strategy, so the level only records the caller's wish.
    pub fn level(self, level: u32) -> (r: Self)
        ensures
            r == (EncoderBuilder { level, ..self }),
    {
        EncoderBuilder { level, ..self }
    }

    pub fn auto_flush(self, auto_flush: bool) -> (r: Self)
        ensures
            r == (EncoderBuilder { auto_flush, ..self }),
    {
        EncoderBuilder { auto_flush, ..self }
    }

    /// Favoring decode speed is a hint; the engine of this crate has a single
    /// strategy, so the flag only records the caller's wish.
    pub fn favor_dec_speed(self, favor_dec_speed: bool) -> (r: Self)
        ensures
            r == (EncoderBuilder { favor_dec_speed, ..self }),
    {
        EncoderBuilder { favor_dec_speed, ..self }
    }
}

/// A compressing sink over an owned in-memory destination: wraps the
/// frame-writing machine and a byte vector that collects the frame.
pub struct Encoder {
    pub inner: FrameWriter,
    pub writer: Option<Vec<u8>>,
    pub base: Ghost<Seq<u8>>,
}

impl Encoder {
    pub open spec fn wf(self) -> bool {
        &&& self.inner.wf()
        &&& match self.writer {
            Option::Some(w) => w@ == self.base@ + header_bytes(
                self.inner.block_size,
                self.inner.block_mode,
                self.inner.checksum,
            ) + self.inner.body@,
            Option::None => false,
        }
    }

    /// Accepts the whole input, forwarding every block the machine emits to
    /// the destination, and reports the full input length as accepted.
    pub fn write(&mut self, buf: &[u8]) -> (r: Result<usize, Error>)
        requires
            old(self).wf(),
        ensures
            final(self).wf(),
            r is Ok,
            r->Ok_0 == buf@.len(),
            final(self).inner.content@ == old(self).inner.content@ + buf@,
            final(self).inner.chunked@ == old(self).inner.chunked@,
            final(self).base@ == old(self).base@,
            final(self).inner.block_size == old(self).inner.block_size,
            final(self).inner.block_mode == old(self).inner.block_mode,
            final(self).inner.checksum == old(self).inner.checksum,
            final(self).inner.auto_flush == old(self).inner.auto_flush,
            old(self).inner.auto_flush ==> final(self).inner.body@ == old(self).inner.body@
                + body_from(
                old(self).inner.block_mode,
                old(self).inner.emitted@,
                buf@,
                old(self).inner.limit as int,
            ),
            buf@.len() == 0 ==> *final(self) == *old(self),
    {
        if buf.len() == 0 {
            proof {
                assert(self.inner.content@ =~= self.inner.content@ + buf@);
                assert(body_from(
                    self.inner.block_mode,
                    self.inner.emitted@,
                    buf@,
                    self.inner.limit as int,
                ) =~= Seq::<u8>::empty());
                assert(self.inner.body@ =~= self.inner.body@ + Seq::<u8>::empty());
            }
            return Ok(0);
        }
        let produced = match self.inner.write(buf) {
            Ok(p) => p,
            Err(e) => {
                return Err(e);
            },
        };
        match &mut self.writer {
            Option::Some(w) => {
                push_slice(w, produced.as_slice());
                proof {
                    assert(w@ =~= self.base@ + header_bytes(
                        self.inner.block_size,
                        self.inner.block_mode,
                        self.inner.checksum,
                    ) + self.inner.body@);
                }
            },
            Option::None => {},
        }
        Ok(buf.len())
    }

    /// Forces any pending partial block out to the destination.
    pub fn flush(&mut self) -> (r: Result<(), Error>)
        requires
            old(self).wf(),
        ensures
            final(self).wf(),
            r is Ok,
            final(self).inner.content@ == old(self).inner.content@,
            final(self).base@ == old(self).base@,
            final(self).inner.block_size == old(self).inner.block_size,
            final(self).inner.block_mode == old(self).inner.block_mode,
            final(self).inner.checksum == old(self).inner.checksum,
            final(self).inner.auto_flush == old(self).inner.auto_flush,
            final(self).inner.pending@.len() == 0,
            final(self).inner.body@ == old(self).inner.body@ + (if old(
                self,
            ).inner.pending@.len() == 0 {
                Seq::<u8>::empty()
            } else {
                encoded_block(
                    old(self).inner.block_mode,
                    old(self).inner.pending@,
                    old(self).inner.emitted@,
                )
            }),
    {
        let produced = match self.inner.flush() {
            Ok(p) => p,
            Err(e) => {
                return Err(e);
            },
        };
        match &mut self.writer {
            Option::Some(w) => {
                push_slice(w, produced.as_slice());
                proof {
                    assert(w@ =~= self.base@ + header_bytes(
                        self.inner.block_size,
                        self.inner.block_mode,
                        self.inner.checksum,
                    ) + self.inner.body@);
                }
            },
            Option::None => {},
        }
        Ok(())
    }

    /// Ends the frame and hands the destination back: everything the sink
    /// ever collected, with the end mark and the content checksum appended
    /// exactly once. Consumes the sink, so the footer cannot be emitted
    /// twice. When blocks were cut at block-size boundaries alone, the
    /// result is exactly the stream the configuration assigns to the
    /// accepted content.
    pub fn finish(self) -> (r: Result<Vec<u8>, Error>)
        requires
            self.wf(),
        ensures
            r is Ok,
            r->Ok_0@ == self.base@ + header_bytes(
                self.inner.block_size,
                self.inner.block_mode,
                self.inner.checksum,
            ) + self.inner.body@ + (if self.inner.pending@.len() == 0 {
                Seq::<u8>::empty()
            } else {
                encoded_block(self.inner.block_mode, self.inner.pending@, self.inner.emitted@)
            }) + footer_bytes(self.inner.checksum, self.inner.content@),
            self.inner.chunked@ ==> r->Ok_0@ == self.base@ + encoded_stream(
                self.inner.block_size,
                self.inner.block_mode,
                self.inner.checksum,
                self.inner.content@,
            ),
    {
        let Encoder { inner, writer, base } = self;
        let ghost inner0 = inner;
        proof {
            assert(inner0 == self.inner);
            assert(inner0.wf());
        }
        let tail = match inner.end() {
            Ok(t) => t,
            Err(e) => {
                return Err(e);
            },
        };
        let mut w = match writer {
            Option::Some(w) => w,
            Option::None => {
                proof {
                    assert(false);
                }
                return Err(Error::IncompleteStream);
            },
        };
        push_slice(&mut w, tail.as_slice());
        proof {
            assert(w@ =~= self.base@ + header_bytes(
                inner0.block_size,
                inner0.block_mode,
                inner0.checksum,
            ) + inner0.body@ + (if inner0.pending@.len() == 0 {
                Seq::<u8>::empty()
            } else {
                encoded_block(inner0.block_mode, inner0.pending@, inner0.emitted@)
            }) + footer_bytes(inner0.checksum, inner0.content@));
            if inner0.chunked@ {
                assert(w@ =~= self.base@ + header_bytes(
                    inner0.block_size,
                    inner0.block_mode,
                    inner0.checksum,
                ) + inner0.body@ + tail@);
                assert(inner0.body@ + tail@ == body_from(
                    inner0.block_mode,
                    Seq::<u8>::empty(),
                    inner0.content@,
                    inner0.limit as int,
                ) + footer_bytes(inner0.checksum, inner0.content@));
                assert(inner0.limit as int == inner0.block_size.bytes_spec());
                let ghost hb = header_bytes(inner0.block_size, inner0.block_mode, inner0.checksum);
                let ghost bf = body_from(
                    inner0.block_mode,
                    Seq::<u8>::empty(),
                    inner0.content@,
                    inner0.limit as int,
                );
                let ghost ft = footer_bytes(inner0.checksum, inner0.content@);
                assert(inner0.body@ + tail@ == bf + ft);
                assert(w@ =~= self.base@ + hb + (inner0.body@ + tail@));
                assert(self.base@ + encoded_stream(
                    inner0.block_size,
                    inner0.block_mode,
                    inner0.checksum,
                    inner0.content@,
                ) =~= self.base@ + hb + (bf + ft));
                assert(w@ == self.base@ + encoded_stream(
                    inner0.block_size,
                    inner0.block_mode,
                    inner0.checksum,
                    inner0.content@,
                ));
            }
        }
        Ok(w)
    }
}

impl EncoderBuilder {
    /// Builds a compressing sink over the given destination, emitting the
    /// frame header into it immediately.
    pub fn build(&self, writer: Vec<u8>) -> (r: Result<Encoder, Error>)
        ensures
            r is Ok,
            r->Ok_0.wf(),
            r->Ok_0.base@ == writer@,
            r->Ok_0.inner.block_size == self.block_size,
            r->Ok_0.inner.block_mode == self.block_mode,
            r->Ok_0.inner.checksum == self.checksum,
            r->Ok_0.inner.auto_flush == self.auto_flush,
            r->Ok_0.inner.content@ == Seq::<u8>::empty(),
            r->Ok_0.inner.emitted@ == Seq::<u8>::empty(),
            r->Ok_0.inner.pending@.len() == 0,
            r->Ok_0.inner.body@ == Seq::<u8>::empty(),
            r->Ok_0.inner.chunked@ == !self.auto_flush,
    {
        let ghost base0 = writer@;
        let mut w = writer;
        let header = write_header(&self.block_size, &self.block_mode, &self.checksum);
        push_slice(&mut w, header.as_slice());
        let inner = FrameWriter::new(self);
        let enc = Encoder { inner, writer: Some(w), base: Ghost(base0) };
        proof {
            assert(match enc.writer {
                Option::Some(w) => w@ =~= enc.base@ + header_bytes(
                    enc.inner.block_size,
                    enc.inner.block_mode,
                    enc.inner.checksum,
                ) + enc.inner.body@,
                Option::None => false,
            });
        }
        Ok(enc)
    }

    /// Compresses a whole buffer into one frame: the stream the
    /// configuration assigns to the data, whether or not the sink
    /// auto-flushes, since a single write cuts the data at block-size
    /// boundaries either way.
    pub fn encode(&self, data: &[u8]) -> (r: Result<Vec<u8>, Error>)
        ensures
            r is Ok,
            r->Ok_0@ == encoded_stream(self.block_size, self.block_mode, self.checksum, data@),
    {
        let enc0 = match self.build(Vec::new()) {
            Ok(e) => e,
            Err(e) => {
                return Err(e);
            },
        };
        let mut enc = enc0;
        match enc.write(data) {
            Ok(_) => {},
            Err(e) => {
                return Err(e);
            },
        };
        let r = match enc.finish() {
            Ok(v) => v,
            Err(e) => {
                return Err(e);
            },
        };
        proof {
            assert(enc0.inner.content@ + data@ =~= data@);
            if !self.auto_flush {
                assert(r@ =~= encoded_stream(
                    self.block_size,
                    self.block_mode,
                    self.checksum,
                    data@,
                ));
            } else {
                assert(enc0.inner.emitted@ =~= Seq::<u8>::empty());
                assert(enc0.inner.body@ + body_from(
                    self.block_mode,
                    Seq::<u8>::empty(),
                    data@,
                    enc0.inner.limit as int,
                ) =~= body_from(self.block_mode, Seq::<u8>::empty(), data@, enc0.inner.limit as int));
                assert(r@ =~= encoded_stream(
                    self.block_size,
                    self.block_mode,
                    self.checksum,
                    data@,
                ));
            }
        }
        Ok(r)
    }
}

/// Whole-buffer compression for byte containers.
pub trait Encode {
    /// The bytes the container holds, as the contract speaks of them.
    spec fn byte_view(&self) -> Seq<u8>;

    /// Compresses the receiver into one frame under the builder's
    /// configuration.
    fn encode(&self, builder: &EncoderBuilder) -> (r: Result<Vec<u8>, Error>)
        ensures
            r is Ok,
            r->Ok_0@ == encoded_stream(
                builder.block_size,
                builder.block_mode,
                builder.checksum,
                self.byte_view(),
            ),
    ;
}

impl Encode for Vec<u8> {
    open spec fn byte_view(&self) -> Seq<u8> {
        self@
    }

    fn encode(&self, builder: &EncoderBuilder) -> (r: Result<Vec<u8>, Error>) {
        builder.encode(self.as_slice())
    }
}

} // verus!
