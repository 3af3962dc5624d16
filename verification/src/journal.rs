//! The journal state machine: circular space manager, checkpoint queue, and
//! the commit protocol.

use vstd::prelude::*;

use crate::codec::{
    push_be32, push_zeros, spec_be32, spec_bhdr_bytes, spec_escape_data, spec_tag3_bytes,
    spec_zero_pad, escape_data,
};
use crate::consts::{
    BHDR_SIZE, BLOCK_SIZE, JBD_COMMIT_BLOCK, JBD_DESCRIPTOR_BLOCK, JBD_MAGIC_NUMBER,
    JBD_REVOKE_BLOCK, TAG3_SIZE, UUID_SIZE,
};
use crate::defs::{JbdBhdr, JbdBlockTag3, JbdBuf, JbdError, JbdJournal, JbdRevokeRec, JbdSb,
    TagInfo, Transaction};
use crate::device::BlockDevice;
use crate::transaction::spec_buf_wf;

verus! {

/// Low 32 bits of a home block number, as stored in a tag.
pub open spec fn spec_low32(b: u64) -> u32 {
    (b % 0x1_0000_0000) as u32
}

/// High 32 bits of a home block number, as stored in a tag.
pub open spec fn spec_high32(b: u64) -> u32 {
    (b / 0x1_0000_0000) as u32
}

/// Flag word written into a descriptor tag by the commit path: the same-UUID
/// bit is always set, the escape and last-tag bits as given.
pub open spec fn spec_tag_flags_for(escape: bool, last: bool) -> u16 {
    ((if escape {
        1int
    } else {
        0int
    }) + 2 + (if last {
        8int
    } else {
        0int
    })) as u16
}

/// The descriptor tag the commit path emits for one dirty block.
pub open spec fn spec_tag_for_buf(buf: JbdBuf, last: bool) -> JbdBlockTag3 {
    JbdBlockTag3 {
        blocknr: spec_low32(buf.block.lb_id),
        checksum: 0,
        flags: spec_tag_flags_for(buf.escape, last),
        blocknr_high: spec_high32(buf.block.lb_id),
    }
}

/// Bytes of the first `n` descriptor tags of a transaction, packed
/// back-to-back; the tag of the transaction's final dirty block carries the
/// last-tag flag.
pub open spec fn spec_tags_prefix(bufs: Seq<JbdBuf>, n: int) -> Seq<u8>
    decreases n,
{
    if n <= 0 {
        Seq::empty()
    } else {
        spec_tags_prefix(bufs, n - 1) + spec_tag3_bytes(
            spec_tag_for_buf(bufs[n - 1], n == bufs.len()),
        )
    }
}

/// The descriptor block of a transaction: header, tag chain, zero padding.
pub open spec fn spec_desc_block(t: Transaction) -> Seq<u8> {
    spec_zero_pad(
        spec_bhdr_bytes(
            JbdBhdr {
                magic: JBD_MAGIC_NUMBER,
                blocktype: JBD_DESCRIPTOR_BLOCK,
                sequence: t.trans_id,
            },
        ) + spec_tags_prefix(t.buf_queue@, t.buf_queue@.len() as int),
    )
}

/// Bytes of the first `n` revoked block addresses, packed big-endian.
pub open spec fn spec_revokes_prefix(rs: Seq<JbdRevokeRec>, n: int) -> Seq<u8>
    decreases n,
{
    if n <= 0 {
        Seq::empty()
    } else {
        spec_revokes_prefix(rs, n - 1) + spec_be32(rs[n - 1].lba)
    }
}

/// The revoke block of a transaction: header, byte count, packed addresses,
/// zero padding.
pub open spec fn spec_revoke_block(t: Transaction) -> Seq<u8> {
    spec_zero_pad(
        spec_bhdr_bytes(
            JbdBhdr { magic: JBD_MAGIC_NUMBER, blocktype: JBD_REVOKE_BLOCK, sequence: t.trans_id },
        ) + spec_be32((16 + 4 * t.revoke_root@.len()) as u32) + spec_revokes_prefix(
            t.revoke_root@,
            t.revoke_root@.len() as int,
        ),
    )
}

/// The commit block of a transaction: header and zero padding.
pub open spec fn spec_commit_block(t: Transaction) -> Seq<u8> {
    spec_zero_pad(
        spec_bhdr_bytes(
            JbdBhdr { magic: JBD_MAGIC_NUMBER, blocktype: JBD_COMMIT_BLOCK, sequence: t.trans_id },
        ),
    )
}

/// A dirty block's content as it is copied into the log: escaped contents
/// have their first four bytes zeroed.
pub open spec fn spec_log_data_block(buf: JbdBuf) -> Seq<u8> {
    if buf.escape {
        spec_escape_data(buf.block.data@)
    } else {
        buf.block.data@
    }
}

/// Number of log blocks one commit writes: a descriptor and the data blocks
/// when there is data, a revoke block when there are revokes, and always the
/// commit block.
pub open spec fn spec_blocks_needed(t: Transaction) -> int {
    (if t.data_cnt > 0 {
        1 + t.data_cnt as int
    } else {
        0int
    }) + (if t.revoke_root@.len() > 0 {
        1int
    } else {
        0int
    }) + 1
}

/// The `k`-th log block a commit writes, in write order: descriptor, data
/// blocks, revoke block, commit block.
pub open spec fn spec_commit_block_at(t: Transaction, k: int) -> Seq<u8> {
    let data_blocks: int = if t.data_cnt > 0 {
        1 + t.data_cnt as int
    } else {
        0int
    };
    if t.data_cnt > 0 && k == 0 {
        spec_desc_block(t)
    } else if k < data_blocks {
        spec_log_data_block(t.buf_queue@[k - 1])
    } else if t.revoke_root@.len() > 0 && k == data_blocks {
        spec_revoke_block(t)
    } else {
        spec_commit_block(t)
    }
}

/// Flag word of a decoded tag re-encoded: escape and last-tag as given, the
/// same-UUID bit exactly when no UUID follows the tag.
pub open spec fn spec_tag_info_flags(info: TagInfo) -> u16 {
    ((if info.is_escape {
        1int
    } else {
        0int
    }) + (if info.uuid_exist {
        0int
    } else {
        2int
    }) + (if info.last_tag {
        8int
    } else {
        0int
    })) as u16
}

/// On-disk bytes of one decoded tag: the sixteen tag bytes, then the UUID
/// when one follows the tag.
pub open spec fn spec_tag_info_bytes(info: TagInfo) -> Seq<u8> {
    spec_tag3_bytes(
        JbdBlockTag3 {
            blocknr: spec_low32(info.block),
            checksum: (info.checksum % 0x10000) as u16,
            flags: spec_tag_info_flags(info),
            blocknr_high: spec_high32(info.block),
        },
    ) + (if info.uuid_exist {
        info.uuid@
    } else {
        Seq::<u8>::empty()
    })
}

/// The transaction as it stands after commit assigned its id, its first log
/// block and its block count.
pub open spec fn spec_trans_assigned(t: Transaction, id: u32, si: u32, blocks: int) -> Transaction {
    Transaction {
        trans_id: id,
        start_iblock: si,
        alloc_blocks: blocks as u32,
        data_cnt: t.data_cnt,
        written_cnt: t.written_cnt,
        error: t.error,
        buf_queue: t.buf_queue,
        revoke_root: t.revoke_root,
    }
}

/// Consecutive log positions wrap to distinct blocks as long as fewer than
/// `maxlen` of them are taken.
pub proof fn lemma_wrapped_injective(first: u32, maxlen: u32, base: u32, a: int, b: int)
    requires
        spec_in_log(first, maxlen, base),
        0 <= a < b < maxlen,
    ensures
        spec_wrapped(first, maxlen, base + a) != spec_wrapped(first, maxlen, base + b),
{
}

/// Advancing a wrapped position by one equals wrapping the advanced raw
/// position, while the raw position stays within one lap of the window.
pub proof fn lemma_wrapped_step(first: u32, maxlen: u32, n: int)
    requires
        first <= n,
        n + 1 < first + 2 * maxlen,
    ensures
        spec_wrapped(first, maxlen, spec_wrapped(first, maxlen, n) + 1) == spec_wrapped(
            first,
            maxlen,
            n + 1,
        ),
{
}

/// Whether `b` lies inside the circular log window.
pub open spec fn spec_in_log(first: u32, maxlen: u32, b: u32) -> bool {
    first <= b < first + maxlen
}

/// Whether device block `b` lies inside the circular log window.
pub open spec fn spec_in_log_int(first: u32, maxlen: u32, b: int) -> bool {
    first <= b < first + maxlen
}

/// A log position folded back into the window: positions at or past the end
/// of the window wrap around by the log length.
pub open spec fn spec_wrapped(first: u32, maxlen: u32, n: int) -> int {
    if n >= first + maxlen {
        n - maxlen
    } else {
        n
    }
}

/// Number of log blocks the live window `[start, last)` occupies.
pub open spec fn spec_log_used(j: JbdJournal) -> int {
    if j.last >= j.start {
        j.last - j.start
    } else {
        j.last + j.maxlen - j.start
    }
}

/// Number of log blocks still free; one block is always kept back so that
/// `last` never catches up with `start`.
pub open spec fn spec_log_free(j: JbdJournal) -> int {
    j.maxlen - 1 - spec_log_used(j)
}

/// Whether some transaction in the queue carries a dirty block whose home
/// location is device block `b`.
pub open spec fn spec_queue_homes(q: Seq<Transaction>, b: int) -> bool {
    exists|i: int, k: int|
        0 <= i < q.len() && 0 <= k < q[i].buf_queue@.len() && q[i].buf_queue@[k].block.lb_id == b
}

/// The device after every dirty block of `bufs` has been written to its home
/// location, in order.
pub open spec fn spec_flushed_device(
    dev: Seq<Seq<u8>>,
    bufs: Seq<crate::defs::JbdBuf>,
    n: int,
) -> Seq<Seq<u8>>
    decreases n,
{
    if n <= 0 {
        dev
    } else {
        spec_flushed_device(dev, bufs, n - 1).update(
            bufs[n - 1].block.lb_id as int,
            bufs[n - 1].block.data@,
        )
    }
}

/// State of the space manager and checkpoint queue after one purge call, as
/// prescribed for the checkpoint queue: the front transaction is popped while
/// it is fully written back (or has no data), advancing the log tail and the
/// tail transaction id past it; without `flush` the tail is parked at the
/// first unwritten transaction; with `once` at most one transaction is
/// popped.
pub open spec fn spec_purge(
    q: Seq<Transaction>,
    start: u32,
    trans_id: u32,
    first: u32,
    maxlen: u32,
    flush: bool,
    once: bool,
) -> (Seq<Transaction>, u32, u32)
    decreases q.len(),
{
    if q.len() == 0 {
        (q, start, trans_id)
    } else {
        let t = q[0];
        if t.data_cnt == 0 || flush {
            let nstart = spec_wrapped(first, maxlen, t.start_iblock + t.alloc_blocks) as u32;
            let ntid = (t.trans_id + 1) as u32;
            if once {
                (q.drop_first(), nstart, ntid)
            } else {
                spec_purge(q.drop_first(), nstart, ntid, first, maxlen, flush, once)
            }
        } else {
            (q, t.start_iblock, t.trans_id)
        }
    }
}

/// Flushing writes only to the home locations of the flushed blocks; every
/// other device block keeps its content.
pub proof fn lemma_flushed_device_props(dev: Seq<Seq<u8>>, bufs: Seq<crate::defs::JbdBuf>, n: int)
    requires
        0 <= n <= bufs.len(),
        forall|k: int| 0 <= k < n ==> (#[trigger] bufs[k]).block.lb_id < dev.len(),
    ensures
        spec_flushed_device(dev, bufs, n).len() == dev.len(),
        forall|b: int|
            0 <= b < dev.len() && (forall|k: int|
                0 <= k < n ==> (#[trigger] bufs[k]).block.lb_id != b) ==> spec_flushed_device(
                dev,
                bufs,
                n,
            )[b] == dev[b],
    decreases n,
{
    if n > 0 {
        lemma_flushed_device_props(dev, bufs, n - 1);
    }
}

/// The device after one purge call: each popped transaction that still
/// carries unwritten data is flushed to its home locations before it goes;
/// fully written or data-less transactions leave the device untouched, and
/// so does a purge without `flush`.
pub open spec fn spec_purge_dev(
    dev: Seq<Seq<u8>>,
    q: Seq<Transaction>,
    flush: bool,
    once: bool,
) -> Seq<Seq<u8>>
    decreases q.len(),
{
    if q.len() == 0 {
        dev
    } else {
        let t = q[0];
        if t.data_cnt == 0 || (flush && t.data_cnt == t.written_cnt) {
            if once {
                dev
            } else {
                spec_purge_dev(dev, q.drop_first(), flush, once)
            }
        } else if !flush {
            dev
        } else {
            let d2 = spec_flushed_device(dev, t.buf_queue@, t.buf_queue@.len() as int);
            if once {
                d2
            } else {
                spec_purge_dev(d2, q.drop_first(), flush, once)
            }
        }
    }
}

/// A purge without `flush` never writes to the device.
pub proof fn lemma_purge_dev_no_flush(dev: Seq<Seq<u8>>, q: Seq<Transaction>, once: bool)
    ensures
        spec_purge_dev(dev, q, false, once) == dev,
    decreases q.len(),
{
    if q.len() > 0 && q[0].data_cnt == 0 && !once {
        lemma_purge_dev_no_flush(dev, q.drop_first(), once);
    }
}

impl JbdJournal {
    /// Whether the space manager and the checkpoint queue are consistent:
    /// the window endpoints lie in the log, every queued transaction is well
    /// formed, sits in the log, and carries a transaction id between the
    /// tail id and the next id to assign, in strictly increasing order.
    pub open spec fn wf(self) -> bool {
        &&& 1 <= self.first
        &&& 2 <= self.maxlen
        &&& self.first + 2 * self.maxlen <= u32::MAX
        &&& spec_in_log(self.first, self.maxlen, self.start)
        &&& spec_in_log(self.first, self.maxlen, self.last)
        &&& self.block_size == BLOCK_SIZE as u32
        &&& self.trans_id <= self.alloc_trans_id
        &&& forall|i: int|
            0 <= i < self.cp_queue.queue@.len() ==> {
                let t = #[trigger] self.cp_queue.queue@[i];
                &&& t.wf()
                &&& spec_in_log(self.first, self.maxlen, t.start_iblock)
                &&& 1 <= t.alloc_blocks <= self.maxlen
                &&& self.trans_id <= t.trans_id
                &&& t.trans_id < self.alloc_trans_id
            }
        &&& forall|i: int, j: int|
            0 <= i < j < self.cp_queue.queue@.len() ==> (#[trigger] self.cp_queue.queue@[i]).trans_id
                < (#[trigger] self.cp_queue.queue@[j]).trans_id
    }

    /// Whether every queued transaction's home locations lie on a device of
    /// `dev_len` blocks.
    pub open spec fn queue_within(self, dev_len: int) -> bool {
        forall|i: int|
            0 <= i < self.cp_queue.queue@.len() ==> (#[trigger] self.cp_queue.queue@[i]).bufs_within(
                dev_len,
            )
    }

    /// A zeroed journal; `journal_start` on the facade builds the live one.
    pub fn new() -> (r: JbdJournal)
        ensures
            r.first == 0,
            r.start == 0,
            r.last == 0,
            r.maxlen == 0,
            r.trans_id == 0,
            r.alloc_trans_id == 0,
            r.block_size == BLOCK_SIZE as u32,
            r.feature_incompat == 0,
            r.cp_queue.queue@.len() == 0,
    {
        JbdJournal {
            first: 0,
            start: 0,
            last: 0,
            maxlen: 0,
            trans_id: 0,
            alloc_trans_id: 0,
            block_size: BLOCK_SIZE as u32,
            feature_incompat: 0,
            cp_queue: crate::defs::CheckpointQueue::new(),
        }
    }

    /// Whether the given incompatible feature bits are all enabled.
    pub fn has_feature(&self, feature: u32) -> (r: bool)
        ensures
            r == (self.feature_incompat & feature == feature),
    {
        self.feature_incompat & feature == feature
    }

    /// Folds a log position back into the window.
    pub fn wrap(&self, n: &mut u32)
        requires
            1 <= self.first,
            self.first + self.maxlen <= u32::MAX,
        ensures
            *final(n) == spec_wrapped(self.first, self.maxlen, *old(n) as int),
    {
        if *n >= self.first + self.maxlen {
            *n = *n - self.maxlen;
        }
    }

    /// Writes every dirty block of the transaction to its home location and
    /// records them all as written back.
    pub fn jbd_journal_flush_trans(&self, trans: &mut Transaction, bdev: &mut BlockDevice)
        requires
            old(trans).wf(),
            old(trans).bufs_within(old(bdev)@.len() as int),
            old(bdev).wf(),
        ensures
            final(bdev).wf(),
            final(bdev)@.len() == old(bdev)@.len(),
            final(bdev)@ == spec_flushed_device(
                old(bdev)@,
                old(trans).buf_queue@,
                old(trans).buf_queue@.len() as int,
            ),
            final(trans).written_cnt == old(trans).data_cnt,
            *final(trans) == (Transaction { written_cnt: old(trans).data_cnt, ..*old(trans) }),
            final(trans).wf(),
    {
        let mut i: usize = 0;
        let n = trans.buf_queue.len();
        while i < n
            invariant
                i <= n,
                *trans == *old(trans),
                n == trans.buf_queue@.len(),
                trans.wf(),
                trans.bufs_within(old(bdev)@.len() as int),
                bdev.wf(),
                bdev@.len() == old(bdev)@.len(),
                bdev@ == spec_flushed_device(old(bdev)@, trans.buf_queue@, i as int),
            decreases n - i,
        {
            let buf = &trans.buf_queue[i];
            let lba = buf.block.lb_id as usize;
            proof {
                assert(spec_buf_wf(trans.buf_queue@[i as int]));
                assert(buf.block.lb_id < bdev@.len());
                assert(lba as int * (BLOCK_SIZE as int) % (BLOCK_SIZE as int) == 0);
                assert(lba as int * (BLOCK_SIZE as int) / (BLOCK_SIZE as int) == lba);
                assert(lba * BLOCK_SIZE <= bdev@.len() * BLOCK_SIZE) by (nonlinear_arith)
                    requires
                        lba < bdev@.len(),
                ;
            }
            bdev.write_offset(lba * BLOCK_SIZE, &buf.block.data);
            i = i + 1;
        }
        trans.written_cnt = trans.data_cnt;
    }

    /// Advances the log tail over checkpointed transactions.  The front
    /// transaction is popped while it has no data or, with `flush`, after
    /// its data has been written back to its home locations; without `flush`
    /// the tail is parked at the first transaction still carrying unwritten
    /// data; with `once` at most one transaction is popped.
    pub fn jbd_journal_purge_cp_trans(&mut self, flush: bool, once: bool, bdev: &mut BlockDevice)
        requires
            old(self).wf(),
            old(self).queue_within(old(bdev)@.len() as int),
            old(bdev).wf(),
        ensures
            final(self).wf(),
            final(self).queue_within(final(bdev)@.len() as int),
            final(bdev).wf(),
            final(bdev)@.len() == old(bdev)@.len(),
            final(self).first == old(self).first,
            final(self).maxlen == old(self).maxlen,
            final(self).last == old(self).last,
            final(self).alloc_trans_id == old(self).alloc_trans_id,
            final(self).block_size == old(self).block_size,
            final(self).feature_incompat == old(self).feature_incompat,
            final(self).trans_id >= old(self).trans_id,
            ({
                let (q2, s2, t2) = spec_purge(
                    old(self).cp_queue.queue@,
                    old(self).start,
                    old(self).trans_id,
                    old(self).first,
                    old(self).maxlen,
                    flush,
                    once,
                );
                final(self).cp_queue.queue@ == q2 && final(self).start == s2
                    && final(self).trans_id == t2
            }),
            forall|b: int|
                0 <= b < old(bdev)@.len() && !spec_queue_homes(old(self).cp_queue.queue@, b)
                    ==> final(bdev)@[b] == old(bdev)@[b],
            forall|b: int|
                spec_queue_homes(final(self).cp_queue.queue@, b) ==> spec_queue_homes(
                    old(self).cp_queue.queue@,
                    b,
                ),
            final(bdev)@ == spec_purge_dev(old(bdev)@, old(self).cp_queue.queue@, flush, once),
            !flush ==> final(bdev)@ == old(bdev)@,
            old(self).cp_queue.queue@.len() == 0 ==> final(bdev)@ == old(bdev)@ && *final(self)
                == *old(self),
    {
        let ghost q0 = old(self).cp_queue.queue@;
        let ghost s0 = old(self).start;
        let ghost t0 = old(self).trans_id;
        let ghost d0 = old(bdev)@;
        proof {
            if !flush {
                lemma_purge_dev_no_flush(d0, q0, once);
            }
        }
        let mut done: bool = false;
        while !done && self.cp_queue.queue.len() > 0
            invariant
                q0 == old(self).cp_queue.queue@,
                s0 == old(self).start,
                t0 == old(self).trans_id,
                d0 == old(bdev)@,
                done ==> spec_purge_dev(d0, q0, flush, once) == bdev@,
                !done ==> spec_purge_dev(d0, q0, flush, once) == spec_purge_dev(
                    bdev@,
                    self.cp_queue.queue@,
                    flush,
                    once,
                ),
                self.wf(),
                self.queue_within(bdev@.len() as int),
                bdev.wf(),
                bdev@.len() == old(bdev)@.len(),
                self.first == old(self).first,
                self.maxlen == old(self).maxlen,
                self.last == old(self).last,
                self.alloc_trans_id == old(self).alloc_trans_id,
                self.block_size == old(self).block_size,
                self.feature_incompat == old(self).feature_incompat,
                self.trans_id >= old(self).trans_id,
                done ==> spec_purge(q0, s0, t0, self.first, self.maxlen, flush, once) == (
                self.cp_queue.queue@,
                self.start,
                self.trans_id,
                ),
                !done ==> spec_purge(q0, s0, t0, self.first, self.maxlen, flush, once)
                    == spec_purge(
                    self.cp_queue.queue@,
                    self.start,
                    self.trans_id,
                    self.first,
                    self.maxlen,
                    flush,
                    once,
                ),
                forall|b: int|
                    spec_queue_homes(self.cp_queue.queue@, b) ==> spec_queue_homes(q0, b),
                forall|b: int|
                    0 <= b < old(bdev)@.len() && !spec_queue_homes(q0, b) ==> bdev@[b] == old(
                        bdev,
                    )@[b],
                q0.len() == 0 ==> *self == *old(self) && bdev@ == old(bdev)@ && !done,
            decreases self.cp_queue.queue@.len() + (if done {
                0int
            } else {
                1int
            }),
        {
            proof {
                // The loop runs only on a non-empty queue, so a journal that
                // started with an empty queue never reaches the body.
                if q0.len() == 0 {
                    assert(self.cp_queue.queue@ == old(self).cp_queue.queue@);
                    assert(false);
                }
            }
            let ghost q_iter = self.cp_queue.queue@;
            let dc = self.cp_queue.queue[0].data_cnt;
            let wc = self.cp_queue.queue[0].written_cnt;
            let si = self.cp_queue.queue[0].start_iblock;
            let ti = self.cp_queue.queue[0].trans_id;
            let ab = self.cp_queue.queue[0].alloc_blocks;
            if dc == 0 || (flush && dc == wc) {
                let _popped = self.cp_queue.queue.pop_front();
                let mut ns: u32 = si + ab;
                self.wrap(&mut ns);
                self.start = ns;
                self.trans_id = ti + 1;
                if once {
                    done = true;
                }
                proof {
                    assert(self.cp_queue.queue@ =~= q_iter.drop_first());
                    assert forall|b: int|
                        spec_queue_homes(self.cp_queue.queue@, b) implies spec_queue_homes(
                        q0,
                        b,
                    ) by {
                        let (i, k) = choose|i: int, k: int|
                            0 <= i < self.cp_queue.queue@.len() && 0 <= k
                                < self.cp_queue.queue@[i].buf_queue@.len()
                                && self.cp_queue.queue@[i].buf_queue@[k].block.lb_id == b;
                        assert(q_iter[i + 1].buf_queue@[k].block.lb_id == b);
                        assert(spec_queue_homes(q_iter, b));
                    }
                }
            } else if !flush {
                self.start = si;
                self.trans_id = ti;
                done = true;
            } else {
                let popped = self.cp_queue.queue.pop_front();
                let mut t = popped.unwrap();
                proof {
                    assert(t == q_iter[0]);
                    assert(t.wf() && t.bufs_within(bdev@.len() as int));
                }
                let ghost dev_before = bdev@;
                self.jbd_journal_flush_trans(&mut t, bdev);
                proof {
                    lemma_flushed_device_props(dev_before, t.buf_queue@, t.buf_queue@.len() as int);
                    assert forall|b: int|
                        0 <= b < old(bdev)@.len() && !spec_queue_homes(q0, b) implies bdev@[b]
                        == old(bdev)@[b] by {
                        assert forall|k: int|
                            0 <= k < t.buf_queue@.len() implies (
                            #[trigger] t.buf_queue@[k]).block.lb_id != b by {
                            if t.buf_queue@[k].block.lb_id == b {
                                assert(q_iter[0].buf_queue@[k].block.lb_id == b);
                                assert(spec_queue_homes(q_iter, b));
                            }
                        }
                        assert(bdev@[b] == dev_before[b]);
                    }
                }
                let mut ns: u32 = si + ab;
                self.wrap(&mut ns);
                self.start = ns;
                self.trans_id = ti + 1;
                if once {
                    done = true;
                }
                proof {
                    assert(self.cp_queue.queue@ =~= q_iter.drop_first());
                    assert forall|b: int|
                        spec_queue_homes(self.cp_queue.queue@, b) implies spec_queue_homes(
                        q0,
                        b,
                    ) by {
                        let (i, k) = choose|i: int, k: int|
                            0 <= i < self.cp_queue.queue@.len() && 0 <= k
                                < self.cp_queue.queue@[i].buf_queue@.len()
                                && self.cp_queue.queue@[i].buf_queue@[k].block.lb_id == b;
                        assert(q_iter[i + 1].buf_queue@[k].block.lb_id == b);
                        assert(spec_queue_homes(q_iter, b));
                    }
                }
            }
        }
    }

    /// Allocates the next sequential log block for the transaction: returns
    /// the current head of the free window and advances it, wrapping inside
    /// the circular log.  When the log is full, one checkpointed transaction
    /// is purged; if the log is still full, allocation fails.
    pub fn jbd_journal_alloc_block(
        &mut self,
        trans: &mut Transaction,
        bdev: &mut BlockDevice,
    ) -> (r: Result<u32, JbdError>)
        requires
            old(self).wf(),
            old(self).queue_within(old(bdev)@.len() as int),
            old(bdev).wf(),
            old(trans).alloc_blocks < u32::MAX,
        ensures
            final(self).wf(),
            final(self).queue_within(final(bdev)@.len() as int),
            final(bdev).wf(),
            final(bdev)@.len() == old(bdev)@.len(),
            final(self).first == old(self).first,
            final(self).maxlen == old(self).maxlen,
            final(self).alloc_trans_id == old(self).alloc_trans_id,
            final(self).block_size == old(self).block_size,
            final(self).feature_incompat == old(self).feature_incompat,
            final(self).trans_id >= old(self).trans_id,
            forall|b: int|
                0 <= b < old(bdev)@.len() && !spec_queue_homes(old(self).cp_queue.queue@, b)
                    ==> final(bdev)@[b] == old(bdev)@[b],
            forall|b: int|
                spec_queue_homes(final(self).cp_queue.queue@, b) ==> spec_queue_homes(
                    old(self).cp_queue.queue@,
                    b,
                ),
            final(trans).trans_id == old(trans).trans_id,
            final(trans).start_iblock == old(trans).start_iblock,
            final(trans).data_cnt == old(trans).data_cnt,
            final(trans).written_cnt == old(trans).written_cnt,
            final(trans).error == old(trans).error,
            final(trans).buf_queue == old(trans).buf_queue,
            final(trans).revoke_root == old(trans).revoke_root,
            r matches Ok(ib) ==> {
                &&& ib == old(self).last
                &&& spec_in_log(old(self).first, old(self).maxlen, ib)
                &&& final(self).last == spec_wrapped(
                    old(self).first,
                    old(self).maxlen,
                    old(self).last + 1,
                )
                &&& final(trans).alloc_blocks == old(trans).alloc_blocks + 1
                &&& (spec_log_free(*old(self)) >= 1 ==> final(self).start == old(self).start
                    && final(self).trans_id == old(self).trans_id && final(self).cp_queue == old(
                    self,
                ).cp_queue && final(bdev)@ == old(bdev)@ && spec_log_used(*final(self))
                    == spec_log_used(*old(self)) + 1)
            },
            spec_log_free(*old(self)) >= 1 ==> r is Ok,
            final(bdev)@ == (if spec_wrapped(old(self).first, old(self).maxlen, old(self).last + 1)
                == old(self).start {
                spec_purge_dev(old(bdev)@, old(self).cp_queue.queue@, true, true)
            } else {
                old(bdev)@
            }),
            r is Err <==> (spec_wrapped(old(self).first, old(self).maxlen, old(self).last + 1)
                == old(self).start && spec_purge(
                old(self).cp_queue.queue@,
                old(self).start,
                old(self).trans_id,
                old(self).first,
                old(self).maxlen,
                true,
                true,
            ).1 == spec_wrapped(old(self).first, old(self).maxlen, old(self).last + 1)),
            r is Err ==> r == Result::<u32, JbdError>::Err(JbdError::LogFull) && final(self).last
                == old(self).last && *final(trans) == *old(trans),
    {
        let r = self.last;
        let mut next: u32 = self.last + 1;
        self.wrap(&mut next);
        proof {
            if spec_log_free(*old(self)) >= 1 {
                assert(next != self.start);
            }
        }
        if next == self.start {
            self.jbd_journal_purge_cp_trans(true, true, bdev);
            if next == self.start {
                return Err(JbdError::LogFull);
            }
        }
        self.last = next;
        trans.alloc_blocks = trans.alloc_blocks + 1;
        Ok(r)
    }

    /// Appends one descriptor tag to a block under construction.
    pub fn jbd_write_block_tag(&self, out: &mut Vec<u8>, tag_info: &TagInfo) -> (r: Result<
        (),
        JbdError,
    >)
        requires
            tag_info.uuid_exist ==> tag_info.uuid@.len() == UUID_SIZE,
        ensures
            r is Ok,
            final(out)@ == old(out)@ + spec_tag_info_bytes(*tag_info),
    {
        let mut flags: u16 = 0;
        if tag_info.is_escape {
            flags = flags + 1;
        }
        if !tag_info.uuid_exist {
            flags = flags + 2;
        }
        if tag_info.last_tag {
            flags = flags + 8;
        }
        let tag3 = JbdBlockTag3 {
            blocknr: (tag_info.block % 0x1_0000_0000u64) as u32,
            checksum: (tag_info.checksum % 0x10000) as u16,
            flags,
            blocknr_high: (tag_info.block / 0x1_0000_0000u64) as u32,
        };
        let bytes = tag3.to_be_bytes();
        out.extend_from_slice(bytes.as_slice());
        if tag_info.uuid_exist {
            out.extend_from_slice(tag_info.uuid.as_slice());
            proof {
                assert(out@ =~= old(out)@ + spec_tag_info_bytes(*tag_info));
            }
        } else {
            proof {
                assert(out@ =~= old(out)@ + spec_tag_info_bytes(*tag_info));
            }
        }
        Ok(())
    }

    /// Writes the transaction's descriptor block: the header, one tag per
    /// dirty block in order, the last-tag flag on the final tag, and the
    /// same-UUID flag on every tag.
    pub fn write_descriptor_block(&mut self, trans: &mut Transaction, bdev: &mut BlockDevice) -> (r:
        Result<u32, JbdError>)
        requires
            old(self).wf(),
            old(trans).wf(),
            old(self).queue_within(old(bdev)@.len() as int),
            old(bdev).wf(),
            old(bdev)@.len() >= old(self).first + old(self).maxlen,
            old(trans).data_cnt >= 1,
            BHDR_SIZE + old(trans).data_cnt * TAG3_SIZE <= BLOCK_SIZE,
            old(trans).alloc_blocks < u32::MAX,
        ensures
            final(self).wf(),
            final(self).queue_within(final(bdev)@.len() as int),
            final(bdev).wf(),
            final(bdev)@.len() == old(bdev)@.len(),
            final(self).first == old(self).first,
            final(self).maxlen == old(self).maxlen,
            final(self).alloc_trans_id == old(self).alloc_trans_id,
            final(self).block_size == old(self).block_size,
            final(self).feature_incompat == old(self).feature_incompat,
            final(self).trans_id >= old(self).trans_id,
            final(trans).trans_id == old(trans).trans_id,
            final(trans).start_iblock == old(trans).start_iblock,
            final(trans).data_cnt == old(trans).data_cnt,
            final(trans).written_cnt == old(trans).written_cnt,
            final(trans).error == old(trans).error,
            final(trans).buf_queue == old(trans).buf_queue,
            final(trans).revoke_root == old(trans).revoke_root,
            forall|b: int|
                0 <= b < old(bdev)@.len() && !spec_queue_homes(old(self).cp_queue.queue@, b)
                    && !spec_in_log_int(old(self).first, old(self).maxlen, b) ==> final(bdev)@[b]
                    == old(bdev)@[b],
            forall|b: int|
                spec_queue_homes(final(self).cp_queue.queue@, b) ==> spec_queue_homes(
                    old(self).cp_queue.queue@,
                    b,
                ),
            r matches Ok(ib) ==> {
                &&& ib == old(self).last
                &&& final(trans).alloc_blocks == old(trans).alloc_blocks + 1
                &&& final(self).last == spec_wrapped(
                    old(self).first,
                    old(self).maxlen,
                    old(self).last + 1,
                )
                &&& (spec_log_free(*old(self)) >= 1 ==> final(self).start == old(self).start
                    && final(self).trans_id == old(self).trans_id
                    && final(self).cp_queue == old(self).cp_queue
                    && spec_log_used(*final(self)) == spec_log_used(*old(self)) + 1
                    && final(bdev)@ == old(bdev)@.update(
                    old(self).last as int,
                    spec_desc_block(*old(trans)),
                ))
            },
            spec_log_free(*old(self)) >= 1 ==> r is Ok,
            r matches Ok(ib) ==> final(bdev)@ == (if spec_wrapped(
                old(self).first,
                old(self).maxlen,
                old(self).last + 1,
            ) == old(self).start {
                spec_purge_dev(old(bdev)@, old(self).cp_queue.queue@, true, true)
            } else {
                old(bdev)@
            }).update(ib as int, spec_desc_block(*old(trans))),
            r is Err ==> r == Result::<u32, JbdError>::Err(JbdError::LogFull) && *final(trans)
                == *old(trans) && final(bdev)@ == spec_purge_dev(
                old(bdev)@,
                old(self).cp_queue.queue@,
                true,
                true,
            ),
    {
        let desc_iblock = match self.jbd_journal_alloc_block(trans, bdev) {
            Ok(b) => b,
            Err(e) => {
                return Err(e);
            },
        };
        let bhdr = JbdBhdr {
            magic: JBD_MAGIC_NUMBER,
            blocktype: JBD_DESCRIPTOR_BLOCK,
            sequence: trans.trans_id,
        };
        let mut block = bhdr.to_be_bytes();
        let n = trans.buf_queue.len();
        let mut i: usize = 0;
        while i < n
            invariant
                i <= n,
                n == trans.buf_queue@.len(),
                trans.wf(),
                n * TAG3_SIZE + BHDR_SIZE <= BLOCK_SIZE,
                block@ == spec_bhdr_bytes(bhdr) + spec_tags_prefix(trans.buf_queue@, i as int),
                block@.len() == BHDR_SIZE + i * TAG3_SIZE,
            decreases n - i,
        {
            let buf = &trans.buf_queue[i];
            let mut info = TagInfo::new();
            info.block = buf.block.lb_id;
            info.is_escape = buf.escape;
            info.last_tag = i == n - 1;
            let _ = self.jbd_write_block_tag(&mut block, &info);
            proof {
                assert(spec_tag_info_bytes(info) =~= spec_tag3_bytes(
                    spec_tag_for_buf(trans.buf_queue@[i as int], i + 1 == n),
                ));
                assert(block@ =~= spec_bhdr_bytes(bhdr) + spec_tags_prefix(
                    trans.buf_queue@,
                    i + 1 as int,
                ));
            }
            i = i + 1;
        }
        let pad = BLOCK_SIZE - block.len();
        push_zeros(&mut block, pad);
        proof {
            assert(block@ =~= spec_desc_block(*trans));
            assert(spec_desc_block(*trans) == spec_desc_block(*old(trans)));
        }
        bdev.write_block(desc_iblock as usize, &block);
        Ok(desc_iblock)
    }

    /// Writes the transaction's revoke block: the header, the byte count of
    /// the record, and the revoked addresses packed big-endian in ascending
    /// order.
    pub fn write_revoke_block(&mut self, trans: &mut Transaction, bdev: &mut BlockDevice) -> (r:
        Result<u32, JbdError>)
        requires
            old(self).wf(),
            old(trans).wf(),
            old(self).queue_within(old(bdev)@.len() as int),
            old(bdev).wf(),
            old(bdev)@.len() >= old(self).first + old(self).maxlen,
            16 + 4 * old(trans).revoke_root@.len() <= BLOCK_SIZE,
            old(trans).alloc_blocks < u32::MAX,
        ensures
            final(self).wf(),
            final(self).queue_within(final(bdev)@.len() as int),
            final(bdev).wf(),
            final(bdev)@.len() == old(bdev)@.len(),
            final(self).first == old(self).first,
            final(self).maxlen == old(self).maxlen,
            final(self).alloc_trans_id == old(self).alloc_trans_id,
            final(self).block_size == old(self).block_size,
            final(self).feature_incompat == old(self).feature_incompat,
            final(self).trans_id >= old(self).trans_id,
            final(trans).trans_id == old(trans).trans_id,
            final(trans).start_iblock == old(trans).start_iblock,
            final(trans).data_cnt == old(trans).data_cnt,
            final(trans).written_cnt == old(trans).written_cnt,
            final(trans).error == old(trans).error,
            final(trans).buf_queue == old(trans).buf_queue,
            final(trans).revoke_root == old(trans).revoke_root,
            forall|b: int|
                0 <= b < old(bdev)@.len() && !spec_queue_homes(old(self).cp_queue.queue@, b)
                    && !spec_in_log_int(old(self).first, old(self).maxlen, b) ==> final(bdev)@[b]
                    == old(bdev)@[b],
            forall|b: int|
                spec_queue_homes(final(self).cp_queue.queue@, b) ==> spec_queue_homes(
                    old(self).cp_queue.queue@,
                    b,
                ),
            r matches Ok(ib) ==> {
                &&& ib == old(self).last
                &&& final(trans).alloc_blocks == old(trans).alloc_blocks + 1
                &&& final(self).last == spec_wrapped(
                    old(self).first,
                    old(self).maxlen,
                    old(self).last + 1,
                )
                &&& (spec_log_free(*old(self)) >= 1 ==> final(self).start == old(self).start
                    && final(self).trans_id == old(self).trans_id
                    && final(self).cp_queue == old(self).cp_queue
                    && spec_log_used(*final(self)) == spec_log_used(*old(self)) + 1
                    && final(bdev)@ == old(bdev)@.update(
                    old(self).last as int,
                    spec_revoke_block(*old(trans)),
                ))
            },
            spec_log_free(*old(self)) >= 1 ==> r is Ok,
            r matches Ok(ib) ==> final(bdev)@ == (if spec_wrapped(
                old(self).first,
                old(self).maxlen,
                old(self).last + 1,
            ) == old(self).start {
                spec_purge_dev(old(bdev)@, old(self).cp_queue.queue@, true, true)
            } else {
                old(bdev)@
            }).update(ib as int, spec_revoke_block(*old(trans))),
            r is Err ==> r == Result::<u32, JbdError>::Err(JbdError::LogFull) && *final(trans)
                == *old(trans) && final(bdev)@ == spec_purge_dev(
                old(bdev)@,
                old(self).cp_queue.queue@,
                true,
                true,
            ),
    {
        let revoke_iblock = match self.jbd_journal_alloc_block(trans, bdev) {
            Ok(b) => b,
            Err(e) => {
                return Err(e);
            },
        };
        let n = trans.revoke_root.len();
        let rhdr = crate::defs::JbdRevokeHeader {
            header: JbdBhdr {
                magic: JBD_MAGIC_NUMBER,
                blocktype: JBD_REVOKE_BLOCK,
                sequence: trans.trans_id,
            },
            count: (16 + 4 * n) as u32,
        };
        let mut block = rhdr.to_be_bytes();
        let mut i: usize = 0;
        while i < n
            invariant
                i <= n,
                n == trans.revoke_root@.len(),
                4 * n + 16 <= BLOCK_SIZE,
                block@ == spec_bhdr_bytes(rhdr.header) + spec_be32((16 + 4 * n) as u32)
                    + spec_revokes_prefix(trans.revoke_root@, i as int),
                block@.len() == 16 + i * 4,
            decreases n - i,
        {
            let lba = trans.revoke_root[i].lba;
            push_be32(&mut block, lba);
            proof {
                assert(block@ =~= spec_bhdr_bytes(rhdr.header) + spec_be32((16 + 4 * n) as u32)
                    + spec_revokes_prefix(trans.revoke_root@, i + 1 as int));
            }
            i = i + 1;
        }
        let pad = BLOCK_SIZE - block.len();
        push_zeros(&mut block, pad);
        proof {
            assert(block@ =~= spec_revoke_block(*trans));
            assert(spec_revoke_block(*trans) == spec_revoke_block(*old(trans)));
        }
        bdev.write_block(revoke_iblock as usize, &block);
        Ok(revoke_iblock)
    }

    /// Writes the transaction's commit block: a bare header carrying the
    /// transaction id; once it is durable the transaction is committed.
    pub fn write_commit_block(&mut self, trans: &mut Transaction, bdev: &mut BlockDevice) -> (r:
        Result<u32, JbdError>)
        requires
            old(self).wf(),
            old(trans).wf(),
            old(self).queue_within(old(bdev)@.len() as int),
            old(bdev).wf(),
            old(bdev)@.len() >= old(self).first + old(self).maxlen,
            old(trans).alloc_blocks < u32::MAX,
        ensures
            final(self).wf(),
            final(self).queue_within(final(bdev)@.len() as int),
            final(bdev).wf(),
            final(bdev)@.len() == old(bdev)@.len(),
            final(self).first == old(self).first,
            final(self).maxlen == old(self).maxlen,
            final(self).alloc_trans_id == old(self).alloc_trans_id,
            final(self).block_size == old(self).block_size,
            final(self).feature_incompat == old(self).feature_incompat,
            final(self).trans_id >= old(self).trans_id,
            final(trans).trans_id == old(trans).trans_id,
            final(trans).start_iblock == old(trans).start_iblock,
            final(trans).data_cnt == old(trans).data_cnt,
            final(trans).written_cnt == old(trans).written_cnt,
            final(trans).error == old(trans).error,
            final(trans).buf_queue == old(trans).buf_queue,
            final(trans).revoke_root == old(trans).revoke_root,
            forall|b: int|
                0 <= b < old(bdev)@.len() && !spec_queue_homes(old(self).cp_queue.queue@, b)
                    && !spec_in_log_int(old(self).first, old(self).maxlen, b) ==> final(bdev)@[b]
                    == old(bdev)@[b],
            forall|b: int|
                spec_queue_homes(final(self).cp_queue.queue@, b) ==> spec_queue_homes(
                    old(self).cp_queue.queue@,
                    b,
                ),
            r matches Ok(ib) ==> {
                &&& ib == old(self).last
                &&& final(trans).alloc_blocks == old(trans).alloc_blocks + 1
                &&& final(self).last == spec_wrapped(
                    old(self).first,
                    old(self).maxlen,
                    old(self).last + 1,
                )
                &&& (spec_log_free(*old(self)) >= 1 ==> final(self).start == old(self).start
                    && final(self).trans_id == old(self).trans_id
                    && final(self).cp_queue == old(self).cp_queue
                    && spec_log_used(*final(self)) == spec_log_used(*old(self)) + 1
                    && final(bdev)@ == old(bdev)@.update(
                    old(self).last as int,
                    spec_commit_block(*old(trans)),
                ))
            },
            spec_log_free(*old(self)) >= 1 ==> r is Ok,
            r matches Ok(ib) ==> final(bdev)@ == (if spec_wrapped(
                old(self).first,
                old(self).maxlen,
                old(self).last + 1,
            ) == old(self).start {
                spec_purge_dev(old(bdev)@, old(self).cp_queue.queue@, true, true)
            } else {
                old(bdev)@
            }).update(ib as int, spec_commit_block(*old(trans))),
            r is Err ==> r == Result::<u32, JbdError>::Err(JbdError::LogFull) && *final(trans)
                == *old(trans) && final(bdev)@ == spec_purge_dev(
                old(bdev)@,
                old(self).cp_queue.queue@,
                true,
                true,
            ),
    {
        let commit_iblock = match self.jbd_journal_alloc_block(trans, bdev) {
            Ok(b) => b,
            Err(e) => {
                return Err(e);
            },
        };
        let bhdr = JbdBhdr {
            magic: JBD_MAGIC_NUMBER,
            blocktype: JBD_COMMIT_BLOCK,
            sequence: trans.trans_id,
        };
        let mut block = bhdr.to_be_bytes();
        let pad = BLOCK_SIZE - block.len();
        push_zeros(&mut block, pad);
        proof {
            assert(block@ =~= spec_commit_block(*trans));
            assert(spec_commit_block(*trans) == spec_commit_block(*old(trans)));
        }
        bdev.write_block(commit_iblock as usize, &block);
        Ok(commit_iblock)
    }

    /// Commits a transaction: assigns it the next transaction id, writes its
    /// descriptor, data, revoke and commit blocks into sequential log blocks,
    /// then advances the journal state and enqueues the transaction for
    /// checkpoint.  When the log starts with enough free blocks, the exact
    /// position and content of every written log block is guaranteed.
    #[verifier::rlimit(100)]
    #[verifier::spinoff_prover]
    pub fn commit_trans(&mut self, trans: Transaction, bdev: &mut BlockDevice) -> (r: Result<
        (),
        JbdError,
    >)
        requires
            old(self).wf(),
            trans.wf(),
            old(self).queue_within(old(bdev)@.len() as int),
            trans.bufs_within(old(bdev)@.len() as int),
            old(bdev).wf(),
            old(bdev)@.len() >= old(self).first + old(self).maxlen,
            old(self).alloc_trans_id < u32::MAX,
            BHDR_SIZE + trans.data_cnt * TAG3_SIZE <= BLOCK_SIZE,
            16 + 4 * trans.revoke_root@.len() <= BLOCK_SIZE,
            spec_blocks_needed(trans) < old(self).maxlen,
            trans.alloc_blocks == 0,
            trans.written_cnt == 0,
        ensures
            final(self).wf(),
            final(self).queue_within(final(bdev)@.len() as int),
            final(bdev).wf(),
            final(bdev)@.len() == old(bdev)@.len(),
            final(self).first == old(self).first,
            final(self).maxlen == old(self).maxlen,
            final(self).block_size == old(self).block_size,
            final(self).feature_incompat == old(self).feature_incompat,
            final(self).trans_id >= old(self).trans_id,
            forall|b: int|
                0 <= b < old(bdev)@.len() && !spec_queue_homes(old(self).cp_queue.queue@, b)
                    && !spec_in_log_int(old(self).first, old(self).maxlen, b) ==> final(bdev)@[b]
                    == old(bdev)@[b],
            r is Ok ==> final(self).alloc_trans_id == old(self).alloc_trans_id + 1,
            r is Err ==> r == Result::<(), JbdError>::Err(JbdError::LogFull)
                && final(self).alloc_trans_id == old(self).alloc_trans_id,
            spec_log_free(*old(self)) >= spec_blocks_needed(trans) ==> r is Ok,
            (r is Ok && spec_log_free(*old(self)) >= spec_blocks_needed(trans)) ==> ({
                let needed = spec_blocks_needed(trans);
                let tc = spec_trans_assigned(
                    trans,
                    old(self).alloc_trans_id,
                    old(self).last,
                    needed,
                );
                &&& forall|k: int|
                    0 <= k < needed ==> final(bdev)@[spec_wrapped(
                        old(self).first,
                        old(self).maxlen,
                        old(self).last + k,
                    )] == spec_commit_block_at(tc, k)
                &&& forall|b: int|
                    0 <= b < old(bdev)@.len() && (forall|k: int|
                        0 <= k < needed ==> b != #[trigger] spec_wrapped(
                            old(self).first,
                            old(self).maxlen,
                            old(self).last + k,
                        )) ==> final(bdev)@[b] == old(bdev)@[b]
                &&& final(self).last == spec_wrapped(
                    old(self).first,
                    old(self).maxlen,
                    old(self).last + needed,
                )
                &&& (old(self).cp_queue.queue@.len() == 0 && trans.data_cnt == 0
                    ==> final(self).cp_queue.queue@.len() == 0
                    && final(self).start == final(self).last
                    && final(self).trans_id == old(self).alloc_trans_id + 1)
                &&& (old(self).cp_queue.queue@.len() == 0 && trans.data_cnt > 0
                    ==> final(self).start == old(self).last
                    && final(self).trans_id == old(self).alloc_trans_id
                    && final(self).cp_queue.queue@ == old(self).cp_queue.queue@.push(tc))
                &&& (old(self).cp_queue.queue@.len() > 0 ==> final(self).start == old(self).start
                    && final(self).trans_id == old(self).trans_id && final(self).cp_queue.queue@
                    == old(self).cp_queue.queue@.push(tc))
            }),
    {
        let ghost j0 = *old(self);
        let ghost dev0 = old(bdev)@;
        let ghost needed = spec_blocks_needed(trans);
        let ghost cond = spec_log_free(*old(self)) >= spec_blocks_needed(trans);
        let ghost tc = spec_trans_assigned(trans, old(self).alloc_trans_id, old(self).last, needed);
        let mut trans = trans;
        trans.trans_id = self.alloc_trans_id;
        trans.start_iblock = self.last;
        proof {
            assert(spec_wrapped(j0.first, j0.maxlen, j0.last + 0) == j0.last);
        }
        if trans.data_cnt > 0 {
            match self.write_descriptor_block(&mut trans, bdev) {
                Ok(_) => {},
                Err(_) => {
                    return Err(JbdError::LogFull);
                },
            }
            proof {
                if cond {
                    assert(spec_desc_block(tc) == spec_commit_block_at(tc, 0));
                    assert(bdev@[j0.last as int] == spec_desc_block(tc));
                    assert(forall|k: int|
                        0 <= k < 1 ==> bdev@[spec_wrapped(j0.first, j0.maxlen, j0.last + k)]
                            == spec_commit_block_at(tc, k));
                }
            }
            let n = trans.buf_queue.len();
            let mut i: usize = 0;
            #[verifier::loop_isolation(false)]
            while i < n
                invariant
                    i <= n,
                    n == trans.buf_queue@.len(),
                    needed == spec_blocks_needed(tc),
                    spec_blocks_needed(tc) == spec_blocks_needed(trans),
                    needed < j0.maxlen,
                    n + 2 <= needed,
                    cond == (spec_log_free(j0) >= needed),
                    j0 == *old(self),
                    dev0 == old(bdev)@,
                    tc.data_cnt == n,
                    trans.wf(),
                    trans.bufs_within(dev0.len() as int),
                    trans.trans_id == tc.trans_id,
                    trans.start_iblock == tc.start_iblock,
                    trans.data_cnt == tc.data_cnt,
                    trans.written_cnt == tc.written_cnt,
                    trans.error == tc.error,
                    trans.buf_queue == tc.buf_queue,
                    trans.revoke_root == tc.revoke_root,
                    trans.alloc_blocks == 1 + i,
                    self.wf(),
                    self.queue_within(bdev@.len() as int),
                    bdev.wf(),
                    bdev@.len() == dev0.len(),
                    self.first == j0.first,
                    self.maxlen == j0.maxlen,
                    self.alloc_trans_id == j0.alloc_trans_id,
                    self.block_size == j0.block_size,
                    self.feature_incompat == j0.feature_incompat,
                    self.trans_id >= j0.trans_id,
                    j0.wf(),
                    spec_in_log(j0.first, j0.maxlen, j0.last),
                    dev0.len() >= j0.first + j0.maxlen,
                    tc == spec_trans_assigned(trans, j0.alloc_trans_id, j0.last, needed),
                    forall|b: int|
                        spec_queue_homes(self.cp_queue.queue@, b) ==> spec_queue_homes(
                            j0.cp_queue.queue@,
                            b,
                        ),
                    forall|b: int|
                        0 <= b < dev0.len() && !spec_queue_homes(j0.cp_queue.queue@, b)
                            && !spec_in_log_int(j0.first, j0.maxlen, b) ==> bdev@[b] == dev0[b],
                    cond ==> self.last == spec_wrapped(j0.first, j0.maxlen, j0.last + 1 + i),
                    cond ==> self.start == j0.start && self.trans_id == j0.trans_id
                        && self.cp_queue == j0.cp_queue,
                    cond ==> spec_log_used(*self) == spec_log_used(j0) + 1 + i,
                    cond ==> forall|k: int|
                        0 <= k < 1 + i ==> bdev@[spec_wrapped(j0.first, j0.maxlen, j0.last + k)]
                            == spec_commit_block_at(tc, k),
                    cond ==> forall|b: int|
                        0 <= b < dev0.len() && (forall|k: int|
                            0 <= k < 1 + i ==> b != #[trigger] spec_wrapped(
                                j0.first,
                                j0.maxlen,
                                j0.last + k,
                            )) ==> bdev@[b] == dev0[b],
                decreases n - i,
            {
                let ghost last_before = self.last;
                let ghost used_before = spec_log_used(*self);
                proof {
                    if cond {
                        assert(spec_log_free(*self) == spec_log_free(j0) - 1 - i);
                        assert(spec_log_free(*self) >= 1);
                    }
                }
                let ib = match self.jbd_journal_alloc_block(&mut trans, bdev) {
                    Ok(b) => b,
                    Err(_) => {
                        return Err(JbdError::LogFull);
                    },
                };
                let buf_escape = trans.buf_queue[i].escape;
                let data = if buf_escape {
                    escape_data(&trans.buf_queue[i].block.data)
                } else {
                    trans.buf_queue[i].block.data.clone()
                };
                proof {
                    assert(spec_buf_wf(trans.buf_queue@[i as int]));
                    assert(data@ == spec_log_data_block(trans.buf_queue@[i as int]));
                    assert(ib < bdev@.len());
                }
                bdev.write_block(ib as usize, &data);
                proof {
                    if cond {
                        assert(ib == spec_wrapped(j0.first, j0.maxlen, j0.last + 1 + i));
                        lemma_wrapped_step(j0.first, j0.maxlen, j0.last + 1 + i);
                        assert(self.last == spec_wrapped(j0.first, j0.maxlen, j0.last + 2 + i));
                        assert(spec_commit_block_at(tc, 1 + i) == spec_log_data_block(
                            tc.buf_queue@[i as int],
                        ));
                        assert(bdev@[ib as int] == spec_commit_block_at(tc, 1 + i));
                        assert forall|k: int|
                            0 <= k < 2 + i implies bdev@[spec_wrapped(
                            j0.first,
                            j0.maxlen,
                            j0.last + k,
                        )] == spec_commit_block_at(tc, k) by {
                            if k < 1 + i {
                                lemma_wrapped_injective(j0.first, j0.maxlen, j0.last, k, 1 + i);
                            }
                        }
                    }
                }
                i = i + 1;
            }
        }
        if trans.revoke_root.len() > 0 {
            let ghost before_rev = *self;
            proof {
                if cond {
                    assert(spec_log_free(*self) >= 1);
                }
            }
            let ghost rev_data_blocks: int = if tc.data_cnt > 0 {
                1 + tc.data_cnt as int
            } else {
                0int
            };
            match self.write_revoke_block(&mut trans, bdev) {
                Ok(_) => {},
                Err(_) => {
                    return Err(JbdError::LogFull);
                },
            }
            proof {
                if cond {
                    let db = rev_data_blocks;
                    assert(before_rev.last == spec_wrapped(j0.first, j0.maxlen, j0.last + db));
                    assert(spec_revoke_block(tc) == spec_commit_block_at(tc, db));
                    lemma_wrapped_step(j0.first, j0.maxlen, j0.last + db);
                    assert forall|k: int|
                        0 <= k < db + 1 implies bdev@[spec_wrapped(
                        j0.first,
                        j0.maxlen,
                        j0.last + k,
                    )] == spec_commit_block_at(tc, k) by {
                        if k < db {
                            lemma_wrapped_injective(j0.first, j0.maxlen, j0.last, k, db);
                        }
                    }
                }
            }
        }
        let ghost before_commit = *self;
        let ghost commit_k = needed - 1;
        proof {
            if cond {
                assert(spec_log_free(*self) >= 1);
                assert(before_commit.last == spec_wrapped(j0.first, j0.maxlen, j0.last + commit_k));
            }
        }
        match self.write_commit_block(&mut trans, bdev) {
            Ok(_) => {},
            Err(_) => {
                return Err(JbdError::LogFull);
            },
        }
        proof {
            if cond {
                assert(spec_commit_block(tc) == spec_commit_block_at(tc, commit_k));
                lemma_wrapped_step(j0.first, j0.maxlen, j0.last + commit_k);
                assert(self.last == spec_wrapped(j0.first, j0.maxlen, j0.last + needed));
                assert forall|k: int|
                    0 <= k < needed implies bdev@[spec_wrapped(j0.first, j0.maxlen, j0.last + k)]
                    == spec_commit_block_at(tc, k) by {
                    if k < commit_k {
                        lemma_wrapped_injective(j0.first, j0.maxlen, j0.last, k, commit_k);
                    }
                }
            }
        }
        self.alloc_trans_id = self.alloc_trans_id + 1;
        proof {
            assert(trans.alloc_blocks == needed);
            assert(trans == tc);
        }
        if self.cp_queue.queue.len() == 0 {
            if trans.data_cnt > 0 {
                self.start = trans.start_iblock;
                self.trans_id = trans.trans_id;
                self.cp_queue.queue.push_back(trans);
            } else {
                let mut ns: u32 = trans.start_iblock + trans.alloc_blocks;
                self.wrap(&mut ns);
                self.start = ns;
                self.trans_id = trans.trans_id + 1;
            }
        } else {
            self.cp_queue.queue.push_back(trans);
        }
        Ok(())
    }

    /// Mirrors the journal state into the superblock and writes it to device
    /// block zero: the persisted start is zero exactly when the log is empty,
    /// and the persisted sequence is the id recovery would replay with.
    pub fn jbd_journal_write_sb(&self, sb: &mut JbdSb, bdev: &mut BlockDevice)
        requires
            self.wf(),
            old(sb).wf(),
            old(bdev).wf(),
            old(bdev)@.len() >= 1,
            self.first == old(sb).first,
            self.maxlen == old(sb).maxlen,
        ensures
            final(sb).wf(),
            final(sb).start == (if self.start == self.last {
                0u32
            } else {
                self.start
            }),
            final(sb).sequence == self.trans_id,
            final(sb).header == old(sb).header,
            final(sb).blocksize == old(sb).blocksize,
            final(sb).maxlen == old(sb).maxlen,
            final(sb).first == old(sb).first,
            final(sb).error_val == old(sb).error_val,
            final(sb).feature_compat == old(sb).feature_compat,
            final(sb).feature_incompat == old(sb).feature_incompat,
            final(sb).feature_ro_compat == old(sb).feature_ro_compat,
            final(sb).uuid == old(sb).uuid,
            final(sb).nr_users == old(sb).nr_users,
            final(sb).dynsuper == old(sb).dynsuper,
            final(sb).max_transaction == old(sb).max_transaction,
            final(sb).max_trandata == old(sb).max_trandata,
            final(sb).checksum_type == old(sb).checksum_type,
            final(sb).checksum == old(sb).checksum,
            final(sb).users == old(sb).users,
            final(bdev)@ == old(bdev)@.update(0, crate::codec::spec_sb_block(*final(sb))),
            final(bdev).wf(),
            final(bdev)@.len() == old(bdev)@.len(),
    {
        if self.start == self.last {
            sb.start = 0;
        } else {
            sb.start = self.start;
        }
        sb.sequence = self.trans_id;
        sb.sync_to_disk(bdev);
    }
}

/// A purge that flushes and is not limited to one transaction empties the
/// checkpoint queue.
pub proof fn lemma_purge_drains_all(
    q: Seq<Transaction>,
    start: u32,
    trans_id: u32,
    first: u32,
    maxlen: u32,
)
    ensures
        spec_purge(q, start, trans_id, first, maxlen, true, false).0.len() == 0,
    decreases q.len(),
{
    if q.len() > 0 {
        let t = q[0];
        let ns = spec_wrapped(first, maxlen, t.start_iblock + t.alloc_blocks) as u32;
        let ntid = (t.trans_id + 1) as u32;
        lemma_purge_drains_all(q.drop_first(), ns, ntid, first, maxlen);
    }
}

/// Draining the checkpoint queue that holds exactly one committed
/// transaction parks the log tail right behind it and the tail id one past
/// its id: together with the commit protocol this makes the persisted
/// sequence advance by exactly one for each committed-then-checkpointed
/// transaction.
pub proof fn lemma_purge_drains_single(
    t: Transaction,
    start: u32,
    trans_id: u32,
    first: u32,
    maxlen: u32,
)
    ensures
        ({
            let r = spec_purge(seq![t], start, trans_id, first, maxlen, true, false);
            &&& r.0.len() == 0
            &&& r.1 == spec_wrapped(first, maxlen, t.start_iblock + t.alloc_blocks) as u32
            &&& r.2 == (t.trans_id + 1) as u32
        }),
{
    let q = seq![t];
    let ns = spec_wrapped(first, maxlen, t.start_iblock + t.alloc_blocks) as u32;
    let ntid = (t.trans_id + 1) as u32;
    assert(q.len() == 1 && q[0] == t);
    assert(spec_purge(q, start, trans_id, first, maxlen, true, false) == spec_purge(
        q.drop_first(),
        ns,
        ntid,
        first,
        maxlen,
        true,
        false,
    ));
    assert(q.drop_first().len() == 0);
    assert(spec_purge(q.drop_first(), ns, ntid, first, maxlen, true, false) == (
        q.drop_first(),
        ns,
        ntid,
    ));
}

/// Escape idempotence: replay restores every dirty block's content bitwise.
/// A block whose content opens with the journal magic is stored in the log
/// escaped and replayed with the magic restored; any other block is stored
/// and replayed unchanged.
pub proof fn lemma_replay_restores_content(buf: JbdBuf)
    requires
        spec_buf_wf(buf),
    ensures
        buf.escape ==> crate::codec::spec_unescape_data(spec_log_data_block(buf))
            == buf.block.data@,
        !buf.escape ==> spec_log_data_block(buf) == buf.block.data@,
{
    if buf.escape {
        crate::codec::lemma_escape_round_trip(buf.block.data@);
    }
}

} // verus!
