//! The journal facade and the recovery engine.

use vstd::prelude::*;

use crate::consts::{
    BHDR_SIZE, BLOCK_SIZE, JBD_MAGIC_NUMBER, TAG3_SIZE, UUID_SIZE,
};
use crate::defs::{spec_trans_id_diff, trans_id_diff, Ext4Block, JbdBhdr, JbdError, JbdFs,
    JbdJournal, JbdSb, RecoverInfo, RecoveryAction, RevokeEntry, TagInfo, Transaction};
use crate::device::BlockDevice;
use crate::journal::{spec_blocks_needed, spec_in_log, spec_wrapped};
use crate::transaction::spec_buf_wf;

verus! {

impl JbdFs {
    /// Whether the superblock, the device and their geometry fit together:
    /// the journal window lies on the device and leaves wrap headroom.
    pub open spec fn sb_dev_wf(self) -> bool {
        &&& self.sb.wf()
        &&& self.sb.first + 2 * self.sb.maxlen <= u32::MAX
        &&& self.bdev.wf()
        &&& self.bdev@.len() >= self.sb.first + self.sb.maxlen
    }

    /// Whether the whole facade is consistent: geometry, a well-formed
    /// journal tied to the superblock, the persisted sequence mirroring the
    /// journal tail id, and a well-formed open transaction if any.
    pub open spec fn wf(self) -> bool {
        &&& self.sb_dev_wf()
        &&& self.journal.wf()
        &&& self.journal.first == self.sb.first
        &&& self.journal.maxlen == self.sb.maxlen
        &&& self.sb.sequence == self.journal.trans_id
        &&& self.journal.queue_within(self.bdev@.len() as int)
        &&& (self.curr_trans matches Some(t) ==> t.wf() && t.bufs_within(self.bdev@.len() as int)
            && t.alloc_blocks == 0 && t.written_cnt == 0)
    }

    /// Opens a journal over a device: validates the superblock geometry
    /// against the device and returns the facade with no journal state
    /// started and no transaction open.  Fails with a malformed-record error
    /// exactly when the geometry is unusable.
    pub fn mount(bdev: BlockDevice, sb: JbdSb) -> (r: Result<JbdFs, JbdError>)
        requires
            bdev.wf(),
        ensures
            r matches Ok(fs) ==> {
                &&& fs.sb_dev_wf()
                &&& fs.sb == sb
                &&& fs.bdev == bdev
                &&& !fs.dirty
                &&& fs.curr_trans is None
                &&& fs.journal.cp_queue.queue@.len() == 0
            },
            r is Ok <==> (sb.wf() && sb.first + 2 * sb.maxlen <= u32::MAX && bdev@.len()
                >= sb.first + sb.maxlen),
            r is Err ==> r == Result::<JbdFs, JbdError>::Err(JbdError::MalformedRecord),
    {
        if sb.blocksize != BLOCK_SIZE as u32 || sb.first < 1 || sb.maxlen < 2 {
            return Err(JbdError::MalformedRecord);
        }
        if sb.first as u64 + 2 * (sb.maxlen as u64) > u32::MAX as u64 {
            return Err(JbdError::MalformedRecord);
        }
        if sb.uuid.len() != UUID_SIZE || sb.users.len() != crate::consts::JBD_USERS_SIZE {
            return Err(JbdError::MalformedRecord);
        }
        if sb.start != 0 && (sb.start < sb.first || sb.start >= sb.first + sb.maxlen) {
            return Err(JbdError::MalformedRecord);
        }
        if bdev.num_blocks() < (sb.first + sb.maxlen) as usize {
            return Err(JbdError::MalformedRecord);
        }
        Ok(JbdFs { journal: JbdJournal::new(), sb, bdev, dirty: false, curr_trans: None })
    }

    /// Whether the given incompatible feature bits are all enabled in the
    /// superblock.
    pub fn has_feature(&self, feature: u32) -> (r: bool)
        ensures
            r == (self.sb.feature_incompat & feature == feature),
    {
        self.sb.feature_incompat & feature == feature
    }

    /// Size in bytes of one descriptor tag without its UUID; this engine
    /// always writes the version-3 sixteen-byte layout.
    pub fn jbd_tag_bytes(&self) -> (r: usize)
        ensures
            r == TAG3_SIZE,
    {
        TAG3_SIZE
    }

    /// Folds a log position back into the circular window.
    pub fn wrap(&self, iblock: &mut u32)
        requires
            1 <= self.sb.first,
            self.sb.first + self.sb.maxlen <= u32::MAX,
        ensures
            *final(iblock) == spec_wrapped(self.sb.first, self.sb.maxlen, *old(iblock) as int),
    {
        if *iblock >= self.sb.first + self.sb.maxlen {
            *iblock = *iblock - self.sb.maxlen;
        }
    }

    /// Appends one descriptor tag to a block under construction.
    pub fn jbd_write_block_tag(&self, out: &mut Vec<u8>, tag_info: &TagInfo) -> (r: Result<
        (),
        JbdError,
    >)
        requires
            tag_info.uuid_exist ==> tag_info.uuid@.len() == UUID_SIZE,
        ensures
            r is Ok,
            final(out)@ == old(out)@ + crate::journal::spec_tag_info_bytes(*tag_info),
    {
        self.journal.jbd_write_block_tag(out, tag_info)
    }

    /// Starts the journal from the superblock mirror: an empty window at the
    /// first log block, the next transaction id one past the persisted
    /// sequence, and the cleared state persisted back to the superblock.
    #[verifier::rlimit(100)]
    #[verifier::spinoff_prover]
    pub fn journal_start(&mut self)
        requires
            old(self).sb_dev_wf(),
            old(self).sb.sequence < u32::MAX,
            old(self).curr_trans is None,
            old(self).sb.start == 0,
        ensures
            final(self).wf(),
            final(self).journal.first == old(self).sb.first,
            final(self).journal.start == old(self).sb.first,
            final(self).journal.last == old(self).sb.first,
            final(self).journal.maxlen == old(self).sb.maxlen,
            final(self).journal.trans_id == old(self).sb.sequence + 1,
            final(self).journal.alloc_trans_id == old(self).sb.sequence + 1,
            final(self).journal.cp_queue.queue@.len() == 0,
            final(self).sb.start == 0,
            final(self).sb.sequence == old(self).sb.sequence + 1,
            final(self).sb.first == old(self).sb.first,
            final(self).sb.maxlen == old(self).sb.maxlen,
            final(self).curr_trans is None,
            final(self).dirty,
            final(self).bdev@ == old(self).bdev@.update(
                0,
                crate::codec::spec_sb_block(final(self).sb),
            ),
            final(self).bdev@.len() == old(self).bdev@.len(),
    {
        let journal = JbdJournal {
            first: self.sb.first,
            start: self.sb.first,
            last: self.sb.first,
            maxlen: self.sb.maxlen,
            trans_id: self.sb.sequence + 1,
            alloc_trans_id: self.sb.sequence + 1,
            block_size: self.sb.blocksize,
            feature_incompat: self.sb.feature_incompat,
            cp_queue: crate::defs::CheckpointQueue::new(),
        };
        self.journal = journal;
        self.journal.jbd_journal_write_sb(&mut self.sb, &mut self.bdev);
        self.dirty = true;
    }

    /// Opens a transaction; fails when one is already open.
    pub fn trans_start(&mut self) -> (r: Result<(), JbdError>)
        requires
            old(self).wf(),
        ensures
            final(self).wf(),
            r is Ok <==> old(self).curr_trans is None,
            r is Ok ==> (final(self).curr_trans matches Some(t) && t.data_cnt == 0
                && t.revoke_root@.len() == 0),
            r is Err ==> r == Result::<(), JbdError>::Err(JbdError::ProtocolMisuse) && *final(self)
                == *old(self),
            final(self).sb == old(self).sb,
            final(self).journal == old(self).journal,
            final(self).bdev == old(self).bdev,
    {
        if self.curr_trans.is_some() {
            return Err(JbdError::ProtocolMisuse);
        }
        self.curr_trans = Some(Transaction::new());
        Ok(())
    }

    /// Marks a block dirty in the open transaction, detecting on the way in
    /// whether its content collides with the journal magic; fails when no
    /// transaction is open.
    pub fn write_trans(&mut self, block: Ext4Block) -> (r: Result<(), JbdError>)
        requires
            old(self).wf(),
            block.data@.len() == BLOCK_SIZE,
            block.lb_id < old(self).bdev@.len(),
            (old(self).curr_trans matches Some(t) ==> t.data_cnt < u32::MAX),
        ensures
            final(self).wf(),
            r is Ok <==> old(self).curr_trans is Some,
            r is Err ==> r == Result::<(), JbdError>::Err(JbdError::ProtocolMisuse) && *final(self)
                == *old(self),
            final(self).sb == old(self).sb,
            final(self).journal == old(self).journal,
            final(self).bdev == old(self).bdev,
            r is Ok ==> (old(self).curr_trans matches Some(t0) && final(self).curr_trans
                matches Some(t) && t.data_cnt == t0.data_cnt + 1 && t.buf_queue@.len()
                == t0.buf_queue@.len() + 1 && t.revoke_root@ == t0.revoke_root@
                && t.buf_queue@.last().block.lb_id == block.lb_id
                && t.buf_queue@.last().block.data@ == block.data@
                && t.buf_queue@.last().escape == crate::codec::spec_starts_with_magic(
                block.data@,
            )),
    {
        match &mut self.curr_trans {
            Some(t) => {
                t.jbd_trans_set_block_dirty(block);
                proof {
                    let t0 = old(self).curr_trans->Some_0;
                    let n0 = t0.buf_queue@.len() as int;
                    assert forall|i: int| 0 <= i < t.buf_queue@.len() implies (
                    #[trigger] t.buf_queue@[i]).block.lb_id < self.bdev@.len() by {
                        if i < n0 {
                            assert(t.buf_queue@.subrange(0, n0)[i] == t.buf_queue@[i]);
                            assert(t.buf_queue@[i] == t0.buf_queue@[i]);
                        }
                    }
                }
                Ok(())
            },
            None => Err(JbdError::ProtocolMisuse),
        }
    }

    /// Revokes a block address in the open transaction: replay of that
    /// address is suppressed for this and earlier transactions.  Fails when
    /// no transaction is open.
    pub fn trans_revoke(&mut self, lba: u32) -> (r: Result<(), JbdError>)
        requires
            old(self).wf(),
        ensures
            final(self).wf(),
            r is Ok <==> old(self).curr_trans is Some,
            r is Err ==> r == Result::<(), JbdError>::Err(JbdError::ProtocolMisuse) && *final(self)
                == *old(self),
            final(self).sb == old(self).sb,
            final(self).journal == old(self).journal,
            final(self).bdev == old(self).bdev,
            r is Ok ==> (old(self).curr_trans matches Some(t0) && final(self).curr_trans
                matches Some(t) && t.buf_queue@ == t0.buf_queue@ && t.data_cnt == t0.data_cnt
                && (forall|x: u32|
                crate::transaction::spec_revokes_contain(t.revoke_root@, x) <==> (
                crate::transaction::spec_revokes_contain(t0.revoke_root@, x) || x == lba))),
    {
        match &mut self.curr_trans {
            Some(t) => {
                t.revoke(lba);
                Ok(())
            },
            None => Err(JbdError::ProtocolMisuse),
        }
    }

    /// Commits and closes the open transaction, then persists the superblock
    /// mirror.  Fails with a protocol-misuse error when no transaction is
    /// open, and surfaces a full log; in both cases no transaction remains
    /// open afterwards.
    pub fn trans_stop(&mut self) -> (r: Result<(), JbdError>)
        requires
            old(self).wf(),
            old(self).journal.alloc_trans_id < u32::MAX,
            (old(self).curr_trans matches Some(t) ==> BHDR_SIZE + t.data_cnt * TAG3_SIZE
                <= BLOCK_SIZE && 16 + 4 * t.revoke_root@.len() <= BLOCK_SIZE
                && spec_blocks_needed(t) < old(self).journal.maxlen),
        ensures
            final(self).wf(),
            final(self).curr_trans is None,
            r == Result::<(), JbdError>::Err(JbdError::ProtocolMisuse) <==> old(self).curr_trans
                is None,
            old(self).curr_trans is None ==> final(self).sb == old(self).sb && final(self).bdev
                == old(self).bdev && final(self).journal == old(self).journal,
            r is Ok ==> final(self).journal.alloc_trans_id == old(self).journal.alloc_trans_id
                + 1,
            final(self).sb.sequence >= old(self).sb.sequence,
            final(self).sb.first == old(self).sb.first,
            final(self).sb.maxlen == old(self).sb.maxlen,
            final(self).bdev@.len() == old(self).bdev@.len(),
            old(self).curr_trans matches Some(t0) ==> ((old(self).journal.cp_queue.queue@.len()
                == 0 && crate::journal::spec_log_free(old(self).journal) >= spec_blocks_needed(t0))
                ==> r is Ok
                && (t0.data_cnt == 0
                    ==> final(self).sb.sequence == old(self).journal.alloc_trans_id + 1
                    && final(self).sb.start == 0)
                && (t0.data_cnt > 0
                    ==> final(self).sb.sequence == old(self).journal.alloc_trans_id
                    && final(self).sb.start == old(self).journal.last)
                && ({
                    let tc = crate::journal::spec_trans_assigned(
                        t0,
                        old(self).journal.alloc_trans_id,
                        old(self).journal.last,
                        spec_blocks_needed(t0),
                    );
                    &&& forall|k: int|
                        0 <= k < spec_blocks_needed(t0) ==> final(self).bdev@[spec_wrapped(
                            old(self).journal.first,
                            old(self).journal.maxlen,
                            old(self).journal.last + k,
                        )] == crate::journal::spec_commit_block_at(tc, k)
                    &&& forall|b: int|
                        1 <= b < old(self).bdev@.len() && (forall|k: int|
                            0 <= k < spec_blocks_needed(t0) ==> b != #[trigger] spec_wrapped(
                                old(self).journal.first,
                                old(self).journal.maxlen,
                                old(self).journal.last + k,
                            )) ==> final(self).bdev@[b] == old(self).bdev@[b]
                    &&& final(self).bdev@[0] == crate::codec::spec_sb_block(final(self).sb)
                })),
    {
        let trans = match self.curr_trans.take() {
            Some(t) => t,
            None => {
                return Err(JbdError::ProtocolMisuse);
            },
        };
        let r = self.journal.commit_trans(trans, &mut self.bdev);
        self.journal.jbd_journal_write_sb(&mut self.sb, &mut self.bdev);
        self.dirty = true;
        r
    }

    /// Flushes the checkpoint queue: every committed transaction's data is
    /// written back to its home locations and the log tail advances past
    /// them; the cleared state is persisted to the superblock.
    pub fn flush(&mut self)
        requires
            old(self).wf(),
        ensures
            final(self).wf(),
            final(self).journal.cp_queue.queue@.len() == 0,
            final(self).sb.sequence >= old(self).sb.sequence,
            final(self).curr_trans == old(self).curr_trans,
            final(self).bdev@.len() == old(self).bdev@.len(),
            ({
                let j = old(self).journal;
                let (q2, s2, t2) = crate::journal::spec_purge(
                    j.cp_queue.queue@,
                    j.start,
                    j.trans_id,
                    j.first,
                    j.maxlen,
                    true,
                    false,
                );
                &&& final(self).journal.start == s2
                &&& final(self).journal.trans_id == t2
                &&& final(self).sb.sequence == t2
                &&& final(self).sb.start == (if s2 == j.last {
                    0u32
                } else {
                    s2
                })
                &&& final(self).bdev@ == crate::journal::spec_purge_dev(
                    old(self).bdev@,
                    j.cp_queue.queue@,
                    true,
                    false,
                ).update(0, crate::codec::spec_sb_block(final(self).sb))
            }),
    {
        self.journal.jbd_journal_purge_cp_trans(true, false, &mut self.bdev);
        proof {
            crate::journal::lemma_purge_drains_all(
                old(self).journal.cp_queue.queue@,
                old(self).journal.start,
                old(self).journal.trans_id,
                old(self).journal.first,
                old(self).journal.maxlen,
            );
        }
        self.journal.jbd_journal_write_sb(&mut self.sb, &mut self.bdev);
        self.dirty = true;
    }

    /// Unmounts the journal: flushes all checkpointed state and persists the
    /// superblock; afterwards the log is clean.
    pub fn unmount(&mut self) -> (r: Result<(), JbdError>)
        requires
            old(self).wf(),
        ensures
            final(self).wf(),
            r is Ok <==> old(self).curr_trans is None,
            r is Err ==> r == Result::<(), JbdError>::Err(JbdError::ProtocolMisuse) && *final(self)
                == *old(self),
            r is Ok ==> final(self).journal.cp_queue.queue@.len() == 0 && ({
                let j = old(self).journal;
                let (q2, s2, t2) = crate::journal::spec_purge(
                    j.cp_queue.queue@,
                    j.start,
                    j.trans_id,
                    j.first,
                    j.maxlen,
                    true,
                    false,
                );
                &&& final(self).journal.trans_id == t2
                &&& final(self).sb.sequence == t2
                &&& final(self).sb.start == (if s2 == j.last {
                    0u32
                } else {
                    s2
                })
                &&& final(self).bdev@ == crate::journal::spec_purge_dev(
                    old(self).bdev@,
                    j.cp_queue.queue@,
                    true,
                    false,
                ).update(0, crate::codec::spec_sb_block(final(self).sb))
            }),
    {
        if self.curr_trans.is_some() {
            return Err(JbdError::ProtocolMisuse);
        }
        self.flush();
        Ok(())
    }
}

/// Whether no two revoke-table entries name the same block address.
pub open spec fn spec_revoke_unique(rs: Seq<RevokeEntry>) -> bool {
    forall|i: int, j: int| 0 <= i < j < rs.len() ==> rs[i].block != rs[j].block
}

/// Whether replay of `block` by a transaction with id `tid` goes ahead: it
/// is suppressed exactly when the revoke table holds the address under a
/// transaction id at or after `tid` in wrapping order.
pub open spec fn spec_should_replay(rs: Seq<RevokeEntry>, block: u64, tid: u32) -> bool {
    forall|i: int|
        0 <= i < rs.len() && (#[trigger] rs[i]).block == block ==> spec_trans_id_diff(
            tid,
            rs[i].trans_id,
        ) > 0
}

/// Revoke dominance: once a transaction has revoked a block address, no
/// transaction at or before it in wrapping id order replays a write to that
/// address.
pub proof fn lemma_revoke_dominance(rs: Seq<RevokeEntry>, i: int, tid: u32)
    requires
        0 <= i < rs.len(),
        spec_trans_id_diff(tid, rs[i].trans_id) <= 0,
    ensures
        !spec_should_replay(rs, rs[i].block, tid),
{
}

/// The revoke table after inserting one entry: an existing entry for the
/// address is replaced only when the new transaction id is later in wrapping
/// order; a fresh address is appended.
pub open spec fn spec_revoke_insert(rs: Seq<RevokeEntry>, block: u64, tid: u32) -> Seq<RevokeEntry>
    decreases rs.len(),
{
    if rs.len() == 0 {
        seq![RevokeEntry { block, trans_id: tid }]
    } else if rs[0].block == block {
        if spec_trans_id_diff(rs[0].trans_id, tid) < 0 {
            seq![RevokeEntry { block, trans_id: tid }] + rs.drop_first()
        } else {
            rs
        }
    } else {
        seq![rs[0]] + spec_revoke_insert(rs.drop_first(), block, tid)
    }
}

/// What inserting into a duplicate-free revoke table does: an absent address
/// is appended; a present one keeps the later of the two transaction ids.
pub proof fn lemma_revoke_insert_char(rs: Seq<RevokeEntry>, block: u64, tid: u32)
    requires
        spec_revoke_unique(rs),
    ensures
        (forall|k: int| 0 <= k < rs.len() ==> (#[trigger] rs[k]).block != block)
            ==> spec_revoke_insert(rs, block, tid) == rs.push(RevokeEntry { block, trans_id: tid }),
        forall|i: int|
            0 <= i < rs.len() && (#[trigger] rs[i]).block == block ==> spec_revoke_insert(
                rs,
                block,
                tid,
            ) == (if spec_trans_id_diff(rs[i].trans_id, tid) < 0 {
                rs.update(i, RevokeEntry { block, trans_id: tid })
            } else {
                rs
            }),
    decreases rs.len(),
{
    if rs.len() == 0 {
        assert(spec_revoke_insert(rs, block, tid) =~= rs.push(
            RevokeEntry { block, trans_id: tid },
        ));
    } else if rs[0].block == block {
        if spec_trans_id_diff(rs[0].trans_id, tid) < 0 {
            assert(spec_revoke_insert(rs, block, tid) =~= rs.update(
                0,
                RevokeEntry { block, trans_id: tid },
            ));
        }
        assert forall|i: int|
            0 <= i < rs.len() && (#[trigger] rs[i]).block == block implies spec_revoke_insert(
            rs,
            block,
            tid,
        ) == (if spec_trans_id_diff(rs[i].trans_id, tid) < 0 {
            rs.update(i, RevokeEntry { block, trans_id: tid })
        } else {
            rs
        }) by {
            assert(i == 0);
        }
    } else {
        let tail = rs.drop_first();
        assert(spec_revoke_unique(tail)) by {
            assert forall|a: int, b: int|
                0 <= a < b < tail.len() implies tail[a].block != tail[b].block by {
                assert(tail[a] == rs[a + 1] && tail[b] == rs[b + 1]);
            }
        }
        lemma_revoke_insert_char(tail, block, tid);
        if forall|k: int| 0 <= k < rs.len() ==> (#[trigger] rs[k]).block != block {
            assert(forall|k: int| 0 <= k < tail.len() ==> (#[trigger] tail[k]).block != block) by {
                assert forall|k: int|
                    0 <= k < tail.len() implies (#[trigger] tail[k]).block != block by {
                    assert(tail[k] == rs[k + 1]);
                }
            }
            assert(spec_revoke_insert(rs, block, tid) =~= rs.push(
                RevokeEntry { block, trans_id: tid },
            ));
        }
        assert forall|i: int|
            0 <= i < rs.len() && (#[trigger] rs[i]).block == block implies spec_revoke_insert(
            rs,
            block,
            tid,
        ) == (if spec_trans_id_diff(rs[i].trans_id, tid) < 0 {
            rs.update(i, RevokeEntry { block, trans_id: tid })
        } else {
            rs
        }) by {
            assert(i >= 1);
            assert(tail[i - 1] == rs[i] && tail[i - 1].block == block);
            if spec_trans_id_diff(rs[i].trans_id, tid) < 0 {
                assert(spec_revoke_insert(tail, block, tid) == tail.update(
                    i - 1,
                    RevokeEntry { block, trans_id: tid },
                ));
                assert(spec_revoke_insert(rs, block, tid) =~= rs.update(
                    i,
                    RevokeEntry { block, trans_id: tid },
                ));
            } else {
                assert(spec_revoke_insert(rs, block, tid) =~= rs);
            }
        }
    }
}

/// Looks a block address up in the revoke table and decides whether a
/// transaction with id `tid` may replay it.
pub fn should_replay(rs: &Vec<RevokeEntry>, block: u64, tid: u32) -> (r: bool)
    requires
        spec_revoke_unique(rs@),
    ensures
        r == spec_should_replay(rs@, block, tid),
{
    let n = rs.len();
    let mut i: usize = 0;
    while i < n
        invariant
            i <= n,
            n == rs@.len(),
            spec_revoke_unique(rs@),
            forall|k: int| 0 <= k < i ==> (#[trigger] rs@[k]).block != block,
        decreases n - i,
    {
        if rs[i].block == block {
            let r = trans_id_diff(tid, rs[i].trans_id) > 0;
            proof {
                if r {
                    assert forall|k: int|
                        0 <= k < rs@.len() && (#[trigger] rs@[k]).block == block implies
                    spec_trans_id_diff(tid, rs@[k].trans_id) > 0 by {
                        if k != i {
                            assert(rs@[k].block != block);
                        }
                    }
                }
            }
            return r;
        }
        i = i + 1;
    }
    true
}

/// Inserts a revoke-table entry, keeping at most one entry per address; on a
/// conflict the transaction id later in wrapping order wins.
pub fn revoke_insert(rs: &mut Vec<RevokeEntry>, block: u64, trans_id: u32)
    requires
        spec_revoke_unique(old(rs)@),
    ensures
        spec_revoke_unique(final(rs)@),
        final(rs)@ == spec_revoke_insert(old(rs)@, block, trans_id),
        ({
            |||  final(rs)@ == old(rs)@.push(RevokeEntry { block, trans_id })
            ||| (final(rs)@ == old(rs)@ && exists|i: int|
                0 <= i < old(rs)@.len() && (#[trigger] old(rs)@[i]).block == block
                    && spec_trans_id_diff(old(rs)@[i].trans_id, trans_id) >= 0)
            ||| exists|i: int|
                0 <= i < old(rs)@.len() && (#[trigger] old(rs)@[i]).block == block
                    && spec_trans_id_diff(old(rs)@[i].trans_id, trans_id) < 0 && final(rs)@ == old(
                    rs,
                )@.update(i, RevokeEntry { block, trans_id })
        }),
{
    let n = rs.len();
    let mut i: usize = 0;
    while i < n
        invariant
            i <= n,
            n == rs@.len(),
            rs@ == old(rs)@,
            spec_revoke_unique(rs@),
            forall|k: int| 0 <= k < i ==> (#[trigger] rs@[k]).block != block,
        decreases n - i,
    {
        if rs[i].block == block {
            proof {
                lemma_revoke_insert_char(old(rs)@, block, trans_id);
            }
            if trans_id_diff(rs[i].trans_id, trans_id) < 0 {
                rs[i] = RevokeEntry { block, trans_id };
                proof {
                    assert(rs@ == old(rs)@.update(i as int, RevokeEntry { block, trans_id }));
                    assert forall|a: int, b: int|
                        0 <= a < b < rs@.len() implies rs@[a].block != rs@[b].block by {
                        if a != i && b != i {
                            assert(rs@[a] == old(rs)@[a] && rs@[b] == old(rs)@[b]);
                        } else if a == i {
                            assert(rs@[b] == old(rs)@[b] && old(rs)@[b].block != block);
                        } else {
                            assert(rs@[a] == old(rs)@[a] && old(rs)@[a].block != block);
                        }
                    }
                }
            }
            return ;
        }
        i = i + 1;
    }
    rs.push(RevokeEntry { block, trans_id });
    proof {
        lemma_revoke_insert_char(old(rs)@, block, trans_id);
        assert forall|a: int, b: int|
            0 <= a < b < rs@.len() implies rs@[a].block != rs@[b].block by {
            if b == rs@.len() - 1 {
                assert(rs@[a] == old(rs)@[a] && old(rs)@[a].block != block);
            } else {
                assert(rs@[a] == old(rs)@[a] && rs@[b] == old(rs)@[b]);
            }
        }
    }
}

/// The home block number a descriptor tag stores: the little-endian low
/// word, extended by the big-endian high word when the 64-bit feature is on.
pub open spec fn spec_tag_home(block: Seq<u8>, pos: int, with64: bool) -> int {
    if with64 {
        crate::codec::spec_load_le32(block, pos) + crate::codec::spec_load_be32(block, pos + 8)
            * 0x1_0000_0000
    } else {
        crate::codec::spec_load_le32(block, pos) as int
    }
}

/// The walk position after advancing over a descriptor block's tag chain:
/// one log block per tag, ending at the last-tag flag or when a tag would
/// overrun the block.
pub open spec fn spec_scan_chain(block: Seq<u8>, pos: int, tb: u32, first: u32, maxlen: u32) -> u32
    decreases BLOCK_SIZE + TAG3_SIZE + UUID_SIZE - pos,
{
    if pos < 0 || pos + TAG3_SIZE > BLOCK_SIZE {
        tb
    } else {
        let flags = crate::codec::spec_load_be16(block, pos + 6);
        if flags & 2 == 0 && pos + TAG3_SIZE + UUID_SIZE > BLOCK_SIZE {
            tb
        } else {
            let tb2 = spec_wrapped(first, maxlen, tb + 1) as u32;
            if flags & 8 != 0 {
                tb2
            } else {
                spec_scan_chain(
                    block,
                    pos + (if flags & 2 == 0 {
                        (TAG3_SIZE + UUID_SIZE) as int
                    } else {
                        TAG3_SIZE as int
                    }),
                    tb2,
                    first,
                    maxlen,
                )
            }
        }
    }
}

/// The replay of a descriptor block's tag chain, starting at byte `pos` of
/// the block with the walk at log position `tb`: each tag advances the walk
/// over its data block and, unless its home address is the superblock or the
/// revoke table suppresses it, copies the log block to the home address with
/// the journal magic restored when the escape flag is set.  The chain ends at
/// the last-tag flag or when a tag would overrun the block; a home address
/// beyond the device is corruption, yielding no result.
pub open spec fn spec_replay_chain(
    dev: Seq<Seq<u8>>,
    block: Seq<u8>,
    pos: int,
    tb: u32,
    tid: u32,
    tree: Seq<RevokeEntry>,
    with64: bool,
    first: u32,
    maxlen: u32,
) -> Option<(Seq<Seq<u8>>, u32)>
    decreases BLOCK_SIZE + TAG3_SIZE + UUID_SIZE - pos,
{
    if pos < 0 || pos + TAG3_SIZE > BLOCK_SIZE {
        Some((dev, tb))
    } else {
        let flags = crate::codec::spec_load_be16(block, pos + 6);
        if flags & 2 == 0 && pos + TAG3_SIZE + UUID_SIZE > BLOCK_SIZE {
            Some((dev, tb))
        } else {
            let home = spec_tag_home(block, pos, with64);
            let tb2 = spec_wrapped(first, maxlen, tb + 1) as u32;
            let will = home != 0 && spec_should_replay(tree, home as u64, tid);
            if will && home >= dev.len() {
                None
            } else {
                let log_copy = dev[tb2 as int];
                let d2 = if will {
                    dev.update(
                        home,
                        if flags & 1 != 0 {
                            crate::codec::spec_unescape_data(log_copy)
                        } else {
                            log_copy
                        },
                    )
                } else {
                    dev
                };
                if flags & 8 != 0 {
                    Some((d2, tb2))
                } else {
                    spec_replay_chain(
                        d2,
                        block,
                        pos + (if flags & 2 == 0 {
                            (TAG3_SIZE + UUID_SIZE) as int
                        } else {
                            TAG3_SIZE as int
                        }),
                        tb2,
                        tid,
                        tree,
                        with64,
                        first,
                        maxlen,
                    )
                }
            }
        }
    }
}

/// The revoke table after feeding it every address listed in the first `n`
/// records of a revoke block, in order, all under one transaction id.
pub open spec fn spec_revoke_block_tree(
    rs: Seq<RevokeEntry>,
    block: Seq<u8>,
    tid: u32,
    n: int,
) -> Seq<RevokeEntry>
    decreases n,
{
    if n <= 0 {
        rs
    } else {
        spec_revoke_insert(
            spec_revoke_block_tree(rs, block, tid, n - 1),
            crate::codec::spec_load_be32(block, 16 + 4 * (n - 1)) as u64,
            tid,
        )
    }
}

/// One pass of the recovery walk, as a function of the log content.  From
/// log position `tb` with transaction id `tid`, at most `steps` header
/// blocks are visited: a foreign magic or an unknown block type ends the
/// log; a descriptor advances over its tag chain, and in the replay pass
/// copies unrevoked data blocks home; a commit block advances the id (and
/// the commit count, in the scan pass); a revoke block feeds the table in
/// the revoke pass.  Outside the scan pass the walk also stops once the id
/// passes `last`.  Corruption — a bad revoke count or a replay target beyond
/// the device — yields no result.
pub open spec fn spec_log_walk(
    dev: Seq<Seq<u8>>,
    tree: Seq<RevokeEntry>,
    action: RecoveryAction,
    tb: u32,
    tid: u32,
    cnt: u32,
    last: u32,
    start: u32,
    first: u32,
    maxlen: u32,
    with64: bool,
    steps: int,
) -> Option<(Seq<Seq<u8>>, Seq<RevokeEntry>, u32, u32)>
    decreases steps, 1int,
{
    if steps <= 0 {
        Some((dev, tree, tid, cnt))
    } else if action != RecoveryAction::Scan && spec_trans_id_diff(tid, last) > 0 {
        Some((dev, tree, tid, cnt))
    } else {
        let block = dev[tb as int];
        let magic = crate::codec::spec_load_be32(block, 0);
        let btype = crate::codec::spec_load_be32(block, 4);
        if magic != JBD_MAGIC_NUMBER {
            Some((dev, tree, tid, cnt))
        } else if btype == crate::consts::JBD_DESCRIPTOR_BLOCK {
            if action == RecoveryAction::Recover {
                match spec_replay_chain(
                    dev,
                    block,
                    BHDR_SIZE as int,
                    tb,
                    tid,
                    tree,
                    with64,
                    first,
                    maxlen,
                ) {
                    Option::None => None,
                    Option::Some(end) => spec_log_walk_advance(
                        end.0,
                        tree,
                        action,
                        end.1,
                        tid,
                        cnt,
                        last,
                        start,
                        first,
                        maxlen,
                        with64,
                        steps,
                    ),
                }
            } else {
                spec_log_walk_advance(
                    dev,
                    tree,
                    action,
                    spec_scan_chain(block, BHDR_SIZE as int, tb, first, maxlen),
                    tid,
                    cnt,
                    last,
                    start,
                    first,
                    maxlen,
                    with64,
                    steps,
                )
            }
        } else if btype == crate::consts::JBD_COMMIT_BLOCK {
            let tid2 = if tid == u32::MAX {
                0u32
            } else {
                (tid + 1) as u32
            };
            let cnt2 = if action == RecoveryAction::Scan {
                (cnt + 1) as u32
            } else {
                cnt
            };
            spec_log_walk_advance(
                dev,
                tree,
                action,
                tb,
                tid2,
                cnt2,
                last,
                start,
                first,
                maxlen,
                with64,
                steps,
            )
        } else if btype == crate::consts::JBD_REVOKE_BLOCK {
            if action == RecoveryAction::Revoke {
                let count = crate::codec::spec_load_be32(block, BHDR_SIZE as int);
                if !(16 <= count <= BLOCK_SIZE && (count - 16) % 4 == 0) {
                    None
                } else {
                    spec_log_walk_advance(
                        dev,
                        spec_revoke_block_tree(tree, block, tid, (count - 16) / 4),
                        action,
                        tb,
                        tid,
                        cnt,
                        last,
                        start,
                        first,
                        maxlen,
                        with64,
                        steps,
                    )
                }
            } else {
                spec_log_walk_advance(
                    dev,
                    tree,
                    action,
                    tb,
                    tid,
                    cnt,
                    last,
                    start,
                    first,
                    maxlen,
                    with64,
                    steps,
                )
            }
        } else {
            Some((dev, tree, tid, cnt))
        }
    }
}

/// The step between two visited header blocks: the walk moves one block past
/// the record it just consumed, wrapping inside the window, and stops when
/// it arrives back at the block it started the whole pass from.
pub open spec fn spec_log_walk_advance(
    dev: Seq<Seq<u8>>,
    tree: Seq<RevokeEntry>,
    action: RecoveryAction,
    tb: u32,
    tid: u32,
    cnt: u32,
    last: u32,
    start: u32,
    first: u32,
    maxlen: u32,
    with64: bool,
    steps: int,
) -> Option<(Seq<Seq<u8>>, Seq<RevokeEntry>, u32, u32)>
    decreases steps, 0int,
{
    let tb2 = spec_wrapped(first, maxlen, tb + 1) as u32;
    if steps <= 0 || tb2 == start {
        Some((dev, tree, tid, cnt))
    } else {
        spec_log_walk(dev, tree, action, tb2, tid, cnt, last, start, first, maxlen, with64, steps
            - 1)
    }
}

impl JbdFs {
    /// Decodes the descriptor tag at byte `pos` of a descriptor block.  The
    /// home block number takes its high word from the tag only when the
    /// 64-bit feature is enabled; a UUID follows the tag when the same-UUID
    /// flag is clear.  Fails when the tag or its UUID would run past the end
    /// of the buffer.
    pub fn jbd_extract_block_tag(&self, buf: &Vec<u8>, pos: usize, tag_info: &mut TagInfo) -> (r:
        Result<(), JbdError>)
        requires
            pos + TAG3_SIZE + UUID_SIZE <= usize::MAX,
        ensures
            r is Ok <==> (pos + TAG3_SIZE <= buf@.len() && (
            crate::codec::spec_load_be16(buf@, pos + 6) & 2 != 0 || pos + TAG3_SIZE + UUID_SIZE
                <= buf@.len())),
            r matches Ok(u) ==> ({
                let flags = crate::codec::spec_load_be16(buf@, pos + 6);
                let low = crate::codec::spec_load_le32(buf@, pos as int);
                let high = crate::codec::spec_load_be32(buf@, pos + 8);
                &&& final(tag_info).is_escape == (flags & 1 != 0)
                &&& final(tag_info).last_tag == (flags & 8 != 0)
                &&& final(tag_info).uuid_exist == (flags & 2 == 0)
                &&& final(tag_info).checksum == crate::codec::spec_load_be16(buf@, pos + 4)
                &&& final(tag_info).block == (if self.sb.feature_incompat & 1 == 1 {
                    low as int + high as int * 0x1_0000_0000
                } else {
                    low as int
                })
                &&& final(tag_info).tag_bytes == (if flags & 2 == 0 {
                    (TAG3_SIZE + UUID_SIZE) as int
                } else {
                    TAG3_SIZE as int
                })
                &&& (flags & 2 == 0 ==> final(tag_info).uuid@ == buf@.subrange(
                    pos + TAG3_SIZE,
                    pos + TAG3_SIZE + UUID_SIZE,
                ))
            }),
            r is Err ==> r == Result::<(), JbdError>::Err(JbdError::MalformedRecord)
                && *final(tag_info) == *old(tag_info),
    {
        let buf_len = buf.len();
        if pos + TAG3_SIZE > buf_len {
            return Err(JbdError::MalformedRecord);
        }
        let flags = crate::codec::read_be16(buf, pos + 6);
        if flags & 2 == 0 && pos + TAG3_SIZE + UUID_SIZE > buf_len {
            return Err(JbdError::MalformedRecord);
        }
        let low = crate::codec::read_le32(buf, pos);
        tag_info.block = low as u64;
        if self.has_feature(crate::consts::JBD_FEATURE_INCOMPAT_64BIT) {
            let high = crate::codec::read_be32(buf, pos + 8);
            tag_info.block = low as u64 + (high as u64) * 0x1_0000_0000u64;
        }
        tag_info.checksum = crate::codec::read_be16(buf, pos + 4) as u32;
        tag_info.is_escape = flags & 1 != 0;
        tag_info.last_tag = flags & 8 != 0;
        tag_info.tag_bytes = TAG3_SIZE;
        if flags & 2 == 0 {
            tag_info.uuid_exist = true;
            let mut uuid: Vec<u8> = Vec::new();
            let mut i: usize = 0;
            while i < UUID_SIZE
                invariant
                    i <= UUID_SIZE,
                    pos + TAG3_SIZE + UUID_SIZE <= buf@.len(),
                    buf@.len() <= usize::MAX,
                    uuid@ == buf@.subrange(pos + TAG3_SIZE, pos + TAG3_SIZE + i),
                decreases UUID_SIZE - i,
            {
                uuid.push(buf[pos + TAG3_SIZE + i]);
                proof {
                    assert(uuid@ =~= buf@.subrange(pos + TAG3_SIZE, pos + TAG3_SIZE + i + 1));
                }
                i = i + 1;
            }
            tag_info.uuid = uuid;
            tag_info.tag_bytes = TAG3_SIZE + UUID_SIZE;
        } else {
            tag_info.uuid_exist = false;
        }
        Ok(())
    }

    /// Accounts for one tag during the scan and revoke walks: the tag's data
    /// block occupies the next log block, so the walk advances over it.
    pub fn jbd_display_block_tags(&self, tag_info: &TagInfo, iblock: &mut u32)
        requires
            self.sb.wf(),
            spec_in_log(self.sb.first, self.sb.maxlen, *old(iblock)),
        ensures
            *final(iblock) == spec_wrapped(self.sb.first, self.sb.maxlen, *old(iblock) + 1),
            spec_in_log(self.sb.first, self.sb.maxlen, *final(iblock)),
    {
        *iblock = *iblock + 1;
        self.wrap(iblock);
    }

    /// Walks the tag chain of a descriptor block during the scan and revoke
    /// passes, advancing the walk over the data block of every tag.
    fn walk_descriptor_block(&self, block: &Vec<u8>, this_block: &mut u32)
        requires
            self.sb.wf(),
            block@.len() == BLOCK_SIZE,
            spec_in_log(self.sb.first, self.sb.maxlen, *old(this_block)),
        ensures
            spec_in_log(self.sb.first, self.sb.maxlen, *final(this_block)),
            *final(this_block) == spec_scan_chain(
                block@,
                BHDR_SIZE as int,
                *old(this_block),
                self.sb.first,
                self.sb.maxlen,
            ),
    {
        let ghost tb0 = *old(this_block);
        let ghost f = self.sb.first;
        let ghost m = self.sb.maxlen;
        let mut pos: usize = BHDR_SIZE;
        while pos + TAG3_SIZE <= BLOCK_SIZE
            invariant
                tb0 == *old(this_block),
                f == self.sb.first,
                m == self.sb.maxlen,
                self.sb.wf(),
                block@.len() == BLOCK_SIZE,
                BHDR_SIZE <= pos,
                pos <= BLOCK_SIZE + TAG3_SIZE + UUID_SIZE,
                spec_in_log(self.sb.first, self.sb.maxlen, *this_block),
                spec_scan_chain(block@, BHDR_SIZE as int, tb0, f, m) == spec_scan_chain(
                    block@,
                    pos as int,
                    *this_block,
                    f,
                    m,
                ),
            decreases BLOCK_SIZE - pos,
        {
            let ghost tb_it = *this_block;
            let mut tag_info = TagInfo::new();
            match self.jbd_extract_block_tag(block, pos, &mut tag_info) {
                Ok(_) => {},
                Err(_) => {
                    proof {
                        assert(spec_scan_chain(block@, pos as int, tb_it, f, m) == tb_it);
                    }
                    return ;
                },
            }
            self.jbd_display_block_tags(&tag_info, this_block);
            proof {
                let flags = crate::codec::spec_load_be16(block@, pos + 6);
                assert(*this_block == spec_wrapped(f, m, tb_it + 1) as u32);
                if tag_info.last_tag {
                    assert(spec_scan_chain(block@, pos as int, tb_it, f, m) == *this_block);
                } else {
                    assert(spec_scan_chain(block@, pos as int, tb_it, f, m) == spec_scan_chain(
                        block@,
                        pos + tag_info.tag_bytes,
                        *this_block,
                        f,
                        m,
                    ));
                }
            }
            if tag_info.last_tag {
                return ;
            }
            pos = pos + tag_info.tag_bytes;
        }
        proof {
            assert(spec_scan_chain(block@, pos as int, *this_block, f, m) == *this_block);
        }
    }

    /// Replays one descriptor tag: the walk advances to the tag's data block
    /// in the log; unless the home address is the superblock or the revoke
    /// table suppresses it, the log copy is written to its home location,
    /// with the journal magic restored first when the tag carries the escape
    /// flag.  A home address beyond the device is corruption.
    pub fn jbd_replay_block_tags(
        &mut self,
        tag_info: &TagInfo,
        revoke_tree: &Vec<RevokeEntry>,
        this_block: &mut u32,
        this_trans_id: u32,
    ) -> (r: Result<(), JbdError>)
        requires
            old(self).sb_dev_wf(),
            spec_revoke_unique(revoke_tree@),
            spec_in_log(old(self).sb.first, old(self).sb.maxlen, *old(this_block)),
        ensures
            final(self).sb == old(self).sb,
            final(self).journal == old(self).journal,
            final(self).curr_trans == old(self).curr_trans,
            final(self).dirty == old(self).dirty,
            final(self).sb_dev_wf(),
            final(self).bdev@.len() == old(self).bdev@.len(),
            *final(this_block) == spec_wrapped(
                old(self).sb.first,
                old(self).sb.maxlen,
                *old(this_block) + 1,
            ),
            spec_in_log(old(self).sb.first, old(self).sb.maxlen, *final(this_block)),
            ({
                let will = tag_info.block != 0 && spec_should_replay(
                    revoke_tree@,
                    tag_info.block,
                    this_trans_id,
                );
                let log_copy = old(self).bdev@[spec_wrapped(
                    old(self).sb.first,
                    old(self).sb.maxlen,
                    *old(this_block) + 1,
                )];
                &&& (r is Ok <==> (!will || tag_info.block < old(self).bdev@.len()))
                &&& (r is Err ==> r == Result::<(), JbdError>::Err(JbdError::Corrupt)
                    && final(self).bdev@ == old(self).bdev@)
                &&& ((r is Ok && !will) ==> final(self).bdev@ == old(self).bdev@)
                &&& ((r is Ok && will) ==> final(self).bdev@ == old(self).bdev@.update(
                    tag_info.block as int,
                    if tag_info.is_escape {
                        crate::codec::spec_unescape_data(log_copy)
                    } else {
                        log_copy
                    },
                ))
            }),
            final(self).bdev@[0] == old(self).bdev@[0],
    {
        *this_block = *this_block + 1;
        let first = self.sb.first;
        let maxlen = self.sb.maxlen;
        if *this_block >= first + maxlen {
            *this_block = *this_block - maxlen;
        }
        if tag_info.block == 0 {
            return Ok(());
        }
        if !should_replay(revoke_tree, tag_info.block, this_trans_id) {
            return Ok(());
        }
        if tag_info.block >= self.bdev.num_blocks() as u64 {
            return Err(JbdError::Corrupt);
        }
        let log_copy = self.bdev.read_block(*this_block as usize);
        let data = if tag_info.is_escape {
            crate::codec::unescape_data(&log_copy)
        } else {
            log_copy
        };
        self.bdev.write_block(tag_info.block as usize, &data);
        Ok(())
    }

    /// Replays a descriptor block: walks its tag chain, copying each tag's
    /// data block from the log to its home location unless the revoke table
    /// suppresses it.  The final device and walk position equal the replay
    /// of the whole tag chain; corruption is reported exactly when the chain
    /// replays a home address beyond the device.
    pub fn jbd_replay_descriptor_block(
        &mut self,
        block: &Vec<u8>,
        revoke_tree: &Vec<RevokeEntry>,
        this_block: &mut u32,
        this_trans_id: u32,
    ) -> (r: Result<(), JbdError>)
        requires
            old(self).sb_dev_wf(),
            spec_revoke_unique(revoke_tree@),
            block@.len() == BLOCK_SIZE,
            spec_in_log(old(self).sb.first, old(self).sb.maxlen, *old(this_block)),
        ensures
            final(self).sb == old(self).sb,
            final(self).journal == old(self).journal,
            final(self).curr_trans == old(self).curr_trans,
            final(self).dirty == old(self).dirty,
            final(self).sb_dev_wf(),
            final(self).bdev@.len() == old(self).bdev@.len(),
            spec_in_log(old(self).sb.first, old(self).sb.maxlen, *final(this_block)),
            r is Err ==> r == Result::<(), JbdError>::Err(JbdError::Corrupt),
            final(self).bdev@[0] == old(self).bdev@[0],
            ({
                let chain = spec_replay_chain(
                    old(self).bdev@,
                    block@,
                    BHDR_SIZE as int,
                    *old(this_block),
                    this_trans_id,
                    revoke_tree@,
                    old(self).sb.feature_incompat & 1 == 1,
                    old(self).sb.first,
                    old(self).sb.maxlen,
                );
                &&& (r is Ok <==> chain is Some)
                &&& (chain matches Some(end) ==> final(self).bdev@ == end.0 && *final(this_block)
                    == end.1)
            }),
    {
        let ghost dev0 = old(self).bdev@;
        let ghost tb0 = *old(this_block);
        let ghost with64 = old(self).sb.feature_incompat & 1 == 1;
        let ghost f = old(self).sb.first;
        let ghost m = old(self).sb.maxlen;
        let mut pos: usize = BHDR_SIZE;
        while pos + TAG3_SIZE <= BLOCK_SIZE
            invariant
                dev0 == old(self).bdev@,
                tb0 == *old(this_block),
                with64 == (old(self).sb.feature_incompat & 1 == 1),
                f == old(self).sb.first,
                m == old(self).sb.maxlen,
                self.sb == old(self).sb,
                self.journal == old(self).journal,
                self.curr_trans == old(self).curr_trans,
                self.dirty == old(self).dirty,
                self.sb_dev_wf(),
                self.bdev@.len() == old(self).bdev@.len(),
                self.bdev@[0] == old(self).bdev@[0],
                spec_revoke_unique(revoke_tree@),
                block@.len() == BLOCK_SIZE,
                BHDR_SIZE <= pos,
                pos <= BLOCK_SIZE + TAG3_SIZE + UUID_SIZE,
                spec_in_log(self.sb.first, self.sb.maxlen, *this_block),
                spec_replay_chain(dev0, block@, BHDR_SIZE as int, tb0, this_trans_id, revoke_tree@,
                    with64, f, m) == spec_replay_chain(self.bdev@, block@, pos as int, *this_block,
                    this_trans_id, revoke_tree@, with64, f, m),
            decreases BLOCK_SIZE - pos,
        {
            let ghost dev_it = self.bdev@;
            let ghost tb_it = *this_block;
            let mut tag_info = TagInfo::new();
            match self.jbd_extract_block_tag(block, pos, &mut tag_info) {
                Ok(_) => {},
                Err(_) => {
                    proof {
                        assert(spec_replay_chain(dev_it, block@, pos as int, tb_it, this_trans_id,
                            revoke_tree@, with64, f, m) == Some((dev_it, tb_it)));
                    }
                    return Ok(());
                },
            }
            let ghost flags = crate::codec::spec_load_be16(block@, pos + 6);
            proof {
                assert(tag_info.block == spec_tag_home(block@, pos as int, with64));
                assert(tag_info.is_escape == (flags & 1 != 0));
                assert(tag_info.last_tag == (flags & 8 != 0));
            }
            match self.jbd_replay_block_tags(&tag_info, revoke_tree, this_block, this_trans_id) {
                Ok(_) => {},
                Err(e) => {
                    proof {
                        assert(spec_replay_chain(dev_it, block@, pos as int, tb_it, this_trans_id,
                            revoke_tree@, with64, f, m) is None);
                    }
                    return Err(e);
                },
            }
            proof {
                let home = spec_tag_home(block@, pos as int, with64);
                let tb2 = spec_wrapped(f, m, tb_it + 1) as u32;
                let will = home != 0 && spec_should_replay(revoke_tree@, home as u64,
                    this_trans_id);
                assert(*this_block == tb2);
                assert(self.bdev@ == (if will {
                    dev_it.update(
                        home,
                        if flags & 1 != 0 {
                            crate::codec::spec_unescape_data(dev_it[tb2 as int])
                        } else {
                            dev_it[tb2 as int]
                        },
                    )
                } else {
                    dev_it
                }));
                if tag_info.last_tag {
                    assert(spec_replay_chain(dev_it, block@, pos as int, tb_it, this_trans_id,
                        revoke_tree@, with64, f, m) == Some((self.bdev@, tb2)));
                } else {
                    assert(spec_replay_chain(dev_it, block@, pos as int, tb_it, this_trans_id,
                        revoke_tree@, with64, f, m) == spec_replay_chain(self.bdev@, block@,
                        pos + tag_info.tag_bytes, tb2, this_trans_id, revoke_tree@, with64, f, m));
                }
            }
            if tag_info.last_tag {
                return Ok(());
            }
            pos = pos + tag_info.tag_bytes;
        }
        proof {
            assert(spec_replay_chain(self.bdev@, block@, pos as int, *this_block, this_trans_id,
                revoke_tree@, with64, f, m) == Some((self.bdev@, *this_block)));
        }
        Ok(())
    }

    /// Builds revoke-table entries from one revoke block: every listed block
    /// address is recorded under the block's transaction id, the id later in
    /// wrapping order winning on conflict.  A record count that oversteps
    /// the block is corruption.
    pub fn jbd_build_revoke_tree(
        &self,
        info: &mut RecoverInfo,
        block: &Vec<u8>,
        this_trans_id: u32,
    ) -> (r: Result<(), JbdError>)
        requires
            block@.len() == BLOCK_SIZE,
            spec_revoke_unique(old(info).revoke_tree@),
        ensures
            spec_revoke_unique(final(info).revoke_tree@),
            final(info).last_trans_id == old(info).last_trans_id,
            final(info).trans_cnt == old(info).trans_cnt,
            final(info).start_trans_id == old(info).start_trans_id,
            final(info).this_trans_id == old(info).this_trans_id,
            r is Ok <==> ({
                let count = crate::codec::spec_load_be32(block@, BHDR_SIZE as int);
                16 <= count <= BLOCK_SIZE && (count - 16) % 4 == 0
            }),
            r is Ok ==> final(info).revoke_tree@ == spec_revoke_block_tree(
                old(info).revoke_tree@,
                block@,
                this_trans_id,
                (crate::codec::spec_load_be32(block@, BHDR_SIZE as int) - 16) / 4,
            ),
            r is Err ==> r == Result::<(), JbdError>::Err(JbdError::Corrupt)
                && final(info).revoke_tree@ == old(info).revoke_tree@,
    {
        let count = crate::codec::read_be32(block, BHDR_SIZE);
        if count < 16 || count > BLOCK_SIZE as u32 || (count - 16) % 4 != 0 {
            return Err(JbdError::Corrupt);
        }
        let ghost entries = (count - 16) as int / 4;
        let ghost k: int = 0;
        let mut pos: usize = 16;
        while pos + 4 <= count as usize
            invariant
                16 <= pos,
                pos <= BLOCK_SIZE,
                count <= BLOCK_SIZE,
                16 <= count,
                (count - 16) % 4 == 0,
                entries == (count - 16) as int / 4,
                pos == 16 + 4 * k,
                0 <= k <= entries,
                block@.len() == BLOCK_SIZE,
                spec_revoke_unique(info.revoke_tree@),
                info.revoke_tree@ == spec_revoke_block_tree(
                    old(info).revoke_tree@,
                    block@,
                    this_trans_id,
                    k,
                ),
                info.last_trans_id == old(info).last_trans_id,
                info.trans_cnt == old(info).trans_cnt,
                info.start_trans_id == old(info).start_trans_id,
                info.this_trans_id == old(info).this_trans_id,
            decreases count - pos,
        {
            let lba = crate::codec::read_be32(block, pos);
            revoke_insert(&mut info.revoke_tree, lba as u64, this_trans_id);
            proof {
                assert(16 + 4 * k == pos);
                assert(info.revoke_tree@ == spec_revoke_block_tree(
                    old(info).revoke_tree@,
                    block@,
                    this_trans_id,
                    k + 1,
                ));
            }
            pos = pos + 4;
            proof {
                k = k + 1;
            }
        }
        proof {
            assert(k == entries);
        }
        Ok(())
    }

    /// One pass of the recovery walk: the exec mirror of `spec_log_walk`,
    /// starting at the persisted log start with the persisted sequence and a
    /// budget of one header per log block.  The scan pass records where the
    /// walk's transaction id ended and how many commits it saw; the revoke
    /// pass builds the suppression table; the replay pass copies committed
    /// data blocks home.  Outside the scan pass, a walk finding no committed
    /// transactions is a no-op.
    pub fn iterate_log(&mut self, info: &mut RecoverInfo, action: RecoveryAction) -> (r: Result<
        (),
        JbdError,
    >)
        requires
            old(self).sb_dev_wf(),
            old(self).sb.start != 0,
            spec_revoke_unique(old(info).revoke_tree@),
        ensures
            final(self).sb == old(self).sb,
            final(self).journal == old(self).journal,
            final(self).curr_trans == old(self).curr_trans,
            final(self).dirty == old(self).dirty,
            final(self).sb_dev_wf(),
            final(self).bdev@.len() == old(self).bdev@.len(),
            final(self).bdev@[0] == old(self).bdev@[0],
            spec_revoke_unique(final(info).revoke_tree@),
            action != RecoveryAction::Recover ==> final(self).bdev@ == old(self).bdev@,
            action == RecoveryAction::Scan ==> r is Ok
                && final(info).start_trans_id == old(self).sb.sequence
                && final(info).revoke_tree@ == old(info).revoke_tree@,
            action == RecoveryAction::Revoke ==> final(info).last_trans_id == old(info).last_trans_id
                && final(info).trans_cnt == old(info).trans_cnt
                && final(info).start_trans_id == old(info).start_trans_id,
            action == RecoveryAction::Recover ==> *final(info) == *old(info),
            r is Err ==> r == Result::<(), JbdError>::Err(JbdError::Corrupt),
            (action != RecoveryAction::Scan && old(info).trans_cnt == 0) ==> r is Ok
                && final(self).bdev@ == old(self).bdev@ && *final(info) == *old(info),
            (action == RecoveryAction::Scan || old(info).trans_cnt > 0) ==> ({
                let w = spec_log_walk(
                    old(self).bdev@,
                    old(info).revoke_tree@,
                    action,
                    old(self).sb.start,
                    old(self).sb.sequence,
                    if action == RecoveryAction::Scan {
                        0u32
                    } else {
                        old(info).trans_cnt
                    },
                    old(info).last_trans_id,
                    old(self).sb.start,
                    old(self).sb.first,
                    old(self).sb.maxlen,
                    old(self).sb.feature_incompat & 1 == 1,
                    old(self).sb.maxlen as int,
                );
                &&& (r is Ok <==> w is Some)
                &&& (w matches Some(end) ==> final(self).bdev@ == end.0
                    && final(info).revoke_tree@ == end.1
                    && (action == RecoveryAction::Scan ==> final(info).trans_cnt == end.3
                        && final(info).this_trans_id == end.2
                        && final(info).last_trans_id == (if spec_trans_id_diff(
                        end.2,
                        old(self).sb.sequence,
                    ) > 0 {
                        (if end.2 == 0 {
                            u32::MAX
                        } else {
                            (end.2 - 1) as u32
                        })
                    } else {
                        end.2
                    })))
            }),
    {
        let ghost dev0 = old(self).bdev@;
        let ghost tree0 = old(info).revoke_tree@;
        let ghost tb_start = old(self).sb.start;
        let ghost tid0 = old(self).sb.sequence;
        let ghost last0 = old(info).last_trans_id;
        let ghost w64 = old(self).sb.feature_incompat & 1 == 1;
        let ghost skipped = action != RecoveryAction::Scan && old(info).trans_cnt == 0;
        let ghost c0: u32 = if action == RecoveryAction::Scan {
            0u32
        } else {
            old(info).trans_cnt
        };
        let first = self.sb.first;
        let maxlen = self.sb.maxlen;
        let mut log_end = false;
        let mut this_block: u32 = self.sb.start;
        let mut this_trans_id: u32 = self.sb.sequence;
        if matches!(action, RecoveryAction::Scan) {
            info.trans_cnt = 0;
        } else if info.trans_cnt == 0 {
            log_end = true;
        }
        let ghost walk0 = spec_log_walk(dev0, tree0, action, tb_start, tid0, c0, last0, tb_start,
            first, maxlen, w64, maxlen as int);
        let mut steps: u32 = 0;
        while !log_end && steps < maxlen
            invariant
                dev0 == old(self).bdev@,
                tree0 == old(info).revoke_tree@,
                tb_start == old(self).sb.start,
                tid0 == old(self).sb.sequence,
                last0 == old(info).last_trans_id,
                w64 == (old(self).sb.feature_incompat & 1 == 1),
                skipped == (action != RecoveryAction::Scan && old(info).trans_cnt == 0),
                c0 == (if action == RecoveryAction::Scan {
                    0u32
                } else {
                    old(info).trans_cnt
                }),
                walk0 == spec_log_walk(dev0, tree0, action, tb_start, tid0, c0, last0, tb_start,
                    first, maxlen, w64, maxlen as int),
                self.sb == old(self).sb,
                self.journal == old(self).journal,
                self.curr_trans == old(self).curr_trans,
                self.dirty == old(self).dirty,
                self.sb_dev_wf(),
                self.bdev@.len() == old(self).bdev@.len(),
                self.bdev@[0] == old(self).bdev@[0],
                first == self.sb.first,
                maxlen == self.sb.maxlen,
                self.sb.start != 0,
                spec_in_log(first, maxlen, this_block),
                steps <= maxlen,
                spec_revoke_unique(info.revoke_tree@),
                action != RecoveryAction::Recover ==> self.bdev@ == old(self).bdev@,
                action == RecoveryAction::Scan ==> info.trans_cnt <= steps && info.revoke_tree@
                    == old(info).revoke_tree@,
                action != RecoveryAction::Scan ==> info.trans_cnt == old(info).trans_cnt,
                action == RecoveryAction::Revoke ==> info.last_trans_id == old(info).last_trans_id
                    && info.trans_cnt == old(info).trans_cnt
                    && info.start_trans_id == old(info).start_trans_id,
                action == RecoveryAction::Recover ==> *info == *old(info),
                skipped ==> log_end && self.bdev@ == old(self).bdev@ && *info == *old(info),
                !skipped && !log_end ==> walk0 == spec_log_walk(self.bdev@, info.revoke_tree@,
                    action, this_block, this_trans_id, info.trans_cnt, last0, tb_start, first,
                    maxlen, w64, maxlen - steps),
                !skipped && log_end ==> walk0 == Some(
                    (self.bdev@, info.revoke_tree@, this_trans_id, info.trans_cnt),
                ),
            decreases maxlen - steps,
        {
            let ghost dev_it = self.bdev@;
            let ghost tree_it = info.revoke_tree@;
            let ghost tb_it = this_block;
            let ghost tid_it = this_trans_id;
            let ghost cnt_it = info.trans_cnt;
            let ghost budget = maxlen - steps;
            let block = self.bdev.read_block(this_block as usize);
            proof {
                assert(block@ == dev_it[tb_it as int]);
            }
            if !matches!(action, RecoveryAction::Scan) && trans_id_diff(
                this_trans_id,
                info.last_trans_id,
            ) > 0 {
                log_end = true;
                proof {
                    assert(spec_log_walk(dev_it, tree_it, action, tb_it, tid_it, cnt_it, last0,
                        tb_start, first, maxlen, w64, budget) == Some(
                        (dev_it, tree_it, tid_it, cnt_it),
                    ));
                }
            } else {
                let hdr = match JbdBhdr::from_be_bytes(&block) {
                    Ok(h) => h,
                    Err(_) => JbdBhdr { magic: 0, blocktype: 0, sequence: 0 },
                };
                if hdr.magic != JBD_MAGIC_NUMBER {
                    log_end = true;
                    proof {
                        assert(spec_log_walk(dev_it, tree_it, action, tb_it, tid_it, cnt_it, last0,
                            tb_start, first, maxlen, w64, budget) == Some(
                            (dev_it, tree_it, tid_it, cnt_it),
                        ));
                    }
                } else if hdr.blocktype == crate::consts::JBD_DESCRIPTOR_BLOCK {
                    if matches!(action, RecoveryAction::Recover) {
                        match self.jbd_replay_descriptor_block(
                            &block,
                            &info.revoke_tree,
                            &mut this_block,
                            this_trans_id,
                        ) {
                            Ok(_) => {},
                            Err(e) => {
                                proof {
                                    assert(spec_log_walk(dev_it, tree_it, action, tb_it, tid_it,
                                        cnt_it, last0, tb_start, first, maxlen, w64,
                                        budget) is None);
                                }
                                return Err(e);
                            },
                        }
                    } else {
                        self.walk_descriptor_block(&block, &mut this_block);
                    }
                } else if hdr.blocktype == crate::consts::JBD_COMMIT_BLOCK {
                    this_trans_id = if this_trans_id == u32::MAX {
                        0
                    } else {
                        this_trans_id + 1
                    };
                    if matches!(action, RecoveryAction::Scan) {
                        info.trans_cnt = info.trans_cnt + 1;
                    }
                } else if hdr.blocktype == crate::consts::JBD_REVOKE_BLOCK {
                    if matches!(action, RecoveryAction::Revoke) {
                        match self.jbd_build_revoke_tree(info, &block, this_trans_id) {
                            Ok(_) => {},
                            Err(e) => {
                                proof {
                                    assert(spec_log_walk(dev_it, tree_it, action, tb_it, tid_it,
                                        cnt_it, last0, tb_start, first, maxlen, w64,
                                        budget) is None);
                                }
                                return Err(e);
                            },
                        }
                    }
                } else {
                    log_end = true;
                    proof {
                        assert(spec_log_walk(dev_it, tree_it, action, tb_it, tid_it, cnt_it, last0,
                            tb_start, first, maxlen, w64, budget) == Some(
                            (dev_it, tree_it, tid_it, cnt_it),
                        ));
                    }
                }
                if !log_end {
                    proof {
                        assert(spec_log_walk(dev_it, tree_it, action, tb_it, tid_it, cnt_it, last0,
                            tb_start, first, maxlen, w64, budget) == spec_log_walk_advance(
                            self.bdev@,
                            info.revoke_tree@,
                            action,
                            this_block,
                            this_trans_id,
                            info.trans_cnt,
                            last0,
                            tb_start,
                            first,
                            maxlen,
                            w64,
                            budget,
                        ));
                    }
                    let ghost tb_mid = this_block;
                    this_block = this_block + 1;
                    self.wrap(&mut this_block);
                    if this_block == self.sb.start {
                        log_end = true;
                    }
                    proof {
                        assert(this_block == spec_wrapped(first, maxlen, tb_mid + 1) as u32);
                    }
                }
            }
            steps = steps + 1;
        }
        proof {
            if !skipped && !log_end {
                assert(maxlen - steps <= 0);
                assert(walk0 == Some(
                    (self.bdev@, info.revoke_tree@, this_trans_id, info.trans_cnt),
                ));
            }
        }
        if matches!(action, RecoveryAction::Scan) {
            info.start_trans_id = self.sb.sequence;
            info.this_trans_id = this_trans_id;
            info.last_trans_id = if trans_id_diff(this_trans_id, self.sb.sequence) > 0 {
                if this_trans_id == 0 {
                    u32::MAX
                } else {
                    this_trans_id - 1
                }
            } else {
                this_trans_id
            };
        }
        Ok(())
    }

    /// Recovers the journal at mount.  A clean log (persisted start of zero)
    /// is a no-op.  Otherwise the log is walked three times -- scan to bound
    /// the committed transaction ids, revoke to build the suppression table,
    /// replay to copy committed data blocks home -- and the superblock is
    /// persisted clean with the last committed id as its sequence, so that
    /// running recovery again changes nothing.  The final device is exactly
    /// the replay of the committed log prefix over the suppression table,
    /// with the persisted superblock in block zero.
    #[verifier::rlimit(100)]
    #[verifier::spinoff_prover]
    pub fn recover(&mut self) -> (r: Result<(), JbdError>)
        requires
            old(self).sb_dev_wf(),
        ensures
            final(self).sb_dev_wf(),
            final(self).journal == old(self).journal,
            final(self).curr_trans == old(self).curr_trans,
            old(self).sb.start == 0 ==> r is Ok && *final(self) == *old(self),
            r is Ok ==> final(self).sb.start == 0,
            r is Err ==> r == Result::<(), JbdError>::Err(JbdError::Corrupt),
            final(self).sb.first == old(self).sb.first,
            final(self).sb.maxlen == old(self).sb.maxlen,
            final(self).bdev@.len() == old(self).bdev@.len(),
            old(self).sb.start != 0 ==> ({
                let dev0 = old(self).bdev@;
                let start0 = old(self).sb.start;
                let seq0 = old(self).sb.sequence;
                let f = old(self).sb.first;
                let m = old(self).sb.maxlen;
                let w64 = old(self).sb.feature_incompat & 1 == 1;
                let scan = spec_log_walk(dev0, Seq::<RevokeEntry>::empty(), RecoveryAction::Scan,
                    start0, seq0, 0u32, 0u32, start0, f, m, w64, m as int);
                let s_end = scan->Some_0;
                let lt = if spec_trans_id_diff(s_end.2, seq0) > 0 {
                    (if s_end.2 == 0 {
                        u32::MAX
                    } else {
                        (s_end.2 - 1) as u32
                    })
                } else {
                    s_end.2
                };
                let cnt = s_end.3;
                let rev = spec_log_walk(dev0, s_end.1, RecoveryAction::Revoke, start0, seq0, cnt,
                    lt, start0, f, m, w64, m as int);
                let rep = spec_log_walk(dev0, rev->Some_0.1, RecoveryAction::Recover, start0, seq0,
                    cnt, lt, start0, f, m, w64, m as int);
                &&& (r is Ok <==> (cnt == 0 || (rev is Some && rep is Some)))
                &&& (r is Ok ==> final(self).sb.sequence == lt && final(self).dirty
                    && final(self).bdev@ == (if cnt == 0 {
                    dev0
                } else {
                    rep->Some_0.0
                }).update(0, crate::codec::spec_sb_block(final(self).sb)))
            }),
    {
        if self.sb.start == 0 {
            return Ok(());
        }
        let ghost dev0 = self.bdev@;
        let ghost start0 = self.sb.start;
        let ghost seq0 = self.sb.sequence;
        let ghost f = self.sb.first;
        let ghost m = self.sb.maxlen;
        let ghost w64 = self.sb.feature_incompat & 1 == 1;
        let ghost scan = spec_log_walk(dev0, Seq::<RevokeEntry>::empty(), RecoveryAction::Scan,
            start0, seq0, 0u32, 0u32, start0, f, m, w64, m as int);
        let mut info = RecoverInfo::new();
        proof {
            assert(info.revoke_tree@ =~= Seq::<RevokeEntry>::empty());
        }
        match self.iterate_log(&mut info, RecoveryAction::Scan) {
            Ok(_) => {},
            Err(e) => {
                return Err(e);
            },
        }
        proof {
            assert(scan is Some);
            assert(info.trans_cnt == scan->Some_0.3);
            assert(info.revoke_tree@ == scan->Some_0.1);
            assert(self.bdev@ == dev0);
        }
        let ghost lt = info.last_trans_id;
        let ghost cnt = info.trans_cnt;
        let ghost rev = spec_log_walk(dev0, scan->Some_0.1, RecoveryAction::Revoke, start0, seq0,
            cnt, lt, start0, f, m, w64, m as int);
        match self.iterate_log(&mut info, RecoveryAction::Revoke) {
            Ok(_) => {},
            Err(e) => {
                proof {
                    assert(cnt > 0 && rev is None);
                }
                return Err(e);
            },
        }
        proof {
            if cnt > 0 {
                assert(rev is Some);
                assert(info.revoke_tree@ == rev->Some_0.1);
            } else {
                assert(info.revoke_tree@ == scan->Some_0.1);
            }
            assert(self.bdev@ == dev0);
            assert(info.last_trans_id == lt && info.trans_cnt == cnt);
        }
        let ghost rep = spec_log_walk(dev0, rev->Some_0.1, RecoveryAction::Recover, start0, seq0,
            cnt, lt, start0, f, m, w64, m as int);
        match self.iterate_log(&mut info, RecoveryAction::Recover) {
            Ok(_) => {},
            Err(e) => {
                proof {
                    assert(cnt > 0 && rep is None);
                }
                return Err(e);
            },
        }
        proof {
            if cnt > 0 {
                assert(rep is Some);
                assert(self.bdev@ == rep->Some_0.0);
            } else {
                assert(self.bdev@ == dev0);
            }
            assert(info.last_trans_id == lt);
        }
        self.sb.start = 0;
        self.sb.sequence = info.last_trans_id;
        self.dirty = true;
        self.sb.sync_to_disk(&mut self.bdev);
        Ok(())
    }
}

} // verus!
