//! The transaction lifecycle: accumulating dirty blocks and revokes.

use vstd::prelude::*;

use crate::codec::spec_starts_with_magic;
use crate::codec::starts_with_magic;
use crate::consts::BLOCK_SIZE;
use crate::defs::{Ext4Block, JbdBuf, JbdRevokeRec, Transaction};

verus! {

/// Whether the revoke records are strictly sorted by block address, which
/// also makes them free of duplicates.
pub open spec fn spec_revokes_sorted(rs: Seq<JbdRevokeRec>) -> bool {
    forall|i: int, j: int| 0 <= i < j < rs.len() ==> rs[i].lba < rs[j].lba
}

/// Whether some revoke record names the given block address.
pub open spec fn spec_revokes_contain(rs: Seq<JbdRevokeRec>, lba: u32) -> bool {
    exists|i: int| 0 <= i < rs.len() && rs[i].lba == lba
}

/// Whether a dirty-block entry is well formed: full-block content, the
/// escape flag exactly when the content opens with the journal magic, and
/// the 32-bit home address mirroring the block's address.
pub open spec fn spec_buf_wf(b: JbdBuf) -> bool {
    &&& b.block.data@.len() == BLOCK_SIZE
    &&& b.escape == spec_starts_with_magic(b.block.data@)
    &&& b.jbd_lba == b.block.lb_id % 0x1_0000_0000
}

impl Transaction {
    /// Whether the transaction's counters and queues are consistent.
    pub open spec fn wf(self) -> bool {
        &&& self.data_cnt == self.buf_queue@.len()
        &&& self.written_cnt <= self.data_cnt
        &&& forall|i: int| 0 <= i < self.buf_queue@.len() ==> spec_buf_wf(
            #[trigger] self.buf_queue@[i],
        )
        &&& spec_revokes_sorted(self.revoke_root@)
    }

    /// Whether every dirty block's home address lies on a device of
    /// `dev_len` blocks.
    pub open spec fn bufs_within(self, dev_len: int) -> bool {
        forall|i: int| 0 <= i < self.buf_queue@.len() ==> (
        #[trigger] self.buf_queue@[i]).block.lb_id < dev_len
    }

    /// A fresh transaction with no dirty blocks and no revokes.
    pub fn new() -> (r: Transaction)
        ensures
            r.wf(),
            r.trans_id == 0,
            r.start_iblock == 0,
            r.alloc_blocks == 0,
            r.data_cnt == 0,
            r.written_cnt == 0,
            r.error == 0,
            r.buf_queue@.len() == 0,
            r.revoke_root@.len() == 0,
    {
        Transaction {
            trans_id: 0,
            start_iblock: 0,
            alloc_blocks: 0,
            data_cnt: 0,
            written_cnt: 0,
            error: 0,
            buf_queue: Vec::new(),
            revoke_root: Vec::new(),
        }
    }

    /// Appends a dirty block to the transaction, detecting on the way in
    /// whether its content must be escaped for the log.
    pub fn jbd_trans_set_block_dirty(&mut self, block: Ext4Block)
        requires
            old(self).wf(),
            block.data@.len() == BLOCK_SIZE,
            old(self).data_cnt < u32::MAX,
        ensures
            final(self).wf(),
            final(self).data_cnt == old(self).data_cnt + 1,
            final(self).buf_queue@.len() == old(self).buf_queue@.len() + 1,
            final(self).buf_queue@.subrange(0, old(self).buf_queue@.len() as int) == old(
                self,
            ).buf_queue@,
            ({
                let b = final(self).buf_queue@.last();
                &&& b.block.lb_id == block.lb_id
                &&& b.block.data@ == block.data@
                &&& b.escape == spec_starts_with_magic(block.data@)
                &&& b.dirty
            }),
            final(self).trans_id == old(self).trans_id,
            final(self).start_iblock == old(self).start_iblock,
            final(self).alloc_blocks == old(self).alloc_blocks,
            final(self).written_cnt == old(self).written_cnt,
            final(self).error == old(self).error,
            final(self).revoke_root@ == old(self).revoke_root@,
    {
        let escape = starts_with_magic(&block.data);
        let jbd_lba = (block.lb_id % 0x1_0000_0000u64) as u32;
        let buf = JbdBuf { jbd_lba, block, escape, dirty: true };
        self.buf_queue.push(buf);
        self.data_cnt = self.data_cnt + 1;
        proof {
            assert(self.buf_queue@.subrange(0, old(self).buf_queue@.len() as int) =~= old(
                self,
            ).buf_queue@);
        }
    }

    /// Records that replay of the given block address must be suppressed for
    /// this and earlier transactions.  Revoking the same address twice is a
    /// no-op.
    pub fn revoke(&mut self, lba: u32)
        requires
            old(self).wf(),
        ensures
            final(self).wf(),
            forall|x: u32| spec_revokes_contain(final(self).revoke_root@, x) <==> (
            spec_revokes_contain(old(self).revoke_root@, x) || x == lba),
            final(self).revoke_root@.len() <= old(self).revoke_root@.len() + 1,
            final(self).revoke_root@.len() >= old(self).revoke_root@.len(),
            final(self).buf_queue@ == old(self).buf_queue@,
            final(self).data_cnt == old(self).data_cnt,
            final(self).written_cnt == old(self).written_cnt,
            final(self).trans_id == old(self).trans_id,
            final(self).start_iblock == old(self).start_iblock,
            final(self).alloc_blocks == old(self).alloc_blocks,
            final(self).error == old(self).error,
    {
        let mut i: usize = 0;
        let n = self.revoke_root.len();
        while i < n && self.revoke_root[i].lba < lba
            invariant
                i <= n,
                n == self.revoke_root@.len(),
                *self == *old(self),
                forall|k: int| 0 <= k < i ==> (#[trigger] self.revoke_root@[k]).lba < lba,
            decreases n - i,
        {
            i = i + 1;
        }
        if i < n && self.revoke_root[i].lba == lba {
            proof {
                assert(spec_revokes_contain(self.revoke_root@, lba));
            }
            return ;
        }
        proof {
            assert(i < n ==> self.revoke_root@[i as int].lba > lba);
            assert(!spec_revokes_contain(old(self).revoke_root@, lba)) by {
                if spec_revokes_contain(old(self).revoke_root@, lba) {
                    let k = choose|k: int|
                        0 <= k < old(self).revoke_root@.len() && old(self).revoke_root@[k].lba
                            == lba;
                    if k < i {
                        assert(old(self).revoke_root@[k].lba < lba);
                    }
                }
            }
        }
        self.revoke_root.insert(i, JbdRevokeRec { lba });
        proof {
            let rs = self.revoke_root@;
            let os = old(self).revoke_root@;
            assert(rs[i as int].lba == lba);
            assert forall|x: u32| spec_revokes_contain(rs, x) <==> (spec_revokes_contain(os, x)
                || x == lba) by {
                if spec_revokes_contain(os, x) {
                    let k = choose|k: int| 0 <= k < os.len() && os[k].lba == x;
                    if k < i {
                        assert(rs[k].lba == x);
                    } else {
                        assert(rs[k + 1].lba == x);
                    }
                }
                if spec_revokes_contain(rs, x) && x != lba {
                    let k = choose|k: int| 0 <= k < rs.len() && rs[k].lba == x;
                    if k < i {
                        assert(os[k].lba == x);
                    } else {
                        assert(os[k - 1].lba == x);
                    }
                }
            }
            assert(spec_revokes_sorted(rs)) by {
                assert forall|a: int, b: int| 0 <= a < b < rs.len() implies rs[a].lba
                    < rs[b].lba by {
                    if a < i && b == i {
                        assert(os[a].lba < lba);
                    } else if a == i && b > i {
                        assert(rs[b] == os[b - 1]);
                        if i < os.len() {
                            assert(os[i as int].lba > lba);
                        }
                    } else if a < i && b > i {
                        assert(rs[a] == os[a] && rs[b] == os[b - 1]);
                    } else if a > i && b > i {
                        assert(rs[a] == os[a - 1] && rs[b] == os[b - 1]);
                    } else if a < i && b < i {
                        assert(rs[a] == os[a] && rs[b] == os[b]);
                    }
                }
            }
        }
    }
}

} // verus!
