//! Data types of the journal engine.

use vstd::prelude::*;
use std::collections::VecDeque;

use crate::consts::{BLOCK_SIZE, JBD_USERS_SIZE, UUID_SIZE};

verus! {

/// Errors surfaced by the journal engine.
#[derive(Clone, Copy, Debug, PartialEq, Eq, Structural)]
pub enum JbdError {
    /// Decoded bytes violate the on-disk format.
    MalformedRecord,
    /// An underlying device read or write failed.
    DeviceIo,
    /// The space manager cannot allocate a log block even after a purge.
    LogFull,
    /// A transaction operation was called in the wrong state.
    ProtocolMisuse,
    /// Recovery found a tag or revoke record that cannot be applied.
    Corrupt,
}

/// Header that opens every descriptor, commit, revoke and superblock block.
#[derive(Clone, Copy, Debug, PartialEq, Eq, Structural)]
pub struct JbdBhdr {
    pub magic: u32,
    pub blocktype: u32,
    pub sequence: u32,
}

/// In-memory mirror of the on-disk journal superblock.
#[derive(Clone, Debug)]
pub struct JbdSb {
    /// Header with the journal magic and the superblock block type.
    pub header: JbdBhdr,
    /// Device block size; this engine fixes it at `BLOCK_SIZE`.
    pub blocksize: u32,
    /// Total length of the circular log in blocks.
    pub maxlen: u32,
    /// First usable log block.
    pub first: u32,
    /// Transaction id of the first transaction to replay; see `start`.
    pub sequence: u32,
    /// Oldest uncheckpointed log block; zero means the log is clean.
    pub start: u32,
    /// Error value, as set when the journal is aborted.
    pub error_val: i32,
    /// Compatible feature bitmap.
    pub feature_compat: u32,
    /// Incompatible feature bitmap.
    pub feature_incompat: u32,
    /// Read-only-compatible feature bitmap.
    pub feature_ro_compat: u32,
    /// 128-bit UUID of the journal; always `UUID_SIZE` bytes.
    pub uuid: Vec<u8>,
    /// Number of filesystems sharing the log.
    pub nr_users: u32,
    /// Block number of the dynamic superblock copy.
    pub dynsuper: u32,
    /// Limit of journal blocks per transaction.
    pub max_transaction: u32,
    /// Limit of data blocks per transaction.
    pub max_trandata: u32,
    /// Checksum algorithm selector.
    pub checksum_type: u8,
    /// Checksum of the superblock.
    pub checksum: u32,
    /// IDs of all filesystems sharing the log; always `JBD_USERS_SIZE` bytes.
    pub users: Vec<u8>,
}

/// Which of the superblock's three feature bitmaps a query addresses.
#[derive(Clone, Copy, Debug, PartialEq, Eq, Structural)]
pub enum FeatureBitmap {
    /// Features an old implementation may safely ignore.
    Compat,
    /// Features an implementation must support to touch the journal.
    Incompat,
    /// Features an implementation must support to write the journal.
    RoCompat,
}

impl JbdSb {
    /// Whether the given feature bits are all enabled in the chosen bitmap.
    pub fn has_feature(&self, bitmap: FeatureBitmap, bits: u32) -> (r: bool)
        ensures
            r == ({
                let word = match bitmap {
                    FeatureBitmap::Compat => self.feature_compat,
                    FeatureBitmap::Incompat => self.feature_incompat,
                    FeatureBitmap::RoCompat => self.feature_ro_compat,
                };
                word & bits == bits
            }),
    {
        let word = match bitmap {
            FeatureBitmap::Compat => self.feature_compat,
            FeatureBitmap::Incompat => self.feature_incompat,
            FeatureBitmap::RoCompat => self.feature_ro_compat,
        };
        word & bits == bits
    }

    /// Structural well-formedness: fixed-size byte fields have their on-disk
    /// lengths, the geometry is sane, and the log window fits in 32 bits.
    pub open spec fn wf(self) -> bool {
        &&& self.uuid@.len() == UUID_SIZE
        &&& self.users@.len() == JBD_USERS_SIZE
        &&& self.blocksize == BLOCK_SIZE as u32
        &&& 1 <= self.first
        &&& 2 <= self.maxlen
        &&& self.first + self.maxlen <= u32::MAX
        &&& (self.start == 0 || (self.first <= self.start < self.first + self.maxlen))
    }
}

/// One dirty block carried by a transaction: the home location, the new
/// content, and whether the content had to be escaped for the log.
#[derive(Clone, Debug)]
pub struct JbdBuf {
    /// Home logical block address the content belongs at.
    pub jbd_lba: u32,
    /// The block content destined for the home location.
    pub block: Ext4Block,
    /// Whether the content begins with the journal magic and is therefore
    /// stored in the log with its first four bytes zeroed.
    pub escape: bool,
    /// Whether the content still awaits checkpoint writeback.
    pub dirty: bool,
}

/// A filesystem block: its logical address and its content.
#[derive(Clone, Debug)]
pub struct Ext4Block {
    pub lb_id: u64,
    pub data: Vec<u8>,
}

/// A revoke record: replay of this block address is suppressed for this and
/// all earlier transactions.
#[derive(Clone, Copy, Debug, PartialEq, Eq, Structural)]
pub struct JbdRevokeRec {
    pub lba: u32,
}

/// One in-memory transaction: an atomic group of dirty blocks and revokes.
#[derive(Clone, Debug)]
pub struct Transaction {
    /// Transaction id, assigned at commit.
    pub trans_id: u32,
    /// First log block the transaction occupies.
    pub start_iblock: u32,
    /// Number of log blocks the transaction occupies.
    pub alloc_blocks: u32,
    /// Number of dirty data blocks.
    pub data_cnt: u32,
    /// Number of data blocks already written back to their home locations.
    pub written_cnt: u32,
    /// Sticky error value of the transaction.
    pub error: i32,
    /// Dirty data blocks, in the order they were marked.
    pub buf_queue: Vec<JbdBuf>,
    /// Revoked block addresses, kept sorted and without duplicates.
    pub revoke_root: Vec<JbdRevokeRec>,
}

/// FIFO of committed transactions awaiting home-location writeback.
#[derive(Clone, Debug)]
pub struct CheckpointQueue {
    pub queue: VecDeque<Transaction>,
}

impl CheckpointQueue {
    /// An empty checkpoint queue.
    pub fn new() -> (r: CheckpointQueue)
        ensures
            r.queue@.len() == 0,
    {
        CheckpointQueue { queue: VecDeque::new() }
    }
}

/// In-memory state of the journal: the circular space manager and the
/// checkpoint queue.
#[derive(Clone, Debug)]
pub struct JbdJournal {
    /// First usable log block.
    pub first: u32,
    /// Oldest uncheckpointed log block.
    pub start: u32,
    /// Next free log block.
    pub last: u32,
    /// Total length of the circular log in blocks.
    pub maxlen: u32,
    /// Transaction id of the oldest uncheckpointed transaction; the id
    /// recovery would start replaying with.
    pub trans_id: u32,
    /// Next transaction id to assign at commit.
    pub alloc_trans_id: u32,
    /// Device block size; this engine fixes it at `BLOCK_SIZE`.
    pub block_size: u32,
    /// Incompatible feature bitmap, mirrored from the superblock.
    pub feature_incompat: u32,
    /// Committed transactions awaiting checkpoint.
    pub cp_queue: CheckpointQueue,
}

/// The journal facade: the superblock mirror, the journal state, the block
/// device, and the transaction currently open, if any.
#[derive(Clone, Debug)]
pub struct JbdFs {
    /// Space manager and checkpoint queue.
    pub journal: JbdJournal,
    /// In-memory mirror of the on-disk superblock.
    pub sb: JbdSb,
    /// The block device holding the journal and the home locations.
    pub bdev: crate::device::BlockDevice,
    /// Whether in-memory state has changed since the last superblock write.
    pub dirty: bool,
    /// The transaction currently open, if any; at most one at a time.
    pub curr_trans: Option<Transaction>,
}

/// Header of a revoke block: the block header followed by the byte count of
/// the revoke record, the trailing packed addresses included.
#[derive(Clone, Copy, Debug, PartialEq, Eq, Structural)]
pub struct JbdRevokeHeader {
    pub header: JbdBhdr,
    pub count: u32,
}

/// An entry of the recovery revoke table.
#[derive(Clone, Copy, Debug, PartialEq, Eq, Structural)]
pub struct RevokeEntry {
    /// Revoked home block address.
    pub block: u64,
    /// Id of the newest transaction that revoked the address.
    pub trans_id: u32,
}

/// State shared by the recovery passes over the log.
#[derive(Clone, Debug)]
pub struct RecoverInfo {
    /// Revoke table: one entry per revoked address, no duplicates.
    pub revoke_tree: Vec<RevokeEntry>,
    /// Trans id of the last committed transaction found by the scan pass.
    pub last_trans_id: u32,
    /// Number of committed transactions found by the scan pass.
    pub trans_cnt: u32,
    /// Trans id the scan pass started from.
    pub start_trans_id: u32,
    /// Trans id of the block the current pass is looking at.
    pub this_trans_id: u32,
}

impl RecoverInfo {
    /// Fresh recovery state with an empty revoke table.
    pub fn new() -> (r: RecoverInfo)
        ensures
            r.revoke_tree@.len() == 0,
            r.last_trans_id == 0,
            r.trans_cnt == 0,
            r.start_trans_id == 0,
            r.this_trans_id == 0,
    {
        RecoverInfo {
            revoke_tree: Vec::new(),
            last_trans_id: 0,
            trans_cnt: 0,
            start_trans_id: 0,
            this_trans_id: 0,
        }
    }
}

/// One pass of the recovery walk over the log.
#[derive(Clone, Copy, Debug, PartialEq, Eq, Structural)]
pub enum RecoveryAction {
    /// Bound the range of committed transaction ids.
    Scan,
    /// Build the revoke table.
    Revoke,
    /// Copy committed data blocks back to their home locations.
    Recover,
}

/// Descriptor tag, version-3 layout: 16 bytes on disk, followed by a 16-byte
/// UUID when the same-UUID flag is clear.
#[derive(Clone, Copy, Debug, PartialEq, Eq, Structural)]
pub struct JbdBlockTag3 {
    /// Low 32 bits of the home block number; little-endian on disk.
    pub blocknr: u32,
    /// Tag checksum.
    pub checksum: u16,
    /// Tag flags.
    pub flags: u16,
    /// High 32 bits of the home block number.
    pub blocknr_high: u32,
}

/// Decoded form of one descriptor tag.
#[derive(Clone, Debug)]
pub struct TagInfo {
    /// Bytes the tag occupies in the descriptor block, UUID included.
    pub tag_bytes: usize,
    /// Home block number the tag points at.
    pub block: u64,
    /// Whether the data block was escaped on the way into the log.
    pub is_escape: bool,
    /// Whether a UUID follows the tag on disk.
    pub uuid_exist: bool,
    /// The tag's UUID; meaningful only when `uuid_exist` is set.
    pub uuid: Vec<u8>,
    /// Whether the tag ends its descriptor's tag chain.
    pub last_tag: bool,
    /// Tag checksum value.
    pub checksum: u32,
}

impl TagInfo {
    /// A zeroed tag with an all-zero UUID.
    pub fn new() -> (r: TagInfo)
        ensures
            r.tag_bytes == 0,
            r.block == 0,
            !r.is_escape,
            !r.uuid_exist,
            r.uuid@ == Seq::new(UUID_SIZE as nat, |i: int| 0u8),
            !r.last_tag,
            r.checksum == 0,
    {
        let mut uuid: Vec<u8> = Vec::new();
        let mut i: usize = 0;
        while i < UUID_SIZE
            invariant
                i <= UUID_SIZE,
                uuid@ == Seq::new(i as nat, |j: int| 0u8),
            decreases UUID_SIZE - i,
        {
            uuid.push(0);
            proof {
                assert(uuid@ =~= Seq::new((i + 1) as nat, |j: int| 0u8));
            }
            i = i + 1;
        }
        TagInfo {
            tag_bytes: 0,
            block: 0,
            is_escape: false,
            uuid_exist: false,
            uuid,
            last_tag: false,
            checksum: 0,
        }
    }
}

/// Centered difference of two wrapping 32-bit transaction ids: the unique
/// value congruent to `id1 - id2` modulo two to the 32nd that lies in the
/// signed 32-bit range.
pub open spec fn spec_trans_id_diff(id1: u32, id2: u32) -> int {
    let d = (id1 + 0x1_0000_0000 - id2) % 0x1_0000_0000;
    if d >= 0x8000_0000 {
        d - 0x1_0000_0000
    } else {
        d
    }
}

/// Signed distance between two wrapping transaction ids; positive when `id1`
/// is ahead of `id2`.
pub fn trans_id_diff(id1: u32, id2: u32) -> (r: i32)
    ensures
        r as int == spec_trans_id_diff(id1, id2),
{
    let d: i64 = id1 as i64 - id2 as i64;
    let w: i64 = if d < -0x8000_0000i64 {
        d + 0x1_0000_0000i64
    } else if d >= 0x8000_0000i64 {
        d - 0x1_0000_0000i64
    } else {
        d
    };
    proof {
        let dd = (id1 + 0x1_0000_0000 - id2) % 0x1_0000_0000;
        if id1 >= id2 {
            assert(dd == id1 - id2) by {
                assert(0 <= id1 + 0x1_0000_0000 - id2 - 0x1_0000_0000 < 0x1_0000_0000);
            }
        } else {
            assert(dd == id1 + 0x1_0000_0000 - id2) by {
                assert(0 <= id1 + 0x1_0000_0000 - id2 < 0x1_0000_0000);
            }
        }
    }
    w as i32
}

} // verus!
