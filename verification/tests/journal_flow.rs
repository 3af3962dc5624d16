//! End-to-end journal scenarios: commit layout, escape handling, revoke
//! suppression, log wrap, torn commits, and recovery.

use jbd::consts::{BLOCK_SIZE, JBD_MAGIC_NUMBER, JBD_SUPERBLOCK_V2, UUID_SIZE};
use jbd::defs::{Ext4Block, JbdBhdr, JbdError, JbdFs, JbdJournal, JbdSb, RevokeEntry, Transaction};
use jbd::device::BlockDevice;

fn make_sb(first: u32, maxlen: u32, sequence: u32, start: u32) -> JbdSb {
    JbdSb {
        header: JbdBhdr { magic: JBD_MAGIC_NUMBER, blocktype: JBD_SUPERBLOCK_V2, sequence: 0 },
        blocksize: BLOCK_SIZE as u32,
        maxlen,
        first,
        sequence,
        start,
        error_val: 0,
        feature_compat: 0,
        feature_incompat: 0,
        feature_ro_compat: 0,
        uuid: vec![0u8; UUID_SIZE],
        nr_users: 1,
        dynsuper: 0,
        max_transaction: 0,
        max_trandata: 0,
        checksum_type: 0,
        checksum: 0,
        users: vec![0u8; 16 * 48],
    }
}

fn fresh_fs(first: u32, maxlen: u32, nblocks: usize) -> JbdFs {
    let bdev = BlockDevice::new(nblocks);
    let mut fs = JbdFs::mount(bdev, make_sb(first, maxlen, 0, 0)).unwrap();
    fs.journal_start();
    fs
}

fn block_of(fs: &JbdFs, iblock: usize) -> Vec<u8> {
    fs.bdev.read_offset(iblock * BLOCK_SIZE)
}

fn be32(b: &[u8]) -> u32 {
    ((b[0] as u32) << 24) | ((b[1] as u32) << 16) | ((b[2] as u32) << 8) | (b[3] as u32)
}

fn commit_one(fs: &mut JbdFs, lba: u64, fill: u8) {
    fs.trans_start().unwrap();
    fs.write_trans(Ext4Block { lb_id: lba, data: vec![fill; BLOCK_SIZE] }).unwrap();
    fs.trans_stop().unwrap();
}

#[test]
fn empty_journal_recovery_is_noop() {
    let bdev = BlockDevice::new(64);
    let mut fs = JbdFs::mount(bdev, make_sb(10, 16, 5, 0)).unwrap();
    let before = block_of(&fs, 0);
    fs.recover().unwrap();
    assert_eq!(fs.sb.sequence, 5);
    assert_eq!(fs.sb.start, 0);
    assert_eq!(block_of(&fs, 0), before);
}

#[test]
fn single_block_commit_layout() {
    let mut fs = fresh_fs(10, 16, 64);
    commit_one(&mut fs, 0x2, 0x41);

    // Descriptor block at `first`.
    let desc = block_of(&fs, 10);
    assert_eq!(be32(&desc[0..4]), JBD_MAGIC_NUMBER);
    assert_eq!(be32(&desc[4..8]), 1); // descriptor block type
    assert_eq!(be32(&desc[8..12]), 1); // transaction id
    // Its single tag: block number 2 (low word little-endian), flags
    // LAST_TAG | SAME_UUID.
    assert_eq!(&desc[12..16], &[0x02, 0x00, 0x00, 0x00]);
    assert_eq!(&desc[16..18], &[0x00, 0x00]); // checksum
    assert_eq!(&desc[18..20], &[0x00, 0x0A]); // flags
    assert_eq!(&desc[20..24], &[0x00, 0x00, 0x00, 0x00]); // high word

    // Data block at `first + 1`, commit block at `first + 2`.
    let data = block_of(&fs, 11);
    assert!(data.iter().all(|b| *b == 0x41));
    let commit = block_of(&fs, 12);
    assert_eq!(be32(&commit[0..4]), JBD_MAGIC_NUMBER);
    assert_eq!(be32(&commit[4..8]), 2); // commit block type
    assert_eq!(be32(&commit[8..12]), 1);

    // Superblock mirror and its persisted copy.
    assert_eq!(fs.sb.start, 10);
    assert_eq!(fs.sb.sequence, 1);
    let sb_disk = JbdSb::decode(&block_of(&fs, 0)).unwrap();
    assert_eq!(sb_disk.start, 10);
    assert_eq!(sb_disk.sequence, 1);
}

#[test]
fn escaped_content_round_trips_through_replay() {
    let mut fs = fresh_fs(10, 16, 64);
    let mut content = vec![0x11u8; BLOCK_SIZE];
    content[0] = 0xC0;
    content[1] = 0x3B;
    content[2] = 0x39;
    content[3] = 0x98;
    fs.trans_start().unwrap();
    fs.write_trans(Ext4Block { lb_id: 0x2, data: content.clone() }).unwrap();
    fs.trans_stop().unwrap();

    // The tag carries the escape flag and the log copy starts with zeros.
    let desc = block_of(&fs, 10);
    assert_eq!(&desc[18..20], &[0x00, 0x0B]); // ESCAPE | SAME_UUID | LAST_TAG
    let log_copy = block_of(&fs, 11);
    assert_eq!(&log_copy[0..4], &[0, 0, 0, 0]);
    assert_eq!(&log_copy[4..], &content[4..]);

    // Replay restores the content bitwise at the home location.
    fs.recover().unwrap();
    assert_eq!(block_of(&fs, 2), content);
}

#[test]
fn revoke_suppresses_older_replay() {
    let mut fs = fresh_fs(20, 32, 64);
    // T1 writes home block 0x10.
    commit_one(&mut fs, 0x10, 0xAA);
    // T2 revokes home block 0x10.
    fs.trans_start().unwrap();
    fs.trans_revoke(0x10).unwrap();
    fs.trans_stop().unwrap();
    // T3 writes home block 0x10 again.
    commit_one(&mut fs, 0x10, 0xBB);

    fs.recover().unwrap();
    // T1's replay was suppressed, T3's was applied.
    let home = block_of(&fs, 0x10);
    assert!(home.iter().all(|b| *b == 0xBB));
}

#[test]
fn revoke_only_transaction_replays_nothing() {
    let mut fs = fresh_fs(20, 32, 64);
    commit_one(&mut fs, 0x10, 0xAA);
    fs.trans_start().unwrap();
    fs.trans_revoke(0x10).unwrap();
    fs.trans_stop().unwrap();
    fs.recover().unwrap();
    // The only write to 0x10 was revoked by a newer transaction.
    let home = block_of(&fs, 0x10);
    assert!(home.iter().all(|b| *b == 0x00));
}

#[test]
fn log_wrap_stays_inside_window() {
    // maxlen = 8, first = 1: each single-block commit takes three log
    // blocks, so the fourth commit wraps around.
    let mut fs = fresh_fs(1, 8, 32);
    for k in 0..4u8 {
        commit_one(&mut fs, 20, 0x50 + k);
    }
    // Everything outside the superblock, the log window [1, 9) and the home
    // block is untouched.
    for b in 9..32usize {
        if b != 20 {
            assert!(block_of(&fs, b).iter().all(|x| *x == 0), "block {} touched", b);
        }
    }
    // The third commit's blocks wrapped: its commit block landed back at
    // log block 1.
    let wrapped = block_of(&fs, 1);
    assert_eq!(be32(&wrapped[0..4]), JBD_MAGIC_NUMBER);
    assert_eq!(be32(&wrapped[4..8]), 2); // commit block type
    assert_eq!(be32(&wrapped[8..12]), 3); // third transaction
}

#[test]
fn torn_commit_is_not_replayed() {
    let mut fs = fresh_fs(10, 16, 64);
    commit_one(&mut fs, 0x2, 0x41);
    // Tear the commit block off, as if the crash hit before it was durable.
    fs.bdev.write_offset(12 * BLOCK_SIZE, &vec![0u8; BLOCK_SIZE]);
    fs.recover().unwrap();
    // No home-location write happened.
    assert!(block_of(&fs, 2).iter().all(|b| *b == 0));
    assert_eq!(fs.sb.start, 0);
}

#[test]
fn crash_prefix_model() {
    // Any prefix of the device writes cut before the commit block loses the
    // transaction; a prefix cut at or after it recovers the transaction in
    // full.
    let mut fs = fresh_fs(10, 16, 64);
    commit_one(&mut fs, 0x2, 0x41);

    // Torn before the commit block: nothing is applied.
    let mut torn = JbdFs {
        journal: JbdJournal::new(),
        sb: fs.sb.clone(),
        bdev: fs.bdev.clone(),
        dirty: false,
        curr_trans: None,
    };
    torn.bdev.write_offset(12 * BLOCK_SIZE, &vec![0u8; BLOCK_SIZE]);
    torn.recover().unwrap();
    assert!(block_of(&torn, 2).iter().all(|b| *b == 0));

    // Complete log: the transaction is applied in full.
    let mut whole = JbdFs {
        journal: JbdJournal::new(),
        sb: fs.sb.clone(),
        bdev: fs.bdev.clone(),
        dirty: false,
        curr_trans: None,
    };
    whole.recover().unwrap();
    assert!(block_of(&whole, 2).iter().all(|b| *b == 0x41));
}

#[test]
fn recovery_twice_is_idempotent() {
    let mut fs = fresh_fs(10, 16, 64);
    commit_one(&mut fs, 0x2, 0x41);
    fs.recover().unwrap();
    let seq_after = fs.sb.sequence;
    let home_after = block_of(&fs, 2);
    let sb_after = block_of(&fs, 0);
    assert_eq!(fs.sb.start, 0);
    // The second run enters with a clean log and changes nothing.
    fs.recover().unwrap();
    assert_eq!(fs.sb.sequence, seq_after);
    assert_eq!(fs.sb.start, 0);
    assert_eq!(block_of(&fs, 2), home_after);
    assert_eq!(block_of(&fs, 0), sb_after);
}

#[test]
fn sequence_advances_by_one_per_checkpointed_commit() {
    let mut fs = fresh_fs(10, 16, 64);
    let base = fs.sb.sequence;
    for k in 0..3u32 {
        commit_one(&mut fs, 0x2, 0x41);
        fs.flush();
        assert_eq!(fs.sb.sequence, base + k + 1);
    }
}

#[test]
fn empty_commit_advances_sequence_only() {
    let mut fs = fresh_fs(10, 16, 64);
    let base = fs.sb.sequence;
    fs.trans_start().unwrap();
    fs.trans_stop().unwrap();
    assert_eq!(fs.sb.sequence, base + 1);
    assert_eq!(fs.sb.start, 0); // log stayed clean
    // Only the commit block was written into the log.
    let commit = block_of(&fs, 10);
    assert_eq!(be32(&commit[0..4]), JBD_MAGIC_NUMBER);
    assert_eq!(be32(&commit[4..8]), 2);
}

#[test]
fn duplicate_revoke_is_deduplicated() {
    let mut fs = fresh_fs(10, 16, 64);
    fs.trans_start().unwrap();
    fs.trans_revoke(0x33).unwrap();
    fs.trans_revoke(0x33).unwrap();
    fs.trans_revoke(0x11).unwrap();
    let t = fs.curr_trans.as_ref().unwrap();
    assert_eq!(t.revoke_root.len(), 2);
    // Kept sorted by block address.
    assert_eq!(t.revoke_root[0].lba, 0x11);
    assert_eq!(t.revoke_root[1].lba, 0x33);
    fs.trans_stop().unwrap();
}

#[test]
fn protocol_misuse_is_rejected() {
    let mut fs = fresh_fs(10, 16, 64);
    assert_eq!(fs.write_trans(Ext4Block { lb_id: 2, data: vec![0; BLOCK_SIZE] }),
        Err(JbdError::ProtocolMisuse));
    assert_eq!(fs.trans_stop(), Err(JbdError::ProtocolMisuse));
    assert_eq!(fs.trans_revoke(1), Err(JbdError::ProtocolMisuse));
    fs.trans_start().unwrap();
    assert_eq!(fs.trans_start(), Err(JbdError::ProtocolMisuse));
    assert_eq!(fs.unmount(), Err(JbdError::ProtocolMisuse));
    fs.trans_stop().unwrap();
    fs.unmount().unwrap();
}

#[test]
fn mount_rejects_bad_geometry() {
    let bdev = BlockDevice::new(8);
    // Log window does not fit on the device.
    assert!(matches!(
        JbdFs::mount(bdev, make_sb(10, 16, 0, 0)),
        Err(JbdError::MalformedRecord)
    ));
    let bdev = BlockDevice::new(64);
    // Persisted start outside the window.
    assert!(matches!(
        JbdFs::mount(bdev, make_sb(10, 16, 0, 40)),
        Err(JbdError::MalformedRecord)
    ));
}

#[test]
fn alloc_fails_when_purge_frees_nothing() {
    // A checkpoint-queue transaction spanning the whole log leaves the tail
    // where it was when popped, so allocation still finds the log full.
    let mut journal = JbdJournal::new();
    journal.first = 1;
    journal.maxlen = 8;
    journal.start = 5;
    journal.last = 4;
    journal.trans_id = 1;
    journal.alloc_trans_id = 2;
    let mut stuck = Transaction::new();
    stuck.trans_id = 1;
    stuck.start_iblock = 5;
    stuck.alloc_blocks = 8;
    journal.cp_queue.queue.push_back(stuck);
    let mut bdev = BlockDevice::new(16);
    let mut trans = Transaction::new();
    let r = journal.jbd_journal_alloc_block(&mut trans, &mut bdev);
    assert_eq!(r, Err(JbdError::LogFull));
}

#[test]
fn corrupt_revoke_count_aborts_recovery() {
    let bdev = BlockDevice::new(64);
    let mut fs = JbdFs::mount(bdev, make_sb(10, 16, 1, 10)).unwrap();
    // Hand-craft a log: a revoke block with an impossible record count,
    // then a commit block so the scan pass finds a committed transaction.
    let mut revoke_block = JbdBhdr { magic: JBD_MAGIC_NUMBER, blocktype: 5, sequence: 1 }
        .to_be_bytes();
    revoke_block.extend_from_slice(&20000u32.to_be_bytes());
    revoke_block.resize(BLOCK_SIZE, 0);
    fs.bdev.write_offset(10 * BLOCK_SIZE, &revoke_block);
    let mut commit_block = JbdBhdr { magic: JBD_MAGIC_NUMBER, blocktype: 2, sequence: 1 }
        .to_be_bytes();
    commit_block.resize(BLOCK_SIZE, 0);
    fs.bdev.write_offset(11 * BLOCK_SIZE, &commit_block);
    assert_eq!(fs.recover(), Err(JbdError::Corrupt));
}

#[test]
fn revoke_table_suppression_order() {
    // An address revoked by transaction 7 suppresses replay by any
    // transaction at or before 7, and none after it.
    let mut table: Vec<RevokeEntry> = Vec::new();
    jbd::jbd::revoke_insert(&mut table, 0x10, 7);
    assert!(!jbd::jbd::should_replay(&table, 0x10, 5));
    assert!(!jbd::jbd::should_replay(&table, 0x10, 7));
    assert!(jbd::jbd::should_replay(&table, 0x10, 8));
    assert!(jbd::jbd::should_replay(&table, 0x11, 5));
    // A later revoke of the same address wins over an earlier one.
    jbd::jbd::revoke_insert(&mut table, 0x10, 6);
    assert!(!jbd::jbd::should_replay(&table, 0x10, 7));
    jbd::jbd::revoke_insert(&mut table, 0x10, 9);
    assert!(!jbd::jbd::should_replay(&table, 0x10, 9));
    assert!(jbd::jbd::should_replay(&table, 0x10, 10));
    assert_eq!(table.len(), 1);
}
