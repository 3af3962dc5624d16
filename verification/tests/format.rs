//! On-disk format tests: record encode/decode round trips and rejection of
//! malformed buffers.

use jbd::consts::{BLOCK_SIZE, JBD_MAGIC_NUMBER, JBD_SUPERBLOCK_V2, SB_SIZE, UUID_SIZE};
use jbd::defs::{JbdBhdr, JbdBlockTag3, JbdError, JbdJournal, JbdSb, TagInfo};

fn make_sb(first: u32, maxlen: u32, sequence: u32, start: u32) -> JbdSb {
    JbdSb {
        header: JbdBhdr { magic: JBD_MAGIC_NUMBER, blocktype: JBD_SUPERBLOCK_V2, sequence: 0 },
        blocksize: BLOCK_SIZE as u32,
        maxlen,
        first,
        sequence,
        start,
        error_val: 0,
        feature_compat: 0,
        feature_incompat: 0,
        feature_ro_compat: 0,
        uuid: vec![0u8; UUID_SIZE],
        nr_users: 1,
        dynsuper: 0,
        max_transaction: 0,
        max_trandata: 0,
        checksum_type: 0,
        checksum: 0,
        users: vec![0u8; 16 * 48],
    }
}

#[test]
fn bhdr_round_trip() {
    let h = JbdBhdr { magic: JBD_MAGIC_NUMBER, blocktype: 2, sequence: 0xDEADBEEF };
    let bytes = h.to_be_bytes();
    assert_eq!(bytes.len(), 12);
    assert_eq!(&bytes[0..4], &[0xc0, 0x3b, 0x39, 0x98]);
    assert_eq!(&bytes[8..12], &[0xDE, 0xAD, 0xBE, 0xEF]);
    let back = JbdBhdr::from_be_bytes(&bytes).unwrap();
    assert_eq!(back, h);
}

#[test]
fn bhdr_short_buffer_rejected() {
    let bytes = vec![0u8; 11];
    assert_eq!(JbdBhdr::from_be_bytes(&bytes), Err(JbdError::MalformedRecord));
}

#[test]
fn tag3_wire_layout() {
    let t = JbdBlockTag3 {
        blocknr: 0x01020304,
        checksum: 0xAABB,
        flags: 0x000A,
        blocknr_high: 0x05060708,
    };
    let bytes = t.to_be_bytes();
    // Low block number little-endian, every other field big-endian, four
    // reserved zero bytes.
    assert_eq!(
        bytes,
        vec![
            0x04, 0x03, 0x02, 0x01, 0xAA, 0xBB, 0x00, 0x0A, 0x05, 0x06, 0x07, 0x08, 0x00, 0x00,
            0x00, 0x00,
        ]
    );
}

#[test]
fn sb_encode_decode_round_trip() {
    let mut sb = make_sb(7, 100, 42, 9);
    sb.error_val = -5;
    sb.feature_incompat = 1;
    sb.uuid = (0u8..16u8).collect();
    sb.checksum_type = 3;
    sb.checksum = 0x11223344;
    let bytes = sb.encode();
    assert_eq!(bytes.len(), SB_SIZE);
    let back = JbdSb::decode(&bytes).unwrap();
    assert_eq!(back.header.magic, JBD_MAGIC_NUMBER);
    assert_eq!(back.blocksize, BLOCK_SIZE as u32);
    assert_eq!(back.maxlen, 100);
    assert_eq!(back.first, 7);
    assert_eq!(back.sequence, 42);
    assert_eq!(back.start, 9);
    assert_eq!(back.error_val, -5);
    assert_eq!(back.feature_incompat, 1);
    assert_eq!(back.uuid, sb.uuid);
    assert_eq!(back.nr_users, 1);
    assert_eq!(back.checksum_type, 3);
    assert_eq!(back.checksum, 0x11223344);
    assert_eq!(back.users, sb.users);
    // The other direction: re-encoding the decoded superblock reproduces
    // the buffer, since its padding is zero.
    assert_eq!(back.encode(), bytes);
}

#[test]
fn sb_decode_rejects_bad_magic_and_short_buffer() {
    let sb = make_sb(1, 8, 0, 0);
    let mut bytes = sb.encode();
    bytes[0] = 0;
    assert!(matches!(JbdSb::decode(&bytes), Err(JbdError::MalformedRecord)));
    let short = vec![0u8; SB_SIZE - 1];
    assert!(matches!(JbdSb::decode(&short), Err(JbdError::MalformedRecord)));
}

#[test]
fn tag_write_then_extract_round_trip() {
    let journal = JbdJournal::new();
    let mut info = TagInfo::new();
    info.block = 0x2;
    info.is_escape = false;
    info.last_tag = true;
    let mut buf: Vec<u8> = Vec::new();
    journal.jbd_write_block_tag(&mut buf, &info).unwrap();
    assert_eq!(buf.len(), 16);

    // Decode it back through the facade (no 64-bit feature, so only the low
    // word of the block number is read).
    let bdev = jbd::device::BlockDevice::new(8);
    let fs = jbd::defs::JbdFs::mount(bdev, make_sb(1, 4, 0, 0)).unwrap();
    let mut out = TagInfo::new();
    fs.jbd_extract_block_tag(&buf, 0, &mut out).unwrap();
    assert_eq!(out.block, 0x2);
    assert!(!out.is_escape);
    assert!(out.last_tag);
    assert!(!out.uuid_exist);
    assert_eq!(out.tag_bytes, 16);
}

#[test]
fn tag_with_uuid_round_trip() {
    let journal = JbdJournal::new();
    let mut info = TagInfo::new();
    info.block = 0x123456789u64;
    info.is_escape = true;
    info.last_tag = false;
    info.uuid_exist = true;
    info.uuid = (1u8..17u8).collect();
    let mut buf: Vec<u8> = Vec::new();
    journal.jbd_write_block_tag(&mut buf, &info).unwrap();
    assert_eq!(buf.len(), 32);

    // With the 64-bit feature enabled the high word is read back too.
    let bdev = jbd::device::BlockDevice::new(8);
    let mut sb = make_sb(1, 4, 0, 0);
    sb.feature_incompat = 1;
    let fs = jbd::defs::JbdFs::mount(bdev, sb).unwrap();
    let mut out = TagInfo::new();
    fs.jbd_extract_block_tag(&buf, 0, &mut out).unwrap();
    assert_eq!(out.block, 0x123456789u64);
    assert!(out.is_escape);
    assert!(!out.last_tag);
    assert!(out.uuid_exist);
    assert_eq!(out.uuid, info.uuid);
    assert_eq!(out.tag_bytes, 32);
}

#[test]
fn tag_extract_rejects_truncated_buffer() {
    let bdev = jbd::device::BlockDevice::new(8);
    let fs = jbd::defs::JbdFs::mount(bdev, make_sb(1, 4, 0, 0)).unwrap();
    let mut out = TagInfo::new();
    let buf = vec![0u8; 10];
    assert_eq!(fs.jbd_extract_block_tag(&buf, 0, &mut out), Err(JbdError::MalformedRecord));
}

#[test]
fn feature_query_distinguishes_bitmaps() {
    let mut sb = make_sb(1, 8, 0, 0);
    sb.feature_compat = 0b0101;
    sb.feature_incompat = 0b0010;
    sb.feature_ro_compat = 0b1000;
    assert!(sb.has_feature(jbd::defs::FeatureBitmap::Compat, 0b0101));
    assert!(sb.has_feature(jbd::defs::FeatureBitmap::Compat, 0b0001));
    assert!(!sb.has_feature(jbd::defs::FeatureBitmap::Compat, 0b0010));
    assert!(sb.has_feature(jbd::defs::FeatureBitmap::Incompat, 0b0010));
    assert!(!sb.has_feature(jbd::defs::FeatureBitmap::Incompat, 0b1000));
    assert!(sb.has_feature(jbd::defs::FeatureBitmap::RoCompat, 0b1000));
    assert!(!sb.has_feature(jbd::defs::FeatureBitmap::RoCompat, 0b0101));
}

#[test]
fn trans_id_diff_wraps() {
    assert_eq!(jbd::defs::trans_id_diff(5, 3), 2);
    assert_eq!(jbd::defs::trans_id_diff(3, 5), -2);
    assert_eq!(jbd::defs::trans_id_diff(0, u32::MAX), 1);
    assert_eq!(jbd::defs::trans_id_diff(u32::MAX, 0), -1);
    assert_eq!(jbd::defs::trans_id_diff(7, 7), 0);
}
