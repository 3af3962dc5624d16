//! On-disk constants of the journal format.

use vstd::prelude::*;

verus! {

/// Magic number that opens every journal metadata block, big-endian on disk.
pub const JBD_MAGIC_NUMBER: u32 = 0xc03b3998;

/// Block type of a descriptor block.
pub const JBD_DESCRIPTOR_BLOCK: u32 = 1;
/// Block type of a commit block.
pub const JBD_COMMIT_BLOCK: u32 = 2;
/// Block type of a version-2 superblock.
pub const JBD_SUPERBLOCK_V2: u32 = 4;
/// Block type of a revoke block.
pub const JBD_REVOKE_BLOCK: u32 = 5;

/// Tag flag: the data block originally began with the journal magic and had
/// its first four bytes zeroed on the way into the log.
pub const JBD_FLAG_ESCAPE: u32 = 1;
/// Tag flag: no 16-byte UUID follows this tag.
pub const JBD_FLAG_SAME_UUID: u32 = 2;
/// Tag flag: this tag ends the tag chain of its descriptor block.
pub const JBD_FLAG_LAST_TAG: u16 = 8;

/// Incompat feature bit: descriptor tags carry a 64-bit block number.
pub const JBD_FEATURE_INCOMPAT_64BIT: u32 = 1;
/// Incompat feature bit: v3 checksums are in use.
pub const JBD_FEATURE_INCOMPAT_CSUM_V3: u16 = 0x00000010;

/// Size in bytes of a UUID stored on disk.
pub const UUID_SIZE: usize = 16;
/// Size in bytes of the superblock's shared-users array.
pub const JBD_USERS_SIZE: usize = 16 * 48;

/// Fixed block size of the device and of every journal block.
pub const BLOCK_SIZE: usize = 4096;

/// Size in bytes of the header that opens every journal metadata block.
pub const BHDR_SIZE: usize = 12;
/// Size in bytes of a v3 descriptor tag, without its optional UUID.
pub const TAG3_SIZE: usize = 16;
/// Size in bytes of an encoded superblock record.
pub const SB_SIZE: usize = 1024;

} // verus!
