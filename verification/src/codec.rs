//! Byte-level codec for the on-disk journal records.
//!
//! All multi-byte integers are big-endian on disk, with one exception: the
//! low 32 bits of a descriptor tag's block number, which are little-endian.

use vstd::prelude::*;

use crate::consts::{
    BHDR_SIZE, BLOCK_SIZE, JBD_MAGIC_NUMBER, JBD_SUPERBLOCK_V2, SB_SIZE, TAG3_SIZE, UUID_SIZE,
    JBD_USERS_SIZE,
};
use crate::defs::{JbdBhdr, JbdBlockTag3, JbdError, JbdSb};
use crate::device::BlockDevice;

verus! {

/// A run of `n` zero bytes.
pub open spec fn spec_zeros(n: int) -> Seq<u8> {
    Seq::new(n as nat, |i: int| 0u8)
}

/// A record padded with zero bytes to a full block.
pub open spec fn spec_zero_pad(s: Seq<u8>) -> Seq<u8> {
    s + spec_zeros(BLOCK_SIZE - s.len())
}

/// Appends `n` zero bytes.
pub fn push_zeros(out: &mut Vec<u8>, n: usize)
    ensures
        final(out)@ == old(out)@ + spec_zeros(n as int),
{
    let mut i: usize = 0;
    while i < n
        invariant
            i <= n,
            out@ == old(out)@ + spec_zeros(i as int),
        decreases n - i,
    {
        out.push(0);
        proof {
            assert(out@ =~= old(out)@ + spec_zeros(i + 1 as int));
        }
        i = i + 1;
    }
    proof {
        assert(out@ =~= old(out)@ + spec_zeros(n as int));
    }
}

/// Big-endian bytes of a 32-bit integer.
pub open spec fn spec_be32(x: u32) -> Seq<u8> {
    seq![
        (x / 0x1000000) as u8,
        ((x / 0x10000) % 0x100) as u8,
        ((x / 0x100) % 0x100) as u8,
        (x % 0x100) as u8,
    ]
}

/// Little-endian bytes of a 32-bit integer.
pub open spec fn spec_le32(x: u32) -> Seq<u8> {
    seq![
        (x % 0x100) as u8,
        ((x / 0x100) % 0x100) as u8,
        ((x / 0x10000) % 0x100) as u8,
        (x / 0x1000000) as u8,
    ]
}

/// Big-endian bytes of a 16-bit integer.
pub open spec fn spec_be16(x: u16) -> Seq<u8> {
    seq![(x / 0x100) as u8, (x % 0x100) as u8]
}

/// The 32-bit integer stored big-endian at `pos` in `s`.
pub open spec fn spec_load_be32(s: Seq<u8>, pos: int) -> u32 {
    (s[pos] * 0x1000000 + s[pos + 1] * 0x10000 + s[pos + 2] * 0x100 + s[pos + 3]) as u32
}

/// The 32-bit integer stored little-endian at `pos` in `s`.
pub open spec fn spec_load_le32(s: Seq<u8>, pos: int) -> u32 {
    (s[pos + 3] * 0x1000000 + s[pos + 2] * 0x10000 + s[pos + 1] * 0x100 + s[pos]) as u32
}

/// The 16-bit integer stored big-endian at `pos` in `s`.
pub open spec fn spec_load_be16(s: Seq<u8>, pos: int) -> u16 {
    (s[pos] * 0x100 + s[pos + 1]) as u16
}

/// Reading back the big-endian bytes of `x` yields `x`.
pub proof fn lemma_be32_round_trip(x: u32)
    ensures
        spec_load_be32(spec_be32(x), 0) == x,
{
    assert(((x / 0x1000000) as u8) * 0x1000000 + (((x / 0x10000) % 0x100) as u8) * 0x10000
        + (((x / 0x100) % 0x100) as u8) * 0x100 + ((x % 0x100) as u8) == x) by (bit_vector);
}

/// Reading back the little-endian bytes of `x` yields `x`.
pub proof fn lemma_le32_round_trip(x: u32)
    ensures
        spec_load_le32(spec_le32(x), 0) == x,
{
    assert(((x / 0x1000000) as u8) * 0x1000000 + (((x / 0x10000) % 0x100) as u8) * 0x10000
        + (((x / 0x100) % 0x100) as u8) * 0x100 + ((x % 0x100) as u8) == x) by (bit_vector);
}

/// Reading back the big-endian bytes of `x` yields `x`.
pub proof fn lemma_be16_round_trip(x: u16)
    ensures
        spec_load_be16(spec_be16(x), 0) == x,
{
    assert(((x / 0x100) as u8) * 0x100 + ((x % 0x100) as u8) == x) by (bit_vector);
}

/// Any four bytes are the big-endian encoding of the integer they store.
pub proof fn lemma_be32_of_load(s: Seq<u8>)
    requires
        s.len() == 4,
    ensures
        spec_be32(spec_load_be32(s, 0)) =~= s,
{
    let b0 = s[0];
    let b1 = s[1];
    let b2 = s[2];
    let b3 = s[3];
    let x = spec_load_be32(s, 0);
    assert(x == (b0 * 0x1000000 + b1 * 0x10000 + b2 * 0x100 + b3) as u32);
    assert({
        let y = (b0 * 0x1000000 + b1 * 0x10000 + b2 * 0x100 + b3) as u32;
        (y / 0x1000000) as u8 == b0 && ((y / 0x10000) % 0x100) as u8 == b1
            && ((y / 0x100) % 0x100) as u8 == b2 && (y % 0x100) as u8 == b3
    }) by (bit_vector);
}

/// Any two bytes are the big-endian encoding of the integer they store.
pub proof fn lemma_be16_of_load(s: Seq<u8>)
    requires
        s.len() == 2,
    ensures
        spec_be16(spec_load_be16(s, 0)) =~= s,
{
    let b0 = s[0];
    let b1 = s[1];
    assert({
        let y = (b0 * 0x100 + b1) as u16;
        (y / 0x100) as u8 == b0 && (y % 0x100) as u8 == b1
    }) by (bit_vector);
}

/// Appends the big-endian bytes of `x`.
pub fn push_be32(out: &mut Vec<u8>, x: u32)
    ensures
        final(out)@ == old(out)@ + spec_be32(x),
{
    proof {
        assert(x / 0x1000000 < 0x100) by (bit_vector);
    }
    out.push((x / 0x1000000) as u8);
    out.push(((x / 0x10000) % 0x100) as u8);
    out.push(((x / 0x100) % 0x100) as u8);
    out.push((x % 0x100) as u8);
    proof {
        assert(out@ =~= old(out)@ + spec_be32(x));
    }
}

/// Appends the little-endian bytes of `x`.
pub fn push_le32(out: &mut Vec<u8>, x: u32)
    ensures
        final(out)@ == old(out)@ + spec_le32(x),
{
    proof {
        assert(x / 0x1000000 < 0x100) by (bit_vector);
    }
    out.push((x % 0x100) as u8);
    out.push(((x / 0x100) % 0x100) as u8);
    out.push(((x / 0x10000) % 0x100) as u8);
    out.push((x / 0x1000000) as u8);
    proof {
        assert(out@ =~= old(out)@ + spec_le32(x));
    }
}

/// Appends the big-endian bytes of `x`.
pub fn push_be16(out: &mut Vec<u8>, x: u16)
    ensures
        final(out)@ == old(out)@ + spec_be16(x),
{
    out.push((x / 0x100) as u8);
    out.push((x % 0x100) as u8);
    proof {
        assert(out@ =~= old(out)@ + spec_be16(x));
    }
}

/// Reads the 32-bit integer stored big-endian at `pos`.
pub fn read_be32(buf: &Vec<u8>, pos: usize) -> (x: u32)
    requires
        pos + 4 <= buf@.len(),
    ensures
        x == spec_load_be32(buf@, pos as int),
{
    let _len: usize = buf.len();
    let b0: u32 = buf[pos] as u32;
    let b1: u32 = buf[pos + 1] as u32;
    let b2: u32 = buf[pos + 2] as u32;
    let b3: u32 = buf[pos + 3] as u32;
    b0 * 0x1000000 + b1 * 0x10000 + b2 * 0x100 + b3
}

/// Reads the 32-bit integer stored little-endian at `pos`.
pub fn read_le32(buf: &Vec<u8>, pos: usize) -> (x: u32)
    requires
        pos + 4 <= buf@.len(),
    ensures
        x == spec_load_le32(buf@, pos as int),
{
    let _len: usize = buf.len();
    let b0: u32 = buf[pos] as u32;
    let b1: u32 = buf[pos + 1] as u32;
    let b2: u32 = buf[pos + 2] as u32;
    let b3: u32 = buf[pos + 3] as u32;
    b3 * 0x1000000 + b2 * 0x10000 + b1 * 0x100 + b0
}

/// Reads the 16-bit integer stored big-endian at `pos`.
pub fn read_be16(buf: &Vec<u8>, pos: usize) -> (x: u16)
    requires
        pos + 2 <= buf@.len(),
    ensures
        x == spec_load_be16(buf@, pos as int),
{
    let _len: usize = buf.len();
    let b0: u16 = buf[pos] as u16;
    let b1: u16 = buf[pos + 1] as u16;
    b0 * 0x100 + b1
}

/// The four magic bytes that open every journal metadata block.
pub open spec fn spec_magic_bytes() -> Seq<u8> {
    spec_be32(JBD_MAGIC_NUMBER)
}

/// Whether a block's content begins with the journal magic and therefore
/// needs escaping before it is copied into the log.
pub open spec fn spec_starts_with_magic(d: Seq<u8>) -> bool {
    d.len() >= 4 && d.subrange(0, 4) == spec_magic_bytes()
}

/// A block's content as stored in the log: the first four bytes are zeroed
/// when the escape flag is set on its tag.
pub open spec fn spec_escape_data(d: Seq<u8>) -> Seq<u8> {
    seq![0u8, 0u8, 0u8, 0u8] + d.skip(4)
}

/// A log copy with the journal magic restored in its first four bytes, as
/// replay does for a tag that carries the escape flag.
pub open spec fn spec_unescape_data(d: Seq<u8>) -> Seq<u8> {
    spec_magic_bytes() + d.skip(4)
}

/// Escaping a block on the way into the log and restoring it on replay gives
/// back the original content, byte for byte.
pub proof fn lemma_escape_round_trip(d: Seq<u8>)
    requires
        spec_starts_with_magic(d),
    ensures
        spec_unescape_data(spec_escape_data(d)) =~= d,
{
    assert(spec_escape_data(d).skip(4) =~= d.skip(4));
    assert forall|i: int| 0 <= i < d.len() implies (spec_magic_bytes() + d.skip(4))[i]
        == d[i] by {
        if i < 4 {
            assert(d.subrange(0, 4)[i] == d[i]);
        }
    }
}

/// Escapes a block content: the log copy with its first four bytes zeroed.
pub fn escape_data(data: &Vec<u8>) -> (r: Vec<u8>)
    requires
        data@.len() >= 4,
    ensures
        r@ == spec_escape_data(data@),
        r@.len() == data@.len(),
{
    let mut r: Vec<u8> = Vec::new();
    r.push(0);
    r.push(0);
    r.push(0);
    r.push(0);
    let mut i: usize = 4;
    while i < data.len()
        invariant
            4 <= i <= data@.len(),
            r@ == seq![0u8, 0u8, 0u8, 0u8] + data@.subrange(4, i as int),
        decreases data@.len() - i,
    {
        r.push(data[i]);
        proof {
            assert(r@ =~= seq![0u8, 0u8, 0u8, 0u8] + data@.subrange(4, i + 1 as int));
        }
        i = i + 1;
    }
    proof {
        assert(data@.subrange(4, data@.len() as int) =~= data@.skip(4));
        assert(r@ =~= spec_escape_data(data@));
    }
    r
}

/// Restores the journal magic in the first four bytes of a log copy, as
/// replay does for a tag that carries the escape flag.
pub fn unescape_data(data: &Vec<u8>) -> (r: Vec<u8>)
    requires
        data@.len() >= 4,
    ensures
        r@ == spec_unescape_data(data@),
        r@.len() == data@.len(),
{
    let mut r: Vec<u8> = Vec::new();
    r.push(0xc0);
    r.push(0x3b);
    r.push(0x39);
    r.push(0x98);
    let mut i: usize = 4;
    while i < data.len()
        invariant
            4 <= i <= data@.len(),
            r@ == seq![0xc0u8, 0x3bu8, 0x39u8, 0x98u8] + data@.subrange(4, i as int),
        decreases data@.len() - i,
    {
        r.push(data[i]);
        proof {
            assert(r@ =~= seq![0xc0u8, 0x3bu8, 0x39u8, 0x98u8] + data@.subrange(4, i + 1 as int));
        }
        i = i + 1;
    }
    proof {
        assert(spec_magic_bytes() =~= seq![0xc0u8, 0x3bu8, 0x39u8, 0x98u8]);
        assert(data@.subrange(4, data@.len() as int) =~= data@.skip(4));
        assert(r@ =~= spec_unescape_data(data@));
    }
    r
}

/// Whether a block content begins with the journal magic.
pub fn starts_with_magic(data: &Vec<u8>) -> (r: bool)
    ensures
        r == spec_starts_with_magic(data@),
{
    if data.len() < 4 {
        return false;
    }
    let r = data[0] == 0xc0 && data[1] == 0x3b && data[2] == 0x39 && data[3] == 0x98;
    proof {
        assert(spec_magic_bytes() =~= seq![0xc0u8, 0x3bu8, 0x39u8, 0x98u8]);
        if r {
            assert(data@.subrange(0, 4) =~= spec_magic_bytes());
        } else {
            assert(data@.subrange(0, 4) != spec_magic_bytes()) by {
                if data@.subrange(0, 4) == spec_magic_bytes() {
                    assert(data@[0] == 0xc0 && data@[1] == 0x3b && data@[2] == 0x39
                        && data@[3] == 0x98) by {
                        assert(data@.subrange(0, 4)[0] == data@[0]);
                        assert(data@.subrange(0, 4)[1] == data@[1]);
                        assert(data@.subrange(0, 4)[2] == data@[2]);
                        assert(data@.subrange(0, 4)[3] == data@[3]);
                    }
                }
            }
        }
    }
    r
}

/// Reading the big-endian integer at `pos` only looks at those four bytes.
pub proof fn lemma_load_of_be32_at(s: Seq<u8>, pos: int, x: u32)
    requires
        0 <= pos,
        pos + 4 <= s.len(),
        s.subrange(pos, pos + 4) =~= spec_be32(x),
    ensures
        spec_load_be32(s, pos) == x,
{
    assert(s[pos] == spec_be32(x)[0]) by {
        assert(s.subrange(pos, pos + 4)[0] == s[pos]);
    }
    assert(s[pos + 1] == spec_be32(x)[1]) by {
        assert(s.subrange(pos, pos + 4)[1] == s[pos + 1]);
    }
    assert(s[pos + 2] == spec_be32(x)[2]) by {
        assert(s.subrange(pos, pos + 4)[2] == s[pos + 2]);
    }
    assert(s[pos + 3] == spec_be32(x)[3]) by {
        assert(s.subrange(pos, pos + 4)[3] == s[pos + 3]);
    }
    lemma_be32_round_trip(x);
}

/// Reading the little-endian integer at `pos` only looks at those four bytes.
pub proof fn lemma_load_of_le32_at(s: Seq<u8>, pos: int, x: u32)
    requires
        0 <= pos,
        pos + 4 <= s.len(),
        s.subrange(pos, pos + 4) =~= spec_le32(x),
    ensures
        spec_load_le32(s, pos) == x,
{
    assert(s[pos] == spec_le32(x)[0]) by {
        assert(s.subrange(pos, pos + 4)[0] == s[pos]);
    }
    assert(s[pos + 1] == spec_le32(x)[1]) by {
        assert(s.subrange(pos, pos + 4)[1] == s[pos + 1]);
    }
    assert(s[pos + 2] == spec_le32(x)[2]) by {
        assert(s.subrange(pos, pos + 4)[2] == s[pos + 2]);
    }
    assert(s[pos + 3] == spec_le32(x)[3]) by {
        assert(s.subrange(pos, pos + 4)[3] == s[pos + 3]);
    }
    lemma_le32_round_trip(x);
}

/// Reading the big-endian 16-bit integer at `pos` only looks at those bytes.
pub proof fn lemma_load_of_be16_at(s: Seq<u8>, pos: int, x: u16)
    requires
        0 <= pos,
        pos + 2 <= s.len(),
        s.subrange(pos, pos + 2) =~= spec_be16(x),
    ensures
        spec_load_be16(s, pos) == x,
{
    assert(s[pos] == spec_be16(x)[0]) by {
        assert(s.subrange(pos, pos + 2)[0] == s[pos]);
    }
    assert(s[pos + 1] == spec_be16(x)[1]) by {
        assert(s.subrange(pos, pos + 2)[1] == s[pos + 1]);
    }
    lemma_be16_round_trip(x);
}

/// On-disk bytes of a block header: magic, block type and sequence, each
/// big-endian.
pub open spec fn spec_bhdr_bytes(h: JbdBhdr) -> Seq<u8> {
    spec_be32(h.magic) + spec_be32(h.blocktype) + spec_be32(h.sequence)
}

impl JbdBhdr {
    /// Encodes the header as its twelve on-disk bytes.
    pub fn to_be_bytes(&self) -> (r: Vec<u8>)
        ensures
            r@ == spec_bhdr_bytes(*self),
            r@.len() == BHDR_SIZE,
    {
        let mut r: Vec<u8> = Vec::new();
        push_be32(&mut r, self.magic);
        push_be32(&mut r, self.blocktype);
        push_be32(&mut r, self.sequence);
        proof {
            assert(r@ =~= spec_bhdr_bytes(*self));
        }
        r
    }

    /// Decodes a header from the first twelve bytes of `bytes`; fails when
    /// the buffer is shorter than a header.
    pub fn from_be_bytes(bytes: &Vec<u8>) -> (r: Result<JbdBhdr, JbdError>)
        ensures
            r is Ok <==> bytes@.len() >= BHDR_SIZE,
            r matches Ok(h) ==> {
                &&& h.magic == spec_load_be32(bytes@, 0)
                &&& h.blocktype == spec_load_be32(bytes@, 4)
                &&& h.sequence == spec_load_be32(bytes@, 8)
            },
            r is Err ==> r == Result::<JbdBhdr, JbdError>::Err(JbdError::MalformedRecord),
    {
        if bytes.len() < BHDR_SIZE {
            return Err(JbdError::MalformedRecord);
        }
        let magic = read_be32(bytes, 0);
        let blocktype = read_be32(bytes, 4);
        let sequence = read_be32(bytes, 8);
        Ok(JbdBhdr { magic, blocktype, sequence })
    }
}

/// Decoding the encoded bytes of a block header yields the header back.
pub proof fn lemma_bhdr_round_trip(h: JbdBhdr)
    ensures
        spec_load_be32(spec_bhdr_bytes(h), 0) == h.magic,
        spec_load_be32(spec_bhdr_bytes(h), 4) == h.blocktype,
        spec_load_be32(spec_bhdr_bytes(h), 8) == h.sequence,
{
    let s = spec_bhdr_bytes(h);
    lemma_load_of_be32_at(s, 0, h.magic);
    lemma_load_of_be32_at(s, 4, h.blocktype);
    lemma_load_of_be32_at(s, 8, h.sequence);
}

/// Re-encoding a decoded block header reproduces the twelve bytes it was
/// decoded from.
pub proof fn lemma_bhdr_bytes_of_load(s: Seq<u8>)
    requires
        s.len() == BHDR_SIZE,
    ensures
        spec_bhdr_bytes(
            JbdBhdr {
                magic: spec_load_be32(s, 0),
                blocktype: spec_load_be32(s, 4),
                sequence: spec_load_be32(s, 8),
            },
        ) =~= s,
{
    lemma_be32_of_load(s.subrange(0, 4));
    lemma_be32_of_load(s.subrange(4, 8));
    lemma_be32_of_load(s.subrange(8, 12));
    assert(spec_load_be32(s.subrange(0, 4), 0) == spec_load_be32(s, 0));
    assert(spec_load_be32(s.subrange(4, 8), 0) == spec_load_be32(s, 4));
    assert(spec_load_be32(s.subrange(8, 12), 0) == spec_load_be32(s, 8));
}

/// On-disk bytes of a revoke-block header: the block header and the byte
/// count of the record, big-endian.
pub open spec fn spec_revoke_header_bytes(h: crate::defs::JbdRevokeHeader) -> Seq<u8> {
    spec_bhdr_bytes(h.header) + spec_be32(h.count)
}

impl crate::defs::JbdRevokeHeader {
    /// Encodes the revoke-block header as its sixteen on-disk bytes.
    pub fn to_be_bytes(&self) -> (r: Vec<u8>)
        ensures
            r@ == spec_revoke_header_bytes(*self),
            r@.len() == 16,
    {
        let mut r = self.header.to_be_bytes();
        push_be32(&mut r, self.count);
        proof {
            assert(r@ =~= spec_revoke_header_bytes(*self));
        }
        r
    }
}

/// On-disk bytes of a version-3 descriptor tag: twelve bytes of fields and
/// four reserved zero bytes.  The low block-number word is little-endian;
/// every other field is big-endian.
pub open spec fn spec_tag3_bytes(t: JbdBlockTag3) -> Seq<u8> {
    spec_le32(t.blocknr) + spec_be16(t.checksum) + spec_be16(t.flags) + spec_be32(t.blocknr_high)
        + spec_zeros(4)
}

impl JbdBlockTag3 {
    /// Encodes the tag as its sixteen on-disk bytes.
    pub fn to_be_bytes(&self) -> (r: Vec<u8>)
        ensures
            r@ == spec_tag3_bytes(*self),
            r@.len() == TAG3_SIZE,
    {
        let mut r: Vec<u8> = Vec::new();
        push_le32(&mut r, self.blocknr);
        push_be16(&mut r, self.checksum);
        push_be16(&mut r, self.flags);
        push_be32(&mut r, self.blocknr_high);
        push_zeros(&mut r, 4);
        proof {
            assert(r@ =~= spec_tag3_bytes(*self));
        }
        r
    }
}

/// Decoding the encoded bytes of a descriptor tag yields the tag back.
pub proof fn lemma_tag3_round_trip(t: JbdBlockTag3)
    ensures
        spec_load_le32(spec_tag3_bytes(t), 0) == t.blocknr,
        spec_load_be16(spec_tag3_bytes(t), 4) == t.checksum,
        spec_load_be16(spec_tag3_bytes(t), 6) == t.flags,
        spec_load_be32(spec_tag3_bytes(t), 8) == t.blocknr_high,
{
    let s = spec_tag3_bytes(t);
    lemma_load_of_le32_at(s, 0, t.blocknr);
    lemma_load_of_be16_at(s, 4, t.checksum);
    lemma_load_of_be16_at(s, 6, t.flags);
    lemma_load_of_be32_at(s, 8, t.blocknr_high);
}

/// Re-encoding a decoded descriptor tag reproduces the sixteen bytes it was
/// decoded from, provided the four reserved bytes are zero.
pub proof fn lemma_tag3_bytes_of_load(s: Seq<u8>)
    requires
        s.len() == TAG3_SIZE,
        s.subrange(12, 16) =~= spec_zeros(4),
    ensures
        spec_tag3_bytes(
            JbdBlockTag3 {
                blocknr: spec_load_le32(s, 0),
                checksum: spec_load_be16(s, 4),
                flags: spec_load_be16(s, 6),
                blocknr_high: spec_load_be32(s, 8),
            },
        ) =~= s,
{
    let le = s.subrange(0, 4);
    let c = s.subrange(4, 6);
    let f = s.subrange(6, 8);
    let hi = s.subrange(8, 16);
    assert(spec_le32(spec_load_le32(s, 0)) =~= s.subrange(0, 4)) by {
        let b0 = s[0];
        let b1 = s[1];
        let b2 = s[2];
        let b3 = s[3];
        assert({
            let y = (b3 * 0x1000000 + b2 * 0x10000 + b1 * 0x100 + b0) as u32;
            (y % 0x100) as u8 == b0 && ((y / 0x100) % 0x100) as u8 == b1
                && ((y / 0x10000) % 0x100) as u8 == b2 && (y / 0x1000000) as u8 == b3
        }) by (bit_vector);
    }
    lemma_be16_of_load(s.subrange(4, 6));
    assert(spec_load_be16(s.subrange(4, 6), 0) == spec_load_be16(s, 4));
    lemma_be16_of_load(s.subrange(6, 8));
    assert(spec_load_be16(s.subrange(6, 8), 0) == spec_load_be16(s, 6));
    lemma_be32_of_load(s.subrange(8, 12));
    assert(spec_load_be32(s.subrange(8, 12), 0) == spec_load_be32(s, 8));
}

/// On-disk bytes of the superblock record.  Reserved padding regions are
/// written as zeros.
pub open spec fn spec_sb_bytes(sb: JbdSb) -> Seq<u8> {
    spec_bhdr_bytes(sb.header) + spec_be32(sb.blocksize) + spec_be32(sb.maxlen) + spec_be32(
        sb.first,
    ) + spec_be32(sb.sequence) + spec_be32(sb.start) + spec_be32(sb.error_val as u32) + spec_be32(
        sb.feature_compat,
    ) + spec_be32(sb.feature_incompat) + spec_be32(sb.feature_ro_compat) + sb.uuid@ + spec_be32(
        sb.nr_users,
    ) + spec_be32(sb.dynsuper) + spec_be32(sb.max_transaction) + spec_be32(sb.max_trandata)
        + seq![sb.checksum_type] + spec_zeros(3) + spec_zeros(168) + spec_be32(sb.checksum)
        + sb.users@
}

/// The superblock record padded with zeros to a full device block.
pub open spec fn spec_sb_block(sb: JbdSb) -> Seq<u8> {
    spec_zero_pad(spec_sb_bytes(sb))
}

/// A buffer decodes as a superblock when it is long enough and opens with
/// the journal magic and the superblock block type.
pub open spec fn spec_sb_decodable(b: Seq<u8>) -> bool {
    &&& b.len() >= SB_SIZE
    &&& spec_load_be32(b, 0) == JBD_MAGIC_NUMBER
    &&& spec_load_be32(b, 4) == JBD_SUPERBLOCK_V2
}

impl JbdSb {
    /// Encodes the superblock as its 1024 on-disk bytes.
    #[verifier::rlimit(100)]
    pub fn encode(&self) -> (r: Vec<u8>)
        requires
            self.uuid@.len() == UUID_SIZE,
            self.users@.len() == JBD_USERS_SIZE,
        ensures
            r@ == spec_sb_bytes(*self),
            r@.len() == SB_SIZE,
    {
        let mut r: Vec<u8> = Vec::new();
        push_be32(&mut r, self.header.magic);
        push_be32(&mut r, self.header.blocktype);
        push_be32(&mut r, self.header.sequence);
        push_be32(&mut r, self.blocksize);
        push_be32(&mut r, self.maxlen);
        push_be32(&mut r, self.first);
        push_be32(&mut r, self.sequence);
        push_be32(&mut r, self.start);
        push_be32(&mut r, self.error_val as u32);
        push_be32(&mut r, self.feature_compat);
        push_be32(&mut r, self.feature_incompat);
        push_be32(&mut r, self.feature_ro_compat);
        r.extend_from_slice(self.uuid.as_slice());
        push_be32(&mut r, self.nr_users);
        push_be32(&mut r, self.dynsuper);
        push_be32(&mut r, self.max_transaction);
        push_be32(&mut r, self.max_trandata);
        r.push(self.checksum_type);
        push_zeros(&mut r, 3);
        push_zeros(&mut r, 168);
        push_be32(&mut r, self.checksum);
        r.extend_from_slice(self.users.as_slice());
        proof {
            assert(r@ =~= spec_sb_bytes(*self));
        }
        r
    }

    /// Decodes a superblock from a buffer; fails with a malformed-record
    /// error when the buffer is short, the magic mismatches, or the block
    /// type is not the version-2 superblock.
    pub fn decode(buf: &Vec<u8>) -> (r: Result<JbdSb, JbdError>)
        ensures
            r is Ok <==> spec_sb_decodable(buf@),
            r matches Ok(sb) ==> {
                &&& sb.header.magic == spec_load_be32(buf@, 0)
                &&& sb.header.blocktype == spec_load_be32(buf@, 4)
                &&& sb.header.sequence == spec_load_be32(buf@, 8)
                &&& sb.blocksize == spec_load_be32(buf@, 12)
                &&& sb.maxlen == spec_load_be32(buf@, 16)
                &&& sb.first == spec_load_be32(buf@, 20)
                &&& sb.sequence == spec_load_be32(buf@, 24)
                &&& sb.start == spec_load_be32(buf@, 28)
                &&& sb.error_val as u32 == spec_load_be32(buf@, 32)
                &&& sb.feature_compat == spec_load_be32(buf@, 36)
                &&& sb.feature_incompat == spec_load_be32(buf@, 40)
                &&& sb.feature_ro_compat == spec_load_be32(buf@, 44)
                &&& sb.uuid@ == buf@.subrange(48, 64)
                &&& sb.nr_users == spec_load_be32(buf@, 64)
                &&& sb.dynsuper == spec_load_be32(buf@, 68)
                &&& sb.max_transaction == spec_load_be32(buf@, 72)
                &&& sb.max_trandata == spec_load_be32(buf@, 76)
                &&& sb.checksum_type == buf@[80]
                &&& sb.checksum == spec_load_be32(buf@, 252)
                &&& sb.users@ == buf@.subrange(256, 256 + JBD_USERS_SIZE)
            },
            r is Err ==> r == Result::<JbdSb, JbdError>::Err(JbdError::MalformedRecord),
    {
        if buf.len() < SB_SIZE {
            return Err(JbdError::MalformedRecord);
        }
        let magic = read_be32(buf, 0);
        let blocktype = read_be32(buf, 4);
        if magic != JBD_MAGIC_NUMBER || blocktype != JBD_SUPERBLOCK_V2 {
            return Err(JbdError::MalformedRecord);
        }
        let mut uuid: Vec<u8> = Vec::new();
        let mut i: usize = 0;
        while i < UUID_SIZE
            invariant
                i <= UUID_SIZE,
                buf@.len() >= SB_SIZE,
                uuid@ == buf@.subrange(48, 48 + i),
            decreases UUID_SIZE - i,
        {
            uuid.push(buf[48 + i]);
            proof {
                assert(uuid@ =~= buf@.subrange(48, 48 + i + 1));
            }
            i = i + 1;
        }
        let mut users: Vec<u8> = Vec::new();
        let mut j: usize = 0;
        while j < JBD_USERS_SIZE
            invariant
                j <= JBD_USERS_SIZE,
                buf@.len() >= SB_SIZE,
                users@ == buf@.subrange(256, 256 + j),
            decreases JBD_USERS_SIZE - j,
        {
            users.push(buf[256 + j]);
            proof {
                assert(users@ =~= buf@.subrange(256, 256 + j + 1));
            }
            j = j + 1;
        }
        let error_word = read_be32(buf, 32);
        proof {
            assert(((error_word as i32) as u32) == error_word) by (bit_vector);
        }
        Ok(
            JbdSb {
                header: JbdBhdr { magic, blocktype, sequence: read_be32(buf, 8) },
                blocksize: read_be32(buf, 12),
                maxlen: read_be32(buf, 16),
                first: read_be32(buf, 20),
                sequence: read_be32(buf, 24),
                start: read_be32(buf, 28),
                error_val: error_word as i32,
                feature_compat: read_be32(buf, 36),
                feature_incompat: read_be32(buf, 40),
                feature_ro_compat: read_be32(buf, 44),
                uuid,
                nr_users: read_be32(buf, 64),
                dynsuper: read_be32(buf, 68),
                max_transaction: read_be32(buf, 72),
                max_trandata: read_be32(buf, 76),
                checksum_type: buf[80],
                checksum: read_be32(buf, 252),
                users,
            },
        )
    }

    /// Writes the encoded superblock, zero-padded to a full block, into
    /// device block zero.
    pub fn sync_to_disk(&self, bdev: &mut BlockDevice)
        requires
            self.uuid@.len() == UUID_SIZE,
            self.users@.len() == JBD_USERS_SIZE,
            old(bdev).wf(),
            old(bdev)@.len() >= 1,
        ensures
            final(bdev)@ == old(bdev)@.update(0, spec_sb_block(*self)),
            final(bdev).wf(),
            final(bdev)@.len() == old(bdev)@.len(),
    {
        let mut block = self.encode();
        push_zeros(&mut block, BLOCK_SIZE - SB_SIZE);
        proof {
            assert(block@ =~= spec_sb_block(*self));
        }
        bdev.write_offset(0, &block);
    }
}

/// Decoding the encoded bytes of a superblock yields every field back.
#[verifier::rlimit(100)]
pub proof fn lemma_sb_round_trip(sb: JbdSb)
    requires
        sb.uuid@.len() == UUID_SIZE,
        sb.users@.len() == JBD_USERS_SIZE,
    ensures
        spec_load_be32(spec_sb_bytes(sb), 0) == sb.header.magic,
        spec_load_be32(spec_sb_bytes(sb), 4) == sb.header.blocktype,
        spec_load_be32(spec_sb_bytes(sb), 8) == sb.header.sequence,
        spec_load_be32(spec_sb_bytes(sb), 12) == sb.blocksize,
        spec_load_be32(spec_sb_bytes(sb), 16) == sb.maxlen,
        spec_load_be32(spec_sb_bytes(sb), 20) == sb.first,
        spec_load_be32(spec_sb_bytes(sb), 24) == sb.sequence,
        spec_load_be32(spec_sb_bytes(sb), 28) == sb.start,
        spec_load_be32(spec_sb_bytes(sb), 32) == sb.error_val as u32,
        spec_load_be32(spec_sb_bytes(sb), 36) == sb.feature_compat,
        spec_load_be32(spec_sb_bytes(sb), 40) == sb.feature_incompat,
        spec_load_be32(spec_sb_bytes(sb), 44) == sb.feature_ro_compat,
        spec_sb_bytes(sb).subrange(48, 64) =~= sb.uuid@,
        spec_load_be32(spec_sb_bytes(sb), 64) == sb.nr_users,
        spec_load_be32(spec_sb_bytes(sb), 68) == sb.dynsuper,
        spec_load_be32(spec_sb_bytes(sb), 72) == sb.max_transaction,
        spec_load_be32(spec_sb_bytes(sb), 76) == sb.max_trandata,
        spec_sb_bytes(sb)[80] == sb.checksum_type,
        spec_load_be32(spec_sb_bytes(sb), 252) == sb.checksum,
        spec_sb_bytes(sb).subrange(256, 256 + JBD_USERS_SIZE) =~= sb.users@,
        spec_sb_decodable(spec_sb_bytes(sb)) <==> sb.header.magic == JBD_MAGIC_NUMBER
            && sb.header.blocktype == JBD_SUPERBLOCK_V2,
{
    let s = spec_sb_bytes(sb);
    assert(s.len() == SB_SIZE);
    assert(s.subrange(0, 4) =~= spec_be32(sb.header.magic));
    lemma_load_of_be32_at(s, 0, sb.header.magic);
    assert(s.subrange(4, 8) =~= spec_be32(sb.header.blocktype));
    lemma_load_of_be32_at(s, 4, sb.header.blocktype);
    assert(s.subrange(8, 12) =~= spec_be32(sb.header.sequence));
    lemma_load_of_be32_at(s, 8, sb.header.sequence);
    assert(s.subrange(12, 16) =~= spec_be32(sb.blocksize));
    lemma_load_of_be32_at(s, 12, sb.blocksize);
    assert(s.subrange(16, 20) =~= spec_be32(sb.maxlen));
    lemma_load_of_be32_at(s, 16, sb.maxlen);
    assert(s.subrange(20, 24) =~= spec_be32(sb.first));
    lemma_load_of_be32_at(s, 20, sb.first);
    assert(s.subrange(24, 28) =~= spec_be32(sb.sequence));
    lemma_load_of_be32_at(s, 24, sb.sequence);
    assert(s.subrange(28, 32) =~= spec_be32(sb.start));
    lemma_load_of_be32_at(s, 28, sb.start);
    assert(s.subrange(32, 36) =~= spec_be32(sb.error_val as u32));
    lemma_load_of_be32_at(s, 32, sb.error_val as u32);
    assert(s.subrange(36, 40) =~= spec_be32(sb.feature_compat));
    lemma_load_of_be32_at(s, 36, sb.feature_compat);
    assert(s.subrange(40, 44) =~= spec_be32(sb.feature_incompat));
    lemma_load_of_be32_at(s, 40, sb.feature_incompat);
    assert(s.subrange(44, 48) =~= spec_be32(sb.feature_ro_compat));
    lemma_load_of_be32_at(s, 44, sb.feature_ro_compat);
    assert(s.subrange(48, 64) =~= sb.uuid@);
    assert(s.subrange(64, 68) =~= spec_be32(sb.nr_users));
    lemma_load_of_be32_at(s, 64, sb.nr_users);
    assert(s.subrange(68, 72) =~= spec_be32(sb.dynsuper));
    lemma_load_of_be32_at(s, 68, sb.dynsuper);
    assert(s.subrange(72, 76) =~= spec_be32(sb.max_transaction));
    lemma_load_of_be32_at(s, 72, sb.max_transaction);
    assert(s.subrange(76, 80) =~= spec_be32(sb.max_trandata));
    lemma_load_of_be32_at(s, 76, sb.max_trandata);
    assert(s[80] == sb.checksum_type);
    assert(s.subrange(252, 256) =~= spec_be32(sb.checksum));
    lemma_load_of_be32_at(s, 252, sb.checksum);
    assert(s.subrange(256, 256 + JBD_USERS_SIZE) =~= sb.users@);
}

/// Re-encoding a decoded superblock reproduces the 1024 bytes it was decoded
/// from, provided the reserved padding regions are zero.
#[verifier::rlimit(100)]
pub proof fn lemma_sb_bytes_of_load(s: Seq<u8>, sb: JbdSb)
    requires
        s.len() == SB_SIZE,
        sb.header.magic == spec_load_be32(s, 0),
        sb.header.blocktype == spec_load_be32(s, 4),
        sb.header.sequence == spec_load_be32(s, 8),
        sb.blocksize == spec_load_be32(s, 12),
        sb.maxlen == spec_load_be32(s, 16),
        sb.first == spec_load_be32(s, 20),
        sb.sequence == spec_load_be32(s, 24),
        sb.start == spec_load_be32(s, 28),
        sb.error_val as u32 == spec_load_be32(s, 32),
        sb.feature_compat == spec_load_be32(s, 36),
        sb.feature_incompat == spec_load_be32(s, 40),
        sb.feature_ro_compat == spec_load_be32(s, 44),
        sb.uuid@ == s.subrange(48, 64),
        sb.nr_users == spec_load_be32(s, 64),
        sb.dynsuper == spec_load_be32(s, 68),
        sb.max_transaction == spec_load_be32(s, 72),
        sb.max_trandata == spec_load_be32(s, 76),
        sb.checksum_type == s[80],
        sb.checksum == spec_load_be32(s, 252),
        sb.users@ == s.subrange(256, 256 + JBD_USERS_SIZE),
        s.subrange(81, 84) =~= spec_zeros(3),
        s.subrange(84, 252) =~= spec_zeros(168),
    ensures
        spec_sb_bytes(sb) =~= s,
{
    lemma_be32_chunk(s, 0, sb.header.magic);
    lemma_be32_chunk(s, 4, sb.header.blocktype);
    lemma_be32_chunk(s, 8, sb.header.sequence);
    lemma_be32_chunk(s, 12, sb.blocksize);
    lemma_be32_chunk(s, 16, sb.maxlen);
    lemma_be32_chunk(s, 20, sb.first);
    lemma_be32_chunk(s, 24, sb.sequence);
    lemma_be32_chunk(s, 28, sb.start);
    lemma_be32_chunk(s, 32, sb.error_val as u32);
    lemma_be32_chunk(s, 36, sb.feature_compat);
    lemma_be32_chunk(s, 40, sb.feature_incompat);
    lemma_be32_chunk(s, 44, sb.feature_ro_compat);
    lemma_be32_chunk(s, 64, sb.nr_users);
    lemma_be32_chunk(s, 68, sb.dynsuper);
    lemma_be32_chunk(s, 72, sb.max_transaction);
    lemma_be32_chunk(s, 76, sb.max_trandata);
    lemma_be32_chunk(s, 252, sb.checksum);
}

/// The four bytes at `pos` are the big-endian encoding of the integer they
/// store there.
pub proof fn lemma_be32_chunk(s: Seq<u8>, pos: int, x: u32)
    requires
        0 <= pos,
        pos + 4 <= s.len(),
        x == spec_load_be32(s, pos),
    ensures
        spec_be32(x) =~= s.subrange(pos, pos + 4),
{
    assert(spec_load_be32(s.subrange(pos, pos + 4), 0) == spec_load_be32(s, pos)) by {
        assert(s.subrange(pos, pos + 4)[0] == s[pos]);
        assert(s.subrange(pos, pos + 4)[1] == s[pos + 1]);
        assert(s.subrange(pos, pos + 4)[2] == s[pos + 2]);
        assert(s.subrange(pos, pos + 4)[3] == s[pos + 3]);
    }
    lemma_be32_of_load(s.subrange(pos, pos + 4));
}

} // verus!
