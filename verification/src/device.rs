//! In-memory model of a block device.
//!
//! The engine performs all of its reads and writes against this model; a
//! surrounding program copies the blocks from and to real storage.

use vstd::prelude::*;

use crate::consts::BLOCK_SIZE;

verus! {

/// A block device of fixed-size blocks, addressed by byte offset.
#[derive(Clone, Debug)]
pub struct BlockDevice {
    pub blocks: Vec<Vec<u8>>,
}

impl BlockDevice {
    /// The device as a sequence of block contents.
    pub open spec fn view(self) -> Seq<Seq<u8>> {
        Seq::new(self.blocks@.len(), |i: int| self.blocks@[i]@)
    }

    /// Every block holds exactly `BLOCK_SIZE` bytes, and every block's byte
    /// offset fits in a `usize`.
    pub open spec fn wf(self) -> bool {
        &&& forall|i: int| 0 <= i < self@.len() ==> (#[trigger] self@[i]).len() == BLOCK_SIZE
        &&& self@.len() * BLOCK_SIZE <= usize::MAX
    }

    /// A device of `num_blocks` zero-filled blocks.
    pub fn new(num_blocks: usize) -> (r: BlockDevice)
        requires
            num_blocks * BLOCK_SIZE <= usize::MAX,
        ensures
            r.wf(),
            r@.len() == num_blocks,
            forall|i: int| 0 <= i < num_blocks ==> r@[i] == Seq::new(
                BLOCK_SIZE as nat,
                |j: int| 0u8,
            ),
    {
        let mut blocks: Vec<Vec<u8>> = Vec::new();
        let mut i: usize = 0;
        while i < num_blocks
            invariant
                i <= num_blocks,
                blocks@.len() == i,
                forall|k: int| 0 <= k < i ==> (#[trigger] blocks@[k])@ == Seq::new(
                    BLOCK_SIZE as nat,
                    |j: int| 0u8,
                ),
            decreases num_blocks - i,
        {
            let mut b: Vec<u8> = Vec::new();
            let mut j: usize = 0;
            while j < BLOCK_SIZE
                invariant
                    j <= BLOCK_SIZE,
                    b@ == Seq::new(j as nat, |k: int| 0u8),
                decreases BLOCK_SIZE - j,
            {
                b.push(0);
                proof {
                    assert(b@ =~= Seq::new((j + 1) as nat, |k: int| 0u8));
                }
                j = j + 1;
            }
            blocks.push(b);
            i = i + 1;
        }
        BlockDevice { blocks }
    }

    /// Number of blocks on the device.
    pub fn num_blocks(&self) -> (r: usize)
        ensures
            r == self@.len(),
    {
        self.blocks.len()
    }

    /// Reads the block at the given byte offset, which must be aligned to the
    /// block size and within the device.
    pub fn read_offset(&self, offset: usize) -> (r: Vec<u8>)
        requires
            self.wf(),
            offset % BLOCK_SIZE == 0,
            offset / BLOCK_SIZE < self@.len(),
        ensures
            r@ == self@[offset as int / BLOCK_SIZE as int],
            r@.len() == BLOCK_SIZE,
    {
        let r = self.blocks[offset / BLOCK_SIZE].clone();
        proof {
            assert(r@ == self@[offset as int / BLOCK_SIZE as int]);
        }
        r
    }

    /// Reads the block with the given block number.
    pub fn read_block(&self, iblock: usize) -> (r: Vec<u8>)
        requires
            self.wf(),
            iblock < self@.len(),
        ensures
            r@ == self@[iblock as int],
            r@.len() == BLOCK_SIZE,
    {
        proof {
            assert(iblock as int * (BLOCK_SIZE as int) % (BLOCK_SIZE as int) == 0);
            assert(iblock as int * (BLOCK_SIZE as int) / (BLOCK_SIZE as int) == iblock);
            assert(iblock as int * BLOCK_SIZE <= self@.len() * BLOCK_SIZE) by (nonlinear_arith)
                requires
                    iblock < self@.len(),
            ;
        }
        self.read_offset((iblock as usize) * BLOCK_SIZE)
    }

    /// Writes one full block at the given block number.
    pub fn write_block(&mut self, iblock: usize, data: &Vec<u8>)
        requires
            old(self).wf(),
            iblock < old(self)@.len(),
            data@.len() == BLOCK_SIZE,
        ensures
            final(self)@ == old(self)@.update(iblock as int, data@),
            final(self).wf(),
            final(self)@.len() == old(self)@.len(),
    {
        proof {
            let ghost dev_len = old(self)@.len() as int;
            assert(iblock as int * (BLOCK_SIZE as int) % (BLOCK_SIZE as int) == 0);
            assert(iblock as int * (BLOCK_SIZE as int) / (BLOCK_SIZE as int) == iblock);
            assert(iblock as int * BLOCK_SIZE <= dev_len * BLOCK_SIZE) by (nonlinear_arith)
                requires
                    iblock < dev_len,
            ;
        }
        self.write_offset((iblock as usize) * BLOCK_SIZE, data);
    }

    /// Writes one full block at the given byte offset, which must be aligned
    /// to the block size and within the device.
    pub fn write_offset(&mut self, offset: usize, data: &Vec<u8>)
        requires
            old(self).wf(),
            offset % BLOCK_SIZE == 0,
            offset / BLOCK_SIZE < old(self)@.len(),
            data@.len() == BLOCK_SIZE,
        ensures
            final(self)@ == old(self)@.update(offset as int / BLOCK_SIZE as int, data@),
            final(self).wf(),
            final(self)@.len() == old(self)@.len(),
    {
        let idx = offset / BLOCK_SIZE;
        self.blocks[idx] = data.clone();
        proof {
            assert(self@ =~= old(self)@.update(offset as int / BLOCK_SIZE as int, data@));
        }
    }
}

} // verus!
