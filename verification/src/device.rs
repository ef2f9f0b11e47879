//! The block-device interface the filesystem runs on, and an in-memory device.
//!
//! A device is a fixed array of fixed-size blocks. The trait models it as a
//! sequence of byte sequences: reads return the current block, writes replace
//! one block and leave the rest. Implementations for real hardware live
//! outside this crate; [`MemBlockDevice`] is a verified in-memory one.

use vstd::prelude::*;

use crate::{Ext4Error, Ext4Result};

verus! {

/// A fixed-geometry array of blocks, each `block_size()` bytes long.
///
/// A device may fail any read or write (an I/O error); the contracts
/// promise nothing of a failed call except that the logical contents,
/// on a read, stay as they were. A successful call certifies that the
/// block number was in range and the buffer was exactly one block.
pub trait BlockDevice: Sized {
    /// The size of a device block, in bytes. The defaults here let an
    /// implementation outside this crate, which cannot write ghost
    /// code, leave the model functions out; nothing is then promised
    /// of what its reads return.
    open spec fn spec_block_size(&self) -> u32 {
        1u32
    }

    /// The number of blocks the device holds.
    open spec fn spec_num_blocks(&self) -> u32 {
        0u32
    }

    /// The bytes of every block.
    open spec fn contents(&self) -> Seq<Seq<u8>> {
        Seq::empty()
    }

    fn block_size(&self) -> (r: u32)
        ensures
            r == self.spec_block_size(),
            r >= 1,
    ;

    fn num_blocks(&self) -> (r: u32)
        ensures
            r == self.spec_num_blocks(),
    ;

    fn read_block(&mut self, block_id: u64, buf: &mut Vec<u8>) -> (r: Ext4Result<()>)
        ensures
            final(self).spec_block_size() == old(self).spec_block_size(),
            final(self).spec_num_blocks() == old(self).spec_num_blocks(),
            final(self).contents() == old(self).contents(),
            final(buf)@.len() == old(buf)@.len(),
            r is Ok ==> (block_id as int) < old(self).spec_num_blocks() && (block_id as int)
                < old(self).contents().len() && old(buf)@.len() == old(self).spec_block_size()
                && final(buf)@ == old(self).contents()[block_id as int],
    ;

    fn write_block(&mut self, block_id: u64, buf: &[u8]) -> (r: Ext4Result<()>)
        ensures
            final(self).spec_block_size() == old(self).spec_block_size(),
            final(self).spec_num_blocks() == old(self).spec_num_blocks(),
            r is Ok ==> (block_id as int) < old(self).spec_num_blocks() && (block_id as int)
                < old(self).contents().len() && buf@.len() == old(self).spec_block_size() && final(self).contents() == old(self).contents().update(block_id as int, buf@),
            r is Err ==> final(self).contents() == old(self).contents(),
    ;
}

/// An in-memory block device: every block starts zeroed.
pub struct MemBlockDevice {
    blocks: Vec<Vec<u8>>,
    block_size: u32,
}

impl MemBlockDevice {
    #[verifier::type_invariant]
    spec fn inv(&self) -> bool {
        &&& self.block_size >= 1
        &&& self.blocks@.len() <= 0xFFFF_FFFFint
        &&& forall|i: int|
            0 <= i < self.blocks@.len() ==> (#[trigger] self.blocks@[i])@.len()
                == self.block_size
    }

    /// A device of `total_blocks` zeroed blocks of `block_size` bytes each.
    pub fn new(block_size: u32, total_blocks: u32) -> (r: Self)
        requires
            block_size >= 1,
        ensures
            r.spec_block_size() == block_size,
            r.spec_num_blocks() == total_blocks,
            r.contents().len() == total_blocks,
            forall|i: int, j: int|
                0 <= i < total_blocks && 0 <= j < block_size ==> r.contents()[i][j] == 0u8,
    {
        let mut blocks: Vec<Vec<u8>> = Vec::new();
        let mut i: u32 = 0;
        while i < total_blocks
            invariant
                block_size >= 1,
                0 <= i <= total_blocks,
                blocks@.len() == i,
                forall|k: int|
                    0 <= k < i ==> (#[trigger] blocks@[k])@ == Seq::new(
                        block_size as nat,
                        |j: int| 0u8,
                    ),
            decreases total_blocks - i,
        {
            let b = crate::le::zero_vec(block_size as usize);
            proof {
                assert(b@ =~= Seq::new(block_size as nat, |j: int| 0u8));
            }
            blocks.push(b);
            i += 1;
        }
        let r = Self { blocks, block_size };
        proof {
            assert(r.contents().len() == total_blocks);
        }
        r
    }

    /// The device capacity in bytes.
    pub fn size(&self) -> (r: u64)
        ensures
            r == self.spec_block_size() * self.spec_num_blocks(),
    {
        proof {
            use_type_invariant(&*self);
            let a = self.block_size as int;
            let b = self.blocks@.len() as int;
            assert(a * b < 0x1_0000_0000_0000_0000int) by (nonlinear_arith)
                requires
                    0 <= a < 0x1_0000_0000int,
                    0 <= b <= 0xFFFF_FFFFint,
            ;
        }
        (self.block_size as u64) * (self.blocks.len() as u64)
    }
}

impl BlockDevice for MemBlockDevice {
    closed spec fn spec_block_size(&self) -> u32 {
        self.block_size
    }

    closed spec fn spec_num_blocks(&self) -> u32 {
        self.blocks@.len() as u32
    }

    closed spec fn contents(&self) -> Seq<Seq<u8>> {
        Seq::new(self.blocks@.len(), |i: int| self.blocks@[i]@)
    }

    fn block_size(&self) -> (r: u32) {
        proof {
            use_type_invariant(&*self);
        }
        self.block_size
    }

    fn num_blocks(&self) -> (r: u32) {
        proof {
            use_type_invariant(&*self);
        }
        self.blocks.len() as u32
    }

    fn read_block(&mut self, block_id: u64, buf: &mut Vec<u8>) -> (r: Ext4Result<()>) {
        proof {
            use_type_invariant(&*self);
        }
        if block_id >= self.blocks.len() as u64 {
            return Err(Ext4Error::IoError);
        }
        if buf.len() != self.block_size as usize {
            return Err(Ext4Error::IoError);
        }
        let idx = block_id as usize;
        let n = self.blocks[idx].len();
        let mut i: usize = 0;
        while i < n
            invariant
                0 <= i <= n,
                idx < self.blocks@.len(),
                n == self.blocks@[idx as int]@.len(),
                buf@.len() == n,
                *self == *old(self),
                forall|j: int| 0 <= j < i ==> buf@[j] == self.blocks@[idx as int]@[j],
            decreases n - i,
        {
            let byte = self.blocks[idx][i];
            buf[i] = byte;
            i += 1;
        }
        proof {
            assert(buf@ =~= old(self).contents()[block_id as int]);
        }
        Ok(())
    }

    fn write_block(&mut self, block_id: u64, buf: &[u8]) -> (r: Ext4Result<()>) {
        proof {
            use_type_invariant(&*self);
        }
        if block_id >= self.blocks.len() as u64 {
            return Err(Ext4Error::IoError);
        }
        if buf.len() != self.block_size as usize {
            return Err(Ext4Error::IoError);
        }
        let idx = block_id as usize;
        let mut blocks: Vec<Vec<u8>> = Vec::new();
        core::mem::swap(&mut blocks, &mut self.blocks);
        blocks[idx] = vstd::slice::slice_to_vec(buf);
        core::mem::swap(&mut blocks, &mut self.blocks);
        proof {
            assert(self.contents() =~~= old(self).contents().update(block_id as int, buf@));
        }
        Ok(())
    }
}

} // verus!
