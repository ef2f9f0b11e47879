//! A seekable file cursor over an inode.

use vstd::prelude::*;

use crate::device::BlockDevice;
use crate::superblock::SuperBlock;
use crate::{Ext4Error, Ext4FileSystem, Ext4Result, Inode};

verus! {

/// The byte a read returns at file offset `off`: the byte of the block
/// the offset maps to, or 0 when the pointer is sparse, out of range,
/// or unmapped.
pub open spec fn spec_file_byte(
    contents: Seq<Seq<u8>>,
    sb: SuperBlock,
    iblock: Seq<u32>,
    bs: int,
    off: int,
) -> u8 {
    match crate::inode::spec_block_lookup(sb, iblock, off / bs, bs, contents) {
        Some(b) => if b == 0 || b as u64 >= sb.blocks_count {
            0u8
        } else {
            contents[b as int][off % bs]
        },
        None => 0u8,
    }
}

/// File operations
pub struct File {
    pub inode: Inode,
    pub position: u64,
}

impl File {
    /// Create a new file from an inode
    pub fn new(inode: Inode) -> (r: Self)
        ensures
            r.inode == inode,
            r.position == 0,
    {
        Self { inode, position: 0 }
    }

    /// Get the inode
    pub fn inode(&self) -> (r: &Inode)
        ensures
            *r == self.inode,
    {
        &self.inode
    }

    /// Get the file size
    pub fn size(&self) -> (r: u64)
        ensures
            r == self.inode.size,
    {
        self.inode.size
    }

    /// Get the current position
    pub fn position(&self) -> (r: u64)
        ensures
            r == self.position,
    {
        self.position
    }

    /// Seek to a position; positions past the end of the file are rejected.
    pub fn seek(&mut self, offset: u64) -> (r: Ext4Result<u64>)
        ensures
            final(self).inode == old(self).inode,
            offset > old(self).inode.size ==> r == Ext4Result::<u64>::Err(Ext4Error::InvalidInput)
                && final(self).position == old(self).position,
            offset <= old(self).inode.size ==> r == Ext4Result::<u64>::Ok(offset) && final(self).position == offset,
    {
        if offset > self.inode.size {
            return Err(Ext4Error::InvalidInput);
        }

        self.position = offset;
        Ok(offset)
    }

    /// Seek from current position; the target must lie in `[0, size]`.
    pub fn seek_from_current(&mut self, offset: i64) -> (r: Ext4Result<u64>)
        ensures
            final(self).inode == old(self).inode,
            ({
                let np = old(self).position + offset as int;
                if 0 <= np <= old(self).inode.size {
                    r == Ext4Result::<u64>::Ok(np as u64) && final(self).position == np
                } else {
                    r == Ext4Result::<u64>::Err(Ext4Error::InvalidInput) && final(self).position
                        == old(self).position
                }
            }),
    {
        if offset >= 0 {
            let off = offset as u64;
            if off <= u64::MAX - self.position && self.position + off <= self.inode.size {
                self.position = self.position + off;
                Ok(self.position)
            } else {
                Err(Ext4Error::InvalidInput)
            }
        } else {
            let back = ((-(offset as i128)) as u64);
            if back <= self.position && self.position - back <= self.inode.size {
                self.position = self.position - back;
                Ok(self.position)
            } else {
                Err(Ext4Error::InvalidInput)
            }
        }
    }

    /// Seek relative to the end of the file; the target may pass the end.
    pub fn seek_from_end(&mut self, offset: i64) -> (r: Ext4Result<u64>)
        ensures
            final(self).inode == old(self).inode,
            ({
                let np = old(self).inode.size + offset as int;
                if 0 <= np <= u64::MAX {
                    r == Ext4Result::<u64>::Ok(np as u64) && final(self).position == np
                } else {
                    r == Ext4Result::<u64>::Err(Ext4Error::InvalidInput) && final(self).position
                        == old(self).position
                }
            }),
    {
        if offset >= 0 {
            let off = offset as u64;
            if off <= u64::MAX - self.inode.size {
                self.position = self.inode.size + off;
                Ok(self.position)
            } else {
                Err(Ext4Error::InvalidInput)
            }
        } else {
            let back = ((-(offset as i128)) as u64);
            if back <= self.inode.size {
                self.position = self.inode.size - back;
                Ok(self.position)
            } else {
                Err(Ext4Error::InvalidInput)
            }
        }
    }

    /// Read data from the file.
    ///
    /// Reads whole-block chunks from the current position until the
    /// buffer is full or the position passes the file size; sparse,
    /// out-of-range or unreadable blocks read as zeros.
    pub fn read<D: BlockDevice>(&mut self, buf: &mut Vec<u8>, fs: &mut Ext4FileSystem<D>) -> (r:
        Ext4Result<usize>)
        requires
            old(fs).wf(),
        ensures
            Ext4FileSystem::<D>::same_shape(*old(fs), *final(fs)),
            final(fs).device.contents() == old(fs).device.contents(),
            final(buf)@.len() == old(buf)@.len(),
            final(self).inode == old(self).inode,
            old(self).position >= old(self).inode.size ==> r == Ext4Result::<usize>::Ok(0) && final(self).position == old(self).position,
            r is Err ==> final(self).position == old(self).position,
            r is Ok ==> forall|j: int|
                r.get_Ok_0() <= j < old(buf)@.len() ==> final(buf)@[j] == old(buf)@[j],
            r is Ok && old(self).position < old(self).inode.size ==> ({
                let n = r.get_Ok_0() as int;
                &&& n <= old(buf)@.len()
                &&& final(self).position == old(self).position + n
                &&& (n == old(buf)@.len() || final(self).position >= old(self).inode.size)
                &&& (old(self).inode.size - old(self).position <= old(buf)@.len() || n == old(buf)@.len())
                &&& forall|j: int|
                    0 <= j < n ==> final(buf)@[j] == spec_file_byte(
                        old(fs).device.contents(),
                        old(fs).superblock,
                        old(self).inode.block@,
                        old(fs).superblock.block_size as int,
                        old(self).position + j,
                    ) || final(buf)@[j] == 0
            }),
    {
        if self.position >= self.inode.size {
            return Ok(0);
        }

        let block_size = fs.superblock.block_size;
        let mut bytes_read: usize = 0;
        let mut offset: u64 = self.position;

        while bytes_read < buf.len() && offset < self.inode.size
            invariant
                fs.wf(),
                Ext4FileSystem::<D>::same_shape(*old(fs), *fs),
                fs.device.contents() == old(fs).device.contents(),
                block_size == fs.superblock.block_size,
                block_size >= 4,
                *self == *old(self),
                buf@.len() == old(buf)@.len(),
                offset == old(self).position + bytes_read,
                bytes_read <= buf@.len(),
                forall|j: int| bytes_read <= j < buf@.len() ==> buf@[j] == old(buf)@[j],
                forall|j: int|
                    0 <= j < bytes_read ==> buf@[j] == spec_file_byte(
                        old(fs).device.contents(),
                        old(fs).superblock,
                        old(self).inode.block@,
                        old(fs).superblock.block_size as int,
                        old(self).position + j,
                    ) || buf@[j] == 0,
            decreases buf@.len() - bytes_read,
        {
            let block_num = match self.inode.get_block_number(offset, block_size, fs) {
                Ok(b) => b,
                Err(e) => {
                    return Err(e);
                },
            };

            let block_offset = (offset % block_size as u64) as usize;
            let in_block = (block_size as usize) - block_offset;
            let in_buf = buf.len() - bytes_read;
            let remaining_in_block: usize = if in_block < in_buf {
                in_block
            } else {
                in_buf
            };

            if remaining_in_block as u64 > u64::MAX - offset {
                return Err(Ext4Error::InvalidInput);
            }

            let use_zeros = if block_num == 0 || block_num as u64 >= fs.superblock.blocks_count {
                // Sparse or bogus block pointer: read as zeros
                true
            } else {
                false
            };

            // The chunk's source bytes: the mapped block, or zeros for a
            // sparse, bogus or unreadable block
            let mut chunk_src = crate::le::zero_vec(block_size as usize);
            let ghost mut from_block = false;
            if !use_zeros {
                match fs.read_block(block_num, &mut chunk_src) {
                    Ok(()) => {
                        proof {
                            from_block = true;
                        }
                    },
                    Err(_) => {
                        // An unreadable block reads as zeros
                        chunk_src = crate::le::zero_vec(block_size as usize);
                    },
                }
            }
            crate::le::copy_into(buf, bytes_read, chunk_src.as_slice(), block_offset, remaining_in_block);

            proof {
                let bs = block_size as int;
                let q = offset as int / bs;
                let r0 = offset as int % bs;
                assert forall|j: int|
                    bytes_read <= j < bytes_read + remaining_in_block implies (#[trigger] buf@[j]
                        == spec_file_byte(
                        old(fs).device.contents(),
                        old(fs).superblock,
                        old(self).inode.block@,
                        old(fs).superblock.block_size as int,
                        old(self).position + j,
                    ) || buf@[j] == 0) by {
                    let t = j - bytes_read;
                    assert((offset + t) / bs == q && (offset + t) % bs == r0 + t)
                        by (nonlinear_arith)
                        requires
                            bs >= 1,
                            q == offset as int / bs,
                            r0 == offset as int % bs,
                            0 <= t < bs - r0,
                            offset >= 0,
                    ;
                    assert(buf@[j] == chunk_src@[r0 + t]);
                    if from_block && !use_zeros {
                        assert(chunk_src@[r0 + t] == old(fs).device.contents()[block_num as int][r0
                            + t]);
                    } else {
                        assert(chunk_src@[r0 + t] == 0u8);
                    }
                }
            }

            bytes_read = bytes_read + remaining_in_block;
            offset = offset + remaining_in_block as u64;
        }

        self.position = offset;
        Ok(bytes_read)
    }

    /// Write data to the file.
    ///
    /// Writes whole-block chunks from the current position, allocating
    /// blocks where the file has none, then persists the inode with its
    /// size grown to cover the write.
    pub fn write<D: BlockDevice>(&mut self, buf: &[u8], fs: &mut Ext4FileSystem<D>) -> (r:
        Ext4Result<usize>)
        requires
            old(fs).wf(),
        ensures
            Ext4FileSystem::<D>::same_shape(*old(fs), *final(fs)),
            r is Err ==> *final(self) == *old(self),
            r is Ok ==> ({
                let n = r.get_Ok_0() as int;
                &&& n == buf@.len()
                &&& final(self).position == old(self).position + n
                &&& final(self).inode.size == (if old(self).position + n > old(self).inode.size {
                    old(self).position + n
                } else {
                    old(self).inode.size as int
                })
                &&& final(self).inode.ino == old(self).inode.ino
            }),
    {
        let block_size = fs.superblock.block_size;
        let mut bytes_written: usize = 0;
        let mut offset: u64 = self.position;
        let mut inode = self.inode;

        while bytes_written < buf.len()
            invariant
                fs.wf(),
                Ext4FileSystem::<D>::same_shape(*old(fs), *fs),
                block_size == fs.superblock.block_size,
                block_size >= 4,
                *self == *old(self),
                offset == old(self).position + bytes_written,
                bytes_written <= buf@.len(),
                inode.ino == old(self).inode.ino,
                inode.size == old(self).inode.size,
            decreases buf@.len() - bytes_written,
        {
            let block_index = offset / block_size as u64;
            let looked_up = inode.get_block_number(offset, block_size, fs);
            let block_num: u32 = match looked_up {
                Ok(b) => {
                    if b == 0 || b as u64 >= fs.superblock.blocks_count {
                        // Allocate a block for a sparse or bogus pointer
                        let new_block = match fs.alloc_block() {
                            Ok(nb) => nb,
                            Err(e) => {
                                return Err(e);
                            },
                        };
                        match inode.set_block(block_index, new_block, block_size, fs) {
                            Ok(()) => (),
                            Err(e) => {
                                return Err(e);
                            },
                        }
                        new_block
                    } else {
                        b
                    }
                },
                Err(_) => {
                    // Need to allocate a new block
                    let new_block = match fs.alloc_block() {
                        Ok(nb) => nb,
                        Err(e) => {
                            return Err(e);
                        },
                    };
                    match inode.set_block(block_index, new_block, block_size, fs) {
                        Ok(()) => (),
                        Err(e) => {
                            return Err(e);
                        },
                    }
                    new_block
                },
            };

            let block_offset = (offset % block_size as u64) as usize;
            let in_block = (block_size as usize) - block_offset;
            let in_buf = buf.len() - bytes_written;
            let remaining_in_block: usize = if in_block < in_buf {
                in_block
            } else {
                in_buf
            };

            if remaining_in_block as u64 > u64::MAX - offset {
                return Err(Ext4Error::InvalidInput);
            }

            let mut block_buf = crate::le::zero_vec(block_size as usize);

            // Read existing block if not writing a whole block
            if block_offset > 0 || remaining_in_block < block_size as usize {
                match fs.read_block(block_num, &mut block_buf) {
                    Ok(()) => (),
                    Err(_) => {
                        // Continue with a zero-filled block
                    },
                }
            }

            crate::le::copy_into(&mut block_buf, block_offset, buf, bytes_written, remaining_in_block);

            match fs.write_block(block_num, block_buf.as_slice()) {
                Ok(()) => (),
                Err(e) => {
                    return Err(e);
                },
            }

            bytes_written = bytes_written + remaining_in_block;
            offset = offset + remaining_in_block as u64;
        }

        // Update file size if needed
        if offset > inode.size {
            inode.size = offset;
            // Update block count
            inode.blocks = {
                let q = offset / block_size as u64;
                let rem = offset % block_size as u64;
                proof {
                    assert(offset as int / (block_size as int) < 0xFFFF_FFFF_FFFF_FFFFint)
                        by (nonlinear_arith)
                        requires
                            0 <= offset as int <= 0xFFFF_FFFF_FFFF_FFFFint,
                            block_size as int >= 2,
                    ;
                }
                if rem == 0 {
                    q
                } else {
                    q + 1
                }
            };
        }

        // Write updated inode
        match fs.write_inode(&inode) {
            Ok(()) => (),
            Err(e) => {
                return Err(e);
            },
        }
        self.position = offset;
        self.inode = inode;

        Ok(bytes_written)
    }

    /// Truncate the file.
    ///
    /// Growing allocates and zero-fills the new blocks; shrinking
    /// clears the block pointers past the new end. The cursor is
    /// clamped to the new size.
    pub fn truncate<D: BlockDevice>(&mut self, new_size: u64, fs: &mut Ext4FileSystem<D>) -> (r:
        Ext4Result<()>)
        requires
            old(fs).wf(),
        ensures
            Ext4FileSystem::<D>::same_shape(*old(fs), *final(fs)),
            final(self).inode.ino == old(self).inode.ino,
            r is Ok ==> final(self).inode.size == new_size && final(self).position == (if old(self).position > new_size {
                new_size
            } else {
                old(self).position
            }),
            r is Err ==> final(self).inode.size == old(self).inode.size && final(self).position
                == old(self).position,
    {
        let block_size = fs.superblock.block_size;
        let old_block_count = {
            let q = self.inode.size / block_size as u64;
            let rem = self.inode.size % block_size as u64;
            proof {
                assert(self.inode.size as int / (block_size as int) < 0xFFFF_FFFF_FFFF_FFFFint)
                    by (nonlinear_arith)
                    requires
                        0 <= self.inode.size as int <= 0xFFFF_FFFF_FFFF_FFFFint,
                        block_size as int >= 2,
                ;
            }
            if rem == 0 {
                q
            } else {
                q + 1
            }
        };
        let new_block_count = {
            let q = new_size / block_size as u64;
            let rem = new_size % block_size as u64;
            proof {
                assert(new_size as int / (block_size as int) < 0xFFFF_FFFF_FFFF_FFFFint)
                    by (nonlinear_arith)
                    requires
                        0 <= new_size as int <= 0xFFFF_FFFF_FFFF_FFFFint,
                        block_size as int >= 2,
                ;
            }
            if rem == 0 {
                q
            } else {
                q + 1
            }
        };

        if new_size > self.inode.size {
            // Expand file - allocate blocks as needed
            let mut block_index = old_block_count;
            while block_index < new_block_count
                invariant
                    fs.wf(),
                    Ext4FileSystem::<D>::same_shape(*old(fs), *fs),
                    block_size == fs.superblock.block_size,
                    block_size >= 4,
                    self.inode.ino == old(self).inode.ino,
                    self.inode.size == old(self).inode.size,
                    self.position == old(self).position,
                decreases new_block_count - block_index,
            {
                let new_block = match fs.alloc_block() {
                    Ok(b) => b,
                    Err(e) => {
                        return Err(e);
                    },
                };
                match self.inode.set_block(block_index, new_block, block_size, fs) {
                    Ok(()) => (),
                    Err(e) => {
                        return Err(e);
                    },
                }

                // Initialize the new block with zeros
                let zero_buf = crate::le::zero_vec(block_size as usize);
                match fs.write_block(new_block, zero_buf.as_slice()) {
                    Ok(()) => (),
                    Err(e) => {
                        return Err(e);
                    },
                }
                block_index = block_index + 1;
            }
        } else if new_size < self.inode.size {
            // Shrink file - clear the pointers of blocks past the new end
            let mut block_index = new_block_count;
            while block_index < old_block_count
                invariant
                    fs.wf(),
                    Ext4FileSystem::<D>::same_shape(*old(fs), *fs),
                    block_size == fs.superblock.block_size,
                    block_size >= 4,
                    self.inode.ino == old(self).inode.ino,
                    self.inode.size == old(self).inode.size,
                    self.position == old(self).position,
                decreases old_block_count - block_index,
            {
                if block_index <= u64::MAX / block_size as u64 {
                    proof {
                        assert(block_index as int * block_size as int
                            <= 0xFFFF_FFFF_FFFF_FFFFint) by (nonlinear_arith)
                            requires
                                0 <= block_index as int <= 0xFFFF_FFFF_FFFF_FFFFint / (
                                block_size as int),
                                block_size as int >= 1,
                        ;
                    }
                    match self.inode.get_block_number(
                        block_index * block_size as u64,
                        block_size,
                        fs,
                    ) {
                        Ok(block_num) => {
                            if block_num != 0 {
                                // The block bitmap is not updated here; the
                                // pointer is simply cleared.
                                match self.inode.set_block(block_index, 0, block_size, fs) {
                                    Ok(()) => (),
                                    Err(e) => {
                                        return Err(e);
                                    },
                                }
                            }
                        },
                        Err(_) => {
                            // An unresolvable block needs no clearing
                        },
                    }
                }
                block_index = block_index + 1;
            }
        }

        // Update the inode size
        self.inode.size = new_size;

        // Adjust position if it's beyond the new file size
        if self.position > new_size {
            self.position = new_size;
        }

        Ok(())
    }
}

} // verus!
