//! Block-group descriptor parsing and serialisation.

use vstd::prelude::*;

use crate::le::{le16, le32, read_u16, read_u32, write_u16, write_u32, zero_vec};
use crate::{Ext4Error, Ext4Result};

verus! {

/// Block group descriptor
#[derive(Debug, Clone, Copy)]
pub struct BlockGroupDescriptor {
    /// Block bitmap
    pub block_bitmap: u32,
    /// Inode bitmap
    pub inode_bitmap: u32,
    /// Inode table
    pub inode_table: u32,
    /// Free blocks count
    pub free_blocks_count: u16,
    /// Free inodes count
    pub free_inodes_count: u16,
    /// Used directories count
    pub used_dirs_count: u16,
    /// Flags
    pub flags: u16,
    /// Exclude bitmap for snapshots
    pub exclude_bitmap: u32,
    /// Block bitmap checksum
    pub block_bitmap_csum: u16,
    /// Inode bitmap checksum
    pub inode_bitmap_csum: u16,
    /// Unused inode count
    pub itable_unused: u16,
    /// Checksum
    pub checksum: u16,
}

/// `d` holds exactly the fields encoded in the descriptor image `data`:
/// the 32-byte core, and the 64-byte tail when the image is long enough.
pub open spec fn bgd_parses(data: Seq<u8>, d: BlockGroupDescriptor) -> bool {
    &&& d.block_bitmap == le32(data, 0)
    &&& d.inode_bitmap == le32(data, 4)
    &&& d.inode_table == le32(data, 8)
    &&& d.free_blocks_count == le16(data, 12)
    &&& d.free_inodes_count == le16(data, 14)
    &&& d.used_dirs_count == le16(data, 16)
    &&& d.flags == le16(data, 18)
    &&& if data.len() >= 64 {
        &&& d.exclude_bitmap == le32(data, 20)
        &&& d.block_bitmap_csum == le16(data, 24)
        &&& d.inode_bitmap_csum == le16(data, 26)
        &&& d.itable_unused == le16(data, 28)
        &&& d.checksum == le16(data, 30)
    } else {
        &&& d.exclude_bitmap == 0
        &&& d.block_bitmap_csum == 0
        &&& d.inode_bitmap_csum == 0
        &&& d.itable_unused == 0
        &&& d.checksum == 0
    }
}

impl BlockGroupDescriptor {
    /// Parse block group descriptor from bytes
    pub fn from_bytes(data: &[u8]) -> (r: Ext4Result<Self>)
        ensures
            data.len() < 32 ==> r == Ext4Result::<Self>::Err(Ext4Error::InvalidInput),
            data.len() >= 32 ==> r is Ok && bgd_parses(data@, r.unwrap()),
    {
        if data.len() < 32 {
            return Err(Ext4Error::InvalidInput);
        }

        let block_bitmap = read_u32(data, 0);
        let inode_bitmap = read_u32(data, 4);
        let inode_table = read_u32(data, 8);
        let free_blocks_count = read_u16(data, 12);
        let free_inodes_count = read_u16(data, 14);
        let used_dirs_count = read_u16(data, 16);
        let flags = read_u16(data, 18);

        // Extended fields (if available)
        let mut exclude_bitmap: u32 = 0;
        let mut block_bitmap_csum: u16 = 0;
        let mut inode_bitmap_csum: u16 = 0;
        let mut itable_unused: u16 = 0;
        let mut checksum: u16 = 0;

        if data.len() >= 64 {
            exclude_bitmap = read_u32(data, 20);
            block_bitmap_csum = read_u16(data, 24);
            inode_bitmap_csum = read_u16(data, 26);
            itable_unused = read_u16(data, 28);
            checksum = read_u16(data, 30);
        }

        Ok(Self {
            block_bitmap,
            inode_bitmap,
            inode_table,
            free_blocks_count,
            free_inodes_count,
            used_dirs_count,
            flags,
            exclude_bitmap,
            block_bitmap_csum,
            inode_bitmap_csum,
            itable_unused,
            checksum,
        })
    }

    /// Getters
    pub fn block_bitmap(&self) -> (r: u32)
        ensures
            r == self.block_bitmap,
    {
        self.block_bitmap
    }

    pub fn inode_bitmap(&self) -> (r: u32)
        ensures
            r == self.inode_bitmap,
    {
        self.inode_bitmap
    }

    pub fn inode_table(&self) -> (r: u32)
        ensures
            r == self.inode_table,
    {
        self.inode_table
    }

    pub fn free_blocks_count(&self) -> (r: u16)
        ensures
            r == self.free_blocks_count,
    {
        self.free_blocks_count
    }

    pub fn free_inodes_count(&self) -> (r: u16)
        ensures
            r == self.free_inodes_count,
    {
        self.free_inodes_count
    }

    pub fn used_dirs_count(&self) -> (r: u16)
        ensures
            r == self.used_dirs_count,
    {
        self.used_dirs_count
    }

    pub fn flags(&self) -> (r: u16)
        ensures
            r == self.flags,
    {
        self.flags
    }

    pub fn exclude_bitmap(&self) -> (r: u32)
        ensures
            r == self.exclude_bitmap,
    {
        self.exclude_bitmap
    }

    pub fn block_bitmap_csum(&self) -> (r: u16)
        ensures
            r == self.block_bitmap_csum,
    {
        self.block_bitmap_csum
    }

    pub fn inode_bitmap_csum(&self) -> (r: u16)
        ensures
            r == self.inode_bitmap_csum,
    {
        self.inode_bitmap_csum
    }

    pub fn itable_unused(&self) -> (r: u16)
        ensures
            r == self.itable_unused,
    {
        self.itable_unused
    }

    pub fn checksum(&self) -> (r: u16)
        ensures
            r == self.checksum,
    {
        self.checksum
    }

    /// Setters for updating fields
    pub fn set_free_inodes_count(&mut self, count: u16)
        ensures
            *final(self) == (BlockGroupDescriptor { free_inodes_count: count, ..*old(self) }),
    {
        self.free_inodes_count = count;
    }

    pub fn set_free_blocks_count(&mut self, count: u16)
        ensures
            *final(self) == (BlockGroupDescriptor { free_blocks_count: count, ..*old(self) }),
    {
        self.free_blocks_count = count;
    }

    pub fn set_used_dirs_count(&mut self, count: u16)
        ensures
            *final(self) == (BlockGroupDescriptor { used_dirs_count: count, ..*old(self) }),
    {
        self.used_dirs_count = count;
    }

    /// Convert block group descriptor back to bytes for writing to disk
    pub fn to_bytes(&self) -> (r: Vec<u8>)
        ensures
            r@.len() == 64,
            bgd_parses(r@, *self),
            forall|i: int| 32 <= i < 64 ==> r@[i] == 0u8,
    {
        let mut data = zero_vec(64);  // Use maximum size for descriptor

        write_u32(&mut data, 0, self.block_bitmap);
        write_u32(&mut data, 4, self.inode_bitmap);
        write_u32(&mut data, 8, self.inode_table);
        write_u16(&mut data, 12, self.free_blocks_count);
        write_u16(&mut data, 14, self.free_inodes_count);
        write_u16(&mut data, 16, self.used_dirs_count);
        write_u16(&mut data, 18, self.flags);
        write_u32(&mut data, 20, self.exclude_bitmap);
        write_u16(&mut data, 24, self.block_bitmap_csum);
        write_u16(&mut data, 26, self.inode_bitmap_csum);
        write_u16(&mut data, 28, self.itable_unused);
        write_u16(&mut data, 30, self.checksum);

        data
    }
}

} // verus!
