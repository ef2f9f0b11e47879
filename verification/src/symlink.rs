//! Symbolic links: short targets live inline in the inode's block
//! array, long ones in data blocks.

use vstd::prelude::*;

use crate::device::BlockDevice;
use crate::le::u32_le_bytes;
use crate::{Ext4Error, Ext4FileSystem, Ext4Result, Inode};

verus! {

/// Symbolic link operations
pub struct SymLink {
    pub inode: Inode,
    pub target: Option<String>,
}

/// The bytes an inline link target stores in the block array from
/// entry `i` on: four little-endian bytes per entry, ending at the
/// first zero entry.
pub open spec fn spec_inline_link_bytes(block: Seq<u32>, i: int) -> Seq<u8>
    decreases 15 - i,
{
    if i < 0 || i >= 15 {
        Seq::empty()
    } else if block[i] == 0 {
        Seq::empty()
    } else {
        u32_le_bytes(block[i]) + spec_inline_link_bytes(block, i + 1)
    }
}

/// An inline link target trimmed to the inode's size.
pub open spec fn spec_inline_link_target(inode: Inode) -> Seq<u8> {
    let bytes = spec_inline_link_bytes(inode.block@, 0);
    if inode.size <= bytes.len() {
        bytes.subrange(0, inode.size as int)
    } else {
        bytes
    }
}

impl SymLink {
    /// Create a new symbolic link
    pub fn new(inode: Inode) -> (r: Self)
        ensures
            r.inode == inode,
            r.target is None,
    {
        Self { inode, target: None }
    }

    /// Get the target path.
    ///
    /// A cached target is returned as is. An inode smaller than 60
    /// bytes stores the target inline in its block array; a larger one
    /// stores it in data blocks, which are read and concatenated.
    pub fn target<D: BlockDevice>(&self, fs: &mut Ext4FileSystem<D>) -> (r: Ext4Result<String>)
        requires
            old(fs).wf(),
        ensures
            Ext4FileSystem::<D>::same_shape(*old(fs), *final(fs)),
            final(fs).device.contents() == old(fs).device.contents(),
            self.target matches Some(t) ==> r is Ok && r.get_Ok_0()@ == t@,
            self.target is None && self.inode.size < 60 ==> ({
                let bytes = spec_inline_link_target(self.inode);
                if vstd::utf8::valid_utf8(bytes) {
                    r is Ok && r.get_Ok_0()@ == vstd::utf8::decode_utf8(bytes)
                } else {
                    r == Ext4Result::<String>::Err(Ext4Error::InvalidInput)
                }
            }),
    {
        match &self.target {
            Some(target) => {
                return Ok(target.clone());
            },
            None => (),
        }

        // Read the target from the inode
        if self.inode.size < 60 {
            // Short symlink is stored in the inode block pointers
            let mut target_bytes: Vec<u8> = Vec::new();
            let mut i: usize = 0;
            while i < 15 && self.inode.block[i] != 0
                invariant
                    0 <= i <= 15,
                    target_bytes@.len() == 4 * i,
                    target_bytes@ + spec_inline_link_bytes(self.inode.block@, i as int)
                        == spec_inline_link_bytes(self.inode.block@, 0),
                decreases 15 - i,
            {
                let ghost pre = target_bytes@;
                let b = self.inode.block[i];
                target_bytes.push((b % 0x100) as u8);
                target_bytes.push(((b / 0x100) % 0x100) as u8);
                target_bytes.push(((b / 0x1_0000) % 0x100) as u8);
                target_bytes.push(((b / 0x100_0000) % 0x100) as u8);
                proof {
                    assert(target_bytes@ =~= pre + u32_le_bytes(b));
                    assert((pre + u32_le_bytes(b)) + spec_inline_link_bytes(
                        self.inode.block@,
                        i as int + 1,
                    ) =~= pre + (u32_le_bytes(b) + spec_inline_link_bytes(
                        self.inode.block@,
                        i as int + 1,
                    )));
                }
                i += 1;
            }

            // Trim to the actual size
            let take: usize = if (self.inode.size as usize) <= target_bytes.len() {
                self.inode.size as usize
            } else {
                target_bytes.len()
            };
            let trimmed = crate::le::sub_bytes(target_bytes.as_slice(), 0, take);
            proof {
                assert(trimmed@ =~= spec_inline_link_target(self.inode));
            }

            match crate::le::string_from_utf8(trimmed) {
                Some(s) => Ok(s),
                None => Err(Ext4Error::InvalidInput),
            }
        } else {
            // Long symlink is stored in blocks
            let block_size = fs.superblock.block_size;
            let mut target_bytes: Vec<u8> = Vec::new();

            let count = self.inode.block_count(block_size);
            let mut i: u64 = 0;
            while i < count && (target_bytes.len() as u64) < self.inode.size
                invariant
                    self.target is None,
                    self.inode.size >= 60,
                    fs.wf(),
                    Ext4FileSystem::<D>::same_shape(*old(fs), *fs),
                    fs.device.contents() == old(fs).device.contents(),
                    block_size == fs.superblock.block_size,
                    block_size >= 4,
                    0 <= i <= count,
                decreases count - i,
            {
                if i > u64::MAX / block_size as u64 {
                    return Err(Ext4Error::InvalidInput);
                }
                proof {
                    assert(i as int * block_size as int <= 0xFFFF_FFFF_FFFF_FFFFint)
                        by (nonlinear_arith)
                        requires
                            0 <= i as int <= 0xFFFF_FFFF_FFFF_FFFFint / (block_size as int),
                            block_size as int >= 1,
                    ;
                }
                let block_num = match self.inode.get_block_number(
                    i * block_size as u64,
                    block_size,
                    fs,
                ) {
                    Ok(b) => b,
                    Err(e) => {
                        return Err(e);
                    },
                };
                if block_num == 0 {
                    break;
                }

                let mut block_buf = crate::le::zero_vec(block_size as usize);
                match fs.read_block(block_num, &mut block_buf) {
                    Ok(()) => (),
                    Err(e) => {
                        return Err(e);
                    },
                }

                let have = target_bytes.len() as u64;
                let remaining = self.inode.size - have;
                let to_read: usize = if remaining < block_size as u64 {
                    remaining as usize
                } else {
                    block_size as usize
                };
                let chunk = crate::le::sub_bytes(block_buf.as_slice(), 0, to_read);
                crate::le::append_bytes(&mut target_bytes, chunk.as_slice());
                i += 1;
            }

            match crate::le::string_from_utf8(target_bytes) {
                Some(s) => Ok(s),
                None => Err(Ext4Error::InvalidInput),
            }
        }
    }

    /// Set the target path
    pub fn set_target(&mut self, target: String)
        ensures
            final(self).inode == old(self).inode,
            final(self).target matches Some(t) && t@ == target@,
    {
        self.target = Some(target);
    }

    /// Create a symbolic link.
    ///
    /// Only the inode number is allocated; the target is not yet
    /// written out, and no directory entry is added to the parent.
    pub fn create<D: BlockDevice>(
        fs: &mut Ext4FileSystem<D>,
        parent_ino: u32,
        name: &str,
        target: &str,
    ) -> (r: Ext4Result<u32>)
        requires
            old(fs).wf(),
        ensures
            Ext4FileSystem::<D>::same_shape(*old(fs), *final(fs)),
            final(fs).device.contents() == old(fs).device.contents(),
            old(fs).mount_options.read_only ==> r == Ext4Result::<u32>::Err(Ext4Error::ReadOnly),
            r is Ok ==> !old(fs).mount_options.read_only,
    {
        // Allocate a new inode
        let ino = match fs.alloc_inode() {
            Ok(i) => i,
            Err(e) => {
                return Err(e);
            },
        };
        let _inode = match fs.get_inode(ino) {
            Ok(i) => i,
            Err(e) => {
                return Err(e);
            },
        };

        Ok(ino)
    }
}

} // verus!
