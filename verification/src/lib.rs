//! An ext4 on-disk format driver over a block-oriented storage device.
//!
//! The crate parses and writes the ext4 structures (superblock, block-group
//! descriptors, inodes, directory entries, extent trees) and translates
//! path lookup, directory enumeration and file read/write into fixed-size
//! block reads and writes against a [`device::BlockDevice`].

use vstd::prelude::*;

pub mod bitmap;
pub mod block_group;
pub mod device;
pub mod directory;
pub mod extent;
pub mod file;
pub mod superblock;
pub mod symlink;
pub mod inode;
pub mod journal;
pub mod le;

pub use bitmap::Bitmap;
pub use block_group::BlockGroupDescriptor;
pub use device::{BlockDevice, MemBlockDevice};
pub use directory::{Directory, DirectoryEntry, DirectoryIterator};
pub use extent::{Extent, ExtentHeader, ExtentIndex, ExtentNode, parse_extent_node, find_block_in_extent_tree};
pub use file::File;
pub use journal::{BlockType, Journal, Transaction, TransactionBlock, TransactionState};
pub use inode::{Inode, InodeMode, InodeType};
pub use superblock::SuperBlock;
pub use symlink::SymLink;

verus! {

/// Ext4 filesystem error type
#[derive(Debug, Clone, Copy, PartialEq, Eq, Structural)]
pub enum Ext4Error {
    /// Invalid filesystem magic number
    InvalidMagic,
    /// Invalid filesystem state
    InvalidState,
    /// Inode not found
    InodeNotFound,
    /// Block not found
    BlockNotFound,
    /// Invalid path
    InvalidPath,
    /// File already exists
    FileExists,
    /// Directory not empty
    DirNotEmpty,
    /// Not a directory
    NotADirectory,
    /// Is a directory
    IsADirectory,
    /// Invalid input
    InvalidInput,
    /// I/O error
    IoError,
    /// No space left on device
    NoSpaceLeft,
    /// Read-only filesystem
    ReadOnly,
    /// Invalid argument
    InvalidArg,
    /// Operation not supported
    NotSupported,
}

/// Result type for ext4 operations
pub type Ext4Result<T> = Result<T, Ext4Error>;

/// Root inode number
pub const EXT4_ROOT_INO: u32 = 2;

/// Invalid inode number
pub const EXT4_BAD_INO: u32 = 1;

/// Mount options for the ext4 filesystem
#[derive(Debug, Clone)]
pub struct MountOptions {
    /// Read-only mount
    pub read_only: bool,
    /// Enable journaling
    pub journaling: bool,
    /// Enable execute permission check
    pub exec_check: bool,
}

impl Default for MountOptions {
    fn default() -> (r: Self)
        ensures
            r.read_only == false,
            r.journaling == true,
            r.exec_check == false,
    {
        Self { read_only: false, journaling: true, exec_check: false }
    }
}

/// Filesystem statistics
#[derive(Debug, Clone)]
pub struct FilesystemStats {
    pub block_size: u32,
    pub total_blocks: u64,
    pub free_blocks: u64,
    pub total_inodes: u64,
    pub free_inodes: u64,
}

/// Ext4 filesystem implementation
pub struct Ext4FileSystem<D: BlockDevice> {
    pub device: D,
    pub superblock: SuperBlock,
    pub block_groups: Vec<BlockGroupDescriptor>,
    pub mount_options: MountOptions,
}

/// The number of block groups the superblock's geometry gives:
/// `ceil(blocks_count / blocks_per_group)`, at least 1 when the
/// filesystem is non-empty.
pub open spec fn spec_groups_count(sb: SuperBlock) -> int
    recommends
        sb.blocks_per_group > 0,
{
    if sb.blocks_count == 0 {
        0int
    } else {
        let c = (sb.blocks_count + sb.blocks_per_group - 1) as int / sb.blocks_per_group as int;
        if c < 1 {
            1int
        } else {
            c
        }
    }
}

/// The descriptor size the revision level gives: 64 bytes from revision 1 on.
pub open spec fn spec_desc_size(sb: SuperBlock) -> int {
    if sb.rev_level >= 1 {
        64int
    } else {
        32int
    }
}

/// The first block of the group-descriptor table: the block after the
/// superblock's.
pub open spec fn spec_desc_table_start(sb: SuperBlock) -> int {
    if sb.first_data_block == 0 {
        1int
    } else {
        sb.first_data_block + 1
    }
}

/// The data of an inode's first `n` logical blocks read in order:
/// the device contents of each mapped block, sparse blocks skipped.
/// An unmapped block (`None` from the lookup) contributes nothing; the
/// functions that assemble data return an error there instead.
pub open spec fn spec_dir_data(
    contents: Seq<Seq<u8>>,
    sb: SuperBlock,
    iblock: Seq<u32>,
    n: int,
) -> Seq<u8>
    decreases n,
{
    if n <= 0 {
        Seq::empty()
    } else {
        let prefix = spec_dir_data(contents, sb, iblock, n - 1);
        match inode::spec_block_lookup(sb, iblock, n - 1, sb.block_size as int, contents) {
            Some(b) => if b == 0 {
                prefix
            } else {
                prefix + contents[b as int]
            },
            None => prefix,
        }
    }
}

/// There is an entry named `name` (as UTF-8 bytes) in `es`, and the
/// first such entry carries inode number `ino`.
pub open spec fn spec_entry_named(es: Seq<directory::DirEntryView>, name: Seq<u8>, ino: u32) -> bool {
    exists|k: int|
        {
            &&& 0 <= k < es.len()
            &&& vstd::utf8::encode_utf8((#[trigger] es[k]).4) == name
            &&& es[k].0 == ino
            &&& (forall|j: int|
                0 <= j < k ==> vstd::utf8::encode_utf8((#[trigger] es[j]).4) != name)
        }
}

/// The bytes of group descriptor `g` as they lie on the device.
pub open spec fn spec_desc_bytes(contents: Seq<Seq<u8>>, sb: SuperBlock, g: int) -> Seq<u8> {
    let dsz = spec_desc_size(sb);
    let bpd = sb.block_size as int / dsz;
    let block = spec_desc_table_start(sb) + g / bpd;
    let off = (g % bpd) * dsz;
    contents[block].subrange(off, off + dsz)
}

impl<D: BlockDevice> Ext4FileSystem<D> {
    /// The device state and parsed metadata a method leaves untouched.
    pub open spec fn same_shape(pre: Self, post: Self) -> bool {
        &&& post.superblock == pre.superblock
        &&& post.block_groups@ == pre.block_groups@
        &&& post.mount_options == pre.mount_options
        &&& post.device.spec_block_size() == pre.device.spec_block_size()
        &&& post.device.spec_num_blocks() == pre.device.spec_num_blocks()
    }

    /// Create a new ext4 filesystem instance
    pub fn new(device: D, options: MountOptions) -> (r: Ext4Result<Self>)
        ensures
            r is Ok ==> ({
                let fs = r.get_Ok_0();
                &&& fs.mount_options == options
                &&& fs.device.spec_block_size() == device.spec_block_size()
                &&& fs.device.spec_num_blocks() == device.spec_num_blocks()
                &&& fs.device.contents() == device.contents()
                &&& fs.superblock.magic == 0xEF53
                &&& fs.superblock.spec_block_size_valid()
                &&& superblock::sb_parses(
                    superblock::spec_sb_image(
                        device.contents(),
                        device.spec_block_size() as int,
                    ),
                    fs.superblock,
                )
                &&& fs.superblock.blocks_per_group > 0 ==> fs.block_groups@.len()
                    == spec_groups_count(fs.superblock)
                &&& forall|g: int|
                    0 <= g < fs.block_groups@.len() ==> block_group::bgd_parses(
                        spec_desc_bytes(device.contents(), fs.superblock, g),
                        #[trigger] fs.block_groups@[g],
                    )
            }),
    {
        let mut device = device;

        // Read and validate superblock
        let superblock = match SuperBlock::read_from_device(&mut device) {
            Ok(sb) => sb,
            Err(e) => {
                return Err(e);
            },
        };
        match superblock.validate() {
            Ok(()) => (),
            Err(e) => {
                return Err(e);
            },
        }

        // Read block group descriptors
        let block_groups = match Self::read_block_groups(&mut device, &superblock) {
            Ok(bgs) => bgs,
            Err(e) => {
                return Err(e);
            },
        };

        Ok(Self { device, superblock, block_groups, mount_options: options })
    }

    /// Read block group descriptors
    fn read_block_groups(device: &mut D, superblock: &SuperBlock) -> (r: Ext4Result<
        Vec<BlockGroupDescriptor>,
    >)
        requires
            superblock.spec_block_size_valid(),
        ensures
            final(device).contents() == old(device).contents(),
            final(device).spec_block_size() == old(device).spec_block_size(),
            final(device).spec_num_blocks() == old(device).spec_num_blocks(),
            superblock.blocks_per_group == 0 ==> r == Ext4Result::<Vec<BlockGroupDescriptor>>::Err(
                Ext4Error::InvalidState,
            ),
            r is Ok ==> superblock.blocks_per_group > 0 && r.get_Ok_0()@.len()
                == spec_groups_count(*superblock) && forall|g: int|
                0 <= g < r.get_Ok_0()@.len() ==> block_group::bgd_parses(
                    spec_desc_bytes(old(device).contents(), *superblock, g),
                    #[trigger] r.get_Ok_0()@[g],
                ),
    {
        let block_size = superblock.block_size;
        let blocks_count = superblock.blocks_count;
        let blocks_per_group = superblock.blocks_per_group;

        if blocks_per_group == 0 {
            return Err(Ext4Error::InvalidState);
        }

        // Handle small filesystems where blocks_count < blocks_per_group
        let groups_count: u64 = if blocks_count == 0 {
            0
        } else {
            let q = blocks_count / blocks_per_group as u64;
            let rem = blocks_count % blocks_per_group as u64;
            let c = if rem == 0 {
                q
            } else {
                proof {
                    let a = blocks_count as int;
                    let b = blocks_per_group as int;
                    assert(b != 1) by {
                        assert(a % 1int == 0);
                    }
                    assert(a / b < 0xFFFF_FFFF_FFFF_FFFFint) by (nonlinear_arith)
                        requires
                            0 <= a <= 0xFFFF_FFFF_FFFF_FFFFint,
                            b >= 2,
                    ;
                }
                q + 1
            };
            proof {
                let a = blocks_count as int;
                let b = blocks_per_group as int;
                assert((a + b - 1) / b == a / b + (if a % b == 0 {
                    0int
                } else {
                    1int
                })) by (nonlinear_arith)
                    requires
                        a >= 0,
                        b > 0,
                ;
            }
            // Ensure at least one group for non-empty filesystems
            if c < 1 {
                1
            } else {
                c
            }
        };

        let desc_size: u32 = if superblock.rev_level >= 1 {
            64
        } else {
            32
        };
        let blocks_per_desc: u32 = block_size / desc_size;
        proof {
            assert(blocks_per_desc >= 16);
        }
        let desc_blocks: u64 = {
            let q = groups_count / blocks_per_desc as u64;
            let rem = groups_count % blocks_per_desc as u64;
            proof {
                assert(groups_count as int / (blocks_per_desc as int) < 0xFFFF_FFFF_FFFF_FFFFint)
                    by (nonlinear_arith)
                    requires
                        0 <= groups_count as int <= 0xFFFF_FFFF_FFFF_FFFFint,
                        blocks_per_desc as int >= 16,
                ;
            }
            if rem == 0 {
                q
            } else {
                q + 1
            }
        };
        proof {
            let gc = groups_count as int;
            let b = blocks_per_desc as int;
            assert((gc / b + (if gc % b == 0 {
                0int
            } else {
                1int
            })) * b >= gc) by (nonlinear_arith)
                requires
                    gc >= 0,
                    b > 0,
            ;
            assert(desc_blocks as int * b >= gc);
            assert(forall|k: int|
                0 <= k < desc_blocks as int ==> #[trigger] (k * b) < gc) by (nonlinear_arith)
                requires
                    gc >= 0,
                    b > 0,
                    desc_blocks as int == gc / b + (if gc % b == 0 {
                        0int
                    } else {
                        1int
                    }),
            ;
            assert(gc / b <= gc / 16) by (nonlinear_arith)
                requires
                    b >= 16,
                    gc >= 0,
            ;
        }

        let table_start: u64 = if superblock.first_data_block == 0 {
            1
        } else {
            superblock.first_data_block as u64 + 1
        };

        let mut descriptors: Vec<BlockGroupDescriptor> = Vec::new();
        let mut buf = le::zero_vec(block_size as usize);

        let mut i: u64 = 0;
        while i < desc_blocks
            invariant
                device.contents() == old(device).contents(),
                device.spec_block_size() == old(device).spec_block_size(),
                device.spec_num_blocks() == old(device).spec_num_blocks(),
                superblock.spec_block_size_valid(),
                blocks_per_group > 0,
                block_size == superblock.block_size,
                blocks_count == superblock.blocks_count,
                blocks_per_group == superblock.blocks_per_group,
                desc_size == spec_desc_size(*superblock),
                blocks_per_desc == block_size / desc_size,
                blocks_per_desc >= 16,
                groups_count == spec_groups_count(*superblock),
                desc_blocks * blocks_per_desc >= groups_count,
                desc_blocks <= 0x1000_0000_0000_0000u64,
                forall|k: int|
                    0 <= k < desc_blocks as int ==> #[trigger] (k * blocks_per_desc as int)
                        < groups_count,
                table_start == spec_desc_table_start(*superblock),
                table_start <= 0x1_0000_0001u64,
                buf@.len() == block_size,
                0 <= i <= desc_blocks,
                descriptors@.len() == if i * blocks_per_desc <= groups_count {
                    i * blocks_per_desc
                } else {
                    groups_count as int
                },
                forall|g: int|
                    0 <= g < descriptors@.len() ==> block_group::bgd_parses(
                        spec_desc_bytes(old(device).contents(), *superblock, g),
                        #[trigger] descriptors@[g],
                    ),
            decreases desc_blocks - i,
        {
            let block: u64 = table_start + i;

            match device.read_block(block, &mut buf) {
                Ok(()) => (),
                Err(_) => {
                    return Err(Ext4Error::IoError);
                },
            }

            let base: u64 = i * blocks_per_desc as u64;
            let remaining: u64 = groups_count - base;
            let take: u32 = if (blocks_per_desc as u64) < remaining {
                blocks_per_desc
            } else {
                remaining as u32
            };

            let mut j: u32 = 0;
            while j < take
                invariant
                    0 <= j <= take,
                    take <= blocks_per_desc,
                    base == i * blocks_per_desc,
                    base + take <= groups_count,
                    i < desc_blocks,
                    desc_size == spec_desc_size(*superblock),
                    blocks_per_desc == block_size / desc_size,
                    block_size == superblock.block_size,
                    superblock.spec_block_size_valid(),
                    groups_count == spec_groups_count(*superblock),
                    table_start == spec_desc_table_start(*superblock),
                    block == table_start + i,
                    buf@.len() == block_size,
                    buf@ == old(device).contents()[block as int],
                    descriptors@.len() == base + j,
                    forall|g: int|
                        0 <= g < descriptors@.len() ==> block_group::bgd_parses(
                            spec_desc_bytes(old(device).contents(), *superblock, g),
                            #[trigger] descriptors@[g],
                        ),
                decreases take - j,
            {
                let offset = j * desc_size;
                proof {
                    let bs = block_size as int;
                    let dsz = desc_size as int;
                    let bpd = blocks_per_desc as int;
                    assert(j * dsz + dsz <= bs) by (nonlinear_arith)
                        requires
                            0 <= (j as int) < bpd,
                            bpd == bs / dsz,
                            dsz > 0,
                            bs > 0,
                    ;
                }
                let chunk = le::sub_bytes(buf.as_slice(), offset as usize, desc_size as usize);
                let desc = match BlockGroupDescriptor::from_bytes(chunk.as_slice()) {
                    Ok(d) => d,
                    Err(e) => {
                        return Err(e);
                    },
                };
                proof {
                    let g = descriptors@.len() as int;
                    let dsz = desc_size as int;
                    let bpd = blocks_per_desc as int;
                    vstd::arithmetic::div_mod::lemma_fundamental_div_mod(g, bpd);
                    assert(g / bpd == i as int && g % bpd == j as int) by (nonlinear_arith)
                        requires
                            g == i * bpd + j,
                            0 <= (j as int) < bpd,
                            bpd > 0,
                            i >= 0,
                    ;
                    assert(spec_desc_bytes(old(device).contents(), *superblock, g)
                        == chunk@);
                }
                descriptors.push(desc);
                j += 1;
            }

            proof {
                assert((i + 1) * blocks_per_desc == i * blocks_per_desc + blocks_per_desc)
                    by (nonlinear_arith);
            }
            i += 1;
        }

        proof {
            assert(desc_blocks * blocks_per_desc >= groups_count);
        }
        Ok(descriptors)
    }

    /// The filesystem's parsed geometry is one the format allows.
    pub open spec fn wf(&self) -> bool {
        self.superblock.spec_block_size_valid()
    }

    /// The inode-table geometry is sound for looking up inode `ino`.
    pub open spec fn spec_inode_geometry_ok(&self, ino: u32) -> bool {
        let ipg = self.superblock.inodes_per_group as int;
        let isz = self.superblock.inode_size as int;
        let bs = self.superblock.block_size as int;
        &&& ino >= 1
        &&& ipg > 0
        &&& isz > 0
        &&& bs / isz > 0
        &&& (ino - 1) / ipg < self.block_groups@.len()
    }

    /// The device block that holds inode `ino`'s record.
    pub open spec fn spec_inode_block(&self, ino: u32) -> int
        recommends
            self.spec_inode_geometry_ok(ino),
    {
        let ipg = self.superblock.inodes_per_group as int;
        let isz = self.superblock.inode_size as int;
        let bs = self.superblock.block_size as int;
        let g = (ino - 1) / ipg;
        let index = (ino - 1) % ipg;
        let ipb = bs / isz;
        self.block_groups@[g].inode_table + index / ipb
    }

    /// The byte offset of inode `ino`'s record inside its block.
    pub open spec fn spec_inode_offset(&self, ino: u32) -> int
        recommends
            self.spec_inode_geometry_ok(ino),
    {
        let ipg = self.superblock.inodes_per_group as int;
        let isz = self.superblock.inode_size as int;
        let bs = self.superblock.block_size as int;
        let index = (ino - 1) % ipg;
        let ipb = bs / isz;
        (index % ipb) * isz
    }

    /// The device bytes that hold inode `ino`'s on-disk record.
    pub open spec fn spec_inode_slice(&self, ino: u32) -> Seq<u8>
        recommends
            self.spec_inode_geometry_ok(ino),
    {
        let isz = self.superblock.inode_size as int;
        self.device.contents()[self.spec_inode_block(ino)].subrange(
            self.spec_inode_offset(ino),
            self.spec_inode_offset(ino) + isz,
        )
    }

    /// Get an inode by number
    pub fn get_inode(&mut self, ino: u32) -> (r: Ext4Result<Inode>)
        requires
            old(self).wf(),
        ensures
            Self::same_shape(*old(self), *final(self)),
            final(self).device.contents() == old(self).device.contents(),
            ({
                let ipg = old(self).superblock.inodes_per_group as int;
                let isz = old(self).superblock.inode_size as int;
                let bs = old(self).superblock.block_size as int;
                &&& ino == 0 ==> r == Ext4Result::<Inode>::Err(Ext4Error::InodeNotFound)
                &&& ino >= 1 && ipg == 0 ==> r == Ext4Result::<Inode>::Err(
                    Ext4Error::InodeNotFound,
                )
                &&& ino >= 1 && ipg > 0 && (ino - 1) / ipg >= old(self).block_groups@.len() ==> r
                    == Ext4Result::<Inode>::Err(Ext4Error::InodeNotFound)
                &&& ino >= 1 && ipg > 0 && (ino - 1) / ipg < old(self).block_groups@.len() && isz
                    == 0 ==> r == Ext4Result::<Inode>::Err(Ext4Error::InvalidInput)
                &&& ino >= 1 && ipg > 0 && (ino - 1) / ipg < old(self).block_groups@.len() && isz
                    > 0 && bs / isz == 0 ==> r == Ext4Result::<Inode>::Err(Ext4Error::InvalidInput)
            }),
            r is Err ==> r == Ext4Result::<Inode>::Err(Ext4Error::InodeNotFound) || r
                == Ext4Result::<Inode>::Err(Ext4Error::InvalidInput) || r == Ext4Result::<
                Inode,
            >::Err(Ext4Error::IoError),
            r is Ok ==> old(self).spec_inode_geometry_ok(ino) && inode::inode_parses(
                old(self).spec_inode_slice(ino),
                ino,
                r.get_Ok_0(),
            ),
    {
        if ino == 0 {
            return Err(Ext4Error::InodeNotFound);
        }
        let ipg = self.superblock.inodes_per_group;
        if ipg == 0 {
            return Err(Ext4Error::InodeNotFound);
        }
        let block_group = (ino - 1) / ipg;
        let index = (ino - 1) % ipg;

        if block_group as usize >= self.block_groups.len() {
            return Err(Ext4Error::InodeNotFound);
        }

        let inode_table_block = self.block_groups[block_group as usize].inode_table;
        let inode_size = self.superblock.inode_size;
        if inode_size == 0 {
            return Err(Ext4Error::InvalidInput);
        }
        let inodes_per_block = self.superblock.block_size / inode_size as u32;
        if inodes_per_block == 0 {
            return Err(Ext4Error::InvalidInput);
        }
        let block_offset = index / inodes_per_block;
        proof {
            let q = (index % inodes_per_block) as int;
            let isz = inode_size as int;
            let bs = self.superblock.block_size as int;
            assert(q * isz + isz <= bs) by (nonlinear_arith)
                requires
                    0 <= q < bs / isz,
                    isz > 0,
                    bs >= 0,
            ;
        }
        let inode_offset = (index % inodes_per_block) * inode_size as u32;

        let table_block: u64 = inode_table_block as u64 + block_offset as u64;
        if table_block > 0xFFFF_FFFFu64 {
            return Err(Ext4Error::InodeNotFound);
        }

        let mut buf = le::zero_vec(self.superblock.block_size as usize);
        match self.read_block(table_block as u32, &mut buf) {
            Ok(()) => (),
            Err(e) => {
                return Err(e);
            },
        }

        let sub = le::sub_bytes(buf.as_slice(), inode_offset as usize, inode_size as usize);
        let r = Inode::from_bytes(sub.as_slice(), ino);
        proof {
            if r is Ok {
                assert(sub@ == old(self).spec_inode_slice(ino));
            }
        }
        r
    }

    /// Get the root inode
    pub fn root_inode(&mut self) -> (r: Ext4Result<Inode>)
        requires
            old(self).wf(),
        ensures
            Self::same_shape(*old(self), *final(self)),
            final(self).device.contents() == old(self).device.contents(),
            r is Ok ==> old(self).spec_inode_geometry_ok(EXT4_ROOT_INO) && inode::inode_parses(
                old(self).spec_inode_slice(EXT4_ROOT_INO),
                EXT4_ROOT_INO,
                r.get_Ok_0(),
            ),
    {
        self.get_inode(EXT4_ROOT_INO)
    }

    /// Write an inode to disk
    pub(crate) fn write_inode(&mut self, inode: &Inode) -> (r: Ext4Result<()>)
        requires
            old(self).wf(),
        ensures
            Self::same_shape(*old(self), *final(self)),
            r is Err ==> final(self).device.contents() == old(self).device.contents(),
            r is Err ==> r == Ext4Result::<()>::Err(Ext4Error::InodeNotFound) || r == Ext4Result::<
                (),
            >::Err(Ext4Error::InvalidInput) || r == Ext4Result::<()>::Err(Ext4Error::IoError) || r
                == Ext4Result::<()>::Err(Ext4Error::ReadOnly),
            r == Ext4Result::<()>::Err(Ext4Error::ReadOnly) ==> old(self).mount_options.read_only,
            r is Ok ==> old(self).spec_inode_geometry_ok(inode.ino) && (exists|img: Seq<u8>|
                {
                    &&& inode::inode_serializes(*inode, img)
                    &&& final(self).device.contents() == old(self).device.contents().update(
                        old(self).spec_inode_block(inode.ino),
                        le::splice_bytes(
                            old(self).device.contents()[old(self).spec_inode_block(inode.ino)],
                            old(self).spec_inode_offset(inode.ino),
                            img.subrange(0, old(self).superblock.inode_size as int),
                        ),
                    )
                }),
    {
        let ino = inode.ino;
        if ino == 0 {
            return Err(Ext4Error::InodeNotFound);
        }
        let ipg = self.superblock.inodes_per_group;
        if ipg == 0 {
            return Err(Ext4Error::InodeNotFound);
        }
        let block_group = (ino - 1) / ipg;
        let index = (ino - 1) % ipg;

        if block_group as usize >= self.block_groups.len() {
            return Err(Ext4Error::InodeNotFound);
        }

        let inode_table_block = self.block_groups[block_group as usize].inode_table;
        let inode_size = self.superblock.inode_size;
        if inode_size == 0 || inode_size > 256 {
            return Err(Ext4Error::InvalidInput);
        }
        let inodes_per_block = self.superblock.block_size / inode_size as u32;
        if inodes_per_block == 0 {
            return Err(Ext4Error::InvalidInput);
        }
        let block_offset = index / inodes_per_block;
        proof {
            let q = (index % inodes_per_block) as int;
            let isz = inode_size as int;
            let bs = self.superblock.block_size as int;
            assert(q * isz + isz <= bs) by (nonlinear_arith)
                requires
                    0 <= q < bs / isz,
                    isz > 0,
                    bs >= 0,
            ;
        }
        let inode_offset = (index % inodes_per_block) * inode_size as u32;

        let table_block: u64 = inode_table_block as u64 + block_offset as u64;
        if table_block > 0xFFFF_FFFFu64 {
            return Err(Ext4Error::InodeNotFound);
        }

        let mut buf = le::zero_vec(self.superblock.block_size as usize);
        match self.read_block(table_block as u32, &mut buf) {
            Ok(()) => (),
            Err(e) => {
                return Err(e);
            },
        }

        let inode_data = inode.to_bytes();
        le::copy_into(&mut buf, inode_offset as usize, inode_data.as_slice(), 0, inode_size as usize);

        let wr = self.write_block(table_block as u32, buf.as_slice());
        match wr {
            Ok(()) => {
                proof {
                    let img = inode_data@;
                    let blk = old(self).spec_inode_block(ino);
                    let off = old(self).spec_inode_offset(ino);
                    let isz = old(self).superblock.inode_size as int;
                    assert(buf@ =~= le::splice_bytes(
                        old(self).device.contents()[blk],
                        off,
                        img.subrange(0, isz),
                    ));
                }
                Ok(())
            },
            Err(e) => Err(e),
        }
    }

    /// Get the superblock
    pub fn superblock(&self) -> (r: &SuperBlock)
        ensures
            *r == self.superblock,
    {
        &self.superblock
    }

    /// Read a block from the filesystem
    pub fn read_block(&mut self, block: u32, buf: &mut Vec<u8>) -> (r: Ext4Result<()>)
        ensures
            Self::same_shape(*old(self), *final(self)),
            final(self).device.contents() == old(self).device.contents(),
            final(buf)@.len() == old(buf)@.len(),
            r == Ext4Result::<()>::Err(Ext4Error::InvalidInput) <==> old(buf)@.len() != old(
                self,
            ).superblock.block_size,
            r is Err ==> r == Ext4Result::<()>::Err(Ext4Error::InvalidInput) || r == Ext4Result::<
                (),
            >::Err(Ext4Error::IoError),
            r is Ok ==> old(buf)@.len() == old(self).superblock.block_size && (block as int) < old(self).device.spec_num_blocks() && (block as int) < old(self).device.contents().len() && final(buf)@ == old(self).device.contents()[block as int],
    {
        if buf.len() != self.superblock.block_size as usize {
            return Err(Ext4Error::InvalidInput);
        }

        match self.device.read_block(block as u64, buf) {
            Ok(()) => Ok(()),
            Err(_) => Err(Ext4Error::IoError),
        }
    }

    /// Write a block to the filesystem
    pub fn write_block(&mut self, block: u32, buf: &[u8]) -> (r: Ext4Result<()>)
        ensures
            Self::same_shape(*old(self), *final(self)),
            r == Ext4Result::<()>::Err(Ext4Error::ReadOnly) <==> old(
                self,
            ).mount_options.read_only,
            !old(self).mount_options.read_only ==> (r == Ext4Result::<()>::Err(
                Ext4Error::InvalidInput,
            ) <==> buf@.len() != old(self).superblock.block_size),
            r is Err ==> r == Ext4Result::<()>::Err(Ext4Error::ReadOnly) || r == Ext4Result::<
                (),
            >::Err(Ext4Error::InvalidInput) || r == Ext4Result::<()>::Err(Ext4Error::IoError),
            r is Ok ==> !old(self).mount_options.read_only && buf@.len() == old(self).superblock.block_size && (block as int) < old(self).device.spec_num_blocks() && (block as int) < old(self).device.contents().len() && final(self).device.contents() == old(self).device.contents().update(block as int, buf@),
            r is Err ==> final(self).device.contents() == old(self).device.contents(),
    {
        if self.mount_options.read_only {
            return Err(Ext4Error::ReadOnly);
        }

        if buf.len() != self.superblock.block_size as usize {
            return Err(Ext4Error::InvalidInput);
        }

        match self.device.write_block(block as u64, buf) {
            Ok(()) => Ok(()),
            Err(_) => Err(Ext4Error::IoError),
        }
    }

    /// Allocate a new block
    pub fn alloc_block(&mut self) -> (r: Ext4Result<u32>)
        ensures
            Self::same_shape(*old(self), *final(self)),
            final(self).device.contents() == old(self).device.contents(),
            old(self).mount_options.read_only ==> r == Ext4Result::<u32>::Err(Ext4Error::ReadOnly),
            r is Err ==> r == Ext4Result::<u32>::Err(Ext4Error::ReadOnly) || r == Ext4Result::<
                u32,
            >::Err(Ext4Error::NoSpaceLeft) || r == Ext4Result::<u32>::Err(Ext4Error::IoError),
            r == Ext4Result::<u32>::Err(Ext4Error::ReadOnly) ==> old(self).mount_options.read_only,
            r is Ok ==> !old(self).mount_options.read_only && (exists|g: int, bit: int|
                #![auto]
                {
                    &&& 0 <= g < old(self).block_groups@.len()
                    &&& old(self).block_groups@[g].free_blocks_count > 0
                    &&& bitmap::spec_first_free(
                        old(self).device.contents()[old(
                            self,
                        ).block_groups@[g].block_bitmap as int],
                        bit,
                    )
                    &&& r.get_Ok_0() == g * old(self).superblock.blocks_per_group + bit
                }),
    {
        if self.mount_options.read_only {
            return Err(Ext4Error::ReadOnly);
        }

        // Simple block allocation - find first free block
        let mut i: usize = 0;
        while i < self.block_groups.len()
            invariant
                Self::same_shape(*old(self), *self),
                self.device.contents() == old(self).device.contents(),
                !old(self).mount_options.read_only,
                0 <= i <= self.block_groups@.len(),
            decreases self.block_groups@.len() - i,
        {
            if self.block_groups[i].free_blocks_count > 0 {
                let block_bitmap = self.block_groups[i].block_bitmap;
                let mut buf = le::zero_vec(self.superblock.block_size as usize);
                match self.read_block(block_bitmap, &mut buf) {
                    Ok(()) => (),
                    Err(e) => {
                        return Err(e);
                    },
                }

                if buf.len() > usize::MAX / 8 {
                    return Err(Ext4Error::NoSpaceLeft);
                }
                let bm = Bitmap::from_bytes(buf.as_slice());
                if let Some(bit) = bm.find_first_free() {
                    proof {
                        bm.lemma_bits_from_bytes(buf@);
                        assert(bitmap::spec_first_free(
                            old(self).device.contents()[old(
                                self,
                            ).block_groups@[i as int].block_bitmap as int],
                            bit as int,
                        ));
                    }
                    if i as u64 > 0xFFFF_FFFFu64 {
                        return Err(Ext4Error::NoSpaceLeft);
                    }
                    proof {
                        let a = i as int;
                        let b = self.superblock.blocks_per_group as int;
                        assert(a * b < 0x1_0000_0000_0000_0000int) by (nonlinear_arith)
                            requires
                                0 <= a < 0x1_0000_0000int,
                                0 <= b < 0x1_0000_0000int,
                        ;
                    }
                    let prod: u64 = (i as u64) * (self.superblock.blocks_per_group as u64);
                    if prod > 0xFFFF_FFFFu64 {
                        return Err(Ext4Error::NoSpaceLeft);
                    }
                    let res: u64 = prod + bit as u64;
                    if res > 0xFFFF_FFFFu64 {
                        return Err(Ext4Error::NoSpaceLeft);
                    }
                    return Ok(res as u32);
                }
            }
            i += 1;
        }

        Err(Ext4Error::NoSpaceLeft)
    }

    /// Allocate a new inode
    pub fn alloc_inode(&mut self) -> (r: Ext4Result<u32>)
        ensures
            Self::same_shape(*old(self), *final(self)),
            final(self).device.contents() == old(self).device.contents(),
            old(self).mount_options.read_only ==> r == Ext4Result::<u32>::Err(Ext4Error::ReadOnly),
            r is Err ==> r == Ext4Result::<u32>::Err(Ext4Error::ReadOnly) || r == Ext4Result::<
                u32,
            >::Err(Ext4Error::NoSpaceLeft) || r == Ext4Result::<u32>::Err(Ext4Error::IoError),
            r == Ext4Result::<u32>::Err(Ext4Error::ReadOnly) ==> old(self).mount_options.read_only,
            r is Ok ==> !old(self).mount_options.read_only && (exists|g: int, bit: int|
                #![auto]
                {
                    &&& 0 <= g < old(self).block_groups@.len()
                    &&& old(self).block_groups@[g].free_inodes_count > 0
                    &&& bitmap::spec_first_free(
                        old(self).device.contents()[old(
                            self,
                        ).block_groups@[g].inode_bitmap as int],
                        bit,
                    )
                    &&& r.get_Ok_0() == g * old(self).superblock.inodes_per_group + bit + 1
                }),
            r is Ok ==> r.get_Ok_0() >= 1,
    {
        if self.mount_options.read_only {
            return Err(Ext4Error::ReadOnly);
        }

        // Simple inode allocation - find first free inode
        let mut i: usize = 0;
        while i < self.block_groups.len()
            invariant
                Self::same_shape(*old(self), *self),
                self.device.contents() == old(self).device.contents(),
                !old(self).mount_options.read_only,
                0 <= i <= self.block_groups@.len(),
            decreases self.block_groups@.len() - i,
        {
            if self.block_groups[i].free_inodes_count > 0 {
                let inode_bitmap = self.block_groups[i].inode_bitmap;
                let mut buf = le::zero_vec(self.superblock.block_size as usize);
                match self.read_block(inode_bitmap, &mut buf) {
                    Ok(()) => (),
                    Err(e) => {
                        return Err(e);
                    },
                }

                if buf.len() > usize::MAX / 8 {
                    return Err(Ext4Error::NoSpaceLeft);
                }
                let bm = Bitmap::from_bytes(buf.as_slice());
                if let Some(bit) = bm.find_first_free() {
                    proof {
                        bm.lemma_bits_from_bytes(buf@);
                        assert(bitmap::spec_first_free(
                            old(self).device.contents()[old(
                                self,
                            ).block_groups@[i as int].inode_bitmap as int],
                            bit as int,
                        ));
                    }
                    if i as u64 > 0xFFFF_FFFFu64 {
                        return Err(Ext4Error::NoSpaceLeft);
                    }
                    proof {
                        let a = i as int;
                        let b = self.superblock.inodes_per_group as int;
                        assert(a * b < 0x1_0000_0000_0000_0000int) by (nonlinear_arith)
                            requires
                                0 <= a < 0x1_0000_0000int,
                                0 <= b < 0x1_0000_0000int,
                        ;
                    }
                    let prod: u64 = (i as u64) * (self.superblock.inodes_per_group as u64);
                    if prod > 0xFFFF_FFFFu64 {
                        return Err(Ext4Error::NoSpaceLeft);
                    }
                    let res: u64 = prod + bit as u64 + 1;
                    if res > 0xFFFF_FFFFu64 {
                        return Err(Ext4Error::NoSpaceLeft);
                    }
                    return Ok(res as u32);
                }
            }
            i += 1;
        }

        Err(Ext4Error::NoSpaceLeft)
    }

    /// The whole data of a directory inode: its logical blocks read in
    /// order and concatenated, sparse blocks skipped.
    fn read_dir_data(&mut self, inode: &Inode) -> (r: Ext4Result<Vec<u8>>)
        requires
            old(self).wf(),
        ensures
            Self::same_shape(*old(self), *final(self)),
            final(self).device.contents() == old(self).device.contents(),
            r is Err ==> r == Ext4Result::<Vec<u8>>::Err(Ext4Error::BlockNotFound) || r
                == Ext4Result::<Vec<u8>>::Err(Ext4Error::InvalidInput) || r == Ext4Result::<
                Vec<u8>,
            >::Err(Ext4Error::IoError),
            r is Ok ==> r.get_Ok_0()@ == spec_dir_data(
                old(self).device.contents(),
                old(self).superblock,
                inode.block@,
                inode.spec_block_count(old(self).superblock.block_size),
            ),
    {
        let block_size = self.superblock.block_size;
        let mut dir_data: Vec<u8> = Vec::new();

        let count = inode.block_count(block_size);
        let mut i: u64 = 0;
        while i < count
            invariant
                self.wf(),
                Self::same_shape(*old(self), *self),
                self.device.contents() == old(self).device.contents(),
                block_size == self.superblock.block_size,
                block_size >= 4,
                0 <= i <= count,
                count == inode.spec_block_count(block_size),
                dir_data@ == spec_dir_data(
                    old(self).device.contents(),
                    old(self).superblock,
                    inode.block@,
                    i as int,
                ),
            decreases count - i,
        {
            if i > u64::MAX / block_size as u64 {
                return Err(Ext4Error::InvalidInput);
            }
            proof {
                assert(i as int * block_size as int <= 0xFFFF_FFFF_FFFF_FFFFint)
                    by (nonlinear_arith)
                    requires
                        0 <= i as int <= 0xFFFF_FFFF_FFFF_FFFFint / (block_size as int),
                        block_size as int >= 1,
                ;
            }
            let block_num = match inode.get_block_number(i * block_size as u64, block_size, self) {
                Ok(b) => b,
                Err(e) => {
                    return Err(e);
                },
            };
            proof {
                assert((i * block_size as u64) as int / block_size as int == i as int)
                    by (nonlinear_arith)
                    requires
                        block_size as int >= 1,
                        (i * block_size as u64) as int == i as int * block_size as int,
                ;
            }
            if block_num == 0 {
                i += 1;
                continue;
            }

            let mut block_buf = le::zero_vec(block_size as usize);
            match self.read_block(block_num, &mut block_buf) {
                Ok(()) => (),
                Err(e) => {
                    return Err(e);
                },
            }
            le::append_bytes(&mut dir_data, block_buf.as_slice());
            i += 1;
        }

        Ok(dir_data)
    }

    /// Read directory entries.
    ///
    /// Every returned entry is live: a nonzero inode number and a
    /// nonempty name.
    pub fn read_dir(&mut self, ino: u32) -> (r: Ext4Result<Vec<DirectoryEntry>>)
        requires
            old(self).wf(),
        ensures
            Self::same_shape(*old(self), *final(self)),
            final(self).device.contents() == old(self).device.contents(),
            r is Err ==> r == Ext4Result::<Vec<DirectoryEntry>>::Err(Ext4Error::InodeNotFound)
                || r == Ext4Result::<Vec<DirectoryEntry>>::Err(Ext4Error::InvalidInput) || r
                == Ext4Result::<Vec<DirectoryEntry>>::Err(Ext4Error::IoError) || r
                == Ext4Result::<Vec<DirectoryEntry>>::Err(Ext4Error::NotADirectory) || r
                == Ext4Result::<Vec<DirectoryEntry>>::Err(Ext4Error::BlockNotFound),
            r is Ok ==> forall|k: int|
                0 <= k < r.get_Ok_0()@.len() ==> (#[trigger] r.get_Ok_0()@[k]).ino != 0
                    && r.get_Ok_0()@[k].name_len > 0,
            r is Ok ==> exists|d: Inode|
                {
                    &&& old(self).spec_inode_geometry_ok(ino)
                    &&& #[trigger] inode::inode_parses(old(self).spec_inode_slice(ino), ino, d)
                    &&& d.mode.bits & inode::IFDIR == inode::IFDIR
                    &&& r.get_Ok_0()@.map_values(|e: DirectoryEntry| e@)
                        == directory::spec_dir_entries(
                        spec_dir_data(
                            old(self).device.contents(),
                            old(self).superblock,
                            d.block@,
                            d.spec_block_count(old(self).superblock.block_size),
                        ),
                        0,
                    )
                },
            r == Ext4Result::<Vec<DirectoryEntry>>::Err(Ext4Error::NotADirectory) ==> exists|
                d: Inode,
            |
                {
                    &&& old(self).spec_inode_geometry_ok(ino)
                    &&& #[trigger] inode::inode_parses(old(self).spec_inode_slice(ino), ino, d)
                    &&& d.mode.bits & inode::IFDIR != inode::IFDIR
                },
    {
        let inode = match self.get_inode(ino) {
            Ok(i) => i,
            Err(e) => {
                return Err(e);
            },
        };
        if !inode.mode.contains(inode::IFDIR) {
            return Err(Ext4Error::NotADirectory);
        }

        let dir_data = match self.read_dir_data(&inode) {
            Ok(d) => d,
            Err(e) => {
                return Err(e);
            },
        };

        let dir = match Directory::from_bytes(dir_data.as_slice()) {
            Ok(d) => d,
            Err(e) => {
                return Err(e);
            },
        };
        proof {
            directory::lemma_dir_entries_live(dir_data@, 0);
        }

        let src = dir.entries();
        let n = src.len();
        let mut out: Vec<DirectoryEntry> = Vec::new();
        let mut i: usize = 0;
        while i < n
            invariant
                n == src@.len(),
                src@.map_values(|e: DirectoryEntry| e@) == directory::spec_dir_entries(
                    dir_data@,
                    0,
                ),
                forall|k: int|
                    0 <= k < directory::spec_dir_entries(dir_data@, 0).len() ==> (
                    #[trigger] directory::spec_dir_entries(dir_data@, 0)[k]).0 != 0
                    && directory::spec_dir_entries(dir_data@, 0)[k].2 > 0,
                0 <= i <= n,
                out@.len() == i,
                forall|k: int| 0 <= k < i ==> (#[trigger] out@[k])@ == src@[k]@,
                forall|k: int|
                    0 <= k < i ==> (#[trigger] out@[k]).ino != 0 && out@[k].name_len > 0,
            decreases n - i,
        {
            let e = src[i].duplicate();
            proof {
                assert(src@.map_values(|e: DirectoryEntry| e@)[i as int] == src@[i as int]@);
            }
            out.push(e);
            i += 1;
        }
        proof {
            assert(out@.map_values(|e: DirectoryEntry| e@) =~= src@.map_values(
                |e: DirectoryEntry| e@,
            ));
        }
        Ok(out)
    }

    /// Find an inode by path.
    ///
    /// The path is split on `/`; each component is looked up by exact
    /// byte-wise name match in the directory reached so far, starting
    /// at the root.
    pub fn find_inode(&mut self, path: &str) -> (r: Ext4Result<Inode>)
        requires
            old(self).wf(),
        ensures
            Self::same_shape(*old(self), *final(self)),
            final(self).device.contents() == old(self).device.contents(),
            r is Ok ==> exists|ino: u32|
                old(self).spec_inode_geometry_ok(ino) && inode::inode_parses(
                    #[trigger] old(self).spec_inode_slice(ino),
                    ino,
                    r.get_Ok_0(),
                ),
    {
        if path.is_empty() || directory::str_eq(path, "/") {
            let r = self.root_inode();
            proof {
                if r is Ok {
                    assert(old(self).spec_inode_geometry_ok(EXT4_ROOT_INO) && inode::inode_parses(
                        old(self).spec_inode_slice(EXT4_ROOT_INO),
                        EXT4_ROOT_INO,
                        r.get_Ok_0(),
                    ));
                }
            }
            return r;
        }

        // Split the path on '/' into its nonempty components
        let bytes = path.as_bytes();
        let n = bytes.len();
        let mut components: Vec<Vec<u8>> = Vec::new();
        let mut start: usize = 0;
        let mut i: usize = 0;
        while i < n
            invariant
                n == bytes.len(),
                0 <= start,
                start <= i,
                i <= n,
            decreases n - i,
        {
            if bytes[i] == 47 {
                if i > start {
                    components.push(le::sub_bytes(bytes, start, i - start));
                }
                start = i + 1;
            }
            i += 1;
        }
        if n > start {
            components.push(le::sub_bytes(bytes, start, n - start));
        }

        let mut current_ino: u32 = EXT4_ROOT_INO;

        let m = components.len();
        let mut c: usize = 0;
        while c < m
            invariant
                self.wf(),
                Self::same_shape(*old(self), *self),
                self.device.contents() == old(self).device.contents(),
                m == components@.len(),
                0 <= c <= m,
            decreases m - c,
        {
            let current_inode = match self.get_inode(current_ino) {
                Ok(inode) => inode,
                Err(e) => {
                    return Err(e);
                },
            };
            if !current_inode.mode.contains(inode::IFDIR) {
                return Err(Ext4Error::NotADirectory);
            }

            // Read directory data and parse its entries
            let dir_data = match self.read_dir_data(&current_inode) {
                Ok(d) => d,
                Err(e) => {
                    return Err(e);
                },
            };
            let dir = match Directory::from_bytes(dir_data.as_slice()) {
                Ok(d) => d,
                Err(e) => {
                    return Err(e);
                },
            };

            let entry = match dir.find_entry_bytes(components[c].as_slice()) {
                Some(e) => e,
                None => {
                    return Err(Ext4Error::InodeNotFound);
                },
            };

            current_ino = entry.ino;
            c += 1;
        }

        let ghost mid = *self;
        let r = self.get_inode(current_ino);
        proof {
            if r is Ok {
                assert(mid.spec_inode_slice(current_ino) == old(self).spec_inode_slice(
                    current_ino,
                ));
                assert(old(self).spec_inode_geometry_ok(current_ino) && inode::inode_parses(
                    old(self).spec_inode_slice(current_ino),
                    current_ino,
                    r.get_Ok_0(),
                ));
            }
        }
        r
    }

    /// Create a new directory.
    ///
    /// Allocates an inode and a data block, populates the block with
    /// the `.` and `..` entries, and inserts an entry into the parent.
    pub fn create_dir(&mut self, parent: u32, name: &str, mode: InodeMode) -> (r: Ext4Result<u32>)
        requires
            old(self).wf(),
        ensures
            Self::same_shape(*old(self), *final(self)),
            old(self).mount_options.read_only ==> r == Ext4Result::<u32>::Err(Ext4Error::ReadOnly)
                && final(self).device.contents() == old(self).device.contents(),
            r is Ok ==> !old(self).mount_options.read_only && r.get_Ok_0() >= 1,
            r == Ext4Result::<u32>::Err(Ext4Error::NotADirectory) ==> exists|d: Inode|
                {
                    &&& old(self).spec_inode_geometry_ok(parent)
                    &&& #[trigger] inode::inode_parses(
                        old(self).spec_inode_slice(parent),
                        parent,
                        d,
                    )
                    &&& d.mode.bits & inode::IFDIR != inode::IFDIR
                },
            r == Ext4Result::<u32>::Err(Ext4Error::FileExists) ==> exists|d: Inode|
                {
                    let es = directory::spec_dir_entries(
                        spec_dir_data(
                            old(self).device.contents(),
                            old(self).superblock,
                            d.block@,
                            d.spec_block_count(old(self).superblock.block_size),
                        ),
                        0,
                    );
                    &&& old(self).spec_inode_geometry_ok(parent)
                    &&& #[trigger] inode::inode_parses(
                        old(self).spec_inode_slice(parent),
                        parent,
                        d,
                    )
                    &&& d.mode.bits & inode::IFDIR == inode::IFDIR
                    &&& exists|k: int| 0 <= k < es.len() && (#[trigger] es[k]).4 == name@
                },
            r is Ok ==> exists|d: Inode|
                {
                    let es = directory::spec_dir_entries(
                        spec_dir_data(
                            old(self).device.contents(),
                            old(self).superblock,
                            d.block@,
                            d.spec_block_count(old(self).superblock.block_size),
                        ),
                        0,
                    );
                    &&& old(self).spec_inode_geometry_ok(parent)
                    &&& #[trigger] inode::inode_parses(
                        old(self).spec_inode_slice(parent),
                        parent,
                        d,
                    )
                    &&& d.mode.bits & inode::IFDIR == inode::IFDIR
                    &&& forall|k: int| 0 <= k < es.len() ==> (#[trigger] es[k]).4 != name@
                },
    {
        if self.mount_options.read_only {
            return Err(Ext4Error::ReadOnly);
        }

        // Check if directory already exists
        let parent_inode = match self.get_inode(parent) {
            Ok(i) => i,
            Err(e) => {
                return Err(e);
            },
        };
        if !parent_inode.mode.contains(inode::IFDIR) {
            return Err(Ext4Error::NotADirectory);
        }

        if self.dir_contains(parent, name)? {
            return Err(Ext4Error::FileExists);
        }

        // Allocate new inode
        let new_ino = match self.alloc_inode() {
            Ok(i) => i,
            Err(e) => {
                return Err(e);
            },
        };
        let mut new_inode = Inode::new(new_ino);
        new_inode.mode = mode.with(inode::IFDIR);  // Set as directory

        // Allocate block for directory
        let block_num = match self.alloc_block() {
            Ok(b) => b,
            Err(e) => {
                return Err(e);
            },
        };

        // Create directory entries (. and ..)
        let mut dir = Directory::new();
        dir.add_entry(
            DirectoryEntry {
                ino: new_ino,
                rec_len: 12,
                name_len: 1,
                file_type: 2,  // Directory
                name: ".".to_owned(),
            },
        );

        dir.add_entry(
            DirectoryEntry {
                ino: parent,
                rec_len: 12,
                name_len: 2,
                file_type: 2,  // Directory
                name: "..".to_owned(),
            },
        );

        // Write directory data
        let dir_data = match dir.to_bytes_with_block_size(self.superblock.block_size) {
            Ok(d) => d,
            Err(e) => {
                return Err(e);
            },
        };
        let mut block_buf = le::zero_vec(self.superblock.block_size as usize);
        if dir_data.len() > block_buf.len() {
            return Err(Ext4Error::InvalidInput);
        }
        le::copy_into(&mut block_buf, 0, dir_data.as_slice(), 0, dir_data.len());
        match self.write_block(block_num, block_buf.as_slice()) {
            Ok(()) => (),
            Err(e) => {
                return Err(e);
            },
        }

        // Update inode
        let mut updated_inode = new_inode;
        updated_inode.block[0] = block_num;
        updated_inode.size = dir_data.len() as u64;
        updated_inode.blocks = 1;

        // Write inode
        match self.write_inode(&updated_inode) {
            Ok(()) => (),
            Err(e) => {
                return Err(e);
            },
        }

        // Add entry to parent directory
        match self.add_dir_entry(parent, new_ino, name, InodeType::Directory) {
            Ok(()) => (),
            Err(e) => {
                return Err(e);
            },
        }

        Ok(new_ino)
    }

    /// Create a new file.
    ///
    /// Allocates an inode, marks it as a regular file with the given
    /// permissions, and inserts an entry into the parent directory.
    pub fn create_file(&mut self, parent: u32, name: &str, mode: InodeMode) -> (r: Ext4Result<u32>)
        requires
            old(self).wf(),
        ensures
            Self::same_shape(*old(self), *final(self)),
            old(self).mount_options.read_only ==> r == Ext4Result::<u32>::Err(Ext4Error::ReadOnly)
                && final(self).device.contents() == old(self).device.contents(),
            r is Ok ==> !old(self).mount_options.read_only && r.get_Ok_0() >= 1,
            r == Ext4Result::<u32>::Err(Ext4Error::NotADirectory) ==> exists|d: Inode|
                {
                    &&& old(self).spec_inode_geometry_ok(parent)
                    &&& #[trigger] inode::inode_parses(
                        old(self).spec_inode_slice(parent),
                        parent,
                        d,
                    )
                    &&& d.mode.bits & inode::IFDIR != inode::IFDIR
                },
            r == Ext4Result::<u32>::Err(Ext4Error::FileExists) ==> exists|d: Inode|
                {
                    let es = directory::spec_dir_entries(
                        spec_dir_data(
                            old(self).device.contents(),
                            old(self).superblock,
                            d.block@,
                            d.spec_block_count(old(self).superblock.block_size),
                        ),
                        0,
                    );
                    &&& old(self).spec_inode_geometry_ok(parent)
                    &&& #[trigger] inode::inode_parses(
                        old(self).spec_inode_slice(parent),
                        parent,
                        d,
                    )
                    &&& d.mode.bits & inode::IFDIR == inode::IFDIR
                    &&& exists|k: int| 0 <= k < es.len() && (#[trigger] es[k]).4 == name@
                },
            r is Ok ==> exists|d: Inode|
                {
                    let es = directory::spec_dir_entries(
                        spec_dir_data(
                            old(self).device.contents(),
                            old(self).superblock,
                            d.block@,
                            d.spec_block_count(old(self).superblock.block_size),
                        ),
                        0,
                    );
                    &&& old(self).spec_inode_geometry_ok(parent)
                    &&& #[trigger] inode::inode_parses(
                        old(self).spec_inode_slice(parent),
                        parent,
                        d,
                    )
                    &&& d.mode.bits & inode::IFDIR == inode::IFDIR
                    &&& forall|k: int| 0 <= k < es.len() ==> (#[trigger] es[k]).4 != name@
                },
    {
        if self.mount_options.read_only {
            return Err(Ext4Error::ReadOnly);
        }

        // Check if file already exists
        let parent_inode = match self.get_inode(parent) {
            Ok(i) => i,
            Err(e) => {
                return Err(e);
            },
        };
        if !parent_inode.mode.contains(inode::IFDIR) {
            return Err(Ext4Error::NotADirectory);
        }

        if self.dir_contains(parent, name)? {
            return Err(Ext4Error::FileExists);
        }

        // Allocate new inode
        let new_ino = match self.alloc_inode() {
            Ok(i) => i,
            Err(e) => {
                return Err(e);
            },
        };
        let mut new_inode = Inode::new(new_ino);
        new_inode.mode = mode.with(inode::IFREG);  // Set as regular file

        // Write inode (no blocks allocated initially for empty file)
        match self.write_inode(&new_inode) {
            Ok(()) => (),
            Err(e) => {
                return Err(e);
            },
        }

        // Add entry to parent directory
        match self.add_dir_entry(parent, new_ino, name, InodeType::File) {
            Ok(()) => (),
            Err(e) => {
                return Err(e);
            },
        }

        Ok(new_ino)
    }

    /// Whether the directory `ino` already has an entry named `name`.
    fn dir_contains(&mut self, ino: u32, name: &str) -> (r: Ext4Result<bool>)
        requires
            old(self).wf(),
        ensures
            Self::same_shape(*old(self), *final(self)),
            final(self).device.contents() == old(self).device.contents(),
            r is Err ==> r == Ext4Result::<bool>::Err(Ext4Error::InodeNotFound) || r
                == Ext4Result::<bool>::Err(Ext4Error::InvalidInput) || r == Ext4Result::<
                bool,
            >::Err(Ext4Error::IoError) || r == Ext4Result::<bool>::Err(Ext4Error::NotADirectory)
                || r == Ext4Result::<bool>::Err(Ext4Error::BlockNotFound),
            r is Ok ==> exists|d: Inode|
                {
                    let es = directory::spec_dir_entries(
                        spec_dir_data(
                            old(self).device.contents(),
                            old(self).superblock,
                            d.block@,
                            d.spec_block_count(old(self).superblock.block_size),
                        ),
                        0,
                    );
                    &&& old(self).spec_inode_geometry_ok(ino)
                    &&& #[trigger] inode::inode_parses(old(self).spec_inode_slice(ino), ino, d)
                    &&& d.mode.bits & inode::IFDIR == inode::IFDIR
                    &&& (r.get_Ok_0() <==> exists|k: int|
                        0 <= k < es.len() && (#[trigger] es[k]).4 == name@)
                },
            r == Ext4Result::<bool>::Err(Ext4Error::NotADirectory) ==> exists|d: Inode|
                {
                    &&& old(self).spec_inode_geometry_ok(ino)
                    &&& #[trigger] inode::inode_parses(old(self).spec_inode_slice(ino), ino, d)
                    &&& d.mode.bits & inode::IFDIR != inode::IFDIR
                },
    {
        let entries = match self.read_dir(ino) {
            Ok(es) => es,
            Err(e) => {
                return Err(e);
            },
        };
        let n = entries.len();
        let mut i: usize = 0;
        let mut found = false;
        while i < n && !found
            invariant
                n == entries@.len(),
                0 <= i <= n,
                found ==> exists|k: int|
                    0 <= k < entries@.len() && (#[trigger] entries@[k]).name@ == name@,
                !found ==> forall|j: int|
                    0 <= j < i ==> (#[trigger] entries@[j]).name@ != name@,
            decreases n - i + (if found {
                0int
            } else {
                1int
            }),
        {
            if directory::str_eq(entries[i].name.as_str(), name) {
                found = true;
            } else {
                i += 1;
            }
        }
        proof {
            let es0 = entries@.map_values(|e: DirectoryEntry| e@);
            if found {
                let k = choose|k: int|
                    0 <= k < entries@.len() && (#[trigger] entries@[k]).name@ == name@;
                assert(es0[k] == entries@[k]@);
                assert(es0[k].4 == name@);
            } else {
                assert forall|k: int| 0 <= k < es0.len() implies (#[trigger] es0[k]).4 != name@ by {
                    assert(es0[k] == entries@[k]@);
                }
            }
        }
        Ok(found)
    }

    /// Add an entry to a directory.
    ///
    /// The directory's data is re-serialised with the new entry
    /// appended; extra blocks are allocated when the entry list grows
    /// past the directory's current blocks.
    fn add_dir_entry(&mut self, dir_ino: u32, ino: u32, name: &str, file_type: InodeType) -> (r:
        Ext4Result<()>)
        requires
            old(self).wf(),
        ensures
            Self::same_shape(*old(self), *final(self)),
            r is Err ==> r != Ext4Result::<()>::Err(Ext4Error::NotADirectory) && r
                != Ext4Result::<()>::Err(Ext4Error::FileExists),
            r == Ext4Result::<()>::Err(Ext4Error::ReadOnly) ==> old(self).mount_options.read_only,
    {
        let dir_inode = match self.get_inode(dir_ino) {
            Ok(i) => i,
            Err(e) => {
                return Err(e);
            },
        };
        let block_size = self.superblock.block_size;

        // Read and parse the directory data
        let dir_data = match self.read_dir_data(&dir_inode) {
            Ok(d) => d,
            Err(e) => {
                return Err(e);
            },
        };
        let mut dir = match Directory::from_bytes(dir_data.as_slice()) {
            Ok(d) => d,
            Err(e) => {
                return Err(e);
            },
        };

        // Add new entry
        let file_type_num: u8 = match file_type {
            InodeType::File => 1,
            InodeType::Directory => 2,
            InodeType::CharDevice => 3,
            InodeType::BlockDevice => 4,
            InodeType::Fifo => 5,
            InodeType::Socket => 6,
            InodeType::SymLink => 7,
        };

        let name_bytes_len = name.len();
        dir.add_entry(
            DirectoryEntry {
                ino,
                rec_len: #[verifier::truncate] ((8 + name_bytes_len as u128) as u16),
                name_len: #[verifier::truncate] (name_bytes_len as u8),
                file_type: file_type_num,
                name: name.to_owned(),
            },
        );

        // Write back directory data
        let new_dir_data = match dir.to_bytes_with_block_size(block_size) {
            Ok(d) => d,
            Err(e) => {
                return Err(e);
            },
        };
        let data_len = new_dir_data.len() as u64;
        let required_blocks: u64 = {
            let q = data_len / block_size as u64;
            let rem = data_len % block_size as u64;
            proof {
                assert(data_len as int / (block_size as int) < 0xFFFF_FFFF_FFFF_FFFFint)
                    by (nonlinear_arith)
                    requires
                        0 <= data_len as int <= 0xFFFF_FFFF_FFFF_FFFFint,
                        block_size as int >= 2,
                ;
            }
            if rem == 0 {
                q
            } else {
                q + 1
            }
        };
        let current_blocks = dir_inode.block_count(block_size);

        let mut updated_inode = dir_inode;

        // Allocate more blocks if needed
        if required_blocks > current_blocks {
            let mut i: u64 = current_blocks;
            while i < required_blocks
                invariant
                    self.wf(),
                    Self::same_shape(*old(self), *self),
                    block_size == self.superblock.block_size,
                    block_size >= 4,
                    updated_inode.ino == dir_ino,
                decreases required_blocks - i,
            {
                let new_block = match self.alloc_block() {
                    Ok(b) => b,
                    Err(e) => {
                        return Err(e);
                    },
                };
                match updated_inode.set_block(i, new_block, block_size, self) {
                    Ok(()) => (),
                    Err(e) => {
                        return Err(e);
                    },
                }
                i += 1;
            }
        }

        // Write directory data to blocks
        let mut i: u64 = 0;
        let mut written: usize = 0;
        while i < required_blocks
            invariant
                self.wf(),
                Self::same_shape(*old(self), *self),
                block_size == self.superblock.block_size,
                block_size >= 4,
                updated_inode.ino == dir_ino,
                i <= required_blocks,
                data_len == new_dir_data@.len(),
                written <= data_len,
            decreases required_blocks - i,
        {
            if i > u64::MAX / block_size as u64 {
                return Err(Ext4Error::InvalidInput);
            }
            proof {
                assert(i as int * block_size as int <= 0xFFFF_FFFF_FFFF_FFFFint)
                    by (nonlinear_arith)
                    requires
                        0 <= i as int <= 0xFFFF_FFFF_FFFF_FFFFint / (block_size as int),
                        block_size as int >= 1,
                ;
            }
            let block_num = match updated_inode.get_block_number(
                i * block_size as u64,
                block_size,
                self,
            ) {
                Ok(b) => b,
                Err(e) => {
                    return Err(e);
                },
            };

            if block_num == 0 {
                return Err(Ext4Error::BlockNotFound);
            }

            let chunk_len: usize = if new_dir_data.len() - written < block_size as usize {
                new_dir_data.len() - written
            } else {
                block_size as usize
            };
            let mut block_buf = le::zero_vec(block_size as usize);
            le::copy_into(&mut block_buf, 0, new_dir_data.as_slice(), written, chunk_len);
            match self.write_block(block_num, block_buf.as_slice()) {
                Ok(()) => (),
                Err(e) => {
                    return Err(e);
                },
            }

            written = written + chunk_len;
            i += 1;
        }

        // Update directory inode size and write it back
        updated_inode.size = data_len;
        updated_inode.blocks = required_blocks;
        match self.write_inode(&updated_inode) {
            Ok(()) => (),
            Err(e) => {
                return Err(e);
            },
        }

        Ok(())
    }

    /// Get filesystem statistics
    pub fn stats(&self) -> (r: Ext4Result<FilesystemStats>)
        ensures
            r is Ok,
            r.get_Ok_0().block_size == self.superblock.block_size,
            r.get_Ok_0().total_blocks == self.superblock.blocks_count,
            r.get_Ok_0().free_blocks == self.superblock.free_blocks_count,
            r.get_Ok_0().total_inodes == self.superblock.inodes_count,
            r.get_Ok_0().free_inodes == self.superblock.free_inodes_count,
    {
        Ok(
            FilesystemStats {
                block_size: self.superblock.block_size,
                total_blocks: self.superblock.blocks_count,
                free_blocks: self.superblock.free_blocks_count,
                total_inodes: self.superblock.inodes_count as u64,
                free_inodes: self.superblock.free_inodes_count as u64,
            },
        )
    }
}

} // verus!
