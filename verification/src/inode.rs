//! The ext4 inode: parsing, serialisation, mode bits and type queries.

use vstd::prelude::*;

use crate::device::BlockDevice;
use crate::le::{le16, le32, read_u16, read_u32, write_u16, write_u32, zero_vec};
use crate::superblock::SuperBlock;
use crate::{Ext4Error, Ext4FileSystem, Ext4Result};

verus! {

/// File type nibble and permission masks of the inode `mode` field.
pub const IFMT: u16 = 0xF000;

pub const IFIFO: u16 = 0x1000;

pub const IFCHR: u16 = 0x2000;

pub const IFDIR: u16 = 0x4000;

pub const IFBLK: u16 = 0x6000;

pub const IFREG: u16 = 0x8000;

pub const IFLNK: u16 = 0xA000;

pub const IFSOCK: u16 = 0xC000;

pub const ISUID: u16 = 0x0800;

pub const ISGID: u16 = 0x0400;

pub const ISVTX: u16 = 0x0200;

pub const IRUSR: u16 = 0x0100;

pub const IWUSR: u16 = 0x0080;

pub const IXUSR: u16 = 0x0040;

pub const IRGRP: u16 = 0x0020;

pub const IWGRP: u16 = 0x0010;

pub const IXGRP: u16 = 0x0008;

pub const IROTH: u16 = 0x0004;

pub const IWOTH: u16 = 0x0002;

pub const IXOTH: u16 = 0x0001;

/// Mode of a freshly created regular file: owner read/write, group and world read.
pub const DEFAULT_FILE_MODE: u16 = IFREG | IRUSR | IWUSR | IRGRP | IROTH;

/// Mode of a freshly created directory: owner read/write/search, group and world read/search.
pub const DEFAULT_DIR_MODE: u16 = IFDIR | IRUSR | IWUSR | IXUSR | IRGRP | IXGRP | IROTH | IXOTH;

/// Inode mode: the type nibble combined with the permission bits.
#[derive(Debug, Clone, Copy, PartialEq, Eq, Structural)]
pub struct InodeMode {
    pub bits: u16,
}

impl InodeMode {
    /// The mode with exactly the given bits.
    pub fn new(bits: u16) -> (r: Self)
        ensures
            r.bits == bits,
    {
        Self { bits }
    }

    /// The raw bits.
    pub fn bits(&self) -> (r: u16)
        ensures
            r == self.bits,
    {
        self.bits
    }

    /// Whether every bit of `mask` is set.
    pub fn contains(&self, mask: u16) -> (r: bool)
        ensures
            r == (self.bits & mask == mask),
    {
        self.bits & mask == mask
    }

    /// The mode with the bits of `mask` added.
    pub fn with(&self, mask: u16) -> (r: Self)
        ensures
            r.bits == self.bits | mask,
    {
        Self { bits: self.bits | mask }
    }

    /// Adds the bits of `mask`.
    pub fn insert(&mut self, mask: u16)
        ensures
            final(self).bits == old(self).bits | mask,
    {
        self.bits = self.bits | mask;
    }
}

/// Inode types
#[derive(Debug, Clone, Copy, PartialEq, Eq, Structural)]
pub enum InodeType {
    File,
    Directory,
    CharDevice,
    BlockDevice,
    Fifo,
    Socket,
    SymLink,
}

/// Ext4 inode structure
#[derive(Debug, Clone, Copy)]
pub struct Inode {
    /// Inode number
    pub ino: u32,
    /// File mode
    pub mode: InodeMode,
    /// User ID
    pub uid: u16,
    /// File size
    pub size: u64,
    /// Access time
    pub atime: u32,
    /// Creation time
    pub ctime: u32,
    /// Modification time
    pub mtime: u32,
    /// Deletion time
    pub dtime: u32,
    /// Group ID
    pub gid: u16,
    /// Links count
    pub links_count: u16,
    /// Blocks count
    pub blocks: u64,
    /// File flags
    pub flags: u32,
    /// Version (used for NFS)
    pub version: u32,
    /// File ACL
    pub file_acl: u32,
    /// Directory ACL or upper 16 bits of file size for large files
    pub dir_acl: u32,
    /// Fragment address
    pub faddr: u32,
    /// Direct block pointers
    pub block: [u32; 15],
    /// Generation number
    pub generation: u32,
    /// Extended attribute block
    pub faddr_ext: u32,
    /// File ACL (high 32 bits)
    pub file_acl_high: u32,
    /// Upper 32 bits of size if needed
    pub size_high: u32,
    /// Obsoleted fragment address
    pub obso_faddr: u32,
    /// Extra inode size
    pub extra_isize: u16,
    /// Checksum
    pub checksum: u16,
    /// Extra timestamps
    pub ctime_extra: u32,
    pub mtime_extra: u32,
    pub atime_extra: u32,
    /// Crtime (creation time)
    pub crtime: u32,
    /// Crtime extra
    pub crtime_extra: u32,
    /// Project ID
    pub projid: u32,
}

/// `d` holds exactly the fields encoded in the inode image `data`
/// (at least 128 bytes; the revision-1 tails are decoded when the
/// image is long enough, and are zero otherwise).
pub open spec fn inode_parses(data: Seq<u8>, ino: u32, d: Inode) -> bool {
    &&& d.ino == ino
    &&& d.mode.bits == le16(data, 0)
    &&& d.uid == le16(data, 2)
    &&& d.size == (if data.len() >= 156 {
        le32(data, 140)
    } else {
        0int
    }) * 0x1_0000_0000 + le32(data, 4)
    &&& d.atime == le32(data, 8)
    &&& d.ctime == le32(data, 12)
    &&& d.mtime == le32(data, 16)
    &&& d.dtime == le32(data, 20)
    &&& d.gid == le16(data, 24)
    &&& d.links_count == le16(data, 26)
    &&& d.blocks == le32(data, 28)
    &&& d.flags == le32(data, 32)
    &&& d.version == le32(data, 36)
    &&& forall|k: int| 0 <= k < 15 ==> d.block@[k] == le32(data, 40 + 4 * k)
    &&& d.generation == le32(data, 100)
    &&& d.file_acl == le32(data, 104)
    &&& d.dir_acl == le32(data, 108)
    &&& d.faddr == le32(data, 112)
    &&& d.extra_isize == le16(data, 116)
    &&& d.checksum == le16(data, 118)
    &&& if data.len() >= 156 {
        &&& d.ctime_extra == le32(data, 120)
        &&& d.mtime_extra == le32(data, 124)
        &&& d.atime_extra == le32(data, 128)
        &&& d.crtime == le32(data, 132)
        &&& d.crtime_extra == le32(data, 136)
        &&& d.size_high == le32(data, 140)
        &&& d.file_acl_high == le32(data, 144)
        &&& d.obso_faddr == le32(data, 148)
    } else {
        &&& d.ctime_extra == 0
        &&& d.mtime_extra == 0
        &&& d.atime_extra == 0
        &&& d.crtime == 0
        &&& d.crtime_extra == 0
        &&& d.size_high == 0
        &&& d.file_acl_high == 0
        &&& d.obso_faddr == 0
    }
    &&& if data.len() >= 160 {
        &&& d.projid == le32(data, 152)
        &&& d.faddr_ext == le32(data, 156)
    } else {
        &&& d.projid == 0
        &&& d.faddr_ext == 0
    }
}

/// `data` is the 256-byte serialised image of `d`: every stored field
/// stands little-endian at its ext4 offset, and the tail past offset
/// 152 is zero.
pub open spec fn inode_serializes(d: Inode, data: Seq<u8>) -> bool {
    &&& data.len() == 256
    &&& le16(data, 0) == d.mode.bits
    &&& le16(data, 2) == d.uid
    &&& le32(data, 4) == d.size as u32
    &&& le32(data, 8) == d.atime
    &&& le32(data, 12) == d.ctime
    &&& le32(data, 16) == d.mtime
    &&& le32(data, 20) == d.dtime
    &&& le16(data, 24) == d.gid
    &&& le16(data, 26) == d.links_count
    &&& le32(data, 28) == d.blocks as u32
    &&& le32(data, 32) == d.flags
    &&& le32(data, 36) == d.version
    &&& forall|k: int| 0 <= k < 15 ==> le32(data, 40 + 4 * k) == d.block@[k]
    &&& le32(data, 100) == d.generation
    &&& le32(data, 104) == d.file_acl
    &&& le32(data, 108) == d.dir_acl
    &&& le32(data, 112) == d.faddr
    &&& le16(data, 116) == d.extra_isize
    &&& le16(data, 118) == d.checksum
    &&& le32(data, 120) == d.ctime_extra
    &&& le32(data, 124) == d.mtime_extra
    &&& le32(data, 128) == d.atime_extra
    &&& le32(data, 132) == d.crtime
    &&& le32(data, 136) == d.crtime_extra
    &&& le32(data, 140) == d.size_high
    &&& le32(data, 144) == d.file_acl_high
    &&& le32(data, 148) == d.obso_faddr
    &&& forall|i: int| 152 <= i < 256 ==> data[i] == 0u8
}

/// Serialising an inode is inverted by parsing: an image written by
/// [`Inode::to_bytes`] parses back to the same inode, for inodes whose
/// size and block count fit the 32-bit on-disk fields and whose fields
/// past the written image are zero.
pub proof fn lemma_inode_serialize_parse(d: Inode, data: Seq<u8>)
    requires
        inode_serializes(d, data),
        d.size < 0x1_0000_0000,
        d.size_high == 0,
        d.blocks < 0x1_0000_0000,
        d.projid == 0,
        d.faddr_ext == 0,
    ensures
        inode_parses(data, d.ino, d),
{
    assert(le32(data, 152) == 0);
    assert(le32(data, 156) == 0);
}

/// A produced block number validated against the filesystem size:
/// zero or out-of-range pointers read as sparse (0).
pub open spec fn spec_validated(b: u32, blocks_count: u64) -> u32 {
    if b == 0 || b as u64 >= blocks_count {
        0u32
    } else {
        b
    }
}

/// The 32-bit pointer at slot `idx` of the indirect block `blk`.
pub open spec fn spec_ptr(contents: Seq<Seq<u8>>, blk: u32, idx: int) -> u32 {
    le32(contents[blk as int], 4 * idx) as u32
}

/// The physical block the traditional (12 direct + 3 indirect) scheme
/// maps logical block `li` to, reading indirect blocks from `contents`.
/// A zero pointer at any level gives 0 (a sparse block).
pub open spec fn spec_trad_lookup(
    block: Seq<u32>,
    li: int,
    bs: int,
    contents: Seq<Seq<u8>>,
    blocks_count: u64,
) -> u32
    recommends
        bs >= 4,
        li >= 0,
{
    let ppb = bs / 4;
    if li < 12 {
        spec_validated(block[li], blocks_count)
    } else if li < 12 + ppb {
        if block[12] == 0 {
            0u32
        } else {
            spec_validated(spec_ptr(contents, block[12], li - 12), blocks_count)
        }
    } else if li - 12 - ppb < ppb * ppb {
        let d = li - 12 - ppb;
        let l1 = d / ppb;
        let l2 = d % ppb;
        if block[13] == 0 {
            0u32
        } else {
            let ind = spec_ptr(contents, block[13], l1);
            if ind == 0 {
                0u32
            } else {
                spec_validated(spec_ptr(contents, ind, l2), blocks_count)
            }
        }
    } else {
        let t = li - 12 - ppb - ppb * ppb;
        let l1 = t / (ppb * ppb);
        let rem = t % (ppb * ppb);
        let l2 = rem / ppb;
        let l3 = rem % ppb;
        if block[14] == 0 {
            0u32
        } else {
            let ind = spec_ptr(contents, block[14], l1);
            if ind == 0 {
                0u32
            } else {
                let dind = spec_ptr(contents, ind, l2);
                if dind == 0 {
                    0u32
                } else {
                    spec_validated(spec_ptr(contents, dind, l3), blocks_count)
                }
            }
        }
    }
}

/// The block that logical block `li` maps to under the scheme the
/// superblock selects: the extent tree when the extents feature is on,
/// the traditional scheme otherwise (where the answer always exists,
/// sparse blocks reading as 0). `None` stands for an unmapped logical
/// block, a malformed extent node, or a tree deeper than the search
/// follows.
pub open spec fn spec_block_lookup(
    sb: SuperBlock,
    iblock: Seq<u32>,
    li: int,
    bs: int,
    contents: Seq<Seq<u8>>,
) -> Option<u32> {
    if sb.feature_incompat & 0x0040 != 0 {
        let logical = (li % 0x1_0000_0000) as u32;
        if (iblock[0] & 0xFFFF) == 0xF30A {
            crate::extent::spec_inline_extent_lookup(iblock, logical)
        } else if iblock[0] == 0 {
            None
        } else {
            crate::extent::spec_node_lookup(
                contents,
                iblock[0],
                logical,
                crate::extent::EXTENT_DEPTH_LIMIT as nat,
            )
        }
    } else {
        Some(spec_trad_lookup(iblock, li, bs, contents, sb.blocks_count))
    }
}

/// `b` agrees with `a` on every field but the block pointer array.
pub open spec fn inode_same_but_block(a: Inode, b: Inode) -> bool {
    &&& b.ino == a.ino
    &&& b.mode == a.mode
    &&& b.uid == a.uid
    &&& b.size == a.size
    &&& b.atime == a.atime
    &&& b.ctime == a.ctime
    &&& b.mtime == a.mtime
    &&& b.dtime == a.dtime
    &&& b.gid == a.gid
    &&& b.links_count == a.links_count
    &&& b.blocks == a.blocks
    &&& b.flags == a.flags
    &&& b.version == a.version
    &&& b.file_acl == a.file_acl
    &&& b.dir_acl == a.dir_acl
    &&& b.faddr == a.faddr
    &&& b.generation == a.generation
    &&& b.faddr_ext == a.faddr_ext
    &&& b.file_acl_high == a.file_acl_high
    &&& b.size_high == a.size_high
    &&& b.obso_faddr == a.obso_faddr
    &&& b.extra_isize == a.extra_isize
    &&& b.checksum == a.checksum
    &&& b.ctime_extra == a.ctime_extra
    &&& b.mtime_extra == a.mtime_extra
    &&& b.atime_extra == a.atime_extra
    &&& b.crtime == a.crtime
    &&& b.crtime_extra == a.crtime_extra
    &&& b.projid == a.projid
}

impl Inode {
    /// Parse inode from bytes
    #[verifier::rlimit(50)]
    pub fn from_bytes(data: &[u8], ino: u32) -> (r: Ext4Result<Self>)
        ensures
            data.len() < 128 ==> r == Ext4Result::<Self>::Err(Ext4Error::InvalidInput),
            data.len() >= 128 ==> r is Ok && inode_parses(data@, ino, r.unwrap()),
    {
        if data.len() < 128 {
            return Err(Ext4Error::InvalidInput);
        }

        let mode = read_u16(data, 0);
        let uid = read_u16(data, 2);
        let size_lo = read_u32(data, 4);
        let atime = read_u32(data, 8);
        let ctime = read_u32(data, 12);
        let mtime = read_u32(data, 16);
        let dtime = read_u32(data, 20);
        let gid = read_u16(data, 24);
        let links_count = read_u16(data, 26);
        let blocks_lo = read_u32(data, 28);
        let flags = read_u32(data, 32);
        let version = read_u32(data, 36);

        let mut block = [0u32; 15];
        let mut i: usize = 0;
        while i < 15
            invariant
                0 <= i <= 15,
                data.len() >= 128,
                forall|k: int| 0 <= k < i ==> block@[k] == le32(data@, 40 + 4 * k),
            decreases 15 - i,
        {
            block[i] = read_u32(data, 40 + 4 * i);
            i += 1;
        }

        let generation = read_u32(data, 100);
        let file_acl = read_u32(data, 104);
        let dir_acl = read_u32(data, 108);
        let faddr = read_u32(data, 112);

        let extra_isize = read_u16(data, 116);
        let checksum = read_u16(data, 118);

        let mut ctime_extra: u32 = 0;
        let mut mtime_extra: u32 = 0;
        let mut atime_extra: u32 = 0;
        let mut crtime: u32 = 0;
        let mut crtime_extra: u32 = 0;
        let mut size_high: u32 = 0;
        let mut file_acl_high: u32 = 0;
        let mut obso_faddr: u32 = 0;
        let mut projid: u32 = 0;
        let mut faddr_ext: u32 = 0;

        if data.len() >= 156 {
            ctime_extra = read_u32(data, 120);
            mtime_extra = read_u32(data, 124);
            atime_extra = read_u32(data, 128);
            crtime = read_u32(data, 132);
            crtime_extra = read_u32(data, 136);
            size_high = read_u32(data, 140);
            file_acl_high = read_u32(data, 144);
            obso_faddr = read_u32(data, 148);

            if data.len() >= 160 {
                projid = read_u32(data, 152);
                faddr_ext = read_u32(data, 156);
            }
        }

        // Combine high and low parts for 64-bit values; the on-disk
        // `blocks` field is 32-bit.
        let size = (size_high as u64) * 0x1_0000_0000 + (size_lo as u64);
        let blocks = blocks_lo as u64;

        Ok(Self {
            ino,
            mode: InodeMode { bits: mode },
            uid,
            size,
            atime,
            ctime,
            mtime,
            dtime,
            gid,
            links_count,
            blocks,
            flags,
            version,
            file_acl,
            dir_acl,
            faddr,
            block,
            generation,
            faddr_ext,
            file_acl_high,
            size_high,
            obso_faddr,
            extra_isize,
            checksum,
            ctime_extra,
            mtime_extra,
            atime_extra,
            crtime,
            crtime_extra,
            projid,
        })
    }

    /// The type encoded in the mode's type nibble; unknown nibbles count as files.
    pub open spec fn spec_inode_type(&self) -> InodeType {
        let t = self.mode.bits & IFMT;
        if t == IFDIR {
            InodeType::Directory
        } else if t == IFCHR {
            InodeType::CharDevice
        } else if t == IFBLK {
            InodeType::BlockDevice
        } else if t == IFREG {
            InodeType::File
        } else if t == IFIFO {
            InodeType::Fifo
        } else if t == IFSOCK {
            InodeType::Socket
        } else if t == IFLNK {
            InodeType::SymLink
        } else {
            InodeType::File
        }
    }

    /// Get inode type
    pub fn inode_type(&self) -> (r: InodeType)
        ensures
            r == self.spec_inode_type(),
    {
        let mode_type = self.mode.bits & IFMT;
        if mode_type == IFDIR {
            InodeType::Directory
        } else if mode_type == IFCHR {
            InodeType::CharDevice
        } else if mode_type == IFBLK {
            InodeType::BlockDevice
        } else if mode_type == IFREG {
            InodeType::File
        } else if mode_type == IFIFO {
            InodeType::Fifo
        } else if mode_type == IFSOCK {
            InodeType::Socket
        } else if mode_type == IFLNK {
            InodeType::SymLink
        } else {
            InodeType::File
        }
    }

    /// Check if this is a directory
    pub fn is_dir(&self) -> (r: bool)
        ensures
            r == (self.spec_inode_type() == InodeType::Directory),
    {
        matches!(self.inode_type(), InodeType::Directory)
    }

    /// Check if this is a regular file
    pub fn is_file(&self) -> (r: bool)
        ensures
            r == (self.spec_inode_type() == InodeType::File),
    {
        matches!(self.inode_type(), InodeType::File)
    }

    /// Check if this is a symbolic link
    pub fn is_symlink(&self) -> (r: bool)
        ensures
            r == (self.spec_inode_type() == InodeType::SymLink),
    {
        matches!(self.inode_type(), InodeType::SymLink)
    }

    /// Get file permissions
    pub fn permissions(&self) -> (r: u16)
        ensures
            r == self.mode.bits & (IRUSR | IWUSR | IXUSR | IRGRP | IWGRP | IXGRP | IROTH | IWOTH
                | IXOTH),
    {
        self.mode.bits & (IRUSR | IWUSR | IXUSR | IRGRP | IWGRP | IXGRP | IROTH | IWOTH | IXOTH)
    }

    /// The number of `block_size`-sized blocks the inode's size covers.
    pub open spec fn spec_block_count(&self, block_size: u32) -> int {
        (self.size + block_size - 1) as int / block_size as int
    }

    /// Get the number of blocks this inode uses
    pub fn block_count(&self, block_size: u32) -> (r: u64)
        requires
            block_size > 0,
        ensures
            r == self.spec_block_count(block_size),
    {
        let q = self.size / block_size as u64;
        let rem = self.size % block_size as u64;
        let r = if rem == 0 {
            q
        } else {
            proof {
                let a = self.size as int;
                let b = block_size as int;
                assert(b != 1) by {
                    assert(a % 1int == 0);
                }
                assert(a / b < 0xFFFF_FFFF_FFFF_FFFFint) by (nonlinear_arith)
                    requires
                        0 <= a <= 0xFFFF_FFFF_FFFF_FFFFint,
                        b >= 2,
                ;
            }
            q + 1
        };
        proof {
            let a = self.size as int;
            let b = block_size as int;
            assert((a + b - 1) / b == a / b + (if a % b == 0 {
                0int
            } else {
                1int
            })) by (nonlinear_arith)
                requires
                    a >= 0,
                    b > 0,
            ;
        }
        r
    }

    /// Create a new inode with default values
    pub fn new(ino: u32) -> (r: Self)
        ensures
            r.ino == ino,
            r.mode.bits == IFREG,
            r.uid == 0,
            r.size == 0,
            r.atime == 0,
            r.ctime == 0,
            r.mtime == 0,
            r.dtime == 0,
            r.gid == 0,
            r.links_count == 1,
            r.blocks == 0,
            r.flags == 0,
            r.version == 0,
            r.file_acl == 0,
            r.dir_acl == 0,
            r.faddr == 0,
            forall|k: int| 0 <= k < 15 ==> r.block@[k] == 0,
            r.generation == 0,
            r.faddr_ext == 0,
            r.file_acl_high == 0,
            r.size_high == 0,
            r.obso_faddr == 0,
            r.extra_isize == 0,
            r.checksum == 0,
            r.ctime_extra == 0,
            r.mtime_extra == 0,
            r.atime_extra == 0,
            r.crtime == 0,
            r.crtime_extra == 0,
            r.projid == 0,
    {
        Self {
            ino,
            mode: InodeMode { bits: IFREG },
            uid: 0,
            size: 0,
            atime: 0,
            ctime: 0,
            mtime: 0,
            dtime: 0,
            gid: 0,
            links_count: 1,
            blocks: 0,
            flags: 0,
            version: 0,
            file_acl: 0,
            dir_acl: 0,
            faddr: 0,
            block: [0; 15],
            generation: 0,
            faddr_ext: 0,
            file_acl_high: 0,
            size_high: 0,
            obso_faddr: 0,
            extra_isize: 0,
            checksum: 0,
            ctime_extra: 0,
            mtime_extra: 0,
            atime_extra: 0,
            crtime: 0,
            crtime_extra: 0,
            projid: 0,
        }
    }

    /// Create a new directory inode
    pub fn new_directory(ino: u32, mode: InodeMode) -> (r: Self)
        ensures
            r.ino == ino,
            r.mode.bits == mode.bits | IFDIR,
            r.links_count == 2,
            r.size == 0,
            r.blocks == 0,
            forall|k: int| 0 <= k < 15 ==> r.block@[k] == 0,
    {
        let mut inode = Self::new(ino);
        inode.mode = mode;
        inode.mode.insert(IFDIR);
        inode.links_count = 2;  // `.` and `..`
        inode
    }

    /// Get block number for a given file offset.
    ///
    /// With the extents feature the inode's block array encodes an
    /// extent tree; otherwise the traditional direct/indirect scheme
    /// applies, and every produced block number is validated against
    /// the filesystem's block count (out of range reads as sparse).
    pub fn get_block_number<D: BlockDevice>(
        &self,
        offset: u64,
        block_size: u32,
        fs: &mut Ext4FileSystem<D>,
    ) -> (r: Ext4Result<u32>)
        requires
            block_size >= 4,
        ensures
            Ext4FileSystem::<D>::same_shape(*old(fs), *final(fs)),
            final(fs).device.contents() == old(fs).device.contents(),
            ({
                let li = offset as int / block_size as int;
                let logical = (li % 0x1_0000_0000) as u32;
                let extents_on = old(fs).superblock.feature_incompat & 0x0040 != 0;
                &&& (!extents_on && r is Ok) ==> r.get_Ok_0() == spec_trad_lookup(
                    self.block@,
                    li,
                    block_size as int,
                    old(fs).device.contents(),
                    old(fs).superblock.blocks_count,
                )
                &&& (extents_on && (self.block@[0] & 0xFFFF) == 0xF30A) ==> r == (
                match crate::extent::spec_inline_extent_lookup(self.block@, logical) {
                    Some(b) => Ext4Result::<u32>::Ok(b),
                    None => Ext4Result::<u32>::Err(Ext4Error::BlockNotFound),
                })
                &&& (extents_on && (self.block@[0] & 0xFFFF) != 0xF30A && self.block@[0] == 0)
                    ==> r == Ext4Result::<u32>::Err(Ext4Error::BlockNotFound)
                &&& (extents_on && (self.block@[0] & 0xFFFF) != 0xF30A && self.block@[0] != 0
                    && r is Ok) ==> crate::extent::spec_node_lookup(
                    old(fs).device.contents(),
                    self.block@[0],
                    logical,
                    crate::extent::EXTENT_DEPTH_LIMIT as nat,
                ) == Some(r.get_Ok_0())
                &&& (!extents_on && li < 12) ==> r is Ok
                &&& r is Err ==> r == Ext4Result::<u32>::Err(Ext4Error::BlockNotFound) || r
                    == Ext4Result::<u32>::Err(Ext4Error::InvalidInput) || r == Ext4Result::<
                    u32,
                >::Err(Ext4Error::IoError)
                &&& r is Ok ==> spec_block_lookup(
                    old(fs).superblock,
                    self.block@,
                    li,
                    block_size as int,
                    old(fs).device.contents(),
                ) == Some(r.get_Ok_0())
            }),
    {
        let block_index = offset / block_size as u64;

        // Check if filesystem uses extents
        if fs.superblock.feature_incompat & 0x0040 != 0 {
            // Extents incompatible feature - use extent tree
            let logical = (block_index % 0x1_0000_0000) as u32;
            crate::extent::find_block_in_extent_tree(fs, &self.block, logical)
        } else {
            // Traditional block mapping
            let ppb: u64 = (block_size / 4) as u64;
            proof {
                assert(ppb * ppb < 0x1_0000_0000_0000_0000int) by (nonlinear_arith)
                    requires
                        0 <= ppb < 0x1_0000_0000int,
                ;
                assert(ppb * ppb >= 1) by (nonlinear_arith)
                    requires
                        ppb >= 1,
                ;
            }
            let ppb2: u64 = ppb * ppb;
            if block_index < 12 {
                // Direct block
                let block_num = self.block[block_index as usize];
                // Validate block number
                if block_num == 0 || block_num as u64 >= fs.superblock.blocks_count {
                    return Ok(0);
                }
                Ok(block_num)
            } else if block_index < 12 + ppb {
                // Singly indirect block
                let indirect_index = block_index - 12;
                if self.block[12] == 0 {
                    return Ok(0);
                }
                let block_num = match self.get_indirect_block(
                    self.block[12],
                    indirect_index as u32,
                    block_size,
                    fs,
                ) {
                    Ok(b) => b,
                    Err(e) => {
                        return Err(e);
                    },
                };
                // Validate block number
                if block_num == 0 || block_num as u64 >= fs.superblock.blocks_count {
                    return Ok(0);
                }
                Ok(block_num)
            } else if block_index - 12 - ppb < ppb2 {
                // Doubly indirect block
                let doubly_index = block_index - 12 - ppb;
                let first_level = doubly_index / ppb;
                let second_level = doubly_index % ppb;
                proof {
                    assert((doubly_index as int) / (ppb as int) < (ppb as int)) by (nonlinear_arith)
                        requires
                            0 <= (doubly_index as int) < (ppb as int) * (ppb as int),
                            ppb as int > 0,
                    ;
                }

                if self.block[13] == 0 {
                    return Ok(0);
                }

                let indirect_block = match self.get_indirect_block(
                    self.block[13],
                    first_level as u32,
                    block_size,
                    fs,
                ) {
                    Ok(b) => b,
                    Err(e) => {
                        return Err(e);
                    },
                };
                if indirect_block == 0 {
                    return Ok(0);
                }

                let block_num = match self.get_indirect_block(
                    indirect_block,
                    second_level as u32,
                    block_size,
                    fs,
                ) {
                    Ok(b) => b,
                    Err(e) => {
                        return Err(e);
                    },
                };
                // Validate block number
                if block_num == 0 || block_num as u64 >= fs.superblock.blocks_count {
                    return Ok(0);
                }
                Ok(block_num)
            } else {
                // Triply indirect block
                let triply_index = block_index - 12 - ppb - ppb2;
                let first_level = triply_index / ppb2;
                let remaining = triply_index % ppb2;
                let second_level = remaining / ppb;
                let third_level = remaining % ppb;
                proof {
                    assert((remaining as int) / (ppb as int) < (ppb as int)) by (nonlinear_arith)
                        requires
                            0 <= (remaining as int) < (ppb as int) * (ppb as int),
                            ppb as int > 0,
                    ;
                }

                if first_level > 0xFFFF_FFFFu64 {
                    return Err(Ext4Error::InvalidInput);
                }

                if self.block[14] == 0 {
                    return Ok(0);
                }

                let indirect_block = match self.get_indirect_block(
                    self.block[14],
                    first_level as u32,
                    block_size,
                    fs,
                ) {
                    Ok(b) => b,
                    Err(e) => {
                        return Err(e);
                    },
                };
                if indirect_block == 0 {
                    return Ok(0);
                }

                let doubly_indirect = match self.get_indirect_block(
                    indirect_block,
                    second_level as u32,
                    block_size,
                    fs,
                ) {
                    Ok(b) => b,
                    Err(e) => {
                        return Err(e);
                    },
                };
                if doubly_indirect == 0 {
                    return Ok(0);
                }

                let block_num = match self.get_indirect_block(
                    doubly_indirect,
                    third_level as u32,
                    block_size,
                    fs,
                ) {
                    Ok(b) => b,
                    Err(e) => {
                        return Err(e);
                    },
                };
                // Validate block number
                if block_num == 0 || block_num as u64 >= fs.superblock.blocks_count {
                    return Ok(0);
                }
                Ok(block_num)
            }
        }
    }

    /// Get block from indirect block
    fn get_indirect_block<D: BlockDevice>(
        &self,
        indirect_block: u32,
        index: u32,
        block_size: u32,
        fs: &mut Ext4FileSystem<D>,
    ) -> (r: Ext4Result<u32>)
        ensures
            Ext4FileSystem::<D>::same_shape(*old(fs), *final(fs)),
            final(fs).device.contents() == old(fs).device.contents(),
            indirect_block == 0 ==> r == Ext4Result::<u32>::Ok(0),
            r is Err ==> r == Ext4Result::<u32>::Err(Ext4Error::InvalidInput) || r == Ext4Result::<
                u32,
            >::Err(Ext4Error::IoError),
            indirect_block != 0 && r is Ok ==> r.get_Ok_0() == spec_ptr(
                old(fs).device.contents(),
                indirect_block,
                index as int,
            ),
    {
        if indirect_block == 0 {
            return Ok(0);  // Sparse block
        }

        let mut buf = zero_vec(block_size as usize);
        match fs.read_block(indirect_block, &mut buf) {
            Ok(()) => (),
            Err(e) => {
                return Err(e);
            },
        }

        let offset64: u64 = index as u64 * 4;
        if offset64 + 4 > buf.len() as u64 {
            return Err(Ext4Error::InvalidInput);
        }
        let offset = offset64 as usize;

        Ok(read_u32(buf.as_slice(), offset))
    }

    /// Set block in indirect block
    #[verifier::rlimit(100)]
    fn set_indirect_block<D: BlockDevice>(
        &mut self,
        indirect_block: u32,
        index: u32,
        block_size: u32,
        fs: &mut Ext4FileSystem<D>,
        block_num: u32,
    ) -> (r: Ext4Result<()>)
        ensures
            *final(self) == *old(self),
            Ext4FileSystem::<D>::same_shape(*old(fs), *final(fs)),
            indirect_block == 0 ==> r == Ext4Result::<()>::Err(Ext4Error::InvalidInput) && final(fs).device.contents() == old(fs).device.contents(),
            r is Err ==> r == Ext4Result::<()>::Err(Ext4Error::InvalidInput) || r == Ext4Result::<
                (),
            >::Err(Ext4Error::IoError) || r == Ext4Result::<()>::Err(Ext4Error::ReadOnly),
            r == Ext4Result::<()>::Err(Ext4Error::ReadOnly) ==> old(fs).mount_options.read_only,
            r is Ok ==> final(fs).device.contents() == old(fs).device.contents().update(
                indirect_block as int,
                crate::le::splice_bytes(
                    old(fs).device.contents()[indirect_block as int],
                    4 * index as int,
                    crate::le::u32_le_bytes(block_num),
                ),
            ),
            r is Ok ==> spec_ptr(final(fs).device.contents(), indirect_block, index as int)
                == block_num,
            r is Err ==> final(fs).device.contents() == old(fs).device.contents(),
    {
        if indirect_block == 0 {
            return Err(Ext4Error::InvalidInput);
        }

        let mut buf = zero_vec(block_size as usize);
        match fs.read_block(indirect_block, &mut buf) {
            Ok(()) => (),
            Err(e) => {
                return Err(e);
            },
        }

        let offset64: u64 = index as u64 * 4;
        if offset64 + 4 > buf.len() as u64 {
            return Err(Ext4Error::InvalidInput);
        }
        let offset = offset64 as usize;

        // Write the block number in little-endian format
        write_u32(&mut buf, offset, block_num);

        match fs.write_block(indirect_block, buf.as_slice()) {
            Ok(()) => {
                proof {
                    assert(buf@ =~= crate::le::splice_bytes(
                        old(fs).device.contents()[indirect_block as int],
                        4 * index as int,
                        crate::le::u32_le_bytes(block_num),
                    ));
                    assert(spec_ptr(fs.device.contents(), indirect_block, index as int)
                        == block_num) by {
                        assert(fs.device.contents()[indirect_block as int] == buf@);
                        assert(offset as int == 4 * index as int);
                        assert(le32(buf@, 4 * index as int) == block_num);
                    }
                }
                Ok(())
            },
            Err(e) => Err(e),
        }
    }

    /// Records `block_num` at a doubly- or triply-indirect slot,
    /// allocating and zero-initialising intermediate indirect blocks as
    /// needed before the new child pointer is written.
    #[verifier::rlimit(100)]
    #[verifier::spinoff_prover]
    fn set_block_multi<D: BlockDevice>(
        &mut self,
        block_index: u64,
        block_num: u32,
        block_size: u32,
        fs: &mut Ext4FileSystem<D>,
    ) -> (r: Ext4Result<()>)
        requires
            block_size >= 4,
            block_index >= 12 + (block_size as int) / 4,
        ensures
            Ext4FileSystem::<D>::same_shape(*old(fs), *final(fs)),
            inode_same_but_block(*old(self), *final(self)),
            r is Err ==> r == Ext4Result::<()>::Err(Ext4Error::InvalidInput) || r == Ext4Result::<
                (),
            >::Err(Ext4Error::IoError) || r == Ext4Result::<()>::Err(Ext4Error::ReadOnly) || r
                == Ext4Result::<()>::Err(Ext4Error::NoSpaceLeft),
            r == Ext4Result::<()>::Err(Ext4Error::ReadOnly) ==> old(fs).mount_options.read_only,
            forall|k: int|
                0 <= k < 15 && k != 13 && k != 14 ==> final(self).block@[k] == old(self).block@[k],
    {
        let ppb: u64 = (block_size / 4) as u64;
        proof {
            assert(ppb * ppb < 0x1_0000_0000_0000_0000int) by (nonlinear_arith)
                requires
                    0 <= ppb < 0x1_0000_0000int,
            ;
            assert(ppb * ppb >= 1) by (nonlinear_arith)
                requires
                    ppb >= 1,
            ;
        }
        let ppb2: u64 = ppb * ppb;
        if block_index - 12 - ppb < ppb2 {
        // Doubly indirect block
        let doubly_index = block_index - 12 - ppb;
        let first_level = doubly_index / ppb;
        let second_level = doubly_index % ppb;
        proof {
            assert((doubly_index as int) / (ppb as int) < (ppb as int)) by (nonlinear_arith)
                requires
                    0 <= (doubly_index as int) < (ppb as int) * (ppb as int),
                    ppb as int > 0,
            ;
        }

        if self.block[13] == 0 {
            // Allocate doubly indirect block if needed
            let new_doubly = match fs.alloc_block() {
                Ok(b) => b,
                Err(e) => {
                    return Err(e);
                },
            };
            self.block[13] = new_doubly;
            // Initialize the doubly indirect block with zeros
            let zero_buf = zero_vec(block_size as usize);
            match fs.write_block(new_doubly, zero_buf.as_slice()) {
                Ok(()) => (),
                Err(e) => {
                    return Err(e);
                },
            }
        }

        // Get or allocate the singly indirect block
        let indirect_block = match self.get_indirect_block(
            self.block[13],
            first_level as u32,
            block_size,
            fs,
        ) {
            Ok(b) => b,
            Err(e) => {
                return Err(e);
            },
        };
        if indirect_block == 0 {
            // Allocate singly indirect block if needed
            let new_indirect = match fs.alloc_block() {
                Ok(b) => b,
                Err(e) => {
                    return Err(e);
                },
            };
            match self.set_indirect_block(
                self.block[13],
                first_level as u32,
                block_size,
                fs,
                new_indirect,
            ) {
                Ok(()) => (),
                Err(e) => {
                    return Err(e);
                },
            }
            // Initialize the indirect block with zeros
            let zero_buf = zero_vec(block_size as usize);
            match fs.write_block(new_indirect, zero_buf.as_slice()) {
                Ok(()) => (),
                Err(e) => {
                    return Err(e);
                },
            }
            self.set_indirect_block(
                new_indirect,
                second_level as u32,
                block_size,
                fs,
                block_num,
            )
        } else {
            self.set_indirect_block(
                indirect_block,
                second_level as u32,
                block_size,
                fs,
                block_num,
            )
        }
    } else {
        // Triply indirect block
        let triply_index = block_index - 12 - ppb - ppb2;
        let first_level = triply_index / ppb2;
        let remaining = triply_index % ppb2;
        let second_level = remaining / ppb;
        let third_level = remaining % ppb;
        proof {
            assert((remaining as int) / (ppb as int) < (ppb as int)) by (nonlinear_arith)
                requires
                    0 <= (remaining as int) < (ppb as int) * (ppb as int),
                    ppb as int > 0,
            ;
        }

        if first_level > 0xFFFF_FFFFu64 {
            return Err(Ext4Error::InvalidInput);
        }

        if self.block[14] == 0 {
            // Allocate triply indirect block if needed
            let new_triply = match fs.alloc_block() {
                Ok(b) => b,
                Err(e) => {
                    return Err(e);
                },
            };
            self.block[14] = new_triply;
            // Initialize the triply indirect block with zeros
            let zero_buf = zero_vec(block_size as usize);
            match fs.write_block(new_triply, zero_buf.as_slice()) {
                Ok(()) => (),
                Err(e) => {
                    return Err(e);
                },
            }
        }

        // Get or allocate the doubly indirect block
        let doubly_block = match self.get_indirect_block(
            self.block[14],
            first_level as u32,
            block_size,
            fs,
        ) {
            Ok(b) => b,
            Err(e) => {
                return Err(e);
            },
        };
        let doubly_indirect = if doubly_block == 0 {
            // Allocate doubly indirect block if needed
            let new_doubly = match fs.alloc_block() {
                Ok(b) => b,
                Err(e) => {
                    return Err(e);
                },
            };
            match self.set_indirect_block(
                self.block[14],
                first_level as u32,
                block_size,
                fs,
                new_doubly,
            ) {
                Ok(()) => (),
                Err(e) => {
                    return Err(e);
                },
            }
            // Initialize the doubly indirect block with zeros
            let zero_buf = zero_vec(block_size as usize);
            match fs.write_block(new_doubly, zero_buf.as_slice()) {
                Ok(()) => (),
                Err(e) => {
                    return Err(e);
                },
            }
            new_doubly
        } else {
            doubly_block
        };

        // Get or allocate the singly indirect block
        let singly_block = match self.get_indirect_block(
            doubly_indirect,
            second_level as u32,
            block_size,
            fs,
        ) {
            Ok(b) => b,
            Err(e) => {
                return Err(e);
            },
        };
        let singly_indirect = if singly_block == 0 {
            // Allocate singly indirect block if needed
            let new_singly = match fs.alloc_block() {
                Ok(b) => b,
                Err(e) => {
                    return Err(e);
                },
            };
            match self.set_indirect_block(
                doubly_indirect,
                second_level as u32,
                block_size,
                fs,
                new_singly,
            ) {
                Ok(()) => (),
                Err(e) => {
                    return Err(e);
                },
            }
            // Initialize the singly indirect block with zeros
            let zero_buf = zero_vec(block_size as usize);
            match fs.write_block(new_singly, zero_buf.as_slice()) {
                Ok(()) => (),
                Err(e) => {
                    return Err(e);
                },
            }
            new_singly
        } else {
            singly_block
        };

        self.set_indirect_block(singly_indirect, third_level as u32, block_size, fs, block_num)
    }
    }

    /// Records `block_num` at a singly-indirect slot, allocating and
    /// zero-initialising the indirect block first when the inode has
    /// none.
    #[verifier::spinoff_prover]
    fn set_block_single<D: BlockDevice>(
        &mut self,
        block_index: u64,
        block_num: u32,
        block_size: u32,
        fs: &mut Ext4FileSystem<D>,
    ) -> (r: Ext4Result<()>)
        requires
            block_size >= 4,
            12 <= block_index < 12 + (block_size as int) / 4,
        ensures
            Ext4FileSystem::<D>::same_shape(*old(fs), *final(fs)),
            inode_same_but_block(*old(self), *final(self)),
            r is Err ==> r == Ext4Result::<()>::Err(Ext4Error::InvalidInput) || r == Ext4Result::<
                (),
            >::Err(Ext4Error::IoError) || r == Ext4Result::<()>::Err(Ext4Error::ReadOnly) || r
                == Ext4Result::<()>::Err(Ext4Error::NoSpaceLeft),
            r == Ext4Result::<()>::Err(Ext4Error::ReadOnly) ==> old(fs).mount_options.read_only,
            forall|k: int| 0 <= k < 15 && k != 12 ==> final(self).block@[k] == old(self).block@[k],
            r is Ok ==> ({
                &&& final(self).block@[12] != 0
                &&& spec_ptr(
                    final(fs).device.contents(),
                    final(self).block@[12],
                    block_index - 12,
                ) == block_num
            }),
    {
        let indirect_index = block_index - 12;
        if self.block[12] == 0 {
            // Allocate indirect block if needed
            let new_indirect = match fs.alloc_block() {
                Ok(b) => b,
                Err(e) => {
                    return Err(e);
                },
            };
            self.block[12] = new_indirect;
            // Initialize the indirect block with zeros
            let zero_buf = zero_vec(block_size as usize);
            match fs.write_block(new_indirect, zero_buf.as_slice()) {
                Ok(()) => (),
                Err(e) => {
                    return Err(e);
                },
            }
        }
        self.set_indirect_block(self.block[12], indirect_index as u32, block_size, fs, block_num)
    }

    /// Set block number for a given block index, handling indirect blocks.
    ///
    /// Intermediate indirect blocks are allocated and zero-initialised
    /// as needed before the new child pointer is written.
    #[verifier::rlimit(100)]
    #[verifier::spinoff_prover]
    pub fn set_block<D: BlockDevice>(
        &mut self,
        block_index: u64,
        block_num: u32,
        block_size: u32,
        fs: &mut Ext4FileSystem<D>,
    ) -> (r: Ext4Result<()>)
        requires
            block_size >= 4,
        ensures
            Ext4FileSystem::<D>::same_shape(*old(fs), *final(fs)),
            inode_same_but_block(*old(self), *final(self)),
            r is Err ==> r == Ext4Result::<()>::Err(Ext4Error::InvalidInput) || r == Ext4Result::<
                (),
            >::Err(Ext4Error::IoError) || r == Ext4Result::<()>::Err(Ext4Error::ReadOnly) || r
                == Ext4Result::<()>::Err(Ext4Error::NoSpaceLeft),
            r == Ext4Result::<()>::Err(Ext4Error::ReadOnly) ==> old(fs).mount_options.read_only,
            block_index < 12 ==> r is Ok && final(self).block@ == old(self).block@.update(
                block_index as int,
                block_num,
            ) && final(fs).device.contents() == old(fs).device.contents(),
            block_index >= 12 ==> forall|k: int|
                0 <= k < 12 ==> final(self).block@[k] == old(self).block@[k],
            (12 <= block_index < 12 + (block_size as int) / 4 && r is Ok) ==> ({
                &&& final(self).block@[12] != 0
                &&& spec_ptr(
                    final(fs).device.contents(),
                    final(self).block@[12],
                    block_index - 12,
                ) == block_num
                &&& forall|k: int|
                    0 <= k < 15 && k != 12 ==> final(self).block@[k] == old(self).block@[k]
            }),
    {
        if block_index < 12 {
            // Direct block
            self.block[block_index as usize] = block_num;
            Ok(())
        } else {
            let ppb: u64 = (block_size / 4) as u64;
            proof {
                assert(ppb * ppb < 0x1_0000_0000_0000_0000int) by (nonlinear_arith)
                    requires
                        0 <= ppb < 0x1_0000_0000int,
                ;
                assert(ppb * ppb >= 1) by (nonlinear_arith)
                    requires
                        ppb >= 1,
                ;
            }
            let ppb2: u64 = ppb * ppb;
            if block_index < 12 + ppb {
                self.set_block_single(block_index, block_num, block_size, fs)
            } else {
                self.set_block_multi(block_index, block_num, block_size, fs)
            }
        }
    }

    /// Convert inode to bytes
    #[verifier::rlimit(100)]
    pub fn to_bytes(&self) -> (r: Vec<u8>)
        ensures
            inode_serializes(*self, r@),
    {
        let mut data = zero_vec(256);  // Maximum inode size

        // Write block pointers first; the scalar fields follow.
        let mut i: usize = 0;
        while i < 15
            invariant
                0 <= i <= 15,
                data@.len() == 256,
                forall|k: int| 0 <= k < i ==> le32(data@, 40 + 4 * k) == self.block@[k],
                forall|j: int| 0 <= j < 256 && !(40 <= j < 40 + 4 * i) ==> data@[j] == 0u8,
            decreases 15 - i,
        {
            write_u32(&mut data, 40 + 4 * i, self.block[i]);
            i += 1;
        }

        // Write basic inode fields
        write_u16(&mut data, 0, self.mode.bits);
        write_u16(&mut data, 2, self.uid);
        write_u32(&mut data, 4, #[verifier::truncate] (self.size as u32));
        write_u32(&mut data, 8, self.atime);
        write_u32(&mut data, 12, self.ctime);
        write_u32(&mut data, 16, self.mtime);
        write_u32(&mut data, 20, self.dtime);
        write_u16(&mut data, 24, self.gid);
        write_u16(&mut data, 26, self.links_count);
        write_u32(&mut data, 28, #[verifier::truncate] (self.blocks as u32));
        write_u32(&mut data, 32, self.flags);
        write_u32(&mut data, 36, self.version);

        write_u32(&mut data, 100, self.generation);
        write_u32(&mut data, 104, self.file_acl);
        write_u32(&mut data, 108, self.dir_acl);
        write_u32(&mut data, 112, self.faddr);

        // Write extended fields
        write_u16(&mut data, 116, self.extra_isize);
        write_u16(&mut data, 118, self.checksum);
        write_u32(&mut data, 120, self.ctime_extra);
        write_u32(&mut data, 124, self.mtime_extra);
        write_u32(&mut data, 128, self.atime_extra);
        write_u32(&mut data, 132, self.crtime);
        write_u32(&mut data, 136, self.crtime_extra);
        write_u32(&mut data, 140, self.size_high);
        write_u32(&mut data, 144, self.file_acl_high);
        write_u32(&mut data, 148, self.obso_faddr);

        // The image stays 256 bytes; everything past the written fields is zero.
        data
    }
}

} // verus!
