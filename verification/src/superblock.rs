//! The ext4 superblock: parsing, validation and geometry.

use vstd::prelude::*;

use crate::device::BlockDevice;
use crate::le::{copy_into, le16, le32, read_u16, read_u32, read_u8, zero_vec};
use crate::{Ext4Error, Ext4Result};

verus! {

/// Ext4 superblock structure
#[derive(Debug, Clone, Copy, PartialEq, Eq)]
pub struct SuperBlock {
    /// Inode count
    pub inodes_count: u32,
    /// Block count
    pub blocks_count: u64,
    /// Reserved block count
    pub reserved_blocks_count: u64,
    /// Free blocks count
    pub free_blocks_count: u64,
    /// Free inodes count
    pub free_inodes_count: u32,
    /// First data block
    pub first_data_block: u32,
    /// Block size
    pub block_size: u32,
    /// Cluster size
    pub cluster_size: u32,
    /// Blocks per group
    pub blocks_per_group: u32,
    /// Clusters per group
    pub clusters_per_group: u32,
    /// Inodes per group
    pub inodes_per_group: u32,
    /// Mount time
    pub mount_time: u32,
    /// Write time
    pub write_time: u32,
    /// Mount count
    pub mount_count: u16,
    /// Max mount count
    pub max_mount_count: u16,
    /// Magic number
    pub magic: u16,
    /// Filesystem state
    pub state: u16,
    /// Error behavior
    pub errors: u16,
    /// Minor revision level
    pub minor_rev_level: u16,
    /// Last check time
    pub last_check_time: u32,
    /// Check interval
    pub check_interval: u32,
    /// Creator OS
    pub creator_os: u32,
    /// Revision level
    pub rev_level: u32,
    /// Default reserved uid
    pub default_reserved_uid: u16,
    /// Default reserved gid
    pub default_reserved_gid: u16,
    /// First inode
    pub first_inode: u32,
    /// Inode size
    pub inode_size: u16,
    /// Block group number of this superblock
    pub block_group_nr: u16,
    /// Feature compatibility flags
    pub feature_compat: u32,
    /// Feature incompatibility flags
    pub feature_incompat: u32,
    /// Feature read-only compatibility flags
    pub feature_ro_compat: u32,
    /// Filesystem UUID
    pub uuid: [u8; 16],
    /// Volume name
    pub volume_name: [u8; 16],
    /// Last mounted directory
    pub last_mounted: [u8; 64],
    /// Algorithm usage bitmap
    pub algorithm_usage_bitmap: u32,
    /// Preallocation blocks
    pub prealloc_blocks: u8,
    /// Preallocation directory blocks
    pub prealloc_dir_blocks: u8,
    /// Reserved GDT blocks
    pub reserved_gdt_blocks: u16,
    /// Journal UUID
    pub journal_uuid: [u8; 16],
    /// Journal inode number
    pub journal_inum: u32,
    /// Journal device
    pub journal_dev: u32,
    /// Last orphan inode
    pub last_orphan: u32,
    /// Hash seed
    pub hash_seed: [u32; 4],
    /// Default hash version
    pub def_hash_version: u8,
    /// Journal backup type
    pub jnl_backup_type: u8,
    /// Descriptor size
    pub desc_size: u16,
    /// Default mount options
    pub default_mount_opts: u32,
    /// First metablock block group
    pub first_meta_bg: u32,
    /// Mkfs time
    pub mkfs_time: u32,
    /// Journal backup blocks
    pub jnl_blocks: [u32; 17],
    /// 64-bit support
    pub blocks_count_hi: u32,
    /// 64-bit support
    pub reserved_blocks_count_hi: u32,
    /// 64-bit support
    pub free_blocks_count_hi: u32,
    /// Min extra inode size
    pub min_extra_isize: u16,
    /// Want extra inode size
    pub want_extra_isize: u16,
    /// Flags
    pub flags: u32,
    /// RAID stride
    pub raid_stride: u16,
    /// Multi-mount protection interval
    pub mmp_interval: u8,
    /// Multi-mount protection block number
    pub mmp_block: u64,
    /// RAID stripe width
    pub raid_stripe_width: u32,
    /// Checksum type
    pub checksum_type: u8,
    /// Padding
    pub padding: u8,
    /// Checksum seed
    pub checksum_seed: u32,
    /// Write time high bits
    pub wtime_hi: u16,
    /// Mtime high bits
    pub mtime_hi: u16,
    /// Mkfs time high bits
    pub mkfs_time_hi: u16,
    /// Atime high bits
    pub awtime_hi: u16,
    /// Checksum of the superblock
    pub checksum: u32,
}

/// The filesystem block size encoded by `log_block_size`:
/// `1024 << log_block_size`, or 0 when the shift would leave `u32`
/// (such a value never passes [`SuperBlock::validate`]).
pub open spec fn spec_block_size_of(log: u32) -> u32 {
    if log < 22 {
        1024u32 << log
    } else {
        0u32
    }
}

/// `sb` holds exactly the fields encoded in the 1024-byte superblock
/// image `data`, with the 64-bit counts combined from their hi/lo halves
/// and the block and cluster sizes derived from their log fields.
pub open spec fn sb_parses(data: Seq<u8>, sb: SuperBlock) -> bool {
    &&& sb.inodes_count == le32(data, 0)
    &&& sb.blocks_count == le32(data, 336) * 0x1_0000_0000 + le32(data, 4)
    &&& sb.reserved_blocks_count == le32(data, 340) * 0x1_0000_0000 + le32(data, 8)
    &&& sb.free_blocks_count == le32(data, 344) * 0x1_0000_0000 + le32(data, 12)
    &&& sb.free_inodes_count == le32(data, 16)
    &&& sb.first_data_block == le32(data, 20)
    &&& sb.block_size == spec_block_size_of(le32(data, 24) as u32)
    &&& sb.cluster_size == if le32(data, 28) > 0 {
        spec_block_size_of(le32(data, 28) as u32)
    } else {
        sb.block_size
    }
    &&& sb.blocks_per_group == le32(data, 32)
    &&& sb.clusters_per_group == le32(data, 36)
    &&& sb.inodes_per_group == le32(data, 40)
    &&& sb.mount_time == le32(data, 44)
    &&& sb.write_time == le32(data, 48)
    &&& sb.mount_count == le16(data, 52)
    &&& sb.max_mount_count == le16(data, 54)
    &&& sb.magic == le16(data, 56)
    &&& sb.state == le16(data, 58)
    &&& sb.errors == le16(data, 60)
    &&& sb.minor_rev_level == le16(data, 62)
    &&& sb.last_check_time == le32(data, 64)
    &&& sb.check_interval == le32(data, 68)
    &&& sb.creator_os == le32(data, 72)
    &&& sb.rev_level == le32(data, 76)
    &&& sb.default_reserved_uid == le16(data, 80)
    &&& sb.default_reserved_gid == le16(data, 82)
    &&& sb.first_inode == le32(data, 84)
    &&& sb.inode_size == le16(data, 88)
    &&& sb.block_group_nr == le16(data, 90)
    &&& sb.feature_compat == le32(data, 92)
    &&& sb.feature_incompat == le32(data, 96)
    &&& sb.feature_ro_compat == le32(data, 100)
    &&& sb.uuid@ == data.subrange(104, 120)
    &&& sb.volume_name@ == data.subrange(120, 136)
    &&& sb.last_mounted@ == data.subrange(136, 200)
    &&& sb.algorithm_usage_bitmap == le32(data, 200)
    &&& sb.prealloc_blocks == data[204]
    &&& sb.prealloc_dir_blocks == data[205]
    &&& sb.reserved_gdt_blocks == le16(data, 206)
    &&& sb.journal_uuid@ == data.subrange(208, 224)
    &&& sb.journal_inum == le32(data, 224)
    &&& sb.journal_dev == le32(data, 228)
    &&& sb.last_orphan == le32(data, 232)
    &&& forall|k: int| 0 <= k < 4 ==> sb.hash_seed@[k] == le32(data, 236 + 4 * k)
    &&& sb.def_hash_version == data[252]
    &&& sb.jnl_backup_type == data[253]
    &&& sb.desc_size == le16(data, 254)
    &&& sb.default_mount_opts == le32(data, 256)
    &&& sb.first_meta_bg == le32(data, 260)
    &&& sb.mkfs_time == le32(data, 264)
    &&& forall|k: int| 0 <= k < 17 ==> sb.jnl_blocks@[k] == le32(data, 268 + 4 * k)
    &&& sb.blocks_count_hi == le32(data, 336)
    &&& sb.reserved_blocks_count_hi == le32(data, 340)
    &&& sb.free_blocks_count_hi == le32(data, 344)
    &&& sb.min_extra_isize == le16(data, 348)
    &&& sb.want_extra_isize == le16(data, 350)
    &&& sb.flags == le32(data, 352)
    &&& sb.raid_stride == le16(data, 356)
    &&& sb.mmp_interval == data[358]
    &&& sb.mmp_block == le32(data, 359)
    &&& sb.raid_stripe_width == le32(data, 363)
    &&& sb.checksum_type == data[367]
    &&& sb.padding == data[368]
    &&& sb.checksum_seed == le32(data, 369)
    &&& sb.wtime_hi == le16(data, 373)
    &&& sb.mtime_hi == le16(data, 375)
    &&& sb.mkfs_time_hi == le16(data, 377)
    &&& sb.awtime_hi == le16(data, 379)
    &&& sb.checksum == le32(data, 381)
}

/// The 1024 superblock bytes as they lie on a device of block size `bs`:
/// the filesystem superblock always starts at byte offset 1024, whatever
/// the device's own block size.
pub open spec fn spec_sb_image(contents: Seq<Seq<u8>>, bs: int) -> Seq<u8>
    recommends
        bs >= 512,
{
    let start = 1024int / bs;
    let off = 1024int % bs;
    let take = if 1024 <= bs - off {
        1024int
    } else {
        bs - off
    };
    if take < 1024 {
        contents[start].subrange(off, off + take) + contents[start + 1].subrange(0, 1024 - take)
    } else {
        contents[start].subrange(off, off + 1024)
    }
}

impl SuperBlock {
    /// Create a new superblock by reading from device.
    ///
    /// The device's block size may differ from the filesystem's; a device
    /// whose blocks are too small to reach byte 1024 in two reads is
    /// rejected as an I/O error.
    pub fn read_from_device<D: BlockDevice>(device: &mut D) -> (r: Ext4Result<Self>)
        ensures
            final(device).contents() == old(device).contents(),
            final(device).spec_block_size() == old(device).spec_block_size(),
            final(device).spec_num_blocks() == old(device).spec_num_blocks(),
            r is Ok ==> sb_parses(
                spec_sb_image(old(device).contents(), old(device).spec_block_size() as int),
                r.unwrap(),
            ),
    {
        // The ext4 superblock is always at offset 1024 from the start of the
        // filesystem, so it may straddle two device blocks.
        let block_size = device.block_size();
        if block_size < 512 {
            return Err(Ext4Error::IoError);
        }
        let start_block = 1024 / block_size;
        let offset_in_block = 1024 % block_size;

        let mut buf = zero_vec(1024);  // Read 1024 bytes for superblock
        let mut temp_buf = zero_vec(block_size as usize);

        // Read the block that contains the superblock
        match device.read_block(start_block as u64, &mut temp_buf) {
            Ok(()) => (),
            Err(_) => {
                return Err(Ext4Error::IoError);
            },
        }

        // Copy superblock data from the block
        let remaining = block_size - offset_in_block;
        let to_copy: usize = if 1024 <= remaining {
            1024
        } else {
            remaining as usize
        };
        copy_into(&mut buf, 0, temp_buf.as_slice(), offset_in_block as usize, to_copy);

        // If we need more data, read the next block
        if to_copy < 1024 {
            if 1024 - to_copy > block_size as usize {
                return Err(Ext4Error::IoError);
            }
            match device.read_block((start_block + 1) as u64, &mut temp_buf) {
                Ok(()) => (),
                Err(_) => {
                    return Err(Ext4Error::IoError);
                },
            }
            copy_into(&mut buf, to_copy, temp_buf.as_slice(), 0, 1024 - to_copy);
        }

        proof {
            assert(buf@ =~= spec_sb_image(
                old(device).contents(),
                old(device).spec_block_size() as int,
            ));
        }

        // Parse the superblock
        Self::from_bytes(buf.as_slice())
    }

    /// Parse superblock from bytes
    #[verifier::rlimit(50)]
    pub fn from_bytes(data: &[u8]) -> (r: Ext4Result<Self>)
        ensures
            data.len() < 1024 ==> r == Ext4Result::<Self>::Err(Ext4Error::InvalidInput),
            data.len() >= 1024 ==> r is Ok && sb_parses(data@, r.unwrap()),
    {
        if data.len() < 1024 {
            return Err(Ext4Error::InvalidInput);
        }

        // Read superblock fields according to ext4 specification
        let inodes_count = read_u32(data, 0);
        let blocks_count_lo = read_u32(data, 4);
        let reserved_blocks_count_lo = read_u32(data, 8);
        let free_blocks_count_lo = read_u32(data, 12);
        let free_inodes_count = read_u32(data, 16);
        let first_data_block = read_u32(data, 20);
        let log_block_size = read_u32(data, 24);
        let log_cluster_size = read_u32(data, 28);
        let blocks_per_group = read_u32(data, 32);
        let clusters_per_group = read_u32(data, 36);
        let inodes_per_group = read_u32(data, 40);
        let mount_time = read_u32(data, 44);
        let write_time = read_u32(data, 48);
        let mount_count = read_u16(data, 52);
        let max_mount_count = read_u16(data, 54);
        let magic = read_u16(data, 56);
        let state = read_u16(data, 58);
        let errors = read_u16(data, 60);
        let minor_rev_level = read_u16(data, 62);
        let last_check_time = read_u32(data, 64);
        let check_interval = read_u32(data, 68);
        let creator_os = read_u32(data, 72);
        let rev_level = read_u32(data, 76);
        let default_reserved_uid = read_u16(data, 80);
        let default_reserved_gid = read_u16(data, 82);
        let first_inode = read_u32(data, 84);
        let inode_size = read_u16(data, 88);
        let block_group_nr = read_u16(data, 90);
        let feature_compat = read_u32(data, 92);
        let feature_incompat = read_u32(data, 96);
        let feature_ro_compat = read_u32(data, 100);

        let mut uuid = [0u8; 16];
        let mut i: usize = 0;
        while i < 16
            invariant
                0 <= i <= 16,
                data.len() >= 1024,
                forall|k: int| 0 <= k < i ==> uuid@[k] == data@[104 + k],
            decreases 16 - i,
        {
            uuid[i] = data[104 + i];
            i += 1;
        }

        let mut volume_name = [0u8; 16];
        let mut i: usize = 0;
        while i < 16
            invariant
                0 <= i <= 16,
                data.len() >= 1024,
                forall|k: int| 0 <= k < i ==> volume_name@[k] == data@[120 + k],
            decreases 16 - i,
        {
            volume_name[i] = data[120 + i];
            i += 1;
        }

        let mut last_mounted = [0u8; 64];
        let mut i: usize = 0;
        while i < 64
            invariant
                0 <= i <= 64,
                data.len() >= 1024,
                forall|k: int| 0 <= k < i ==> last_mounted@[k] == data@[136 + k],
            decreases 64 - i,
        {
            last_mounted[i] = data[136 + i];
            i += 1;
        }

        let algorithm_usage_bitmap = read_u32(data, 200);
        let prealloc_blocks = read_u8(data, 204);
        let prealloc_dir_blocks = read_u8(data, 205);
        let reserved_gdt_blocks = read_u16(data, 206);

        let mut journal_uuid = [0u8; 16];
        let mut i: usize = 0;
        while i < 16
            invariant
                0 <= i <= 16,
                data.len() >= 1024,
                forall|k: int| 0 <= k < i ==> journal_uuid@[k] == data@[208 + k],
            decreases 16 - i,
        {
            journal_uuid[i] = data[208 + i];
            i += 1;
        }

        let journal_inum = read_u32(data, 224);
        let journal_dev = read_u32(data, 228);
        let last_orphan = read_u32(data, 232);

        let mut hash_seed = [0u32; 4];
        let mut i: usize = 0;
        while i < 4
            invariant
                0 <= i <= 4,
                data.len() >= 1024,
                forall|k: int| 0 <= k < i ==> hash_seed@[k] == le32(data@, 236 + 4 * k),
            decreases 4 - i,
        {
            hash_seed[i] = read_u32(data, 236 + 4 * i);
            i += 1;
        }

        let def_hash_version = read_u8(data, 252);
        let jnl_backup_type = read_u8(data, 253);
        let desc_size = read_u16(data, 254);
        let default_mount_opts = read_u32(data, 256);
        let first_meta_bg = read_u32(data, 260);
        let mkfs_time = read_u32(data, 264);

        let mut jnl_blocks = [0u32; 17];
        let mut i: usize = 0;
        while i < 17
            invariant
                0 <= i <= 17,
                data.len() >= 1024,
                forall|k: int| 0 <= k < i ==> jnl_blocks@[k] == le32(data@, 268 + 4 * k),
            decreases 17 - i,
        {
            jnl_blocks[i] = read_u32(data, 268 + 4 * i);
            i += 1;
        }

        let blocks_count_hi = read_u32(data, 336);
        let reserved_blocks_count_hi = read_u32(data, 340);
        let free_blocks_count_hi = read_u32(data, 344);
        let min_extra_isize = read_u16(data, 348);
        let want_extra_isize = read_u16(data, 350);
        let flags = read_u32(data, 352);
        let raid_stride = read_u16(data, 356);
        let mmp_interval = read_u8(data, 358);
        let mmp_block_lo = read_u32(data, 359);
        let raid_stripe_width = read_u32(data, 363);
        let checksum_type = read_u8(data, 367);
        let padding = read_u8(data, 368);
        let checksum_seed = read_u32(data, 369);
        let wtime_hi = read_u16(data, 373);
        let mtime_hi = read_u16(data, 375);
        let mkfs_time_hi = read_u16(data, 377);
        let awtime_hi = read_u16(data, 379);
        let checksum = read_u32(data, 381);

        // Combine high and low parts for 64-bit values
        let blocks_count = (blocks_count_hi as u64) * 0x1_0000_0000 + (blocks_count_lo as u64);
        let reserved_blocks_count = (reserved_blocks_count_hi as u64) * 0x1_0000_0000 + (
        reserved_blocks_count_lo as u64);
        let free_blocks_count = (free_blocks_count_hi as u64) * 0x1_0000_0000 + (
        free_blocks_count_lo as u64);
        let mmp_block = mmp_block_lo as u64;

        // Calculate block size
        let block_size: u32 = if log_block_size < 22 {
            1024u32 << log_block_size
        } else {
            0u32
        };
        let cluster_size: u32 = if log_cluster_size > 0 {
            if log_cluster_size < 22 {
                1024u32 << log_cluster_size
            } else {
                0u32
            }
        } else {
            block_size
        };

        proof {
            assert(uuid@ =~= data@.subrange(104, 120));
            assert(volume_name@ =~= data@.subrange(120, 136));
            assert(last_mounted@ =~= data@.subrange(136, 200));
            assert(journal_uuid@ =~= data@.subrange(208, 224));
        }

        Ok(Self {
            inodes_count,
            blocks_count,
            reserved_blocks_count,
            free_blocks_count,
            free_inodes_count,
            first_data_block,
            block_size,
            cluster_size,
            blocks_per_group,
            clusters_per_group,
            inodes_per_group,
            mount_time,
            write_time,
            mount_count,
            max_mount_count,
            magic,
            state,
            errors,
            minor_rev_level,
            last_check_time,
            check_interval,
            creator_os,
            rev_level,
            default_reserved_uid,
            default_reserved_gid,
            first_inode,
            inode_size,
            block_group_nr,
            feature_compat,
            feature_incompat,
            feature_ro_compat,
            uuid,
            volume_name,
            last_mounted,
            algorithm_usage_bitmap,
            prealloc_blocks,
            prealloc_dir_blocks,
            reserved_gdt_blocks,
            journal_uuid,
            journal_inum,
            journal_dev,
            last_orphan,
            hash_seed,
            def_hash_version,
            jnl_backup_type,
            desc_size,
            default_mount_opts,
            first_meta_bg,
            mkfs_time,
            jnl_blocks,
            blocks_count_hi,
            reserved_blocks_count_hi,
            free_blocks_count_hi,
            min_extra_isize,
            want_extra_isize,
            flags,
            raid_stride,
            mmp_interval,
            mmp_block,
            raid_stripe_width,
            checksum_type,
            padding,
            checksum_seed,
            wtime_hi,
            mtime_hi,
            mkfs_time_hi,
            awtime_hi,
            checksum,
        })
    }

    /// Whether the block size is one the format allows.
    pub open spec fn spec_block_size_valid(&self) -> bool {
        self.block_size == 1024 || self.block_size == 2048 || self.block_size == 4096
    }

    /// Validate the superblock
    pub fn validate(&self) -> (r: Ext4Result<()>)
        ensures
            self.magic != 0xEF53 ==> r == Ext4Result::<()>::Err(Ext4Error::InvalidMagic),
            self.magic == 0xEF53 && !self.spec_block_size_valid() ==> r == Ext4Result::<()>::Err(
                Ext4Error::InvalidState,
            ),
            r is Ok <==> (self.magic == 0xEF53 && self.spec_block_size_valid()),
    {
        if self.magic != 0xEF53 {
            return Err(Ext4Error::InvalidMagic);
        }

        if self.block_size != 1024 && self.block_size != 2048 && self.block_size != 4096 {
            return Err(Ext4Error::InvalidState);
        }

        Ok(())
    }

    /// Getters
    pub fn inodes_count(&self) -> (r: u32)
        ensures
            r == self.inodes_count,
    {
        self.inodes_count
    }

    pub fn blocks_count(&self) -> (r: u64)
        ensures
            r == self.blocks_count,
    {
        self.blocks_count
    }

    pub fn reserved_blocks_count(&self) -> (r: u64)
        ensures
            r == self.reserved_blocks_count,
    {
        self.reserved_blocks_count
    }

    pub fn free_blocks_count(&self) -> (r: u64)
        ensures
            r == self.free_blocks_count,
    {
        self.free_blocks_count
    }

    pub fn free_inodes_count(&self) -> (r: u32)
        ensures
            r == self.free_inodes_count,
    {
        self.free_inodes_count
    }

    pub fn first_data_block(&self) -> (r: u32)
        ensures
            r == self.first_data_block,
    {
        self.first_data_block
    }

    pub fn block_size(&self) -> (r: u32)
        ensures
            r == self.block_size,
    {
        self.block_size
    }

    pub fn cluster_size(&self) -> (r: u32)
        ensures
            r == self.cluster_size,
    {
        self.cluster_size
    }

    pub fn blocks_per_group(&self) -> (r: u32)
        ensures
            r == self.blocks_per_group,
    {
        self.blocks_per_group
    }

    pub fn clusters_per_group(&self) -> (r: u32)
        ensures
            r == self.clusters_per_group,
    {
        self.clusters_per_group
    }

    pub fn inodes_per_group(&self) -> (r: u32)
        ensures
            r == self.inodes_per_group,
    {
        self.inodes_per_group
    }

    pub fn mount_time(&self) -> (r: u32)
        ensures
            r == self.mount_time,
    {
        self.mount_time
    }

    pub fn write_time(&self) -> (r: u32)
        ensures
            r == self.write_time,
    {
        self.write_time
    }

    pub fn mount_count(&self) -> (r: u16)
        ensures
            r == self.mount_count,
    {
        self.mount_count
    }

    pub fn max_mount_count(&self) -> (r: u16)
        ensures
            r == self.max_mount_count,
    {
        self.max_mount_count
    }

    pub fn magic(&self) -> (r: u16)
        ensures
            r == self.magic,
    {
        self.magic
    }

    pub fn state(&self) -> (r: u16)
        ensures
            r == self.state,
    {
        self.state
    }

    pub fn errors(&self) -> (r: u16)
        ensures
            r == self.errors,
    {
        self.errors
    }

    pub fn minor_rev_level(&self) -> (r: u16)
        ensures
            r == self.minor_rev_level,
    {
        self.minor_rev_level
    }

    pub fn last_check_time(&self) -> (r: u32)
        ensures
            r == self.last_check_time,
    {
        self.last_check_time
    }

    pub fn check_interval(&self) -> (r: u32)
        ensures
            r == self.check_interval,
    {
        self.check_interval
    }

    pub fn creator_os(&self) -> (r: u32)
        ensures
            r == self.creator_os,
    {
        self.creator_os
    }

    pub fn rev_level(&self) -> (r: u32)
        ensures
            r == self.rev_level,
    {
        self.rev_level
    }

    pub fn default_reserved_uid(&self) -> (r: u16)
        ensures
            r == self.default_reserved_uid,
    {
        self.default_reserved_uid
    }

    pub fn default_reserved_gid(&self) -> (r: u16)
        ensures
            r == self.default_reserved_gid,
    {
        self.default_reserved_gid
    }

    pub fn first_inode(&self) -> (r: u32)
        ensures
            r == self.first_inode,
    {
        self.first_inode
    }

    pub fn inode_size(&self) -> (r: u16)
        ensures
            r == self.inode_size,
    {
        self.inode_size
    }

    pub fn block_group_nr(&self) -> (r: u16)
        ensures
            r == self.block_group_nr,
    {
        self.block_group_nr
    }

    pub fn feature_compat(&self) -> (r: u32)
        ensures
            r == self.feature_compat,
    {
        self.feature_compat
    }

    pub fn feature_incompat(&self) -> (r: u32)
        ensures
            r == self.feature_incompat,
    {
        self.feature_incompat
    }

    pub fn feature_ro_compat(&self) -> (r: u32)
        ensures
            r == self.feature_ro_compat,
    {
        self.feature_ro_compat
    }

    pub fn uuid(&self) -> (r: &[u8; 16])
        ensures
            r@ == self.uuid@,
    {
        &self.uuid
    }

    pub fn volume_name(&self) -> (r: &[u8; 16])
        ensures
            r@ == self.volume_name@,
    {
        &self.volume_name
    }

    pub fn last_mounted(&self) -> (r: &[u8; 64])
        ensures
            r@ == self.last_mounted@,
    {
        &self.last_mounted
    }

    pub fn algorithm_usage_bitmap(&self) -> (r: u32)
        ensures
            r == self.algorithm_usage_bitmap,
    {
        self.algorithm_usage_bitmap
    }

    pub fn prealloc_blocks(&self) -> (r: u8)
        ensures
            r == self.prealloc_blocks,
    {
        self.prealloc_blocks
    }

    pub fn prealloc_dir_blocks(&self) -> (r: u8)
        ensures
            r == self.prealloc_dir_blocks,
    {
        self.prealloc_dir_blocks
    }

    pub fn reserved_gdt_blocks(&self) -> (r: u16)
        ensures
            r == self.reserved_gdt_blocks,
    {
        self.reserved_gdt_blocks
    }

    pub fn journal_uuid(&self) -> (r: &[u8; 16])
        ensures
            r@ == self.journal_uuid@,
    {
        &self.journal_uuid
    }

    pub fn journal_inum(&self) -> (r: u32)
        ensures
            r == self.journal_inum,
    {
        self.journal_inum
    }

    pub fn journal_dev(&self) -> (r: u32)
        ensures
            r == self.journal_dev,
    {
        self.journal_dev
    }

    pub fn last_orphan(&self) -> (r: u32)
        ensures
            r == self.last_orphan,
    {
        self.last_orphan
    }

    pub fn hash_seed(&self) -> (r: &[u32; 4])
        ensures
            r@ == self.hash_seed@,
    {
        &self.hash_seed
    }

    pub fn def_hash_version(&self) -> (r: u8)
        ensures
            r == self.def_hash_version,
    {
        self.def_hash_version
    }

    pub fn jnl_backup_type(&self) -> (r: u8)
        ensures
            r == self.jnl_backup_type,
    {
        self.jnl_backup_type
    }

    pub fn desc_size(&self) -> (r: u16)
        ensures
            r == self.desc_size,
    {
        self.desc_size
    }

    pub fn default_mount_opts(&self) -> (r: u32)
        ensures
            r == self.default_mount_opts,
    {
        self.default_mount_opts
    }

    pub fn first_meta_bg(&self) -> (r: u32)
        ensures
            r == self.first_meta_bg,
    {
        self.first_meta_bg
    }

    pub fn mkfs_time(&self) -> (r: u32)
        ensures
            r == self.mkfs_time,
    {
        self.mkfs_time
    }

    pub fn jnl_blocks(&self) -> (r: &[u32; 17])
        ensures
            r@ == self.jnl_blocks@,
    {
        &self.jnl_blocks
    }

    pub fn blocks_count_hi(&self) -> (r: u32)
        ensures
            r == self.blocks_count_hi,
    {
        self.blocks_count_hi
    }

    pub fn reserved_blocks_count_hi(&self) -> (r: u32)
        ensures
            r == self.reserved_blocks_count_hi,
    {
        self.reserved_blocks_count_hi
    }

    pub fn free_blocks_count_hi(&self) -> (r: u32)
        ensures
            r == self.free_blocks_count_hi,
    {
        self.free_blocks_count_hi
    }

    pub fn min_extra_isize(&self) -> (r: u16)
        ensures
            r == self.min_extra_isize,
    {
        self.min_extra_isize
    }

    pub fn want_extra_isize(&self) -> (r: u16)
        ensures
            r == self.want_extra_isize,
    {
        self.want_extra_isize
    }

    pub fn flags(&self) -> (r: u32)
        ensures
            r == self.flags,
    {
        self.flags
    }

    pub fn raid_stride(&self) -> (r: u16)
        ensures
            r == self.raid_stride,
    {
        self.raid_stride
    }

    pub fn mmp_interval(&self) -> (r: u8)
        ensures
            r == self.mmp_interval,
    {
        self.mmp_interval
    }

    pub fn mmp_block(&self) -> (r: u64)
        ensures
            r == self.mmp_block,
    {
        self.mmp_block
    }

    pub fn raid_stripe_width(&self) -> (r: u32)
        ensures
            r == self.raid_stripe_width,
    {
        self.raid_stripe_width
    }

    pub fn checksum_type(&self) -> (r: u8)
        ensures
            r == self.checksum_type,
    {
        self.checksum_type
    }

    pub fn padding(&self) -> (r: u8)
        ensures
            r == self.padding,
    {
        self.padding
    }

    pub fn checksum_seed(&self) -> (r: u32)
        ensures
            r == self.checksum_seed,
    {
        self.checksum_seed
    }

    pub fn wtime_hi(&self) -> (r: u16)
        ensures
            r == self.wtime_hi,
    {
        self.wtime_hi
    }

    pub fn mtime_hi(&self) -> (r: u16)
        ensures
            r == self.mtime_hi,
    {
        self.mtime_hi
    }

    pub fn mkfs_time_hi(&self) -> (r: u16)
        ensures
            r == self.mkfs_time_hi,
    {
        self.mkfs_time_hi
    }

    pub fn awtime_hi(&self) -> (r: u16)
        ensures
            r == self.awtime_hi,
    {
        self.awtime_hi
    }

    pub fn checksum(&self) -> (r: u32)
        ensures
            r == self.checksum,
    {
        self.checksum
    }
}

} // verus!
