//! End-to-end tests against an in-memory block device: mounting,
//! block mapping, path lookup, file creation and truncation.

use ext4rs::inode::{DEFAULT_DIR_MODE, DEFAULT_FILE_MODE, IFDIR, IFREG};
use ext4rs::{
    BlockDevice, Ext4Error, Ext4FileSystem, File, Inode, InodeMode, MemBlockDevice, MountOptions,
    SymLink,
};

/// A 1024-byte-block device with a minimal ext4 image: the superblock
/// in block 1, one group descriptor in block 2 (bitmaps in blocks 10
/// and 11, inode table from block 12), the low 64 blocks and the first
/// three inodes marked used.
fn make_device(feature_incompat: u32, blocks_count: u32) -> MemBlockDevice {
    let mut device = MemBlockDevice::new(1024, 2048);

    let mut sb = vec![0u8; 1024];
    sb[0..4].copy_from_slice(&128u32.to_le_bytes()); // inodes count
    sb[4..8].copy_from_slice(&blocks_count.to_le_bytes()); // blocks count lo
    sb[12..16].copy_from_slice(&500u32.to_le_bytes()); // free blocks lo
    sb[16..20].copy_from_slice(&100u32.to_le_bytes()); // free inodes
    sb[20..24].copy_from_slice(&1u32.to_le_bytes()); // first data block
    sb[24..28].copy_from_slice(&0u32.to_le_bytes()); // log block size -> 1024
    sb[32..36].copy_from_slice(&8192u32.to_le_bytes()); // blocks per group
    sb[40..44].copy_from_slice(&128u32.to_le_bytes()); // inodes per group
    sb[56..58].copy_from_slice(&0xEF53u16.to_le_bytes()); // magic
    sb[58..60].copy_from_slice(&1u16.to_le_bytes()); // state: clean
    sb[76..80].copy_from_slice(&1u32.to_le_bytes()); // revision level
    sb[88..90].copy_from_slice(&128u16.to_le_bytes()); // inode size
    sb[96..100].copy_from_slice(&feature_incompat.to_le_bytes());
    device.write_block(1, &sb).unwrap();

    let mut gd = vec![0u8; 1024];
    gd[0..4].copy_from_slice(&10u32.to_le_bytes()); // block bitmap
    gd[4..8].copy_from_slice(&11u32.to_le_bytes()); // inode bitmap
    gd[8..12].copy_from_slice(&12u32.to_le_bytes()); // inode table
    gd[12..14].copy_from_slice(&100u16.to_le_bytes()); // free blocks
    gd[14..16].copy_from_slice(&100u16.to_le_bytes()); // free inodes
    device.write_block(2, &gd).unwrap();

    // Block bitmap: the metadata blocks 0..63 are taken
    let mut bb = vec![0u8; 1024];
    for i in 0..8usize {
        bb[i] = 0xFF;
    }
    device.write_block(10, &bb).unwrap();

    // Inode bitmap: inodes 1..3 are taken
    let mut ib = vec![0u8; 1024];
    ib[0] = 0x07;
    device.write_block(11, &ib).unwrap();

    device
}

/// Writes `inode`'s 128-byte image into the inode table.
fn put_inode(device: &mut MemBlockDevice, ino: u32, inode: &Inode) {
    let index = (ino - 1) as usize;
    let block = 12 + (index / 8) as u64;
    let offset = (index % 8) * 128;
    let mut buf = vec![0u8; 1024];
    device.read_block(block, &mut buf).unwrap();
    let img = inode.to_bytes();
    buf[offset..offset + 128].copy_from_slice(&img[..128]);
    device.write_block(block, &buf).unwrap();
}

/// A directory data block; the last entry's record stretches to the end.
fn dir_block(entries: &[(u32, u8, &str)]) -> Vec<u8> {
    let mut buf = vec![0u8; 1024];
    let mut off: usize = 0;
    for (i, (ino, ftype, name)) in entries.iter().enumerate() {
        let packed = (8 + name.len() + 3) / 4 * 4;
        let rec = if i == entries.len() - 1 { 1024 - off } else { packed };
        buf[off..off + 4].copy_from_slice(&ino.to_le_bytes());
        buf[off + 4..off + 6].copy_from_slice(&(rec as u16).to_le_bytes());
        buf[off + 6] = name.len() as u8;
        buf[off + 7] = *ftype;
        buf[off + 8..off + 8 + name.len()].copy_from_slice(name.as_bytes());
        off += rec;
    }
    buf
}

/// Installs a root directory (inode 2) whose data lives in block 50.
fn put_root_dir(device: &mut MemBlockDevice) {
    let data = dir_block(&[(2, 2, "."), (2, 2, "..")]);
    device.write_block(50, &data).unwrap();

    let mut root = Inode::new(2);
    root.mode = InodeMode::new(IFDIR | 0o755);
    root.size = 1024;
    root.blocks = 1;
    root.block[0] = 50;
    put_inode(device, 2, &root);
}

#[test]
fn test_mount_and_stats() {
    let fs = Ext4FileSystem::new(make_device(0, 1024), MountOptions::default())
        .expect("filesystem should mount");
    let stats = fs.stats().unwrap();
    assert_eq!(stats.block_size, 1024);
    assert_eq!(stats.total_blocks, 1024);
    assert_eq!(stats.total_inodes, 128);
    assert_eq!(stats.free_blocks, 500);
    assert_eq!(stats.free_inodes, 100);
}

#[test]
fn test_mount_rejects_bad_magic() {
    let device = MemBlockDevice::new(1024, 2048);
    assert!(matches!(
        Ext4FileSystem::new(device, MountOptions::default()),
        Err(Ext4Error::InvalidMagic)
    ));
}

#[test]
fn test_fs_block_io() {
    let mut fs =
        Ext4FileSystem::new(make_device(0, 2048), MountOptions::default()).unwrap();

    let mut buf = vec![0u8; 1024];
    let msg = b"Hello, ext4!";
    buf[..msg.len()].copy_from_slice(msg);
    fs.write_block(100, &buf).expect("write should succeed");

    let mut read_buf = vec![0u8; 1024];
    fs.read_block(100, &mut read_buf).expect("read should succeed");
    assert_eq!(&read_buf[..msg.len()], msg);
    assert_eq!(buf, read_buf);

    // Past the end of the device
    assert_eq!(fs.write_block(2048, &buf), Err(Ext4Error::IoError));
    assert_eq!(fs.read_block(2048, &mut read_buf), Err(Ext4Error::IoError));

    // A buffer that is not one block is rejected
    let short = vec![0u8; 100];
    assert_eq!(fs.write_block(100, &short), Err(Ext4Error::InvalidInput));
}

#[test]
fn test_read_only_filesystem() {
    let options = MountOptions { read_only: true, journaling: true, exec_check: false };
    let mut fs = Ext4FileSystem::new(make_device(0, 2048), options).unwrap();

    let buf = vec![0u8; 1024];
    assert_eq!(fs.write_block(100, &buf), Err(Ext4Error::ReadOnly));
    assert_eq!(fs.alloc_block(), Err(Ext4Error::ReadOnly));
    assert_eq!(fs.alloc_inode(), Err(Ext4Error::ReadOnly));
    assert_eq!(
        fs.create_file(2, "foo", InodeMode::new(DEFAULT_FILE_MODE)),
        Err(Ext4Error::ReadOnly)
    );
    assert_eq!(
        fs.create_dir(2, "bar", InodeMode::new(DEFAULT_DIR_MODE)),
        Err(Ext4Error::ReadOnly)
    );
}

#[test]
fn test_alloc_block_and_inode() {
    let mut fs =
        Ext4FileSystem::new(make_device(0, 2048), MountOptions::default()).unwrap();

    // The block bitmap has its first 64 bits set
    assert_eq!(fs.alloc_block().unwrap(), 64);
    // The inode bitmap has its first 3 bits set; inodes are 1-based
    assert_eq!(fs.alloc_inode().unwrap(), 4);
}

#[test]
fn test_alloc_no_space() {
    // A descriptor advertising no free blocks or inodes
    let mut device = make_device(0, 2048);
    let mut gd = vec![0u8; 1024];
    gd[0..4].copy_from_slice(&10u32.to_le_bytes());
    gd[4..8].copy_from_slice(&11u32.to_le_bytes());
    gd[8..12].copy_from_slice(&12u32.to_le_bytes());
    device.write_block(2, &gd).unwrap();

    let mut fs = Ext4FileSystem::new(device, MountOptions::default()).unwrap();
    assert_eq!(fs.alloc_block(), Err(Ext4Error::NoSpaceLeft));
    assert_eq!(fs.alloc_inode(), Err(Ext4Error::NoSpaceLeft));
}

#[test]
fn test_get_inode_errors() {
    let mut fs =
        Ext4FileSystem::new(make_device(0, 2048), MountOptions::default()).unwrap();
    assert_eq!(fs.get_inode(0).err(), Some(Ext4Error::InodeNotFound));
    // Inode 9999 would live in a block group past the descriptor table
    assert_eq!(fs.get_inode(9999).err(), Some(Ext4Error::InodeNotFound));
}

#[test]
fn test_traditional_block_mapping() {
    // Logical-to-physical mapping through the 12 direct pointers and
    // the singly-indirect block, with sparse holes reading as zero.
    let mut device = make_device(0, 2048);

    // The indirect block: slot 0 points at block 300
    let mut ind = vec![0u8; 1024];
    ind[0..4].copy_from_slice(&300u32.to_le_bytes());
    device.write_block(200, &ind).unwrap();

    let mut fs = Ext4FileSystem::new(device, MountOptions::default()).unwrap();

    let mut inode = Inode::new(5);
    inode.mode = InodeMode::new(IFREG);
    inode.size = 16 * 1024;
    inode.block[0] = 100;
    inode.block[11] = 111;
    inode.block[12] = 200; // singly indirect

    assert_eq!(inode.get_block_number(0, 1024, &mut fs).unwrap(), 100);
    assert_eq!(
        inode.get_block_number(11 * 1024, 1024, &mut fs).unwrap(),
        111
    );
    // Logical block 12 goes through the indirect block
    assert_eq!(
        inode.get_block_number(12 * 1024, 1024, &mut fs).unwrap(),
        300
    );
    // A zero pointer is a sparse block
    assert_eq!(inode.get_block_number(1 * 1024, 1024, &mut fs).unwrap(), 0);
    // An out-of-range pointer also reads as sparse
    let mut bogus = inode;
    bogus.block[0] = 4000; // past blocks_count = 2048
    assert_eq!(bogus.get_block_number(0, 1024, &mut fs).unwrap(), 0);
}

#[test]
fn test_set_block_direct_and_indirect() {
    let mut fs =
        Ext4FileSystem::new(make_device(0, 2048), MountOptions::default()).unwrap();

    let mut inode = Inode::new(5);
    inode.set_block(3, 77, 1024, &mut fs).unwrap();
    assert_eq!(inode.block[3], 77);

    // An indirect slot allocates the indirect block first
    inode.set_block(20, 99, 1024, &mut fs).unwrap();
    assert!(inode.block[12] != 0);
    assert_eq!(
        inode.get_block_number(20 * 1024, 1024, &mut fs).unwrap(),
        99
    );
}

#[test]
fn test_extent_tree_lookup() {
    // An inline extent root in the inode's block array: one extent
    // mapping logical blocks 0..3 to physical 100..103.
    let mut fs =
        Ext4FileSystem::new(make_device(0x0040, 2048), MountOptions::default()).unwrap();

    let mut inode = Inode::new(5);
    inode.mode = InodeMode::new(IFREG);
    inode.size = 3 * 1024;
    inode.block[0] = 0xF30A | (1 << 16); // magic, one entry
    inode.block[1] = 0; // first logical block
    inode.block[2] = 3; // length
    inode.block[3] = 100; // physical start

    assert_eq!(inode.get_block_number(0, 1024, &mut fs).unwrap(), 100);
    assert_eq!(inode.get_block_number(1024, 1024, &mut fs).unwrap(), 101);
    assert_eq!(
        inode.get_block_number(2 * 1024, 1024, &mut fs).unwrap(),
        102
    );
    assert_eq!(
        inode.get_block_number(3 * 1024, 1024, &mut fs),
        Err(Ext4Error::BlockNotFound)
    );
}

#[test]
fn test_file_seek_bounds() {
    let mut inode = Inode::new(5);
    inode.mode = InodeMode::new(IFREG);
    inode.size = 2048;
    let mut file = File::new(inode);

    assert_eq!(file.seek(2048).unwrap(), 2048);
    assert!(file.seek(2049).is_err());
    assert_eq!(file.seek_from_end(-100).unwrap(), 1948);
    file.seek(10).unwrap();
    assert!(file.seek_from_current(-20).is_err());
}

#[test]
fn test_find_inode_and_read_dir() {
    let mut device = make_device(0, 2048);
    put_root_dir(&mut device);
    let mut fs = Ext4FileSystem::new(device, MountOptions::default()).unwrap();

    let root = fs.find_inode("/").unwrap();
    assert_eq!(root.ino, 2);
    assert!(root.is_dir());

    let entries = fs.read_dir(2).unwrap();
    assert_eq!(entries.len(), 2);
    assert_eq!(entries[0].name, ".");
    assert_eq!(entries[1].name, "..");

    assert_eq!(
        fs.find_inode("/missing").err(),
        Some(Ext4Error::InodeNotFound)
    );
}

#[test]
fn test_create_file() {
    let mut device = make_device(0, 2048);
    put_root_dir(&mut device);
    let mut fs = Ext4FileSystem::new(device, MountOptions::default()).unwrap();

    let ino = fs
        .create_file(2, "foo", InodeMode::new(DEFAULT_FILE_MODE))
        .expect("create_file should succeed");

    let found = fs.find_inode("/foo").expect("new file should be found");
    assert_eq!(found.ino, ino);
    assert!(found.is_file());

    // Creating it again collides
    assert_eq!(
        fs.create_file(2, "foo", InodeMode::new(DEFAULT_FILE_MODE)),
        Err(Ext4Error::FileExists)
    );
}

#[test]
fn test_create_dir_and_read_it() {
    let mut device = make_device(0, 2048);
    put_root_dir(&mut device);
    let mut fs = Ext4FileSystem::new(device, MountOptions::default()).unwrap();

    let bar_ino = fs
        .create_dir(2, "bar", InodeMode::new(DEFAULT_DIR_MODE))
        .expect("create_dir should succeed");

    let entries = fs.read_dir(bar_ino).expect("new directory should read");
    assert_eq!(entries.len(), 2);
    assert_eq!(entries[0].name, ".");
    assert_eq!(entries[0].ino, bar_ino);
    assert_eq!(entries[1].name, "..");
    assert_eq!(entries[1].ino, 2, ".. should point to the root");

    let found = fs.find_inode("/bar").unwrap();
    assert_eq!(found.ino, bar_ino);
    assert!(found.is_dir());
}

#[test]
fn test_read_dir_not_a_directory() {
    let mut device = make_device(0, 2048);
    let mut reg = Inode::new(5);
    reg.mode = InodeMode::new(IFREG);
    put_inode(&mut device, 5, &reg);
    let mut fs = Ext4FileSystem::new(device, MountOptions::default()).unwrap();
    assert_eq!(fs.read_dir(5).err(), Some(Ext4Error::NotADirectory));
}

#[test]
fn test_extents_root_directory() {
    // With the extents feature, the root directory's data is reached
    // through the inline extent root in its block array.
    let mut device = make_device(0x0040, 2048);
    let data = dir_block(&[(2, 2, "."), (2, 2, "..")]);
    device.write_block(50, &data).unwrap();

    let mut root = Inode::new(2);
    root.mode = InodeMode::new(IFDIR | 0o755);
    root.size = 1024;
    root.blocks = 1;
    root.block[0] = 0xF30A | (1 << 16); // inline extent, one entry
    root.block[1] = 0; // first logical block
    root.block[2] = 1; // length
    root.block[3] = 50; // physical start
    put_inode(&mut device, 2, &root);

    let mut fs = Ext4FileSystem::new(device, MountOptions::default()).unwrap();
    let entries = fs.read_dir(2).unwrap();
    assert!(entries.len() >= 2);
    assert_eq!(entries[0].name, ".");
    assert_eq!(entries[1].name, "..");
}

#[test]
fn test_file_write_and_read_back() {
    let mut device = make_device(0, 2048);
    put_root_dir(&mut device);
    let mut fs = Ext4FileSystem::new(device, MountOptions::default()).unwrap();

    let mut inode = Inode::new(5);
    inode.mode = InodeMode::new(IFREG);
    put_inode(&mut fs.device, 5, &inode);

    let mut file = File::new(inode);
    let n = file.write(b"hello, world", &mut fs).unwrap();
    assert_eq!(n, 12);
    assert_eq!(file.size(), 12);
    assert_eq!(file.position(), 12);

    file.seek(0).unwrap();
    let mut buf = vec![0u8; 12];
    let n = file.read(&mut buf, &mut fs).unwrap();
    assert_eq!(n, 12);
    assert_eq!(&buf, b"hello, world");
}

#[test]
fn test_truncate_grows_with_zeros() {
    // Growing a 4096-byte file to 8192: the size doubles and the newly
    // exposed bytes read as zero.
    let mut device = make_device(0, 2048);

    // Fill blocks 100..104 with nonzero data
    let ones = vec![0xAAu8; 1024];
    for b in 100u64..104u64 {
        device.write_block(b, &ones).unwrap();
    }
    let mut fs = Ext4FileSystem::new(device, MountOptions::default()).unwrap();

    let mut inode = Inode::new(5);
    inode.mode = InodeMode::new(IFREG);
    inode.size = 4096;
    inode.blocks = 4;
    inode.block[0] = 100;
    inode.block[1] = 101;
    inode.block[2] = 102;
    inode.block[3] = 103;
    put_inode(&mut fs.device, 5, &inode);

    let mut file = File::new(inode);
    file.truncate(8192, &mut fs).expect("truncate should succeed");
    assert_eq!(file.size(), 8192);

    file.seek(4096).unwrap();
    let mut buf = vec![0xFFu8; 1024];
    let n = file.read(&mut buf, &mut fs).unwrap();
    assert_eq!(n, 1024);
    assert!(buf.iter().all(|&b| b == 0), "newly exposed bytes read as zero");

    // Shrinking clamps the position
    file.truncate(100, &mut fs).unwrap();
    assert_eq!(file.size(), 100);
    assert_eq!(file.position(), 100);
}

#[test]
fn test_symlink_inline_target() {
    let mut fs =
        Ext4FileSystem::new(make_device(0, 2048), MountOptions::default()).unwrap();

    // "abc/def" packed little-endian into the block array
    let mut inode = Inode::new(7);
    inode.mode = InodeMode::new(0xA000);
    inode.size = 7;
    inode.block[0] = u32::from_le_bytes(*b"abc/");
    inode.block[1] = u32::from_le_bytes(*b"def\x01"); // trailing byte is trimmed by size
    let link = SymLink::new(inode);
    assert_eq!(link.target(&mut fs).unwrap(), "abc/def");

    let mut cached = SymLink::new(Inode::new(8));
    cached.set_target("elsewhere".to_string());
    assert_eq!(cached.target(&mut fs).unwrap(), "elsewhere");
}
