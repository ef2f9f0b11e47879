//! Tests of the on-disk structure codecs: superblock, descriptors,
//! directory entries, extent nodes, the bitmap and the journal.

use ext4rs::inode::{DEFAULT_DIR_MODE, DEFAULT_FILE_MODE, IFDIR, IFLNK, IFREG};
use ext4rs::{
    parse_extent_node, Bitmap, BlockDevice, BlockGroupDescriptor, BlockType, Directory,
    DirectoryEntry, DirectoryIterator, Ext4Error, Ext4FileSystem, ExtentNode, Inode, InodeMode,
    InodeType, Journal, MemBlockDevice, MountOptions, SuperBlock,
};

fn sample_superblock_image() -> Vec<u8> {
    let mut sb = vec![0u8; 1024];
    sb[56..58].copy_from_slice(&0xEF53u16.to_le_bytes()); // magic
    sb[4..8].copy_from_slice(&128u32.to_le_bytes()); // blocks count lo
    sb[24..28].copy_from_slice(&0u32.to_le_bytes()); // log block size -> 1024
    sb[40..44].copy_from_slice(&128u32.to_le_bytes()); // inodes per group
    sb[32..36].copy_from_slice(&8192u32.to_le_bytes()); // blocks per group
    sb[76..80].copy_from_slice(&1u32.to_le_bytes()); // revision level
    sb[88..90].copy_from_slice(&128u16.to_le_bytes()); // inode size
    sb
}

#[test]
fn test_superblock_round_trip() {
    let image = sample_superblock_image();

    let first = SuperBlock::from_bytes(&image).expect("superblock should parse");
    assert_eq!(first.magic(), 0xEF53);
    assert_eq!(first.blocks_count(), 128);
    assert_eq!(first.block_size(), 1024);
    assert_eq!(first.inodes_per_group(), 128);
    assert_eq!(first.blocks_per_group(), 8192);
    assert_eq!(first.rev_level(), 1);
    assert_eq!(first.inode_size(), 128);
    first.validate().expect("superblock should validate");

    // Parsing the same image again gives identical observable fields
    let second = SuperBlock::from_bytes(&image).expect("superblock should parse again");
    assert_eq!(first.inodes_count(), second.inodes_count());
    assert_eq!(first.blocks_count(), second.blocks_count());
    assert_eq!(first.reserved_blocks_count(), second.reserved_blocks_count());
    assert_eq!(first.free_blocks_count(), second.free_blocks_count());
    assert_eq!(first.free_inodes_count(), second.free_inodes_count());
    assert_eq!(first.first_data_block(), second.first_data_block());
    assert_eq!(first.block_size(), second.block_size());
    assert_eq!(first.cluster_size(), second.cluster_size());
    assert_eq!(first.blocks_per_group(), second.blocks_per_group());
    assert_eq!(first.inodes_per_group(), second.inodes_per_group());
    assert_eq!(first.magic(), second.magic());
    assert_eq!(first.state(), second.state());
    assert_eq!(first.rev_level(), second.rev_level());
    assert_eq!(first.inode_size(), second.inode_size());
    assert_eq!(first.feature_compat(), second.feature_compat());
    assert_eq!(first.feature_incompat(), second.feature_incompat());
    assert_eq!(first.feature_ro_compat(), second.feature_ro_compat());
    assert_eq!(first.uuid(), second.uuid());
    assert_eq!(first.volume_name(), second.volume_name());
    assert_eq!(first.jnl_blocks(), second.jnl_blocks());
    assert_eq!(first.hash_seed(), second.hash_seed());
    assert_eq!(first.checksum(), second.checksum());
}

#[test]
fn test_superblock_invalid_magic() {
    let sb = SuperBlock::from_bytes(&vec![0u8; 1024]).expect("all-zero image still parses");
    assert_eq!(sb.validate(), Err(Ext4Error::InvalidMagic));
}

#[test]
fn test_superblock_invalid_block_size() {
    let mut image = sample_superblock_image();
    image[24..28].copy_from_slice(&5u32.to_le_bytes()); // 1024 << 5 = 32768
    let sb = SuperBlock::from_bytes(&image).expect("image parses");
    assert_eq!(sb.block_size(), 32768);
    assert_eq!(sb.validate(), Err(Ext4Error::InvalidState));
}

#[test]
fn test_superblock_short_image() {
    assert_eq!(
        SuperBlock::from_bytes(&vec![0u8; 100]),
        Err(Ext4Error::InvalidInput)
    );
}

#[test]
fn test_bitmap_count_and_find() {
    let mut bitmap = Bitmap::new(100);
    assert_eq!(bitmap.count_free(), 100);
    assert_eq!(bitmap.count_set(), 0);
    assert_eq!(bitmap.find_first_set(), None);

    bitmap.set(10).unwrap();
    bitmap.set(30).unwrap();
    assert_eq!(bitmap.count_free(), 98);
    assert_eq!(bitmap.count_set(), 2);
    assert_eq!(bitmap.find_first_set(), Some(10));

    // Out-of-range bits are rejected
    assert_eq!(bitmap.set(100), Err(Ext4Error::InvalidInput));
    assert_eq!(bitmap.clear(100), Err(Ext4Error::InvalidInput));
    assert!(!bitmap.is_set(100));
    assert_eq!(bitmap.size(), 100);
}

#[test]
fn test_bitmap_from_bytes() {
    let bitmap = Bitmap::from_bytes(&[0xFF, 0x01]);
    assert_eq!(bitmap.size(), 16);
    assert!(bitmap.is_set(0));
    assert!(bitmap.is_set(7));
    assert!(bitmap.is_set(8));
    assert!(!bitmap.is_set(9));
    assert_eq!(bitmap.find_first_free(), Some(9));
    assert_eq!(bitmap.as_bytes(), &[0xFF, 0x01]);
}

#[test]
fn test_block_group_descriptor_round_trip() {
    let mut data = vec![0u8; 64];
    data[0..4].copy_from_slice(&10u32.to_le_bytes());
    data[4..8].copy_from_slice(&11u32.to_le_bytes());
    data[8..12].copy_from_slice(&12u32.to_le_bytes());
    data[12..14].copy_from_slice(&1000u16.to_le_bytes());
    data[14..16].copy_from_slice(&100u16.to_le_bytes());
    data[16..18].copy_from_slice(&5u16.to_le_bytes());
    data[18..20].copy_from_slice(&3u16.to_le_bytes());
    data[28..30].copy_from_slice(&7u16.to_le_bytes());

    let mut desc = BlockGroupDescriptor::from_bytes(&data).unwrap();
    assert_eq!(desc.flags(), 3);
    assert_eq!(desc.itable_unused(), 7);

    desc.set_free_blocks_count(999);
    desc.set_free_inodes_count(42);
    desc.set_used_dirs_count(6);

    let bytes = desc.to_bytes();
    assert_eq!(bytes.len(), 64);
    let again = BlockGroupDescriptor::from_bytes(&bytes).unwrap();
    assert_eq!(again.block_bitmap(), 10);
    assert_eq!(again.inode_bitmap(), 11);
    assert_eq!(again.inode_table(), 12);
    assert_eq!(again.free_blocks_count(), 999);
    assert_eq!(again.free_inodes_count(), 42);
    assert_eq!(again.used_dirs_count(), 6);
    assert_eq!(again.flags(), 3);
    assert_eq!(again.itable_unused(), 7);
}

#[test]
fn test_directory_entry_pack_and_parse() {
    // An entry with a 13-byte name packs to 24 bytes: header 8 plus the
    // name padded to 16.
    let mut dir = Directory::new();
    dir.add_entry(DirectoryEntry {
        ino: 42,
        rec_len: 0,
        name_len: 13,
        file_type: 1,
        name: "test_file.txt".to_string(),
    });
    dir.add_entry(DirectoryEntry {
        ino: 43,
        rec_len: 0,
        name_len: 1,
        file_type: 2,
        name: "x".to_string(),
    });

    let bytes = dir.to_bytes_with_block_size(1024).unwrap();
    // First entry keeps its packed size as rec_len
    let rec0 = u16::from_le_bytes([bytes[4], bytes[5]]);
    assert_eq!(rec0, 24, "packed size should be 8 + 13 padded to 16");
    // The last entry stretches to the end of the block
    assert_eq!(bytes.len(), 1024);

    let parsed = DirectoryEntry::from_bytes(&bytes[..24]).unwrap();
    assert_eq!(parsed.ino, 42);
    assert_eq!(parsed.rec_len, 24);
    assert_eq!(parsed.name_len, 13);
    assert_eq!(parsed.file_type, 1);
    assert_eq!(parsed.name, "test_file.txt");
}

#[test]
fn test_directory_entry_rejects_bad_utf8() {
    let mut data = vec![0u8; 16];
    data[0..4].copy_from_slice(&7u32.to_le_bytes()); // ino
    data[4..6].copy_from_slice(&16u16.to_le_bytes()); // rec_len
    data[6] = 2; // name_len
    data[7] = 1; // file_type
    data[8] = 0xFF;
    data[9] = 0xFE;
    assert_eq!(
        DirectoryEntry::from_bytes(&data),
        Err(Ext4Error::InvalidInput)
    );

    // The same record with a valid two-byte UTF-8 name parses, and the
    // name decodes to its character
    data[8] = 0xC3;
    data[9] = 0xA9;
    let entry = DirectoryEntry::from_bytes(&data).unwrap();
    assert_eq!(entry.name, "\u{e9}");

    // Too short a record is rejected
    assert_eq!(
        DirectoryEntry::from_bytes(&data[..4]),
        Err(Ext4Error::InvalidInput)
    );
}

fn raw_entry(buf: &mut [u8], off: usize, ino: u32, rec: u16, ftype: u8, name: &str) {
    buf[off..off + 4].copy_from_slice(&ino.to_le_bytes());
    buf[off + 4..off + 6].copy_from_slice(&rec.to_le_bytes());
    buf[off + 6] = name.len() as u8;
    buf[off + 7] = ftype;
    buf[off + 8..off + 8 + name.len()].copy_from_slice(name.as_bytes());
}

#[test]
fn test_directory_walk_visits_live_entries_once() {
    // A valid directory block: record lengths sum to the block size.
    // The walk must visit each live entry exactly once, skipping the
    // tombstone in the middle.
    let mut block = vec![0u8; 1024];
    raw_entry(&mut block, 0, 11, 12, 2, "ab");
    raw_entry(&mut block, 12, 0, 24, 0, ""); // tombstone
    raw_entry(&mut block, 36, 22, 988, 1, "cde");

    let dir = Directory::from_bytes(&block).unwrap();
    let entries = dir.entries();
    assert_eq!(entries.len(), 2);
    assert_eq!(entries[0].ino, 11);
    assert_eq!(entries[0].name, "ab");
    assert_eq!(entries[1].ino, 22);
    assert_eq!(entries[1].name, "cde");

    assert!(dir.find_entry("cde").is_some());
    assert_eq!(dir.find_entry("cde").unwrap().ino, 22);
    assert!(dir.find_entry("missing").is_none());
}

#[test]
fn test_directory_remove_entry() {
    let mut block = vec![0u8; 1024];
    raw_entry(&mut block, 0, 11, 12, 2, "ab");
    raw_entry(&mut block, 12, 22, 1012, 1, "cd");
    let mut dir = Directory::from_bytes(&block).unwrap();
    assert_eq!(dir.entries().len(), 2);

    let removed = dir.remove_entry("ab").expect("entry should exist");
    assert_eq!(removed.ino, 11);
    assert_eq!(dir.entries().len(), 1);
    assert!(dir.remove_entry("ab").is_none());
}

#[test]
fn test_directory_round_trip() {
    let mut dir = Directory::new();
    dir.add_entry(DirectoryEntry {
        ino: 7,
        rec_len: 0,
        name_len: 3,
        file_type: 1,
        name: "foo".to_string(),
    });
    dir.add_entry(DirectoryEntry {
        ino: 8,
        rec_len: 0,
        name_len: 3,
        file_type: 2,
        name: "bar".to_string(),
    });
    let bytes = dir.to_bytes_with_block_size(1024).unwrap();
    assert_eq!(bytes.len(), 1024);

    let again = Directory::from_bytes(&bytes).unwrap();
    let entries = again.entries();
    assert_eq!(entries.len(), 2);
    assert_eq!(entries[0].ino, 7);
    assert_eq!(entries[0].name, "foo");
    assert_eq!(entries[0].inode_type(), ext4rs::InodeType::File);
    assert_eq!(entries[1].ino, 8);
    assert_eq!(entries[1].name, "bar");
    assert_eq!(entries[1].inode_type(), ext4rs::InodeType::Directory);
}

#[test]
fn test_parse_extent_node_leaf() {
    let mut node = vec![0u8; 1024];
    node[0..2].copy_from_slice(&0xF30Au16.to_le_bytes()); // magic
    node[2..4].copy_from_slice(&2u16.to_le_bytes()); // entries
    node[4..6].copy_from_slice(&4u16.to_le_bytes()); // max entries
    node[6..8].copy_from_slice(&0u16.to_le_bytes()); // depth 0: leaf
    // extent records: logical block u32, len u16, start from offset 6
    node[12..16].copy_from_slice(&0u32.to_le_bytes());
    node[16..18].copy_from_slice(&3u16.to_le_bytes());
    node[18..22].copy_from_slice(&100u32.to_le_bytes());
    node[24..28].copy_from_slice(&3u32.to_le_bytes());
    node[28..30].copy_from_slice(&5u16.to_le_bytes());
    node[30..34].copy_from_slice(&200u32.to_le_bytes());

    match parse_extent_node(&node).unwrap() {
        ExtentNode::Leaf(extents) => {
            assert_eq!(extents.len(), 2);
            assert_eq!(extents[0].block, 0);
            assert_eq!(extents[0].len, 3);
            assert_eq!(extents[0].start, 100);
            assert_eq!(extents[1].block, 3);
            assert_eq!(extents[1].len, 5);
            assert_eq!(extents[1].start, 200);
        }
        ExtentNode::Index(_) => panic!("expected a leaf node"),
    }
}

#[test]
fn test_parse_extent_node_rejects_bad_magic() {
    let node = vec![0u8; 1024];
    assert!(matches!(
        parse_extent_node(&node),
        Err(Ext4Error::InvalidInput)
    ));
    assert!(matches!(
        parse_extent_node(&node[..4]),
        Err(Ext4Error::InvalidInput)
    ));
}

#[test]
fn test_journal_transactions() {
    let mut journal = Journal::new(8, 400, 1024);
    assert!(journal.is_enabled());
    assert_eq!(Journal::new(0, 400, 1024).is_enabled(), false);

    let id = journal.begin_transaction().unwrap();
    assert_eq!(id, 1);

    // Only one transaction may run at a time
    assert_eq!(
        journal.begin_transaction(),
        Err(Ext4Error::InvalidInput)
    );

    journal.add_block(5, vec![1, 2, 3], BlockType::Data).unwrap();

    // Committing needs a filesystem handle
    let mut device = MemBlockDevice::new(1024, 64);
    let mut sb_raw = sample_superblock_image();
    sb_raw[4..8].copy_from_slice(&64u32.to_le_bytes());
    device.write_block(1, &sb_raw).unwrap();
    let mut fs = Ext4FileSystem::new(device, MountOptions::default()).unwrap();

    journal.commit_transaction(&mut fs).unwrap();
    assert_eq!(
        journal.commit_transaction(&mut fs),
        Err(Ext4Error::InvalidInput)
    );

    // A fresh transaction gets the next id, and can be aborted
    let id2 = journal.begin_transaction().unwrap();
    assert_eq!(id2, 2);
    journal.abort_transaction().unwrap();
    assert_eq!(journal.abort_transaction(), Err(Ext4Error::InvalidInput));

    journal.replay(&mut fs).unwrap();
}

#[test]
fn test_journal_transaction_size_limit() {
    let mut journal = Journal::new(8, 4, 1024); // max transaction size 1
    journal.begin_transaction().unwrap();
    journal.add_block(1, vec![0], BlockType::Descriptor).unwrap();
    assert_eq!(
        journal.add_block(2, vec![0], BlockType::Data),
        Err(Ext4Error::NoSpaceLeft)
    );
}

#[test]
fn test_inode_round_trip() {
    let mut inode = Inode::new(9);
    inode.mode = InodeMode::new(DEFAULT_FILE_MODE);
    inode.uid = 7;
    inode.gid = 8;
    inode.size = 12345;
    inode.links_count = 3;
    inode.blocks = 13;
    inode.flags = 0x20;
    inode.atime = 100;
    inode.ctime = 200;
    inode.mtime = 300;
    inode.block[0] = 77;
    inode.block[14] = 99;

    let image = inode.to_bytes();
    assert_eq!(image.len(), 256);
    let again = Inode::from_bytes(&image, 9).unwrap();
    assert_eq!(again.ino, inode.ino);
    assert_eq!(again.mode, inode.mode);
    assert_eq!(again.uid, inode.uid);
    assert_eq!(again.gid, inode.gid);
    assert_eq!(again.size, inode.size);
    assert_eq!(again.links_count, inode.links_count);
    assert_eq!(again.blocks, inode.blocks);
    assert_eq!(again.flags, inode.flags);
    assert_eq!(again.atime, inode.atime);
    assert_eq!(again.ctime, inode.ctime);
    assert_eq!(again.mtime, inode.mtime);
    assert_eq!(again.block, inode.block);

    // A short image is rejected
    assert!(Inode::from_bytes(&image[..100], 9).is_err());
}

#[test]
fn test_inode_types_and_permissions() {
    let mut inode = Inode::new(3);
    inode.mode = InodeMode::new(IFREG | 0o644);
    assert_eq!(inode.inode_type(), InodeType::File);
    assert!(inode.is_file());
    assert!(!inode.is_dir());
    assert!(!inode.is_symlink());
    assert_eq!(inode.permissions(), 0o644);

    inode.mode = InodeMode::new(IFDIR | 0o755);
    assert_eq!(inode.inode_type(), InodeType::Directory);
    assert!(inode.is_dir());

    inode.mode = InodeMode::new(IFLNK | 0o777);
    assert_eq!(inode.inode_type(), InodeType::SymLink);
    assert!(inode.is_symlink());

    assert!(inode.mode.contains(IFLNK));
    assert!(!inode.mode.contains(IFDIR));
    assert_eq!(inode.mode.bits(), IFLNK | 0o777);

    // Ceiling division of the size into blocks
    inode.size = 4097;
    assert_eq!(inode.block_count(1024), 5);
    inode.size = 4096;
    assert_eq!(inode.block_count(1024), 4);
    inode.size = 0;
    assert_eq!(inode.block_count(1024), 0);
}

#[test]
fn test_new_directory_inode() {
    let inode = Inode::new_directory(6, InodeMode::new(DEFAULT_DIR_MODE));
    assert_eq!(inode.ino, 6);
    assert!(inode.is_dir());
    assert_eq!(inode.mode.bits(), DEFAULT_DIR_MODE | IFDIR);
    assert_eq!(inode.links_count, 2);
}

#[test]
fn test_directory_iterator_entry_sizes() {
    let mut block = vec![0u8; 64];
    raw_entry(&mut block, 0, 5, 16, 1, "name1");
    raw_entry(&mut block, 16, 6, 48, 1, "name2");

    let mut iter = DirectoryIterator::new(&block);
    let first = iter.next().unwrap().unwrap();
    assert_eq!(first.ino, 5);
    assert_eq!(first.entry_size(), 13);
    let second = iter.next().unwrap().unwrap();
    assert_eq!(second.ino, 6);
    assert!(iter.next().is_none());
}
