//! Tests for block read/write operations

use ext4rs::{BlockDevice, MemBlockDevice};

fn block_of(data: &[u8], block_size: usize) -> Vec<u8> {
    let mut buf = vec![0u8; block_size];
    buf[..data.len()].copy_from_slice(data);
    buf
}

#[test]
fn test_mock_block_device() {
    // Create an in-memory block device
    let mut device = MemBlockDevice::new(1024, 2048); // 1024 byte blocks, 2048 blocks

    // Test device properties
    assert_eq!(device.block_size(), 1024);
    assert_eq!(device.num_blocks(), 2048);
    assert_eq!(device.size(), 1024 * 2048);

    // Test block read/write
    let test_data = b"Hello, ext4 block test!";
    let mut read_buffer = vec![0u8; 1024];

    // Write test data to block 100
    device
        .write_block(100, &block_of(test_data, 1024))
        .expect("Failed to write block");

    // Read the data back
    device
        .read_block(100, &mut read_buffer)
        .expect("Failed to read block");

    // Verify the data
    assert_eq!(
        test_data,
        &read_buffer[..test_data.len()],
        "Block read/write data mismatch"
    );
}

#[test]
fn test_multiple_block_operations() {
    // Create an in-memory block device
    let mut device = MemBlockDevice::new(1024, 2048);

    // Test multiple block operations
    let test_blocks: [u64; 5] = [10, 50, 100, 500, 1000];
    let test_data = b"Block test data for multiple blocks";

    for &block_num in &test_blocks {
        // Write test data
        device
            .write_block(block_num, &block_of(test_data, 1024))
            .expect("Failed to write block");

        // Read back and verify
        let mut read_buffer = vec![0u8; 1024];
        device
            .read_block(block_num, &mut read_buffer)
            .expect("Failed to read block");

        assert_eq!(
            test_data,
            &read_buffer[..test_data.len()],
            "Data mismatch for block {}",
            block_num
        );
    }
}

#[test]
fn test_block_boundaries() {
    // Create an in-memory block device
    let mut device = MemBlockDevice::new(1024, 2048);

    // Test reading/writing at block boundaries
    let first_block: u64 = 0;
    let last_block: u64 = 2047;

    let test_data = vec![0xABu8; 1024];

    device
        .write_block(first_block, &test_data)
        .expect("Failed to write first block");
    let mut read_buffer = vec![0u8; 1024];
    device
        .read_block(first_block, &mut read_buffer)
        .expect("Failed to read first block");
    assert_eq!(test_data, read_buffer, "First block data mismatch");

    device
        .write_block(last_block, &test_data)
        .expect("Failed to write last block");
    let mut read_buffer = vec![0u8; 1024];
    device
        .read_block(last_block, &mut read_buffer)
        .expect("Failed to read last block");
    assert_eq!(test_data, read_buffer, "Last block data mismatch");
}

#[test]
fn test_invalid_block_access() {
    // Create an in-memory block device
    let mut device = MemBlockDevice::new(1024, 2048);

    let test_data = b"Test data";

    // Writing past the last block must fail
    assert!(
        device.write_block(2048, &block_of(test_data, 1024)).is_err(),
        "Writing to invalid block should fail"
    );

    // Reading past the last block must fail
    let mut read_buffer = vec![0u8; 1024];
    assert!(
        device.read_block(2048, &mut read_buffer).is_err(),
        "Reading from invalid block should fail"
    );
}
