use ferrosync_core::engine::checkpoint::{Checkpoint, CheckpointFile, VERSION};

#[test]
fn test_checkpoint_save_load_roundtrip() {
    let mut ckpt = Checkpoint::new(
        b"test_file.dat".to_vec(),
        1048576, // 1 MiB
        8192,    // 8 KiB blocks
        42,
        1700000000,
    );
    assert_eq!(ckpt.total_blocks(), 128);

    // Mark some blocks done.
    {
        let mut state = ckpt.resume_state();
        state.mark_block_done(0);
        state.mark_block_done(5);
        state.mark_block_done(127);
    }

    let saved = CheckpointFile::serialize(&ckpt);

    let loaded = CheckpointFile::deserialize(&saved).unwrap();

    assert_eq!(loaded, ckpt);
    assert_eq!(loaded.file_path, b"test_file.dat".to_vec());
    assert_eq!(loaded.file_size, 1048576);
    assert_eq!(loaded.block_size, 8192);
    assert_eq!(loaded.checksum_seed, 42);
    assert_eq!(loaded.timestamp, 1700000000);
    assert!(loaded.completed_blocks[0]);
    assert!(!loaded.completed_blocks[1]);
    assert!(loaded.completed_blocks[5]);
    assert!(loaded.completed_blocks[127]);
}

#[test]
fn test_partial_completion_tracking() {
    let mut ckpt = Checkpoint::new(b"data.bin".to_vec(), 40000, 10000, 0, 0);
    assert_eq!(ckpt.total_blocks(), 4);

    {
        let mut state = ckpt.resume_state();
        assert_eq!(state.blocks_remaining(), 4);
        assert!(!state.all_done());

        state.mark_block_done(0);
        state.mark_block_done(2);
        assert_eq!(state.blocks_remaining(), 2);
        assert!(state.is_block_done(0));
        assert!(!state.is_block_done(1));
        assert!(state.is_block_done(2));
        assert!(!state.is_block_done(3));
        assert!(!state.all_done());

        state.mark_block_done(1);
        state.mark_block_done(3);
        assert_eq!(state.blocks_remaining(), 0);
        assert!(state.all_done());
    }
}

#[test]
fn test_corrupt_checkpoint() {
    let result = CheckpointFile::deserialize(b"not a checkpoint");
    assert!(result.is_err());
}

#[test]
fn test_truncated_checkpoint() {

    // Write valid magic but truncated data.
    let mut data = Vec::new();
    data.extend_from_slice(b"FSCKPT\x00\x01");
    data.push(VERSION);
    // No more data -- should fail during deserialization.
    let result = CheckpointFile::deserialize(&data);
    assert!(result.is_err());
}

#[test]
fn test_zero_size_file_checkpoint() {
    let ckpt = Checkpoint::new(b"empty.txt".to_vec(), 0, 8192, 0, 0);
    assert_eq!(ckpt.total_blocks(), 0);
    assert!(ckpt.completed_blocks.is_empty());

    let saved = CheckpointFile::serialize(&ckpt);
    let loaded = CheckpointFile::deserialize(&saved).unwrap();
    assert_eq!(loaded, ckpt);
}

#[test]
fn test_zero_block_size() {
    let ckpt = Checkpoint::new(b"zero_bs.txt".to_vec(), 1000, 0, 0, 0);
    assert_eq!(ckpt.total_blocks(), 0);
}

#[test]
fn test_resume_state_out_of_bounds() {
    let mut ckpt = Checkpoint::new(b"small.txt".to_vec(), 100, 100, 0, 0);
    assert_eq!(ckpt.total_blocks(), 1);

    {
        let mut state = ckpt.resume_state();
        // Out-of-bounds mark is a no-op.
        state.mark_block_done(999);
        assert!(!state.is_block_done(999));
        assert_eq!(state.blocks_remaining(), 1);
    }
}

#[test]
fn test_large_block_bitmap_roundtrip() {
    // 10 GiB file with 4 KiB blocks = ~2.6M blocks
    // Use a smaller but still substantial count for test speed.
    let mut ckpt = Checkpoint::new(
        b"big.img".to_vec(),
        10 * 1024 * 1024, // 10 MiB
        4096,
        -1,
        1700000000,
    );
    let total = ckpt.total_blocks();
    assert_eq!(total, 2560);

    // Mark every other block done.
    {
        let mut state = ckpt.resume_state();
        for i in (0..total).step_by(2) {
            state.mark_block_done(i);
        }
        assert_eq!(state.blocks_remaining(), total / 2);
    }

    let saved = CheckpointFile::serialize(&ckpt);
    let loaded = CheckpointFile::deserialize(&saved).unwrap();
    assert_eq!(loaded, ckpt);
}

#[test]
fn a_cut_off_or_changed_checkpoint_is_refused() {
    let mut ckpt = Checkpoint::new(b"dir/file.bin".to_vec(), 1000, 100, 7, 1700000000);
    ckpt.resume_state().mark_block_done(3);
    let data = CheckpointFile::serialize(&ckpt);
    assert_eq!(CheckpointFile::deserialize(&data).unwrap(), ckpt);
    for n in 0..data.len() {
        assert!(CheckpointFile::deserialize(&data[..n]).is_err());
    }
    for i in 0..9 {
        let mut other = data.clone();
        other[i] ^= 0x20;
        assert!(CheckpointFile::deserialize(&other).is_err());
    }
}
