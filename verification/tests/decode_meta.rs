use openinfer_glm52::decode_meta::{
    usize_to_i32, Glm52DecodeBatchGeometry, Glm52DecodeBatchHostMetadata, Glm52DecodeMetaError,
    Glm52DecodePageRow, GLM52_DECODE_BATCH_CAP,
};

fn test_geometry() -> Glm52DecodeBatchGeometry {
    Glm52DecodeBatchGeometry::new(GLM52_DECODE_BATCH_CAP, 64, 1024, 100, 99, 132).unwrap()
}

#[test]
fn host_metadata_builds_dense_vllm_contract_and_padding() {
    let geometry = test_geometry();
    let row0_blocks = [3, 4];
    let row1_blocks = [7];
    let rows = [
        Glm52DecodePageRow::new(65, &row0_blocks),
        Glm52DecodePageRow::new(64, &row1_blocks),
    ];

    let host = Glm52DecodeBatchHostMetadata::build(geometry, &rows).unwrap();

    assert_eq!(host.active_rows, 2);
    assert_eq!(host.max_seq_len, 65);
    assert_eq!(host.total_active_blocks, 3);
    assert_eq!(host.seq_lens_2d[0], 65);
    assert_eq!(host.seq_lens_2d[1], 64);
    assert_eq!(host.seq_lens_2d[2], 1);
    assert_eq!(host.positions[0], 64);
    assert_eq!(host.positions[1], 63);
    assert_eq!(host.slot_mapping[0], 4 * 64);
    assert_eq!(host.slot_mapping[1], 7 * 64 + 63);
    assert_eq!(host.slot_mapping[2], 99 * 64);
    assert_eq!(host.active_rows_scalar, vec![2]);
    assert_eq!(&host.active_mask[0..4], &[1, 1, 0, 0]);

    let stride = geometry.max_blocks_per_row;
    assert_eq!(&host.block_table[0..3], &[3, 4, 99]);
    assert_eq!(&host.block_table[stride..stride + 2], &[7, 99]);
    assert_eq!(host.block_table[2 * stride], 99);
    assert!(host.decode_lens.iter().all(|&len| len == 1));
}

#[test]
fn host_metadata_rejects_page_accounting_drift() {
    let geometry = test_geometry();
    let one_block = [3];
    let rows = [Glm52DecodePageRow::new(65, &one_block)];

    let err = Glm52DecodeBatchHostMetadata::build(geometry, &rows).unwrap_err();
    assert!(
        err.message().contains("needs 2"),
        "unexpected error: {}",
        err.message()
    );
}

#[test]
fn geometry_rejects_non_fixed_batch_and_bad_padding() {
    assert!(Glm52DecodeBatchGeometry::new(64, 64, 1024, 100, 99, 132).is_err());
    assert!(
        Glm52DecodeBatchGeometry::new(GLM52_DECODE_BATCH_CAP, 64, 1024, 100, 100, 132).is_err()
    );
}

#[test]
fn geometry_refusals_come_in_order() {
    let new = Glm52DecodeBatchGeometry::new;
    assert_eq!(
        new(64, 0, 0, 0, -1, 0).unwrap_err(),
        Glm52DecodeMetaError::BatchCapacity { got: 64 }
    );
    assert_eq!(
        new(128, 0, 0, 0, -1, 0).unwrap_err(),
        Glm52DecodeMetaError::BlockSize
    );
    assert_eq!(
        new(128, 64, 0, 0, -1, 0).unwrap_err(),
        Glm52DecodeMetaError::MaxModelLen
    );
    assert_eq!(
        new(128, 64, 1024, 0, -1, 0).unwrap_err(),
        Glm52DecodeMetaError::PoolBlocks
    );
    assert_eq!(
        new(128, 64, 1024, 100, -1, 0).unwrap_err().message(),
        "GLM5.2 decode padding block must be non-negative, got -1"
    );
    assert_eq!(
        new(128, 64, 1024, 100, 100, 0).unwrap_err().message(),
        "GLM5.2 decode padding block 100 exceeds pool blocks 100"
    );
    assert_eq!(
        new(128, 64, 1024, 100, 99, 0).unwrap_err(),
        Glm52DecodeMetaError::NumSms
    );
    let fixed = Glm52DecodeBatchGeometry::fixed_h200(64, 1000, 100, 99).unwrap();
    assert_eq!(fixed.max_blocks_per_row, 16);
    assert_eq!(fixed.schedule_metadata_len(), 266);
    assert_eq!(fixed.block_table_len(), Ok(128 * 16));
    assert!(fixed.check_schedule_metadata(266).is_ok());
    assert_eq!(
        fixed.check_schedule_metadata(264).unwrap_err().message(),
        "GLM5.2 schedule_metadata length 264 does not match [133, 2]"
    );
}

#[test]
fn row_refusals_name_the_row() {
    let geometry = test_geometry();
    let good = [3];
    let build = |seq_len: usize, blocks: &[i32]| {
        let rows = [
            Glm52DecodePageRow::new(1, &good),
            Glm52DecodePageRow::new(seq_len, blocks),
        ];
        Glm52DecodeBatchHostMetadata::build(geometry, &rows)
            .unwrap_err()
            .message()
    };
    assert_eq!(build(0, &[]), "GLM5.2 decode row 1 has zero KV length");
    assert_eq!(
        build(1025, &[1]),
        "GLM5.2 decode row 1 seq_len 1025 exceeds max_model_len 1024"
    );
    assert_eq!(
        build(65, &[1]),
        "GLM5.2 decode row 1 has 1 blocks for 65 tokens, needs 2"
    );
    assert_eq!(
        build(65, &[1, -2]),
        "GLM5.2 decode row 1 block 1 is negative: -2"
    );
    assert_eq!(
        build(65, &[100, 2]),
        "GLM5.2 decode row 1 block 100 exceeds pool blocks 100"
    );
}

#[test]
fn an_empty_batch_is_all_padding() {
    let host = Glm52DecodeBatchHostMetadata::build(test_geometry(), &[]).unwrap();
    assert_eq!(host.active_rows, 0);
    assert_eq!(host.max_seq_len, 1);
    assert_eq!(host.total_active_blocks, 0);
    assert!(host.block_table.iter().all(|&block| block == 99));
    assert!(host.slot_mapping.iter().all(|&slot| slot == 99 * 64));
}

#[test]
fn more_rows_than_the_bucket_are_refused() {
    let block = [0];
    let rows = vec![Glm52DecodePageRow::new(1, &block); 129];
    let err = Glm52DecodeBatchHostMetadata::build(test_geometry(), &rows).unwrap_err();
    assert_eq!(
        err.message(),
        "GLM5.2 decode active rows 129 exceed fixed bucket 128"
    );
}

#[test]
fn numbers_beyond_i32_do_not_convert() {
    assert_eq!(usize_to_i32(0x7fff_ffff), Some(i32::MAX));
    assert_eq!(usize_to_i32(0x8000_0000), None);
}

#[test]
fn only_the_slots_in_use_must_be_numbers() {
    let pool = 1usize << 40;
    let geometry =
        Glm52DecodeBatchGeometry::new(GLM52_DECODE_BATCH_CAP, 1 << 24, 1 << 25, pool, 0, 132)
            .unwrap();
    let blocks = [5, i32::MAX];
    let rows = [Glm52DecodePageRow::new((1 << 24) + 1, &blocks)];
    let host = Glm52DecodeBatchHostMetadata::build(geometry, &rows).unwrap();
    assert_eq!(host.slot_mapping[0], i32::MAX as i64 * (1 << 24));
    assert_eq!(host.slot_mapping[1], 0);
}
