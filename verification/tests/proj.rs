use openinfer_glm52::proj::{
    check_mlp, check_mlp_shapes, dense_mlp_weights, judge_linear_smoke, linear_smoke_input,
    pack_proj_pair, plan_linear_smoke, projection_contract, shared_expert_weights, synth_proj,
    Glm52LinearInput, Glm52LinearProj, Glm52MlpPart, Glm52MlpScratch, Glm52Proj, Glm52ProjError,
};

fn proj(n: usize, k: usize) -> Glm52Proj {
    Glm52Proj { n, k }
}

#[test]
fn a_projection_has_a_scale_for_each_block() {
    assert_eq!(proj(2048, 6144).scale_len(), 16 * 48 * 4);
    assert_eq!(proj(576, 6144).scale_len(), 5 * 48 * 4);
    assert_eq!(proj(129, 1).scale_len(), 2 * 4);
    assert_eq!(proj(576, 6144).check_bytes(576 * 6144, 960), Ok(()));
    assert_eq!(
        proj(576, 6144).check_bytes(1, 960),
        Err(Glm52ProjError::WeightBytes { got: 1, n: 576, k: 6144 })
    );
    assert_eq!(
        proj(576, 6144).check_bytes(576 * 6144, 1),
        Err(Glm52ProjError::ScaleBytes { got: 1, n: 576, k: 6144 })
    );
    assert_eq!(proj(576, 6144).check_input(2, 2 * 6144), Ok(()));
    assert_eq!(
        proj(576, 6144).check_input(2, 6144),
        Err(Glm52ProjError::InputTooShort { got: 6144, rows: 2, k: 6144 })
    );
}

#[test]
fn packed_projections_keep_their_bytes_apart() {
    let pair = pack_proj_pair(proj(2048, 6144), proj(576, 6144)).unwrap();
    assert_eq!(pair.proj, proj(2624, 6144));
    assert_eq!(pair.weight_split, 2048 * 6144);
    assert_eq!(pair.weight_len, 2624 * 6144);
    assert_eq!(pair.scale_split, proj(2048, 6144).scale_len());
    assert_eq!(pair.scale_len, proj(2624, 6144).scale_len());
    assert_eq!(
        pack_proj_pair(proj(2048, 6144), proj(576, 512)).err(),
        Some(Glm52ProjError::PackInputs { first: 6144, second: 512 })
    );
    assert_eq!(
        pack_proj_pair(proj(100, 6144), proj(576, 6144)).err(),
        Some(Glm52ProjError::PackAlignment { n: 100 })
    );
}

#[test]
fn the_mlp_scratch_follows_the_intermediate_width() {
    let scratch = Glm52MlpScratch::new(2048, 8).unwrap();
    assert_eq!((scratch.gate_up_len, scratch.silu_len), (8 * 4096, 8 * 2048));
    assert_eq!(
        Glm52MlpScratch::new(100, 8).err(),
        Some(Glm52ProjError::IntermediateAlignment { intermediate: 100 })
    );
    assert_eq!(Glm52MlpScratch::new(2048, 0).err(), Some(Glm52ProjError::NoRows));
}

#[test]
fn an_mlp_forward_checks_its_shapes() {
    let scratch = Glm52MlpScratch::new(2048, 8).unwrap();
    assert!(check_mlp(proj(4096, 6144), proj(6144, 2048), scratch).is_ok());
    assert_eq!(
        check_mlp(proj(4095, 6144), proj(6144, 2048), scratch).err(),
        Some(Glm52ProjError::OddGateUp { n: 4095 })
    );
    assert_eq!(
        check_mlp(proj(4096, 6144), proj(6144, 1024), scratch).err(),
        Some(Glm52ProjError::MlpShapes { gate_up: proj(4096, 6144), down: proj(6144, 1024) })
    );
    let wide = Glm52MlpScratch::new(4096, 8).unwrap();
    assert_eq!(
        check_mlp(proj(4096, 6144), proj(6144, 2048), wide).err(),
        Some(Glm52ProjError::ScratchIntermediate { scratch: 4096, weights: 2048 })
    );
}

#[test]
fn dense_and_shared_mlps_have_their_widths() {
    let dense = dense_mlp_weights(proj(12_288, 6144), proj(12_288, 6144), proj(6144, 12_288));
    let dense = dense.unwrap();
    assert_eq!(dense.proj, proj(24_576, 6144));
    assert_eq!((dense.weight_split, dense.weight_len), (75_497_472, 150_994_944));
    assert_eq!((dense.scale_split, dense.scale_len), (18_432, 36_864));
    let shared = shared_expert_weights(proj(2048, 6144), proj(2048, 6144), proj(6144, 2048));
    let shared = shared.unwrap();
    assert_eq!(shared.proj, proj(4096, 6144));
    assert_eq!((shared.weight_split, shared.weight_len), (12_582_912, 25_165_824));
    assert_eq!((shared.scale_split, shared.scale_len), (3072, 6144));
    assert_eq!(
        dense_mlp_weights(proj(12_288, 6144), proj(1, 6144), proj(6144, 12_288)).err(),
        Some(Glm52ProjError::Shape {
            which: Glm52MlpPart::Up,
            got: proj(1, 6144),
            want: proj(12_288, 6144),
        })
    );
    assert_eq!(
        check_mlp_shapes(64, proj(64, 6144), proj(64, 6144), proj(6144, 65)).err(),
        Some(Glm52ProjError::Shape {
            which: Glm52MlpPart::Down,
            got: proj(6144, 65),
            want: proj(6144, 64),
        })
    );
}

#[test]
fn synthetic_weights_are_ones() {
    let (weight, scale) = synth_proj(3, 130);
    assert_eq!(weight, vec![0x38u8; 390]);
    assert_eq!(scale.len(), 2 * 4);
    for bytes in scale.chunks_exact(4) {
        assert_eq!(f32::from_le_bytes([bytes[0], bytes[1], bytes[2], bytes[3]]), 1.0);
    }
}

#[test]
fn the_projection_smoke_covers_the_attention() {
    let with = plan_linear_smoke(4, 128, true).unwrap();
    assert!(with.contains(&Glm52LinearProj::QA) && with.contains(&Glm52LinearProj::IndexerWk));
    assert_eq!(
        plan_linear_smoke(4, 128, false).err(),
        Some(Glm52ProjError::MissingIndexer)
    );
    assert_eq!(
        plan_linear_smoke(0, 128, true).err(),
        Some(Glm52ProjError::RowsOutOfRange { rows: 0, capacity: 128 })
    );
    assert_eq!(
        plan_linear_smoke(129, 128, true).err(),
        Some(Glm52ProjError::RowsOutOfRange { rows: 129, capacity: 128 })
    );
    assert_eq!(linear_smoke_input(Glm52LinearProj::OProj), Glm52LinearInput::AttentionOut);
    assert_eq!(linear_smoke_input(Glm52LinearProj::QB), Glm52LinearInput::QANormed);
}

#[test]
fn a_projection_contract_reads_matrix_shapes() {
    let contract = projection_contract(4, &vec![2048, 6144], &vec![16, 48]).unwrap();
    assert_eq!((contract.m, contract.n, contract.k), (4, 2048, 6144));
    assert_eq!((contract.weight_scale_rows, contract.weight_scale_cols), (16, 48));
    assert_eq!(contract.activation_scale_cols, 48);
    assert_eq!(
        projection_contract(4, &vec![2048], &vec![16, 48]).err(),
        Some(Glm52ProjError::NotRankTwo)
    );
    let which = Glm52LinearProj::QA;
    assert_eq!(judge_linear_smoke(which, contract, 4 * 6144, 4 * 48, 0, true, true), Ok(()));
    assert_eq!(
        judge_linear_smoke(which, contract, 1, 4 * 48, 0, true, true),
        Err(Glm52ProjError::LinearArena { which })
    );
    assert_eq!(
        judge_linear_smoke(which, contract, 4 * 6144, 4 * 48, 16, true, true),
        Err(Glm52ProjError::UnexpectedWorkspace { which, bytes: 16 })
    );
    assert_eq!(
        judge_linear_smoke(which, contract, 4 * 6144, 4 * 48, 0, true, false),
        Err(Glm52ProjError::SmokeFailed { which, quant_valid: true, output_nonzero: false })
    );
}
