use openinfer_glm52::arena::{
    allocated_bytes, arena_buffers, bytes_bf16, bytes_f32, bytes_i32, bytes_i64, bytes_u8,
    validate_allocations, Glm52ArenaPlanError, Glm52DecodeArenaPlan, Glm52ScaleRows,
};
use openinfer_glm52::deepep::{Glm52DeepEpError, Glm52DeepEpShape};
use openinfer_glm52::moe_gemm::{
    validate_layer_plan, validate_moe_gemm_contract, Glm52GemmBuffers, Glm52GroupedWeightPlan,
    Glm52LayerExpertWeights, Glm52MoeGemmError,
};
use openinfer_glm52::moe_layout::{
    check_layout_scratch, check_tokens, deepgemm_psum_compatible, deepgemm_scale_source,
    first_active_expert_range, grouped_source_row, routes_valid, sample_rows, seed_factors,
    seed_routes, validate_moe_gemm_metadata_outputs, validate_moe_quant_rows,
    Glm52MoeGemmMetadata, Glm52MoeLayoutError, Glm52MoePsumLayoutSnapshot,
};
use openinfer_glm52::moe_routed::{
    check_bank, check_chain, check_router_weights, masked_lens, pack_experts, plan_routed,
    protocol_cap, recv_lens, router_lens, Glm52BankPart, Glm52EpInfo, Glm52ExpertPart,
    Glm52MoeChain, Glm52MoeRoutedError, Glm52MoeRoutedExpertBytes, Glm52ProjBytes,
    Glm52RoutedLaunch,
};
use openinfer_glm52::moe_smoke::Glm52MoeOperand;
use openinfer_glm52::proj::Glm52Proj;

const SCALE_ROWS: Glm52ScaleRows = Glm52ScaleRows { tma_aligned: 9216, grouped_offset: 9216 };

fn plan() -> Glm52DecodeArenaPlan {
    Glm52DecodeArenaPlan::tp1_dp8(SCALE_ROWS)
}

#[test]
fn the_dispatch_capacity_covers_the_worst_step() {
    let shape = Glm52DeepEpShape::tp1_dp8_h200();
    assert_eq!(shape.validate(), Ok(()));
    let capacity = shape.decode_capacity().unwrap();
    assert_eq!(capacity.worst_recv_tokens, 8 * 128);
    assert_eq!(capacity.worst_expanded_tokens, shape.expanded_rows_for_recv_tokens(1024));
    assert_eq!(capacity.worst_expanded_tokens, (1024usize * 8 + 32 * 63).next_multiple_of(64));
    assert_eq!(capacity.worst_expanded_tokens, 10_240);
}

#[test]
fn a_foreign_dispatch_shape_is_refused() {
    let good = Glm52DeepEpShape::tp1_dp8_h200();
    assert_eq!(
        Glm52DeepEpShape { hidden: 4096, ..good }.validate(),
        Err(Glm52DeepEpError::ModelConstants)
    );
    assert_eq!(
        Glm52DeepEpShape { ep_world: 4, ..good }.validate().is_err(),
        true
    );
    assert_eq!(
        Glm52DeepEpShape { decode_max_tokens_per_rank: 0, ..good }.validate(),
        Err(Glm52DeepEpError::Capacities)
    );
}

#[test]
fn element_widths_are_in_bytes() {
    assert_eq!(bytes_bf16(3), 6);
    assert_eq!(bytes_f32(3), 12);
    assert_eq!(bytes_i32(3), 12);
    assert_eq!(bytes_i64(3), 24);
    assert_eq!(bytes_u8(3), 3);
}

#[test]
fn the_arena_is_as_large_as_its_buffers() {
    let total: usize = arena_buffers(SCALE_ROWS).iter().map(|b| b.elements * b.width).sum();
    assert_eq!(plan().total_bytes, total);
    assert_eq!(allocated_bytes(SCALE_ROWS), total);
    assert_eq!(total, 500_073_480 + 256 * (9216 + 9216));
}

#[test]
fn an_arena_plan_is_checked() {
    assert_eq!(plan().validate(SCALE_ROWS), Ok(()));
    let mut wrong = plan();
    wrong.hidden = 1;
    assert_eq!(wrong.validate(SCALE_ROWS), Err(Glm52ArenaPlanError::ModelConstants));
    let mut wrong = plan();
    wrong.total_bytes = 0;
    assert_eq!(wrong.validate(SCALE_ROWS), Err(Glm52ArenaPlanError::NoBytes));
}

#[test]
fn allocations_are_held_against_the_plan() {
    let lens: Vec<usize> = arena_buffers(SCALE_ROWS).iter().map(|b| b.elements).collect();
    assert_eq!(validate_allocations(&plan(), SCALE_ROWS, &lens), Ok(()));
    let mut short = lens.clone();
    short[4] -= 1;
    assert_eq!(
        validate_allocations(&plan(), SCALE_ROWS, &short),
        Err(Glm52ArenaPlanError::BufferLengths)
    );
    let mut wrong = plan();
    wrong.total_bytes += 1;
    assert!(matches!(
        validate_allocations(&wrong, SCALE_ROWS, &lens),
        Err(Glm52ArenaPlanError::ByteAccounting { .. })
    ));
}

/// Running ends of 32 experts whose first ones have these many rows.
fn psum(counts: &[i32]) -> Vec<i32> {
    let mut ends = vec![];
    let mut at = 0;
    for expert in 0..32 {
        let count = counts.get(expert).copied().unwrap_or(0);
        ends.push(at + count);
        at += (count + 63) / 64 * 64;
    }
    ends
}

#[test]
fn a_dispatch_layout_is_summed_up() {
    let mut psum_rank = vec![0i32; 8];
    psum_rank[7] = 70;
    let snapshot =
        Glm52MoePsumLayoutSnapshot::new(3, &plan(), psum_rank.clone(), psum(&[65, 0, 3])).unwrap();
    assert_eq!(snapshot.report.rank, 3);
    assert_eq!(snapshot.report.active_experts, 2);
    assert!(snapshot.report.grouped_layout_valid);
    assert!(!snapshot.report.empty_rank);
    assert!(deepgemm_psum_compatible(&snapshot.psum_expert, 64));

    let empty = Glm52MoePsumLayoutSnapshot::new(3, &plan(), vec![0; 8], psum(&[])).unwrap();
    assert!(empty.report.empty_rank);
    assert_eq!(empty.report.active_experts, 0);

    assert!(matches!(
        Glm52MoePsumLayoutSnapshot::new(3, &plan(), vec![0; 7], psum(&[])),
        Err(Glm52MoeLayoutError::SnapshotShape { rank: 3, psum_rank: 7, psum_expert: 32 })
    ));
    let mut backwards = psum(&[65, 0, 3]);
    backwards[5] = 1;
    assert!(matches!(
        Glm52MoePsumLayoutSnapshot::new(3, &plan(), psum_rank, backwards),
        Err(Glm52MoeLayoutError::Invalid { rank: 3 })
    ));
}

#[test]
fn layout_scratch_must_hold_the_sums() {
    assert_eq!(check_layout_scratch(0, &plan(), 8, 33), Ok(()));
    assert!(matches!(
        check_layout_scratch(0, &plan(), 7, 33),
        Err(Glm52MoeLayoutError::ScratchTooSmall { .. })
    ));
}

#[test]
fn wide_blocks_imply_narrow_ones() {
    let wide: Vec<i32> = vec![128, 128, 256 + 5];
    assert!(deepgemm_psum_compatible(&wide, 64) || !deepgemm_psum_compatible(&wide, 128));
    let narrow = psum(&[65, 3]);
    assert!(deepgemm_psum_compatible(&narrow, 64));
}

#[test]
fn the_gemm_metadata_follows_the_layout() {
    let ends = psum(&[65, 0, 3]);
    let mut offsets = vec![0i64; 33];
    let mut w13 = vec![0i32; 96];
    let mut w2 = vec![0i32; 96];
    let mut start = 0i64;
    for expert in 0..32 {
        offsets[expert] = start;
        let count = ends[expert] as i64 - start;
        start += (count + 63) / 64 * 64;
        for (k, (a, b)) in [(count, count), (4096, 6144), (6144, 2048)].into_iter().enumerate() {
            w13[3 * expert + k] = a as i32;
            w2[3 * expert + k] = b as i32;
        }
    }
    offsets[32] = start;
    let metadata = Glm52MoeGemmMetadata {
        expert_offsets: offsets,
        w13_problem_sizes: w13,
        w2_problem_sizes: w2,
    };
    let v = validate_moe_gemm_metadata_outputs(&plan(), &ends, &metadata, 100, 48 * 100, 16 * 100);
    let v = v.unwrap();
    assert_eq!(v.active_experts, 2);
    assert!(v.trtllm_grouped_offset_scale_rows_covered);
    assert!(matches!(
        validate_moe_gemm_metadata_outputs(&plan(), &vec![0; 3], &metadata, 100, 4800, 1600),
        Err(Glm52MoeLayoutError::MetadataEntries { .. })
    ));
}

#[test]
fn the_first_active_expert_is_found() {
    assert_eq!(first_active_expert_range(&vec![0, 0, 5, 9], 100), Ok(Some((0, 5))));
    assert_eq!(first_active_expert_range(&vec![0, 0, 0], 100), Ok(None));
    assert_eq!(
        first_active_expert_range(&vec![0], 100),
        Err(Glm52MoeLayoutError::TooFewOffsets { got: 1 })
    );
    assert!(matches!(
        first_active_expert_range(&vec![0, 101], 100),
        Err(Glm52MoeLayoutError::Offsets { .. })
    ));
}

#[test]
fn samples_stay_in_their_rows() {
    let ranges = sample_rows(2, 10, 100, 1000).unwrap();
    assert_eq!(ranges, vec![(200, 100), (300, 100), (400, 100), (500, 100)]);
    assert_eq!(sample_rows(0, 2, 2000, 4000).unwrap(), vec![(0, 1024), (2000, 1024)]);
    assert!(matches!(
        sample_rows(2, 11, 100, 1000),
        Err(Glm52MoeLayoutError::SampleRange { .. })
    ));
}

#[test]
fn token_and_row_counts_are_bounded() {
    assert_eq!(check_tokens(8, 128), Ok(()));
    assert_eq!(check_tokens(0, 128), Err(Glm52MoeLayoutError::Tokens { tokens: 0, capacity: 128 }));
    assert_eq!(
        check_tokens(129, 128),
        Err(Glm52MoeLayoutError::Tokens { tokens: 129, capacity: 128 })
    );
    let worst = plan().deepep_worst_expanded_tokens;
    assert_eq!(validate_moe_quant_rows(&plan(), worst), Ok(()));
    assert_eq!(
        validate_moe_quant_rows(&plan(), worst + 1),
        Err(Glm52MoeLayoutError::Rows { rows: worst + 1, capacity: worst })
    );
}

#[test]
fn seeded_routes_reach_one_expert_of_each_rank() {
    let routes = seed_routes(2, 128, 32).unwrap();
    assert_eq!(&routes[..8], &[0, 32, 64, 96, 128, 160, 192, 224]);
    assert!(routes_valid(&routes[..16].to_vec(), &vec![true; 16], 2, 8, 256));
    let mut repeated = routes[..16].to_vec();
    repeated[1] = 0;
    assert!(!routes_valid(&repeated, &vec![true; 16], 2, 8, 256));
    let mut weights = vec![true; 16];
    weights[3] = false;
    assert!(!routes_valid(&routes[..16].to_vec(), &weights, 2, 8, 256));
    let factors = seed_factors(2, 3, 17, 4);
    assert_eq!(factors.len(), 6);
}

#[test]
fn scale_layouts_are_read_column_by_column() {
    assert_eq!(deepgemm_scale_source(0, 3, 2, 4), Some(0));
    assert_eq!(deepgemm_scale_source(1, 3, 2, 4), Some(2));
    assert_eq!(deepgemm_scale_source(3, 3, 2, 4), None);
    assert_eq!(deepgemm_scale_source(4, 3, 2, 4), Some(1));
}

#[test]
fn grouped_rows_come_from_their_expert() {
    let offsets = vec![0i64, 3, 5];
    let starts = vec![0usize, 32];
    assert_eq!(grouped_source_row(&offsets, &starts, 100, 2), Some(Some(2)));
    assert_eq!(grouped_source_row(&offsets, &starts, 100, 33), Some(Some(4)));
    assert_eq!(grouped_source_row(&offsets, &starts, 100, 10), Some(None));
}

fn info() -> Glm52EpInfo {
    Glm52EpInfo {
        num_ranks: 8,
        num_experts: 256,
        num_local_experts: 32,
        num_topk: 8,
        hidden: 6144,
        expert_alignment: 64,
        decode_max_tokens_per_rank: 8,
        decode_worst_recv_tokens: 64,
        decode_worst_expanded_tokens: 2560,
    }
}

#[test]
fn the_routers_weights_are_checked() {
    assert_eq!(check_router_weights(256 * 6144 * 2, 256 * 4), Ok(()));
    assert_eq!(
        check_router_weights(1, 1024),
        Err(Glm52MoeRoutedError::RouterBytes { gate: 1, bias: 1024 })
    );
    assert_eq!(router_lens(4), Ok((4 * 256, 4 * 8)));
    assert_eq!(router_lens(0), Err(Glm52MoeRoutedError::RouterRows));
}

#[test]
fn an_expert_bank_is_as_large_as_its_experts() {
    let (w13, w13_scale) = (32u64 * 4096 * 6144, 32u64 * 32 * 48);
    let (w2, w2_scale) = (32u64 * 6144 * 2048, 32u64 * 48 * 16);
    assert_eq!(check_bank(32, w13, w13_scale, w2, w2_scale), Ok(()));
    assert_eq!(
        check_bank(32, w13, w13_scale, w2, 7),
        Err(Glm52MoeRoutedError::BankLength {
            which: Glm52BankPart::W2Scale,
            got: 7,
            want: w2_scale,
        })
    );
    assert!(matches!(
        check_bank(32, w13 - 1, w13_scale, w2, w2_scale),
        Err(Glm52MoeRoutedError::BankLength { which: Glm52BankPart::W13Weight, .. })
    ));
}

fn bytes(n: usize, k: usize, fill: u8) -> Glm52ProjBytes {
    let shape = Glm52Proj { n, k };
    Glm52ProjBytes { shape, weight: vec![fill; n * k], scale: vec![fill; shape.scale_len()] }
}

fn expert(fill: u8) -> Glm52MoeRoutedExpertBytes {
    Glm52MoeRoutedExpertBytes {
        gate: bytes(2048, 6144, fill),
        up: bytes(2048, 6144, fill + 1),
        down: bytes(6144, 2048, fill + 2),
    }
}

#[test]
fn experts_are_packed_one_behind_the_other() {
    let packed = pack_experts(&vec![expert(10), expert(20)]).unwrap();
    let half = 2048 * 6144;
    assert_eq!(packed.w13_weight.len(), 4 * half);
    assert_eq!(packed.w13_weight[0], 10);
    assert_eq!(packed.w13_weight[half], 11);
    assert_eq!(packed.w13_weight[2 * half], 20);
    assert_eq!(packed.w2_weight[half - 1], 12);
    assert_eq!(packed.w2_weight[half], 22);
    assert_eq!(packed.w13_scale.len(), 4 * 16 * 48 * 4);
    let mut wrong = expert(10);
    wrong.up = bytes(2048, 2048, 1);
    assert!(matches!(
        pack_experts(&vec![expert(10), wrong]),
        Err(Glm52MoeRoutedError::ExpertShape { expert: 1, part: Glm52ExpertPart::Up })
    ));
    let mut wrong = expert(10);
    wrong.down.scale.pop();
    assert!(matches!(
        pack_experts(&vec![wrong]),
        Err(Glm52MoeRoutedError::ExpertScale { expert: 0, part: Glm52ExpertPart::Down })
    ));
}

#[test]
fn a_chain_checks_the_dispatch_library() {
    assert_eq!(check_chain(Glm52MoeChain::MaskedFp8, info(), 8, 32), Ok(()));
    assert_eq!(check_chain(Glm52MoeChain::WeightOnly, info(), 8, 0), Ok(()));
    let foreign = Glm52EpInfo { hidden: 1, ..info() };
    assert_eq!(
        check_chain(Glm52MoeChain::WeightOnly, foreign, 8, 0),
        Err(Glm52MoeRoutedError::LibraryShape { info: foreign })
    );
    assert_eq!(
        check_chain(Glm52MoeChain::WeightOnly, info(), 4, 0),
        Err(Glm52MoeRoutedError::Ranks { num_ranks: 4, want: 8 })
    );
    let partial = Glm52EpInfo { num_local_experts: 16, ..info() };
    assert_eq!(
        check_chain(Glm52MoeChain::WeightOnly, partial, 8, 0),
        Err(Glm52MoeRoutedError::Partition { info: partial })
    );
    assert_eq!(
        check_chain(Glm52MoeChain::MaskedFp8, info(), 8, 16),
        Err(Glm52MoeRoutedError::MaskedGroups { local_experts: 32 })
    );
}

#[test]
fn receive_buffers_hold_the_worst_step() {
    let lens = recv_lens(info());
    assert_eq!(lens.recv_x, 2560 * 6144);
    assert_eq!(lens.recv_topk_weight, 2560);
    assert_eq!(lens.recv_src_metadata, 64 * 10);
    assert_eq!(lens.combined, 8 * 6144);
    let masked = masked_lens(32, 64);
    assert_eq!(masked.act, 32 * 64 * 6144);
    assert_eq!(masked.w13_out, 32 * 64 * 4096);
    assert_eq!(masked.w2_act, 32 * 64 * 2048);
}

#[test]
fn both_chains_dispatch_first_and_combine_last() {
    let cap = protocol_cap(8);
    assert_eq!(cap, 64);
    for chain in [Glm52MoeChain::MaskedFp8, Glm52MoeChain::WeightOnly] {
        let plan = plan_routed(chain, info(), 32, Some(4), 32, cap, 100).unwrap();
        assert!(plan.dispatched);
        assert_eq!(plan.launches[0], Glm52RoutedLaunch::Dispatch { rows: 4 });
        assert_eq!(plan.launches[plan.launches.len() - 1], Glm52RoutedLaunch::Combine { rows: 4 });
        let idle = plan_routed(chain, info(), 32, None, 32, cap, 100).unwrap();
        assert!(!idle.dispatched);
        assert_eq!(idle.launches[0], Glm52RoutedLaunch::Dispatch { rows: 0 });
    }
    let plan = plan_routed(Glm52MoeChain::WeightOnly, info(), 32, Some(1), 1, cap, 7).unwrap();
    assert_eq!(
        plan.launches[1],
        Glm52RoutedLaunch::Tiles { experts: 32, bound: 8 + 63 * 8, global_rows: 1, max_tiles: 7 }
    );
}

#[test]
fn a_collective_step_is_refused_with_a_reason() {
    let chain = Glm52MoeChain::MaskedFp8;
    assert_eq!(
        plan_routed(chain, info(), 31, Some(1), 1, 64, 0).err(),
        Some(Glm52MoeRoutedError::Bank { experts: 31, want: 32 })
    );
    assert_eq!(
        plan_routed(chain, info(), 32, Some(0), 1, 64, 0).err(),
        Some(Glm52MoeRoutedError::NoTokens)
    );
    assert_eq!(
        plan_routed(chain, info(), 32, Some(2), 1, 64, 0).err(),
        Some(Glm52MoeRoutedError::GlobalTokens { global: 1, local: 2 })
    );
    assert_eq!(
        plan_routed(chain, info(), 32, Some(2), 65, 64, 0).err(),
        Some(Glm52MoeRoutedError::TokenCap { global: 65, cap: 64 })
    );
}

fn layer_weights() -> Glm52LayerExpertWeights {
    Glm52LayerExpertWeights {
        layer_idx: 3,
        w13: Glm52GroupedWeightPlan {
            groups: 32,
            n: 4096,
            k: 6144,
            weight_elems: 32 * 4096 * 6144,
            scale_rows: 32,
            scale_cols: 48,
        },
        w2: Glm52GroupedWeightPlan {
            groups: 32,
            n: 6144,
            k: 2048,
            weight_elems: 32 * 6144 * 2048,
            scale_rows: 48,
            scale_cols: 16,
        },
    }
}

fn gemm_buffers() -> Glm52GemmBuffers {
    let p = plan();
    let rows = p.deepep_worst_expanded_tokens;
    Glm52GemmBuffers {
        expert_offsets: p.moe_gemm_expert_offsets_len,
        w13_problem_sizes: p.moe_gemm_problem_sizes_len,
        w2_problem_sizes: p.moe_gemm_problem_sizes_len,
        w13_input: rows * 6144,
        w13_scale_tma: p.moe_w13_scale_tma_aligned_rows * p.moe_w13_scale_cols,
        w13_output: rows * 4096,
        w2_input: rows * 2048,
        w2_scale_tma: p.moe_w2_scale_tma_aligned_rows * p.moe_w2_scale_cols,
        w2_output: rows * 6144,
    }
}

#[test]
fn the_grouped_gemms_agree_with_the_arena() {
    let (w13, w2) = validate_layer_plan(&plan(), &layer_weights(), &gemm_buffers(), (1, 2)).unwrap();
    assert_eq!((w13.n, w13.k, w2.n, w2.k), (4096, 6144, 6144, 2048));
    assert_eq!((w13.trtllm_workspace_bytes, w2.trtllm_workspace_bytes), (1, 2));
    let report = validate_moe_gemm_contract(
        2,
        2,
        &vec![layer_weights()],
        &plan(),
        SCALE_ROWS,
        &gemm_buffers(),
        &vec![(1, 2)],
    )
    .unwrap();
    assert_eq!((report.rank, report.layer_count, report.first_layer_idx), (2, 1, 3));
    assert!(report.graph_stable_arena);
}

#[test]
fn a_gemm_contract_is_refused_with_a_reason() {
    let check = |rank, weights: &Vec<Glm52LayerExpertWeights>, buffers: &Glm52GemmBuffers| {
        let spaces = vec![(1, 2); weights.len()];
        validate_moe_gemm_contract(rank, 2, weights, &plan(), SCALE_ROWS, buffers, &spaces).err()
    };
    assert_eq!(
        check(1, &vec![layer_weights()], &gemm_buffers()),
        Some(Glm52MoeGemmError::Rank { weights: 2, worker: 1 })
    );
    assert_eq!(check(2, &vec![], &gemm_buffers()), Some(Glm52MoeGemmError::NoLayers));
    let mut wrong = layer_weights();
    wrong.w2.n = 1;
    assert_eq!(
        check(2, &vec![layer_weights(), wrong], &gemm_buffers()),
        Some(Glm52MoeGemmError::WeightPlan { layer: 3, operand: Glm52MoeOperand::W2 })
    );
    let short = Glm52GemmBuffers { w13_output: 1, ..gemm_buffers() };
    assert_eq!(
        check(2, &vec![layer_weights()], &short),
        Some(Glm52MoeGemmError::Buffers { layer: 3, operand: Glm52MoeOperand::W13 })
    );
}
