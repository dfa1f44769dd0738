use openinfer_glm52::arena::{Glm52DecodeArenaPlan, Glm52ScaleRows};
use openinfer_glm52::moe_layout::{Glm52MoeGemmMetadataValidation, Glm52MoePsumLayoutReport};
use openinfer_glm52::moe_smoke::{
    check_graph_smoke, check_smoke_tokens, empty_quant_report, enable_deepep,
    judge_dispatch_smoke, judge_gemm_smoke, judge_graph_smoke, judge_metadata_smoke,
    judge_quant_smoke, plan_moe_layer, plan_quant_smoke, plan_w13_quant, plan_w2_quant,
    Glm52DeepEpEnableReport, Glm52DeepEpInfo, Glm52MoeGemmMetadataSmokeReport, Glm52MoeLaunch,
    Glm52MoeLayerOutcome, Glm52MoeOperand, Glm52MoeQuantOutcome, Glm52MoeSmokeError,
    Glm52RouterSmoke, Glm52RouterSmokeEvent, Glm52RouterSmokeStage,
};

fn plan() -> Glm52DecodeArenaPlan {
    Glm52DecodeArenaPlan::tp1_dp8(Glm52ScaleRows { tma_aligned: 10_240, grouped_offset: 10_240 })
}

fn library() -> Glm52DeepEpInfo {
    Glm52DeepEpInfo {
        num_ranks: 8,
        num_experts: 256,
        num_local_experts: 32,
        num_topk: 8,
        hidden: 6144,
        expert_alignment: 64,
        decode_max_tokens_per_rank: 128,
    }
}

fn enabled() -> Glm52DeepEpEnableReport {
    enable_deepep(library(), 8, 3).unwrap()
}

fn layout(expanded_rows: usize) -> Glm52MoePsumLayoutReport {
    Glm52MoePsumLayoutReport {
        rank: 3,
        local_experts: 32,
        expert_alignment: 64,
        recv_tokens: 2,
        active_experts: usize::from(expanded_rows > 0),
        expanded_rows,
        empty_rank: expanded_rows == 0,
        grouped_layout_valid: true,
    }
}

fn validation() -> Glm52MoeGemmMetadataValidation {
    Glm52MoeGemmMetadataValidation {
        offsets_valid: true,
        w13_problem_sizes_valid: true,
        w2_problem_sizes_valid: true,
        active_experts: 1,
        expanded_rows: 64,
        trtllm_grouped_offset_scale_rows_required: 64,
        trtllm_grouped_offset_scale_rows_covered: true,
    }
}

fn psum() -> Vec<i32> {
    let mut ends = vec![64i32; 32];
    ends[0] = 2;
    ends
}

fn metadata() -> Glm52MoeGemmMetadataSmokeReport {
    judge_metadata_smoke(3, validation(), layout(64), &psum()).unwrap()
}

#[test]
fn the_dispatch_library_must_match_the_model() {
    let report = enabled();
    assert_eq!((report.rank, report.num_ranks, report.decode_max_tokens_per_rank), (3, 8, 128));
    let foreign = Glm52DeepEpInfo { num_topk: 4, ..library() };
    assert_eq!(
        enable_deepep(foreign, 8, 3).err(),
        Some(Glm52MoeSmokeError::LibraryShape { info: foreign })
    );
    assert_eq!(
        enable_deepep(Glm52DeepEpInfo { expert_alignment: 128, ..library() }, 8, 3).err(),
        Some(Glm52MoeSmokeError::LibraryAlignment { alignment: 128 })
    );
    assert_eq!(
        enable_deepep(Glm52DeepEpInfo { decode_max_tokens_per_rank: 64, ..library() }, 8, 3).err(),
        Some(Glm52MoeSmokeError::LibraryCap { cap: 64 })
    );
    assert_eq!(
        enable_deepep(library(), 4, 3).err(),
        Some(Glm52MoeSmokeError::Ranks { num_ranks: 4 })
    );
    assert_eq!(
        enable_deepep(library(), 8, 8).err(),
        Some(Glm52MoeSmokeError::Rank { rank: 8 })
    );
}

#[test]
fn a_moe_layer_multiplies_between_dispatch_and_combine() {
    let launches = plan_moe_layer(&plan(), 128);
    assert_eq!(launches[0], Glm52MoeLaunch::Router { tokens: 128 });
    assert_eq!(launches[1], Glm52MoeLaunch::Dispatch { tokens: 128 });
    assert_eq!(launches[launches.len() - 1], Glm52MoeLaunch::Combine { tokens: 128 });
    let w13 = launches
        .iter()
        .position(|l| *l == Glm52MoeLaunch::GroupedGemm { operand: Glm52MoeOperand::W13 })
        .unwrap();
    let w2 = launches
        .iter()
        .position(|l| *l == Glm52MoeLaunch::GroupedGemm { operand: Glm52MoeOperand::W2 })
        .unwrap();
    let swiglu = launches
        .iter()
        .position(|l| matches!(l, Glm52MoeLaunch::SwigluQuant { weighted: true, .. }))
        .unwrap();
    assert!(w13 < swiglu && swiglu < w2);
}

#[test]
fn quantising_lays_out_its_scales() {
    let mut both = plan_w13_quant(&plan(), 64, true);
    both.extend(plan_w2_quant(&plan(), 64, true, true));
    let smoke = plan_quant_smoke(&plan(), 64, true, true);
    for launch in &both {
        assert!(smoke.contains(launch));
    }
    let bare = plan_quant_smoke(&plan(), 64, false, false);
    assert!(!bare.iter().any(|l| matches!(l, Glm52MoeLaunch::OffsetLayout { .. })));
}

fn outcome() -> Glm52MoeQuantOutcome {
    Glm52MoeQuantOutcome {
        hidden_quant_valid: true,
        swiglu_quant_valid: true,
        weighted_scale_valid: true,
        hidden_scale_layout_valid: true,
        swiglu_scale_layout_valid: true,
        w13_offset_layout_valid: true,
        w2_offset_layout_valid: true,
    }
}

#[test]
fn a_quant_smoke_judges_what_ran() {
    let report = judge_quant_smoke(3, &plan(), 64, true, true, 64, outcome()).unwrap();
    assert!(report.quant_ran && report.route_weights_applied);
    assert_eq!(report.trtllm_offset_scale_rows, 10_240);
    let unweighted = Glm52MoeQuantOutcome { weighted_scale_valid: false, ..outcome() };
    assert!(judge_quant_smoke(3, &plan(), 64, false, true, 64, unweighted).is_ok());
    assert_eq!(
        judge_quant_smoke(3, &plan(), 64, true, true, 64, unweighted).err(),
        Some(Glm52MoeSmokeError::Quant { rank: 3 })
    );
    assert!(!empty_quant_report(5).quant_ran);
    assert_eq!(empty_quant_report(5).rank, 5);
}

#[test]
fn gemm_metadata_must_agree_with_the_layout() {
    assert_eq!(metadata().active_experts, 1);
    let wrong = Glm52MoeGemmMetadataValidation { offsets_valid: false, ..validation() };
    assert_eq!(
        judge_metadata_smoke(3, wrong, layout(64), &psum()).err(),
        Some(Glm52MoeSmokeError::Metadata { rank: 3 })
    );
    assert_eq!(
        judge_metadata_smoke(3, validation(), layout(128), &psum()).err(),
        Some(Glm52MoeSmokeError::Metadata { rank: 3 })
    );
}

#[test]
fn a_zero_round_trip_combines_to_zero() {
    assert_eq!(check_smoke_tokens(enabled(), 128), Ok(()));
    assert_eq!(
        check_smoke_tokens(enabled(), 129).err(),
        Some(Glm52MoeSmokeError::Tokens { tokens: 129, cap: 128 })
    );
    let report = judge_dispatch_smoke(enabled(), &plan(), 2, layout(64), true).unwrap();
    assert!(report.combined_zero && report.recv_quant.is_none());
    assert_eq!(
        judge_dispatch_smoke(enabled(), &plan(), 2, layout(64), false).err(),
        Some(Glm52MoeSmokeError::CombinedNotZero { rank: 3 })
    );
}

fn drive(expanded_rows: usize) -> Glm52RouterSmoke {
    let mut smoke = Glm52RouterSmoke::start(enabled(), 2).unwrap();
    let quant = judge_quant_smoke(3, &plan(), 64, true, true, 64, outcome()).unwrap();
    while smoke.stage != Glm52RouterSmokeStage::Done {
        let event = match smoke.stage {
            Glm52RouterSmokeStage::CheckRoutes => {
                Glm52RouterSmokeEvent::Routes { routes_valid: true, weights_normalized: true }
            }
            Glm52RouterSmokeStage::ReadLayout => {
                Glm52RouterSmokeEvent::Layout(layout(expanded_rows))
            }
            Glm52RouterSmokeStage::RecvQuant => Glm52RouterSmokeEvent::RecvQuant(quant),
            Glm52RouterSmokeStage::CheckMetadata => Glm52RouterSmokeEvent::Metadata(metadata()),
            Glm52RouterSmokeStage::CheckZero => Glm52RouterSmokeEvent::Combined { zero: true },
            _ => Glm52RouterSmokeEvent::Ran,
        };
        smoke.advance(event).unwrap();
    }
    smoke
}

#[test]
fn the_router_smoke_gathers_its_reports() {
    let report = drive(64).finish(&plan()).unwrap();
    assert_eq!((report.rank, report.num_tokens), (3, 2));
    assert!(report.recv_quant.is_some() && report.gemm_metadata.is_some());
}

#[test]
fn an_unfinished_router_smoke_has_no_report() {
    let smoke = Glm52RouterSmoke::start(enabled(), 2).unwrap();
    assert!(smoke.finish(&plan()).is_none());
    assert_eq!(
        Glm52RouterSmoke::start(enabled(), 0).err(),
        Some(Glm52MoeSmokeError::Tokens { tokens: 0, cap: 128 })
    );
}

#[test]
fn bad_routes_end_the_router_smoke() {
    let mut smoke = Glm52RouterSmoke::start(enabled(), 2).unwrap();
    while smoke.stage != Glm52RouterSmokeStage::CheckRoutes {
        smoke.advance(Glm52RouterSmokeEvent::Ran).unwrap();
    }
    assert_eq!(
        smoke.advance(Glm52RouterSmokeEvent::Routes {
            routes_valid: false,
            weights_normalized: true,
        }),
        Err(Glm52MoeSmokeError::Routes { routes_valid: false, weights_normalized: true })
    );
}

fn layer_outcome() -> Glm52MoeLayerOutcome {
    Glm52MoeLayerOutcome {
        router_routes_valid: true,
        router_weights_normalized: true,
        w13_output_nonzero: true,
        w2_output_nonzero: true,
        combined_has_value: true,
    }
}

#[test]
fn a_layer_smoke_needs_output() {
    let report = judge_gemm_smoke(3, 2, 9, layer_outcome(), layout(64), metadata()).unwrap();
    assert_eq!((report.layer_idx, report.num_tokens), (9, 2));
    let silent = Glm52MoeLayerOutcome { combined_has_value: false, ..layer_outcome() };
    assert_eq!(
        judge_gemm_smoke(3, 2, 9, silent, layout(64), metadata()).err(),
        Some(Glm52MoeSmokeError::Gemm { rank: 3 })
    );
}

#[test]
fn a_graph_smoke_runs_the_fixed_bucket() {
    assert_eq!(check_graph_smoke(enabled(), &plan(), 128), Ok(()));
    assert_eq!(
        check_graph_smoke(enabled(), &plan(), 64).err(),
        Some(Glm52MoeSmokeError::FixedBucket { tokens: 64, arena: 128, dispatch: 128 })
    );
    let judge = |scale| {
        judge_graph_smoke(3, 128, &plan(), layer_outcome(), scale, true, true, layout(64), metadata())
    };
    let report = judge(true).unwrap();
    assert_eq!((report.fixed_bucket_tokens, report.worst_expanded_rows), (128, 10_240));
    assert!(report.replay_ok);
    assert_eq!(judge(false).err(), Some(Glm52MoeSmokeError::Graph { rank: 3 }));
}
