//! The self-tests of the expert-parallel path: what they launch, in which
//! order, and when their outcome is accepted.
use vstd::prelude::*;

use crate::arena::Glm52DecodeArenaPlan;
use crate::deepep::{
    GLM52_DEEPEP_DECODE_BATCH_CAP, GLM52_DEEPEP_EXPERT_ALIGNMENT, GLM52_EP_WORLD,
};
use crate::moe_layout::{
    deepgemm_psum_compatible, Glm52MoeGemmMetadataValidation, Glm52MoePsumLayoutReport,
};

verus! {

/// Elements that share a quantisation scale.
pub const GLM52_MOE_QUANT_GROUP_SIZE: usize = 128;

/// The dimensions that the dispatch library was built with.
#[derive(Clone, Copy, Debug, PartialEq, Eq, Structural)]
pub struct Glm52DeepEpInfo {
    pub num_ranks: usize,
    pub num_experts: usize,
    pub num_local_experts: usize,
    pub num_topk: usize,
    pub hidden: usize,
    pub expert_alignment: usize,
    pub decode_max_tokens_per_rank: usize,
}

/// Why a self-test fails or the dispatch cannot be set up.
#[derive(Clone, Copy, Debug, PartialEq, Eq, Structural)]
pub enum Glm52MoeSmokeError {
    LibraryShape { info: Glm52DeepEpInfo },
    LibraryAlignment { alignment: usize },
    LibraryCap { cap: usize },
    Ranks { num_ranks: usize },
    Rank { rank: usize },
    Tokens { tokens: usize, cap: usize },
    FixedBucket { tokens: usize, arena: usize, dispatch: usize },
    Routes { routes_valid: bool, weights_normalized: bool },
    Quant { rank: usize },
    Metadata { rank: usize },
    CombinedNotZero { rank: usize },
    Gemm { rank: usize },
    Graph { rank: usize },
}

/// What a rank's dispatch was set up with.
#[derive(Clone, Copy, Debug, PartialEq, Eq, Structural)]
pub struct Glm52DeepEpEnableReport {
    pub rank: usize,
    pub num_ranks: usize,
    pub decode_max_tokens_per_rank: usize,
}

/// What is wrong with a dispatch library or a rank.
pub open spec fn enable_fault(info: Glm52DeepEpInfo, num_ranks: usize, rank: usize) -> Option<
    Glm52MoeSmokeError,
> {
    if !(info.num_ranks == 8 && info.num_experts == 256 && info.num_local_experts == 32
        && info.num_topk == 8 && info.hidden == 6144) {
        Some(Glm52MoeSmokeError::LibraryShape { info })
    } else if info.expert_alignment != 64 {
        Some(Glm52MoeSmokeError::LibraryAlignment { alignment: info.expert_alignment })
    } else if info.decode_max_tokens_per_rank != 128 {
        Some(Glm52MoeSmokeError::LibraryCap { cap: info.decode_max_tokens_per_rank })
    } else if num_ranks != 8 {
        Some(Glm52MoeSmokeError::Ranks { num_ranks })
    } else if rank >= 8 {
        Some(Glm52MoeSmokeError::Rank { rank })
    } else {
        None
    }
}

/// Checks the dispatch library against the model and a rank against the
/// world, and says what the rank is set up with.
pub fn enable_deepep(info: Glm52DeepEpInfo, num_ranks: usize, rank: usize) -> (r: Result<
    Glm52DeepEpEnableReport,
    Glm52MoeSmokeError,
>)
    ensures
        match r {
            Ok(report) => enable_fault(info, num_ranks, rank) is None && report
                == (Glm52DeepEpEnableReport {
                rank,
                num_ranks: 8,
                decode_max_tokens_per_rank: 128,
            }),
            Err(e) => enable_fault(info, num_ranks, rank) == Some(e),
        },
        r is Ok <==> info.num_ranks == 8 && info.num_experts == 256 && info.num_local_experts == 32
            && info.num_topk == 8 && info.hidden == 6144 && info.expert_alignment == 64
            && info.decode_max_tokens_per_rank == 128 && num_ranks == 8 && rank < 8,
{
    if !(info.num_ranks == GLM52_EP_WORLD && info.num_experts == 256 && info.num_local_experts
        == 32 && info.num_topk == 8 && info.hidden == 6144) {
        return Err(Glm52MoeSmokeError::LibraryShape { info });
    }
    if info.expert_alignment != GLM52_DEEPEP_EXPERT_ALIGNMENT {
        return Err(Glm52MoeSmokeError::LibraryAlignment { alignment: info.expert_alignment });
    }
    if info.decode_max_tokens_per_rank != GLM52_DEEPEP_DECODE_BATCH_CAP {
        return Err(Glm52MoeSmokeError::LibraryCap { cap: info.decode_max_tokens_per_rank });
    }
    if num_ranks != GLM52_EP_WORLD {
        return Err(Glm52MoeSmokeError::Ranks { num_ranks });
    }
    if rank >= GLM52_EP_WORLD {
        return Err(Glm52MoeSmokeError::Rank { rank });
    }
    Ok(
        Glm52DeepEpEnableReport {
            rank,
            num_ranks,
            decode_max_tokens_per_rank: info.decode_max_tokens_per_rank,
        },
    )
}

/// Which grouped product a launch belongs to.
#[derive(Clone, Copy, Debug, PartialEq, Eq, Structural)]
pub enum Glm52MoeOperand {
    W13,
    W2,
}

/// One launch of the expert path.
#[derive(Clone, Copy, Debug, PartialEq, Eq, Structural)]
pub enum Glm52MoeLaunch {
    Router { tokens: usize },
    Dispatch { tokens: usize },
    GemmMetadata,
    /// The input of the first product, quantised.
    HiddenQuant { rows: usize, width: usize, group: usize },
    /// The gated activation, quantised, times its route weight where asked.
    SwigluQuant { rows: usize, width: usize, group: usize, weighted: bool },
    ScaleLayout { operand: Glm52MoeOperand, rows: usize, cols: usize },
    OffsetLayout { operand: Glm52MoeOperand, rows: usize, cols: usize, experts: usize },
    GroupedGemm { operand: Glm52MoeOperand },
    Combine { tokens: usize },
}

/// The launches that prepare the input of the first product.
pub open spec fn w13_quant_launches(plan: Glm52DecodeArenaPlan, rows: usize, offset: bool) -> Seq<
    Glm52MoeLaunch,
> {
    seq![
        Glm52MoeLaunch::HiddenQuant { rows, width: plan.hidden, group: 128 },
        Glm52MoeLaunch::ScaleLayout {
            operand: Glm52MoeOperand::W13,
            rows,
            cols: plan.moe_w13_scale_cols,
        },
    ] + (if offset {
        seq![
            Glm52MoeLaunch::OffsetLayout {
                operand: Glm52MoeOperand::W13,
                rows: plan.deepep_worst_expanded_tokens,
                cols: plan.moe_w13_scale_cols,
                experts: plan.local_experts,
            },
        ]
    } else {
        Seq::empty()
    })
}

/// The launches that prepare the input of the second product.
pub open spec fn w2_quant_launches(
    plan: Glm52DecodeArenaPlan,
    rows: usize,
    weighted: bool,
    offset: bool,
) -> Seq<Glm52MoeLaunch> {
    seq![
        Glm52MoeLaunch::SwigluQuant { rows, width: plan.moe_intermediate, group: 128, weighted },
        Glm52MoeLaunch::ScaleLayout {
            operand: Glm52MoeOperand::W2,
            rows,
            cols: plan.moe_w2_scale_cols,
        },
    ] + (if offset {
        seq![
            Glm52MoeLaunch::OffsetLayout {
                operand: Glm52MoeOperand::W2,
                rows: plan.deepep_worst_expanded_tokens,
                cols: plan.moe_w2_scale_cols,
                experts: plan.local_experts,
            },
        ]
    } else {
        Seq::empty()
    })
}

/// Plans the launches that prepare the input of the first product.
pub fn plan_w13_quant(plan: &Glm52DecodeArenaPlan, rows: usize, offset: bool) -> (r: Vec<
    Glm52MoeLaunch,
>)
    ensures
        r@ == w13_quant_launches(*plan, rows, offset),
{
    let mut launches: Vec<Glm52MoeLaunch> = Vec::new();
    launches.push(
        Glm52MoeLaunch::HiddenQuant { rows, width: plan.hidden, group: GLM52_MOE_QUANT_GROUP_SIZE },
    );
    launches.push(
        Glm52MoeLaunch::ScaleLayout {
            operand: Glm52MoeOperand::W13,
            rows,
            cols: plan.moe_w13_scale_cols,
        },
    );
    if offset {
        launches.push(
            Glm52MoeLaunch::OffsetLayout {
                operand: Glm52MoeOperand::W13,
                rows: plan.deepep_worst_expanded_tokens,
                cols: plan.moe_w13_scale_cols,
                experts: plan.local_experts,
            },
        );
    }
    assert(launches@ =~= w13_quant_launches(*plan, rows, offset));
    launches
}

/// Plans the launches that prepare the input of the second product.
pub fn plan_w2_quant(
    plan: &Glm52DecodeArenaPlan,
    rows: usize,
    weighted: bool,
    offset: bool,
) -> (r: Vec<Glm52MoeLaunch>)
    ensures
        r@ == w2_quant_launches(*plan, rows, weighted, offset),
{
    let mut launches: Vec<Glm52MoeLaunch> = Vec::new();
    launches.push(
        Glm52MoeLaunch::SwigluQuant {
            rows,
            width: plan.moe_intermediate,
            group: GLM52_MOE_QUANT_GROUP_SIZE,
            weighted,
        },
    );
    launches.push(
        Glm52MoeLaunch::ScaleLayout {
            operand: Glm52MoeOperand::W2,
            rows,
            cols: plan.moe_w2_scale_cols,
        },
    );
    if offset {
        launches.push(
            Glm52MoeLaunch::OffsetLayout {
                operand: Glm52MoeOperand::W2,
                rows: plan.deepep_worst_expanded_tokens,
                cols: plan.moe_w2_scale_cols,
                experts: plan.local_experts,
            },
        );
    }
    assert(launches@ =~= w2_quant_launches(*plan, rows, weighted, offset));
    launches
}

/// Plans the quantisation self-test: both inputs, over the same rows.
pub fn plan_quant_smoke(
    plan: &Glm52DecodeArenaPlan,
    rows: usize,
    weighted: bool,
    offset: bool,
) -> (r: Vec<Glm52MoeLaunch>)
    ensures
        r@ == w13_quant_launches(*plan, rows, offset) + w2_quant_launches(
            *plan,
            rows,
            weighted,
            offset,
        ),
{
    let mut launches: Vec<Glm52MoeLaunch> = plan_w13_quant(plan, rows, offset);
    let mut rest: Vec<Glm52MoeLaunch> = plan_w2_quant(plan, rows, weighted, offset);
    launches.append(&mut rest);
    launches
}

/// The launches of one MoE layer over the dispatch: route, dispatch, both
/// grouped products over all expanded rows, combine.
pub open spec fn layer_launches(plan: Glm52DecodeArenaPlan, tokens: usize) -> Seq<Glm52MoeLaunch> {
    let rows = plan.deepep_worst_expanded_tokens;
    seq![
        Glm52MoeLaunch::Router { tokens },
        Glm52MoeLaunch::Dispatch { tokens },
        Glm52MoeLaunch::GemmMetadata,
    ] + w13_quant_launches(plan, rows, true) + seq![
        Glm52MoeLaunch::GroupedGemm { operand: Glm52MoeOperand::W13 },
    ] + w2_quant_launches(plan, rows, true, true) + seq![
        Glm52MoeLaunch::GroupedGemm { operand: Glm52MoeOperand::W2 },
        Glm52MoeLaunch::Combine { tokens },
    ]
}

/// Plans one MoE layer over the dispatch.
pub fn plan_moe_layer(plan: &Glm52DecodeArenaPlan, tokens: usize) -> (r: Vec<Glm52MoeLaunch>)
    ensures
        r@ == layer_launches(*plan, tokens),
{
    let rows: usize = plan.deepep_worst_expanded_tokens;
    let mut launches: Vec<Glm52MoeLaunch> = vec![
        Glm52MoeLaunch::Router { tokens },
        Glm52MoeLaunch::Dispatch { tokens },
        Glm52MoeLaunch::GemmMetadata,
    ];
    let ghost head = launches@;
    assert(head =~= seq![
        Glm52MoeLaunch::Router { tokens },
        Glm52MoeLaunch::Dispatch { tokens },
        Glm52MoeLaunch::GemmMetadata,
    ]);
    let mut w13: Vec<Glm52MoeLaunch> = plan_w13_quant(plan, rows, true);
    launches.append(&mut w13);
    let ghost before = launches@;
    launches.push(Glm52MoeLaunch::GroupedGemm { operand: Glm52MoeOperand::W13 });
    assert(launches@ =~= before + seq![
        Glm52MoeLaunch::GroupedGemm { operand: Glm52MoeOperand::W13 },
    ]);
    let mut w2: Vec<Glm52MoeLaunch> = plan_w2_quant(plan, rows, true, true);
    launches.append(&mut w2);
    let ghost before = launches@;
    launches.push(Glm52MoeLaunch::GroupedGemm { operand: Glm52MoeOperand::W2 });
    launches.push(Glm52MoeLaunch::Combine { tokens });
    assert(launches@ =~= before + seq![
        Glm52MoeLaunch::GroupedGemm { operand: Glm52MoeOperand::W2 },
        Glm52MoeLaunch::Combine { tokens },
    ]);
    launches
}

/// What was found of a quantisation self-test's outputs.
#[derive(Clone, Copy, Debug, PartialEq, Eq, Structural)]
pub struct Glm52MoeQuantOutcome {
    pub hidden_quant_valid: bool,
    pub swiglu_quant_valid: bool,
    /// Looked at only where route weights are applied.
    pub weighted_scale_valid: bool,
    pub hidden_scale_layout_valid: bool,
    pub swiglu_scale_layout_valid: bool,
    /// Looked at only where the offset layout runs.
    pub w13_offset_layout_valid: bool,
    pub w2_offset_layout_valid: bool,
}

/// The report of a quantisation self-test.
#[derive(Clone, Copy, Debug, PartialEq, Eq, Structural)]
pub struct Glm52MoeQuantSmokeReport {
    pub rank: usize,
    pub rows: usize,
    pub group_size: usize,
    pub route_weights_applied: bool,
    pub quant_ran: bool,
    pub hidden_quant_valid: bool,
    pub swiglu_quant_valid: bool,
    pub swiglu_weighted_scale_valid: bool,
    pub hidden_scale_layout_valid: bool,
    pub swiglu_scale_layout_valid: bool,
    pub trtllm_offset_scale_layout_ran: bool,
    pub trtllm_offset_scale_layout_valid: bool,
    pub trtllm_offset_scale_rows: usize,
    pub scale_layout_aligned_rows: usize,
}

/// The report of a rank that received nothing to quantise.
pub fn empty_quant_report(rank: usize) -> (r: Glm52MoeQuantSmokeReport)
    ensures
        r == (Glm52MoeQuantSmokeReport {
            rank,
            rows: 0,
            group_size: 128,
            route_weights_applied: false,
            quant_ran: false,
            hidden_quant_valid: true,
            swiglu_quant_valid: true,
            swiglu_weighted_scale_valid: true,
            hidden_scale_layout_valid: true,
            swiglu_scale_layout_valid: true,
            trtllm_offset_scale_layout_ran: false,
            trtllm_offset_scale_layout_valid: true,
            trtllm_offset_scale_rows: 0,
            scale_layout_aligned_rows: 0,
        }),
{
    Glm52MoeQuantSmokeReport {
        rank,
        rows: 0,
        group_size: GLM52_MOE_QUANT_GROUP_SIZE,
        route_weights_applied: false,
        quant_ran: false,
        hidden_quant_valid: true,
        swiglu_quant_valid: true,
        swiglu_weighted_scale_valid: true,
        hidden_scale_layout_valid: true,
        swiglu_scale_layout_valid: true,
        trtllm_offset_scale_layout_ran: false,
        trtllm_offset_scale_layout_valid: true,
        trtllm_offset_scale_rows: 0,
        scale_layout_aligned_rows: 0,
    }
}

/// Whether a quantisation self-test's outputs are accepted.
pub open spec fn quant_accepted(weighted: bool, offset: bool, o: Glm52MoeQuantOutcome) -> bool {
    &&& o.hidden_quant_valid && o.swiglu_quant_valid
    &&& weighted ==> o.weighted_scale_valid
    &&& o.hidden_scale_layout_valid && o.swiglu_scale_layout_valid
    &&& offset ==> o.w13_offset_layout_valid && o.w2_offset_layout_valid
}

/// Judges a quantisation self-test.
pub fn judge_quant_smoke(
    rank: usize,
    plan: &Glm52DecodeArenaPlan,
    rows: usize,
    weighted: bool,
    offset: bool,
    aligned_rows: usize,
    o: Glm52MoeQuantOutcome,
) -> (r: Result<Glm52MoeQuantSmokeReport, Glm52MoeSmokeError>)
    ensures
        match r {
            Ok(report) => {
                &&& quant_accepted(weighted, offset, o)
                &&& report == (Glm52MoeQuantSmokeReport {
                    rank,
                    rows,
                    group_size: 128,
                    route_weights_applied: weighted,
                    quant_ran: true,
                    hidden_quant_valid: true,
                    swiglu_quant_valid: true,
                    swiglu_weighted_scale_valid: true,
                    hidden_scale_layout_valid: true,
                    swiglu_scale_layout_valid: true,
                    trtllm_offset_scale_layout_ran: offset,
                    trtllm_offset_scale_layout_valid: true,
                    trtllm_offset_scale_rows: if offset {
                        plan.moe_trtllm_grouped_offset_rows
                    } else {
                        0
                    },
                    scale_layout_aligned_rows: aligned_rows,
                })
            },
            Err(e) => !quant_accepted(weighted, offset, o) && e == (Glm52MoeSmokeError::Quant {
                rank,
            }),
        },
        r is Ok <==> o.hidden_quant_valid && o.swiglu_quant_valid && o.hidden_scale_layout_valid
            && o.swiglu_scale_layout_valid && (weighted ==> o.weighted_scale_valid) && (offset
            ==> o.w13_offset_layout_valid && o.w2_offset_layout_valid),
{
    let weighted_ok: bool = !weighted || o.weighted_scale_valid;
    let offset_ok: bool = !offset || (o.w13_offset_layout_valid && o.w2_offset_layout_valid);
    if !(o.hidden_quant_valid && o.swiglu_quant_valid && weighted_ok && o.hidden_scale_layout_valid
        && o.swiglu_scale_layout_valid && offset_ok) {
        return Err(Glm52MoeSmokeError::Quant { rank });
    }
    Ok(
        Glm52MoeQuantSmokeReport {
            rank,
            rows,
            group_size: GLM52_MOE_QUANT_GROUP_SIZE,
            route_weights_applied: weighted,
            quant_ran: true,
            hidden_quant_valid: o.hidden_quant_valid,
            swiglu_quant_valid: o.swiglu_quant_valid,
            swiglu_weighted_scale_valid: weighted_ok,
            hidden_scale_layout_valid: o.hidden_scale_layout_valid,
            swiglu_scale_layout_valid: o.swiglu_scale_layout_valid,
            trtllm_offset_scale_layout_ran: offset,
            trtllm_offset_scale_layout_valid: offset_ok,
            trtllm_offset_scale_rows: if offset {
                plan.moe_trtllm_grouped_offset_rows
            } else {
                0
            },
            scale_layout_aligned_rows: aligned_rows,
        },
    )
}

/// The report of a metadata self-test.
#[derive(Clone, Copy, Debug, PartialEq, Eq, Structural)]
pub struct Glm52MoeGemmMetadataSmokeReport {
    pub rank: usize,
    pub local_experts: usize,
    pub active_experts: usize,
    pub expanded_rows: usize,
    pub offsets_valid: bool,
    pub w13_problem_sizes_valid: bool,
    pub w2_problem_sizes_valid: bool,
    pub deepgemm_block_m64_psum_compatible: bool,
    pub deepgemm_block_m128_psum_compatible: bool,
    pub trtllm_grouped_offset_scale_rows_required: usize,
    pub trtllm_grouped_offset_scale_rows_covered: bool,
}

/// Whether the metadata agrees with the layout it was derived from.
pub open spec fn metadata_accepted(
    v: Glm52MoeGemmMetadataValidation,
    layout: Glm52MoePsumLayoutReport,
    psum: Seq<i32>,
) -> bool {
    &&& v.offsets_valid && v.w13_problem_sizes_valid && v.w2_problem_sizes_valid
    &&& v.active_experts == layout.active_experts
    &&& v.expanded_rows == layout.expanded_rows
    &&& crate::moe_layout::block_compatible(psum, 64)
}

/// Judges the grouped products' metadata.
pub fn judge_metadata_smoke(
    rank: usize,
    v: Glm52MoeGemmMetadataValidation,
    layout: Glm52MoePsumLayoutReport,
    psum_expert: &Vec<i32>,
) -> (r: Result<Glm52MoeGemmMetadataSmokeReport, Glm52MoeSmokeError>)
    ensures
        match r {
            Ok(report) => {
                &&& metadata_accepted(v, layout, psum_expert@)
                &&& report == (Glm52MoeGemmMetadataSmokeReport {
                    rank,
                    local_experts: layout.local_experts,
                    active_experts: layout.active_experts,
                    expanded_rows: layout.expanded_rows,
                    offsets_valid: true,
                    w13_problem_sizes_valid: true,
                    w2_problem_sizes_valid: true,
                    deepgemm_block_m64_psum_compatible: true,
                    deepgemm_block_m128_psum_compatible: crate::moe_layout::block_compatible(
                        psum_expert@,
                        128,
                    ),
                    trtllm_grouped_offset_scale_rows_required:
                        v.trtllm_grouped_offset_scale_rows_required,
                    trtllm_grouped_offset_scale_rows_covered:
                        v.trtllm_grouped_offset_scale_rows_covered,
                })
            },
            Err(e) => !metadata_accepted(v, layout, psum_expert@) && e
                == (Glm52MoeSmokeError::Metadata { rank }),
        },
        r is Ok <==> v.offsets_valid && v.w13_problem_sizes_valid && v.w2_problem_sizes_valid
            && v.active_experts == layout.active_experts && v.expanded_rows == layout.expanded_rows
            && crate::moe_layout::block_compatible(psum_expert@, 64),
{
    let m64: bool = deepgemm_psum_compatible(psum_expert, 64);
    let m128: bool = deepgemm_psum_compatible(psum_expert, 128);
    if !(v.offsets_valid && v.w13_problem_sizes_valid && v.w2_problem_sizes_valid
        && v.active_experts == layout.active_experts && v.expanded_rows == layout.expanded_rows
        && m64) {
        return Err(Glm52MoeSmokeError::Metadata { rank });
    }
    Ok(
        Glm52MoeGemmMetadataSmokeReport {
            rank,
            local_experts: layout.local_experts,
            active_experts: v.active_experts,
            expanded_rows: v.expanded_rows,
            offsets_valid: v.offsets_valid,
            w13_problem_sizes_valid: v.w13_problem_sizes_valid,
            w2_problem_sizes_valid: v.w2_problem_sizes_valid,
            deepgemm_block_m64_psum_compatible: m64,
            deepgemm_block_m128_psum_compatible: m128,
            trtllm_grouped_offset_scale_rows_required: v.trtllm_grouped_offset_scale_rows_required,
            trtllm_grouped_offset_scale_rows_covered: v.trtllm_grouped_offset_scale_rows_covered,
        },
    )
}

/// The report of a dispatch self-test.
#[derive(Clone, Copy, Debug, PartialEq, Eq, Structural)]
pub struct Glm52DeepEpSmokeReport {
    pub rank: usize,
    pub num_tokens: usize,
    pub topk: usize,
    pub hidden: usize,
    pub router_routes_valid: bool,
    pub router_weights_normalized: bool,
    pub grouped_layout: Glm52MoePsumLayoutReport,
    pub recv_quant: Option<Glm52MoeQuantSmokeReport>,
    pub gemm_metadata: Option<Glm52MoeGemmMetadataSmokeReport>,
    pub combined_zero: bool,
}

/// Checks the token count of a self-test against the dispatch's cap.
pub fn check_smoke_tokens(report: Glm52DeepEpEnableReport, tokens: usize) -> (r: Result<
    (),
    Glm52MoeSmokeError,
>)
    ensures
        r == (if 1 <= tokens <= report.decode_max_tokens_per_rank {
            Ok::<(), Glm52MoeSmokeError>(())
        } else {
            Err(
                Glm52MoeSmokeError::Tokens { tokens, cap: report.decode_max_tokens_per_rank },
            )
        }),
{
    if !(report.decode_max_tokens_per_rank >= tokens && tokens > 0) {
        return Err(
            Glm52MoeSmokeError::Tokens { tokens, cap: report.decode_max_tokens_per_rank },
        );
    }
    Ok(())
}

/// Judges the plain dispatch self-test: with zero expert outputs, what comes
/// back must be zero.
pub fn judge_dispatch_smoke(
    report: Glm52DeepEpEnableReport,
    plan: &Glm52DecodeArenaPlan,
    tokens: usize,
    layout: Glm52MoePsumLayoutReport,
    combined_zero: bool,
) -> (r: Result<Glm52DeepEpSmokeReport, Glm52MoeSmokeError>)
    ensures
        r == (if combined_zero {
            Ok::<Glm52DeepEpSmokeReport, Glm52MoeSmokeError>(
                Glm52DeepEpSmokeReport {
                    rank: report.rank,
                    num_tokens: tokens,
                    topk: plan.topk,
                    hidden: plan.hidden,
                    router_routes_valid: true,
                    router_weights_normalized: true,
                    grouped_layout: layout,
                    recv_quant: None,
                    gemm_metadata: None,
                    combined_zero: true,
                },
            )
        } else {
            Err(Glm52MoeSmokeError::CombinedNotZero { rank: report.rank })
        }),
{
    if !combined_zero {
        return Err(Glm52MoeSmokeError::CombinedNotZero { rank: report.rank });
    }
    Ok(
        Glm52DeepEpSmokeReport {
            rank: report.rank,
            num_tokens: tokens,
            topk: plan.topk,
            hidden: plan.hidden,
            router_routes_valid: true,
            router_weights_normalized: true,
            grouped_layout: layout,
            recv_quant: None,
            gemm_metadata: None,
            combined_zero,
        },
    )
}

/// One stage of the router self-test. Each must succeed before the next one
/// runs.
#[derive(Clone, Copy, Debug, PartialEq, Eq, Structural)]
pub enum Glm52RouterSmokeStage {
    Seed,
    Route,
    CheckRoutes,
    Dispatch,
    ReadLayout,
    GemmMetadata,
    RecvQuant,
    CheckMetadata,
    Combine,
    CheckZero,
    Done,
}

/// What the stages of the router self-test have found.
#[derive(Clone, Copy, Debug, PartialEq, Eq, Structural)]
pub struct Glm52RouterSmoke {
    pub report: Glm52DeepEpEnableReport,
    pub tokens: usize,
    pub stage: Glm52RouterSmokeStage,
    pub layout: Option<Glm52MoePsumLayoutReport>,
    pub recv_quant: Option<Glm52MoeQuantSmokeReport>,
    pub gemm_metadata: Option<Glm52MoeGemmMetadataSmokeReport>,
}

/// What a stage of the router self-test came back with.
#[derive(Clone, Copy, Debug, PartialEq, Eq, Structural)]
pub enum Glm52RouterSmokeEvent {
    /// A launch ran.
    Ran,
    Routes { routes_valid: bool, weights_normalized: bool },
    Layout(Glm52MoePsumLayoutReport),
    RecvQuant(Glm52MoeQuantSmokeReport),
    Metadata(Glm52MoeGemmMetadataSmokeReport),
    Combined { zero: bool },
}

/// The stage behind a stage.
pub open spec fn stage_after(stage: Glm52RouterSmokeStage) -> Glm52RouterSmokeStage {
    match stage {
        Glm52RouterSmokeStage::Seed => Glm52RouterSmokeStage::Route,
        Glm52RouterSmokeStage::Route => Glm52RouterSmokeStage::CheckRoutes,
        Glm52RouterSmokeStage::CheckRoutes => Glm52RouterSmokeStage::Dispatch,
        Glm52RouterSmokeStage::Dispatch => Glm52RouterSmokeStage::ReadLayout,
        Glm52RouterSmokeStage::ReadLayout => Glm52RouterSmokeStage::GemmMetadata,
        Glm52RouterSmokeStage::GemmMetadata => Glm52RouterSmokeStage::RecvQuant,
        Glm52RouterSmokeStage::RecvQuant => Glm52RouterSmokeStage::CheckMetadata,
        Glm52RouterSmokeStage::CheckMetadata => Glm52RouterSmokeStage::Combine,
        Glm52RouterSmokeStage::Combine => Glm52RouterSmokeStage::CheckZero,
        Glm52RouterSmokeStage::CheckZero => Glm52RouterSmokeStage::Done,
        Glm52RouterSmokeStage::Done => Glm52RouterSmokeStage::Done,
    }
}

/// Whether an event is what a stage comes back with.
pub open spec fn answers(stage: Glm52RouterSmokeStage, event: Glm52RouterSmokeEvent) -> bool {
    match stage {
        Glm52RouterSmokeStage::Seed | Glm52RouterSmokeStage::Route
        | Glm52RouterSmokeStage::Dispatch | Glm52RouterSmokeStage::GemmMetadata
        | Glm52RouterSmokeStage::Combine => event == Glm52RouterSmokeEvent::Ran,
        Glm52RouterSmokeStage::CheckRoutes => event is Routes,
        Glm52RouterSmokeStage::ReadLayout => event is Layout,
        Glm52RouterSmokeStage::RecvQuant => event is RecvQuant,
        Glm52RouterSmokeStage::CheckMetadata => event is Metadata,
        Glm52RouterSmokeStage::CheckZero => event is Combined,
        Glm52RouterSmokeStage::Done => false,
    }
}

/// The stage that a self-test stands at after so many stages have succeeded.
pub open spec fn stage_at(k: nat) -> Glm52RouterSmokeStage
    decreases k,
{
    if k == 0 {
        Glm52RouterSmokeStage::Seed
    } else {
        stage_after(stage_at((k - 1) as nat))
    }
}

/// A self-test that only succeeds is done after ten stages, each of them once:
/// it dispatches what was found to be routed well, reads the layout of what
/// was dispatched, derives and checks the metadata of that layout, and looks
/// at what was combined behind all of that.
pub proof fn a_self_test_runs_each_stage_once(i: nat, j: nat)
    requires
        i < j <= 10,
    ensures
        stage_at(i) != stage_at(j),
        stage_at(10) == Glm52RouterSmokeStage::Done,
        stage_at(1) == Glm52RouterSmokeStage::Route,
        stage_at(2) == Glm52RouterSmokeStage::CheckRoutes,
        stage_at(3) == Glm52RouterSmokeStage::Dispatch,
        stage_at(4) == Glm52RouterSmokeStage::ReadLayout,
        stage_at(5) == Glm52RouterSmokeStage::GemmMetadata,
        stage_at(6) == Glm52RouterSmokeStage::RecvQuant,
        stage_at(7) == Glm52RouterSmokeStage::CheckMetadata,
        stage_at(8) == Glm52RouterSmokeStage::Combine,
        stage_at(9) == Glm52RouterSmokeStage::CheckZero,
{
    reveal_with_fuel(stage_at, 11);
    assert(i == 0 || i == 1 || i == 2 || i == 3 || i == 4 || i == 5 || i == 6 || i == 7 || i == 8
        || i == 9);
    assert(j == 1 || j == 2 || j == 3 || j == 4 || j == 5 || j == 6 || j == 7 || j == 8 || j == 9
        || j == 10);
}

/// What an event fails the self-test with.
pub open spec fn event_fault(rank: usize, event: Glm52RouterSmokeEvent) -> Option<
    Glm52MoeSmokeError,
> {
    match event {
        Glm52RouterSmokeEvent::Routes { routes_valid, weights_normalized } => if routes_valid
            && weights_normalized {
            None
        } else {
            Some(Glm52MoeSmokeError::Routes { routes_valid, weights_normalized })
        },
        Glm52RouterSmokeEvent::Combined { zero } => if zero {
            None
        } else {
            Some(Glm52MoeSmokeError::CombinedNotZero { rank })
        },
        _ => None,
    }
}

impl Glm52RouterSmoke {
    /// Whether everything that a later stage needs has been found.
    pub open spec fn wf(self) -> bool {
        let s = self.stage;
        &&& s == Glm52RouterSmokeStage::GemmMetadata || s == Glm52RouterSmokeStage::RecvQuant || s
            == Glm52RouterSmokeStage::CheckMetadata || s == Glm52RouterSmokeStage::Combine || s
            == Glm52RouterSmokeStage::CheckZero || s == Glm52RouterSmokeStage::Done
            ==> self.layout is Some
        &&& s == Glm52RouterSmokeStage::CheckMetadata || s == Glm52RouterSmokeStage::Combine || s
            == Glm52RouterSmokeStage::CheckZero || s == Glm52RouterSmokeStage::Done
            ==> self.recv_quant is Some
        &&& s == Glm52RouterSmokeStage::Combine || s == Glm52RouterSmokeStage::CheckZero || s
            == Glm52RouterSmokeStage::Done ==> self.gemm_metadata is Some
    }

    /// Starts the router self-test.
    pub fn start(report: Glm52DeepEpEnableReport, tokens: usize) -> (r: Result<
        Self,
        Glm52MoeSmokeError,
    >)
        ensures
            match r {
                Ok(s) => {
                    &&& 1 <= tokens <= report.decode_max_tokens_per_rank
                    &&& s == (Glm52RouterSmoke {
                        report,
                        tokens,
                        stage: Glm52RouterSmokeStage::Seed,
                        layout: None,
                        recv_quant: None,
                        gemm_metadata: None,
                    })
                    &&& s.wf()
                },
                Err(e) => !(1 <= tokens <= report.decode_max_tokens_per_rank) && e
                    == (Glm52MoeSmokeError::Tokens {
                    tokens,
                    cap: report.decode_max_tokens_per_rank,
                }),
            },
    {
        match check_smoke_tokens(report, tokens) {
            Ok(()) => {},
            Err(e) => {
                return Err(e);
            },
        }
        Ok(
            Glm52RouterSmoke {
                report,
                tokens,
                stage: Glm52RouterSmokeStage::Seed,
                layout: None,
                recv_quant: None,
                gemm_metadata: None,
            },
        )
    }

    /// Takes the outcome of the current stage in and moves to the next one,
    /// or fails the self-test.
    pub fn advance(&mut self, event: Glm52RouterSmokeEvent) -> (r: Result<(), Glm52MoeSmokeError>)
        requires
            old(self).wf(),
            answers(old(self).stage, event),
        ensures
            final(self).wf(),
            r is Err <==> (event matches Glm52RouterSmokeEvent::Combined { zero } && !zero) || (
            event matches Glm52RouterSmokeEvent::Routes { routes_valid, weights_normalized } && !(
            routes_valid && weights_normalized)),
            match event_fault(old(self).report.rank, event) {
                Some(e) => r == Err::<(), _>(e) && *final(self) == *old(self),
                None => r == Ok::<(), Glm52MoeSmokeError>(()) && *final(self)
                    == (Glm52RouterSmoke {
                    stage: stage_after(old(self).stage),
                    layout: match event {
                        Glm52RouterSmokeEvent::Layout(l) => Some(l),
                        _ => old(self).layout,
                    },
                    recv_quant: match event {
                        Glm52RouterSmokeEvent::RecvQuant(q) => Some(q),
                        _ => old(self).recv_quant,
                    },
                    gemm_metadata: match event {
                        Glm52RouterSmokeEvent::Metadata(m) => Some(m),
                        _ => old(self).gemm_metadata,
                    },
                    ..*old(self)
                }),
            },
    {
        match event {
            Glm52RouterSmokeEvent::Ran => {},
            Glm52RouterSmokeEvent::Routes { routes_valid, weights_normalized } => {
                if !(routes_valid && weights_normalized) {
                    return Err(Glm52MoeSmokeError::Routes { routes_valid, weights_normalized });
                }
            },
            Glm52RouterSmokeEvent::Layout(l) => {
                self.layout = Some(l);
            },
            Glm52RouterSmokeEvent::RecvQuant(q) => {
                self.recv_quant = Some(q);
            },
            Glm52RouterSmokeEvent::Metadata(m) => {
                self.gemm_metadata = Some(m);
            },
            Glm52RouterSmokeEvent::Combined { zero } => {
                if !zero {
                    return Err(Glm52MoeSmokeError::CombinedNotZero { rank: self.report.rank });
                }
            },
        }
        self.stage = match self.stage {
            Glm52RouterSmokeStage::Seed => Glm52RouterSmokeStage::Route,
            Glm52RouterSmokeStage::Route => Glm52RouterSmokeStage::CheckRoutes,
            Glm52RouterSmokeStage::CheckRoutes => Glm52RouterSmokeStage::Dispatch,
            Glm52RouterSmokeStage::Dispatch => Glm52RouterSmokeStage::ReadLayout,
            Glm52RouterSmokeStage::ReadLayout => Glm52RouterSmokeStage::GemmMetadata,
            Glm52RouterSmokeStage::GemmMetadata => Glm52RouterSmokeStage::RecvQuant,
            Glm52RouterSmokeStage::RecvQuant => Glm52RouterSmokeStage::CheckMetadata,
            Glm52RouterSmokeStage::CheckMetadata => Glm52RouterSmokeStage::Combine,
            Glm52RouterSmokeStage::Combine => Glm52RouterSmokeStage::CheckZero,
            Glm52RouterSmokeStage::CheckZero => Glm52RouterSmokeStage::Done,
            Glm52RouterSmokeStage::Done => Glm52RouterSmokeStage::Done,
        };
        Ok(())
    }

    /// The report, once every stage has succeeded.
    pub fn finish(&self, plan: &Glm52DecodeArenaPlan) -> (r: Option<Glm52DeepEpSmokeReport>)
        requires
            self.wf(),
        ensures
            r is Some <==> self.stage == Glm52RouterSmokeStage::Done,
            r matches Some(report) ==> self.layout is Some && report == (Glm52DeepEpSmokeReport {
                rank: self.report.rank,
                num_tokens: self.tokens,
                topk: plan.topk,
                hidden: plan.hidden,
                router_routes_valid: true,
                router_weights_normalized: true,
                grouped_layout: self.layout->0,
                recv_quant: self.recv_quant,
                gemm_metadata: self.gemm_metadata,
                combined_zero: true,
            }) && report.recv_quant is Some && report.gemm_metadata is Some,
    {
        match (self.stage, self.layout) {
            (Glm52RouterSmokeStage::Done, Some(layout)) => Some(
                Glm52DeepEpSmokeReport {
                    rank: self.report.rank,
                    num_tokens: self.tokens,
                    topk: plan.topk,
                    hidden: plan.hidden,
                    router_routes_valid: true,
                    router_weights_normalized: true,
                    grouped_layout: layout,
                    recv_quant: self.recv_quant,
                    gemm_metadata: self.gemm_metadata,
                    combined_zero: true,
                },
            ),
            _ => None,
        }
    }
}

/// What was found of the outputs of a whole MoE layer.
#[derive(Clone, Copy, Debug, PartialEq, Eq, Structural)]
pub struct Glm52MoeLayerOutcome {
    pub router_routes_valid: bool,
    pub router_weights_normalized: bool,
    pub w13_output_nonzero: bool,
    pub w2_output_nonzero: bool,
    /// Whether some combined value is finite and not zero.
    pub combined_has_value: bool,
}

/// The report of a grouped-product self-test.
#[derive(Clone, Copy, Debug, PartialEq, Eq, Structural)]
pub struct Glm52MoeGemmSmokeReport {
    pub rank: usize,
    pub num_tokens: usize,
    pub layer_idx: usize,
    pub router_routes_valid: bool,
    pub router_weights_normalized: bool,
    pub grouped_layout: Glm52MoePsumLayoutReport,
    pub gemm_metadata: Glm52MoeGemmMetadataSmokeReport,
    pub w13_output_nonzero: bool,
    pub w2_output_nonzero: bool,
    pub combined_nonzero: bool,
}

/// Whether the outputs of a whole MoE layer are accepted. A rank that received
/// nothing owes no combined value.
pub open spec fn layer_accepted(
    o: Glm52MoeLayerOutcome,
    layout: Glm52MoePsumLayoutReport,
    metadata: Glm52MoeGemmMetadataSmokeReport,
) -> bool {
    &&& o.router_routes_valid && o.router_weights_normalized
    &&& layout.grouped_layout_valid
    &&& metadata.offsets_valid && metadata.w13_problem_sizes_valid
        && metadata.w2_problem_sizes_valid
    &&& o.w13_output_nonzero && o.w2_output_nonzero
    &&& layout.empty_rank || o.combined_has_value
}

/// Judges the grouped-product self-test.
pub fn judge_gemm_smoke(
    rank: usize,
    tokens: usize,
    layer_idx: usize,
    o: Glm52MoeLayerOutcome,
    layout: Glm52MoePsumLayoutReport,
    metadata: Glm52MoeGemmMetadataSmokeReport,
) -> (r: Result<Glm52MoeGemmSmokeReport, Glm52MoeSmokeError>)
    ensures
        match r {
            Ok(report) => {
                &&& layer_accepted(o, layout, metadata)
                &&& report == (Glm52MoeGemmSmokeReport {
                    rank,
                    num_tokens: tokens,
                    layer_idx,
                    router_routes_valid: true,
                    router_weights_normalized: true,
                    grouped_layout: layout,
                    gemm_metadata: metadata,
                    w13_output_nonzero: true,
                    w2_output_nonzero: true,
                    combined_nonzero: true,
                })
            },
            Err(e) => !layer_accepted(o, layout, metadata) && e == (Glm52MoeSmokeError::Gemm {
                rank,
            }),
        },
        r is Ok <==> o.router_routes_valid && o.router_weights_normalized && layout.grouped_layout_valid
            && metadata.offsets_valid && metadata.w13_problem_sizes_valid
            && metadata.w2_problem_sizes_valid && o.w13_output_nonzero && o.w2_output_nonzero && (
        layout.empty_rank || o.combined_has_value),
{
    let combined_nonzero: bool = layout.empty_rank || o.combined_has_value;
    if !(o.router_routes_valid && o.router_weights_normalized && layout.grouped_layout_valid
        && metadata.offsets_valid && metadata.w13_problem_sizes_valid
        && metadata.w2_problem_sizes_valid && o.w13_output_nonzero && o.w2_output_nonzero
        && combined_nonzero) {
        return Err(Glm52MoeSmokeError::Gemm { rank });
    }
    Ok(
        Glm52MoeGemmSmokeReport {
            rank,
            num_tokens: tokens,
            layer_idx,
            router_routes_valid: o.router_routes_valid,
            router_weights_normalized: o.router_weights_normalized,
            grouped_layout: layout,
            gemm_metadata: metadata,
            w13_output_nonzero: o.w13_output_nonzero,
            w2_output_nonzero: o.w2_output_nonzero,
            combined_nonzero,
        },
    )
}

/// The report of a captured-graph self-test.
#[derive(Clone, Copy, Debug, PartialEq, Eq, Structural)]
pub struct Glm52DecodeGraphSmokeReport {
    pub rank: usize,
    pub num_tokens: usize,
    pub fixed_bucket_tokens: usize,
    pub worst_expanded_rows: usize,
    pub router_routes_valid: bool,
    pub router_weights_normalized: bool,
    pub route_weights_applied: bool,
    pub swiglu_weighted_scale_valid: bool,
    pub trtllm_offset_scale_layout_valid: bool,
    pub moe_gemm_metadata_valid: bool,
    pub grouped_layout_valid: bool,
    pub w13_output_nonzero: bool,
    pub w2_output_nonzero: bool,
    pub combined_nonzero: bool,
    pub capture_and_first_launch_ok: bool,
    pub replay_ok: bool,
}

/// Checks that a captured-graph self-test runs at the one fixed token count.
pub fn check_graph_smoke(
    report: Glm52DeepEpEnableReport,
    plan: &Glm52DecodeArenaPlan,
    tokens: usize,
) -> (r: Result<(), Glm52MoeSmokeError>)
    ensures
        r == (if tokens == plan.batch_capacity && tokens == report.decode_max_tokens_per_rank {
            Ok::<(), Glm52MoeSmokeError>(())
        } else {
            Err(
                Glm52MoeSmokeError::FixedBucket {
                    tokens,
                    arena: plan.batch_capacity,
                    dispatch: report.decode_max_tokens_per_rank,
                },
            )
        }),
{
    if !(tokens == plan.batch_capacity && tokens == report.decode_max_tokens_per_rank) {
        return Err(
            Glm52MoeSmokeError::FixedBucket {
                tokens,
                arena: plan.batch_capacity,
                dispatch: report.decode_max_tokens_per_rank,
            },
        );
    }
    Ok(())
}

/// Whether the outputs of a replayed graph are accepted.
pub open spec fn graph_accepted(
    o: Glm52MoeLayerOutcome,
    weighted_scale_valid: bool,
    w13_offset_valid: bool,
    w2_offset_valid: bool,
    layout: Glm52MoePsumLayoutReport,
    metadata: Glm52MoeGemmMetadataSmokeReport,
) -> bool {
    &&& layer_accepted(o, layout, metadata)
    &&& metadata.deepgemm_block_m64_psum_compatible
    &&& weighted_scale_valid && w13_offset_valid && w2_offset_valid
}

/// Judges the captured-graph self-test.
pub fn judge_graph_smoke(
    rank: usize,
    tokens: usize,
    plan: &Glm52DecodeArenaPlan,
    o: Glm52MoeLayerOutcome,
    weighted_scale_valid: bool,
    w13_offset_valid: bool,
    w2_offset_valid: bool,
    layout: Glm52MoePsumLayoutReport,
    metadata: Glm52MoeGemmMetadataSmokeReport,
) -> (r: Result<Glm52DecodeGraphSmokeReport, Glm52MoeSmokeError>)
    ensures
        match r {
            Ok(report) => {
                &&& graph_accepted(
                    o,
                    weighted_scale_valid,
                    w13_offset_valid,
                    w2_offset_valid,
                    layout,
                    metadata,
                )
                &&& report == (Glm52DecodeGraphSmokeReport {
                    rank,
                    num_tokens: tokens,
                    fixed_bucket_tokens: plan.batch_capacity,
                    worst_expanded_rows: plan.deepep_worst_expanded_tokens,
                    router_routes_valid: true,
                    router_weights_normalized: true,
                    route_weights_applied: true,
                    swiglu_weighted_scale_valid: true,
                    trtllm_offset_scale_layout_valid: true,
                    moe_gemm_metadata_valid: true,
                    grouped_layout_valid: true,
                    w13_output_nonzero: true,
                    w2_output_nonzero: true,
                    combined_nonzero: true,
                    capture_and_first_launch_ok: true,
                    replay_ok: true,
                })
            },
            Err(e) => !graph_accepted(
                o,
                weighted_scale_valid,
                w13_offset_valid,
                w2_offset_valid,
                layout,
                metadata,
            ) && e == (Glm52MoeSmokeError::Graph { rank }),
        },
        r is Ok <==> o.router_routes_valid && o.router_weights_normalized && layout.grouped_layout_valid
            && metadata.offsets_valid && metadata.w13_problem_sizes_valid
            && metadata.w2_problem_sizes_valid && o.w13_output_nonzero && o.w2_output_nonzero && (
        layout.empty_rank || o.combined_has_value) && metadata.deepgemm_block_m64_psum_compatible
            && weighted_scale_valid && w13_offset_valid && w2_offset_valid,
{
    let offset_valid: bool = w13_offset_valid && w2_offset_valid;
    let metadata_valid: bool = metadata.offsets_valid && metadata.w13_problem_sizes_valid
        && metadata.w2_problem_sizes_valid && metadata.deepgemm_block_m64_psum_compatible;
    let combined_nonzero: bool = layout.empty_rank || o.combined_has_value;
    if !(o.router_routes_valid && o.router_weights_normalized && weighted_scale_valid
        && offset_valid && metadata_valid && layout.grouped_layout_valid && o.w13_output_nonzero
        && o.w2_output_nonzero && combined_nonzero) {
        return Err(Glm52MoeSmokeError::Graph { rank });
    }
    Ok(
        Glm52DecodeGraphSmokeReport {
            rank,
            num_tokens: tokens,
            fixed_bucket_tokens: plan.batch_capacity,
            worst_expanded_rows: plan.deepep_worst_expanded_tokens,
            router_routes_valid: o.router_routes_valid,
            router_weights_normalized: o.router_weights_normalized,
            route_weights_applied: true,
            swiglu_weighted_scale_valid: weighted_scale_valid,
            trtllm_offset_scale_layout_valid: offset_valid,
            moe_gemm_metadata_valid: metadata_valid,
            grouped_layout_valid: layout.grouped_layout_valid,
            w13_output_nonzero: o.w13_output_nonzero,
            w2_output_nonzero: o.w2_output_nonzero,
            combined_nonzero,
            capture_and_first_launch_ok: true,
            replay_ok: true,
        },
    )
}

} // verus!
