//! The contracts of the two grouped products of a MoE layer: what the packed
//! expert weights and the arena's buffers must agree on.
use vstd::prelude::*;

use crate::arena::{Glm52ArenaPlanError, Glm52DecodeArenaPlan, Glm52ScaleRows};
use crate::deepep::GLM52_DEEPEP_EXPERT_ALIGNMENT;
use crate::moe_smoke::Glm52MoeOperand;

verus! {

/// The packed weights of one grouped product.
#[derive(Clone, Copy, Debug, PartialEq, Eq, Structural)]
pub struct Glm52GroupedWeightPlan {
    pub groups: usize,
    pub n: usize,
    pub k: usize,
    pub weight_elems: usize,
    pub scale_rows: usize,
    pub scale_cols: usize,
}

/// The packed weights of one layer's routed experts.
#[derive(Clone, Copy, Debug, PartialEq, Eq, Structural)]
pub struct Glm52LayerExpertWeights {
    pub layer_idx: usize,
    pub w13: Glm52GroupedWeightPlan,
    pub w2: Glm52GroupedWeightPlan,
}

/// The lengths of the arena's buffers that the grouped products use.
#[derive(Clone, Copy, Debug, PartialEq, Eq, Structural)]
pub struct Glm52GemmBuffers {
    pub expert_offsets: usize,
    pub w13_problem_sizes: usize,
    pub w2_problem_sizes: usize,
    pub w13_input: usize,
    pub w13_scale_tma: usize,
    pub w13_output: usize,
    pub w2_input: usize,
    pub w2_scale_tma: usize,
    pub w2_output: usize,
}

/// The contract of one grouped product.
#[derive(Clone, Copy, Debug, PartialEq, Eq, Structural)]
pub struct Glm52MoeGemmOperandContract {
    pub groups: usize,
    pub m_capacity: usize,
    pub n: usize,
    pub k: usize,
    pub weight_elems: usize,
    pub weight_scale_rows: usize,
    pub weight_scale_cols: usize,
    pub activation_scale_cols: usize,
    pub activation_scale_tma_rows: usize,
    pub activation_scale_trtllm_rows: usize,
    pub trtllm_workspace_bytes: usize,
    pub output_elems: usize,
}

/// The contract of a rank's grouped products.
#[derive(Clone, Copy, Debug, PartialEq, Eq, Structural)]
pub struct Glm52MoeGemmContractReport {
    pub rank: usize,
    pub layer_count: usize,
    pub first_layer_idx: usize,
    pub last_layer_idx: usize,
    pub psum_layout_entries: usize,
    pub expert_alignment: usize,
    pub w13: Glm52MoeGemmOperandContract,
    pub w2: Glm52MoeGemmOperandContract,
    pub graph_stable_arena: bool,
}

/// Why a rank's grouped products are refused.
#[derive(Clone, Copy, Debug, PartialEq, Eq, Structural)]
pub enum Glm52MoeGemmError {
    Rank { weights: usize, worker: usize },
    Plan(Glm52ArenaPlanError),
    NoLayers,
    Alignment { layer: usize },
    MetadataBuffers { layer: usize },
    WeightPlan { layer: usize, operand: Glm52MoeOperand },
    Buffers { layer: usize, operand: Glm52MoeOperand },
}

/// The output and input widths of a product.
pub open spec fn operand_nk(operand: Glm52MoeOperand) -> (int, int) {
    match operand {
        Glm52MoeOperand::W13 => (4096, 6144),
        Glm52MoeOperand::W2 => (6144, 2048),
    }
}

/// What is wrong with a product of a layer.
pub open spec fn operand_fault(
    layer: usize,
    operand: Glm52MoeOperand,
    plan: Glm52DecodeArenaPlan,
    weights: Glm52GroupedWeightPlan,
    b: Glm52GemmBuffers,
) -> Option<Glm52MoeGemmError> {
    let (n, k) = operand_nk(operand);
    let rows = plan.deepep_worst_expanded_tokens;
    let fits = match operand {
        Glm52MoeOperand::W13 => b.w13_input >= 6144 * rows && b.w13_scale_tma
            >= plan.moe_w13_scale_tma_aligned_rows * plan.moe_w13_scale_cols && b.w13_output
            >= 4096 * rows,
        Glm52MoeOperand::W2 => b.w2_input >= 2048 * rows && b.w2_scale_tma
            >= plan.moe_w2_scale_tma_aligned_rows * plan.moe_w2_scale_cols && b.w2_output >= 6144
            * rows,
    };
    if !(weights.groups == plan.local_experts && weights.n == n && weights.k == k) {
        Some(Glm52MoeGemmError::WeightPlan { layer, operand })
    } else if !fits {
        Some(Glm52MoeGemmError::Buffers { layer, operand })
    } else {
        None
    }
}

/// The contract of a product whose weights and buffers agree.
pub open spec fn operand_contract(
    operand: Glm52MoeOperand,
    plan: Glm52DecodeArenaPlan,
    weights: Glm52GroupedWeightPlan,
    workspace: usize,
) -> Glm52MoeGemmOperandContract {
    Glm52MoeGemmOperandContract {
        groups: weights.groups,
        m_capacity: plan.deepep_worst_expanded_tokens,
        n: weights.n,
        k: weights.k,
        weight_elems: weights.weight_elems,
        weight_scale_rows: weights.scale_rows,
        weight_scale_cols: weights.scale_cols,
        activation_scale_cols: match operand {
            Glm52MoeOperand::W13 => plan.moe_w13_scale_cols,
            Glm52MoeOperand::W2 => plan.moe_w2_scale_cols,
        },
        activation_scale_tma_rows: match operand {
            Glm52MoeOperand::W13 => plan.moe_w13_scale_tma_aligned_rows,
            Glm52MoeOperand::W2 => plan.moe_w2_scale_tma_aligned_rows,
        },
        activation_scale_trtllm_rows: plan.moe_trtllm_grouped_offset_rows,
        trtllm_workspace_bytes: workspace,
        output_elems: (plan.deepep_worst_expanded_tokens * operand_nk(operand).0) as usize,
    }
}

/// Checks one product and says its contract. `workspace` is what the kernel
/// asks for.
pub fn validate_operand(
    layer: usize,
    operand: Glm52MoeOperand,
    plan: &Glm52DecodeArenaPlan,
    weights: Glm52GroupedWeightPlan,
    b: &Glm52GemmBuffers,
    workspace: usize,
) -> (r: Result<Glm52MoeGemmOperandContract, Glm52MoeGemmError>)
    requires
        6144 * plan.deepep_worst_expanded_tokens <= usize::MAX,
        plan.moe_w13_scale_tma_aligned_rows * plan.moe_w13_scale_cols <= usize::MAX,
        plan.moe_w2_scale_tma_aligned_rows * plan.moe_w2_scale_cols <= usize::MAX,
    ensures
        match r {
            Ok(c) => operand_fault(layer, operand, *plan, weights, *b) is None && c
                == operand_contract(operand, *plan, weights, workspace),
            Err(e) => operand_fault(layer, operand, *plan, weights, *b) == Some(e),
        },
        r matches Ok(c) ==> {
            &&& c.groups == weights.groups == plan.local_experts
            &&& c.m_capacity == plan.deepep_worst_expanded_tokens
            &&& c.n == weights.n && c.k == weights.k
            &&& c.weight_elems == weights.weight_elems
            &&& c.weight_scale_rows == weights.scale_rows
            &&& c.weight_scale_cols == weights.scale_cols
            &&& c.activation_scale_trtllm_rows == plan.moe_trtllm_grouped_offset_rows
            &&& c.trtllm_workspace_bytes == workspace
            &&& c.output_elems == c.m_capacity * c.n
        },
        operand == Glm52MoeOperand::W13 ==> {
            &&& r is Ok <==> {
                &&& weights.groups == plan.local_experts
                &&& weights.n == 4096 && weights.k == 6144
                &&& b.w13_input >= 6144 * plan.deepep_worst_expanded_tokens
                &&& b.w13_scale_tma >= plan.moe_w13_scale_tma_aligned_rows
                    * plan.moe_w13_scale_cols
                &&& b.w13_output >= 4096 * plan.deepep_worst_expanded_tokens
            }
            &&& r matches Ok(c) ==> c.activation_scale_cols == plan.moe_w13_scale_cols
                && c.activation_scale_tma_rows == plan.moe_w13_scale_tma_aligned_rows
        },
        operand == Glm52MoeOperand::W2 ==> {
            &&& r is Ok <==> {
                &&& weights.groups == plan.local_experts
                &&& weights.n == 6144 && weights.k == 2048
                &&& b.w2_input >= 2048 * plan.deepep_worst_expanded_tokens
                &&& b.w2_scale_tma >= plan.moe_w2_scale_tma_aligned_rows * plan.moe_w2_scale_cols
                &&& b.w2_output >= 6144 * plan.deepep_worst_expanded_tokens
            }
            &&& r matches Ok(c) ==> c.activation_scale_cols == plan.moe_w2_scale_cols
                && c.activation_scale_tma_rows == plan.moe_w2_scale_tma_aligned_rows
        },
{
    let rows: usize = plan.deepep_worst_expanded_tokens;
    match operand {
        Glm52MoeOperand::W13 => {
            if !(weights.groups == plan.local_experts && weights.n == 4096 && weights.k == 6144) {
                return Err(Glm52MoeGemmError::WeightPlan { layer, operand });
            }
            if !(b.w13_input >= rows * 6144 && b.w13_scale_tma
                >= plan.moe_w13_scale_tma_aligned_rows * plan.moe_w13_scale_cols && b.w13_output
                >= rows * 4096) {
                return Err(Glm52MoeGemmError::Buffers { layer, operand });
            }
            Ok(
                Glm52MoeGemmOperandContract {
                    groups: weights.groups,
                    m_capacity: rows,
                    n: weights.n,
                    k: weights.k,
                    weight_elems: weights.weight_elems,
                    weight_scale_rows: weights.scale_rows,
                    weight_scale_cols: weights.scale_cols,
                    activation_scale_cols: plan.moe_w13_scale_cols,
                    activation_scale_tma_rows: plan.moe_w13_scale_tma_aligned_rows,
                    activation_scale_trtllm_rows: plan.moe_trtllm_grouped_offset_rows,
                    trtllm_workspace_bytes: workspace,
                    output_elems: rows * 4096,
                },
            )
        },
        Glm52MoeOperand::W2 => {
            if !(weights.groups == plan.local_experts && weights.n == 6144 && weights.k == 2048) {
                return Err(Glm52MoeGemmError::WeightPlan { layer, operand });
            }
            if !(b.w2_input >= rows * 2048 && b.w2_scale_tma >= plan.moe_w2_scale_tma_aligned_rows
                * plan.moe_w2_scale_cols && b.w2_output >= rows * 6144) {
                return Err(Glm52MoeGemmError::Buffers { layer, operand });
            }
            Ok(
                Glm52MoeGemmOperandContract {
                    groups: weights.groups,
                    m_capacity: rows,
                    n: weights.n,
                    k: weights.k,
                    weight_elems: weights.weight_elems,
                    weight_scale_rows: weights.scale_rows,
                    weight_scale_cols: weights.scale_cols,
                    activation_scale_cols: plan.moe_w2_scale_cols,
                    activation_scale_tma_rows: plan.moe_w2_scale_tma_aligned_rows,
                    activation_scale_trtllm_rows: plan.moe_trtllm_grouped_offset_rows,
                    trtllm_workspace_bytes: workspace,
                    output_elems: rows * 6144,
                },
            )
        },
    }
}

/// What is wrong with a layer.
pub open spec fn layer_fault(
    plan: Glm52DecodeArenaPlan,
    weights: Glm52LayerExpertWeights,
    b: Glm52GemmBuffers,
) -> Option<Glm52MoeGemmError> {
    let layer = weights.layer_idx;
    if plan.expert_alignment != 64 {
        Some(Glm52MoeGemmError::Alignment { layer })
    } else if !(b.expert_offsets == plan.local_experts + 1 && b.w13_problem_sizes == 3
        * plan.local_experts && b.w2_problem_sizes == 3 * plan.local_experts) {
        Some(Glm52MoeGemmError::MetadataBuffers { layer })
    } else {
        match operand_fault(layer, Glm52MoeOperand::W13, plan, weights.w13, b) {
            Some(e) => Some(e),
            None => operand_fault(layer, Glm52MoeOperand::W2, plan, weights.w2, b),
        }
    }
}

/// Checks a layer's grouped products and says their contracts.
pub fn validate_layer_plan(
    plan: &Glm52DecodeArenaPlan,
    weights: &Glm52LayerExpertWeights,
    b: &Glm52GemmBuffers,
    workspace: (usize, usize),
) -> (r: Result<
    (Glm52MoeGemmOperandContract, Glm52MoeGemmOperandContract),
    Glm52MoeGemmError,
>)
    requires
        6144 * plan.deepep_worst_expanded_tokens <= usize::MAX,
        plan.moe_w13_scale_tma_aligned_rows * plan.moe_w13_scale_cols <= usize::MAX,
        plan.moe_w2_scale_tma_aligned_rows * plan.moe_w2_scale_cols <= usize::MAX,
        3 * plan.local_experts < usize::MAX,
    ensures
        match r {
            Ok((w13, w2)) => {
                &&& layer_fault(*plan, *weights, *b) is None
                &&& w13 == operand_contract(
                    Glm52MoeOperand::W13,
                    *plan,
                    weights.w13,
                    workspace.0,
                )
                &&& w2 == operand_contract(Glm52MoeOperand::W2, *plan, weights.w2, workspace.1)
            },
            Err(e) => layer_fault(*plan, *weights, *b) == Some(e),
        },
        r matches Ok((w13, w2)) ==> {
            &&& plan.expert_alignment == 64
            &&& b.expert_offsets == plan.local_experts + 1
            &&& b.w13_problem_sizes == 3 * plan.local_experts
            &&& b.w2_problem_sizes == 3 * plan.local_experts
            &&& w13.n == weights.w13.n == 4096 && w13.k == weights.w13.k == 6144
            &&& w2.n == weights.w2.n == 6144 && w2.k == weights.w2.k == 2048
            &&& w13.groups == plan.local_experts && w2.groups == plan.local_experts
            &&& w13.trtllm_workspace_bytes == workspace.0
            &&& w2.trtllm_workspace_bytes == workspace.1
        },
        r matches Err(Glm52MoeGemmError::Alignment { layer }) ==> layer == weights.layer_idx
            && plan.expert_alignment != 64,
        plan.expert_alignment != 64 ==> r is Err,
        b.expert_offsets != plan.local_experts + 1 || b.w13_problem_sizes != 3
            * plan.local_experts || b.w2_problem_sizes != 3 * plan.local_experts ==> r is Err,
{
    let layer: usize = weights.layer_idx;
    if plan.expert_alignment != GLM52_DEEPEP_EXPERT_ALIGNMENT {
        return Err(Glm52MoeGemmError::Alignment { layer });
    }
    if !(b.expert_offsets == plan.local_experts + 1 && b.w13_problem_sizes == plan.local_experts * 3
        && b.w2_problem_sizes == plan.local_experts * 3) {
        return Err(Glm52MoeGemmError::MetadataBuffers { layer });
    }
    let w13 = match validate_operand(
        layer,
        Glm52MoeOperand::W13,
        plan,
        weights.w13,
        b,
        workspace.0,
    ) {
        Ok(c) => c,
        Err(e) => {
            return Err(e);
        },
    };
    let w2 = match validate_operand(layer, Glm52MoeOperand::W2, plan, weights.w2, b, workspace.1) {
        Ok(c) => c,
        Err(e) => {
            return Err(e);
        },
    };
    Ok((w13, w2))
}

/// Checks a rank's grouped products over all its layers. `workspaces` is what
/// the kernels ask for, layer by layer.
pub fn validate_moe_gemm_contract(
    rank: usize,
    weights_rank: usize,
    layers: &Vec<Glm52LayerExpertWeights>,
    plan: &Glm52DecodeArenaPlan,
    rows: Glm52ScaleRows,
    b: &Glm52GemmBuffers,
    workspaces: &Vec<(usize, usize)>,
) -> (r: Result<Glm52MoeGemmContractReport, Glm52MoeGemmError>)
    requires
        workspaces.len() == layers.len(),
        crate::arena::addressable(rows),
    ensures
        match r {
            Ok(report) => {
                let last = layers.len() - 1;
                &&& weights_rank == rank
                &&& plan.fault(rows) is None
                &&& layers.len() > 0
                &&& forall|i: int|
                    0 <= i < layers.len() ==> layer_fault(*plan, #[trigger] layers@[i], *b) is None
                &&& report == (Glm52MoeGemmContractReport {
                    rank,
                    layer_count: layers.len(),
                    first_layer_idx: layers@[0].layer_idx,
                    last_layer_idx: layers@[last].layer_idx,
                    psum_layout_entries: plan.local_experts,
                    expert_alignment: plan.expert_alignment,
                    w13: operand_contract(
                        Glm52MoeOperand::W13,
                        *plan,
                        layers@[last].w13,
                        workspaces@[last].0,
                    ),
                    w2: operand_contract(
                        Glm52MoeOperand::W2,
                        *plan,
                        layers@[last].w2,
                        workspaces@[last].1,
                    ),
                    graph_stable_arena: true,
                })
            },
            Err(Glm52MoeGemmError::Rank { weights, worker }) => weights == weights_rank && worker
                == rank && weights_rank != rank,
            Err(Glm52MoeGemmError::Plan(e)) => weights_rank == rank && plan.fault(rows) == Some(e),
            Err(Glm52MoeGemmError::NoLayers) => weights_rank == rank && plan.fault(rows) is None
                && layers.len() == 0,
            Err(e) => {
                &&& weights_rank == rank && plan.fault(rows) is None
                &&& exists|i: int|
                    {
                        &&& 0 <= i < layers.len()
                        &&& layer_fault(*plan, #[trigger] layers@[i], *b) == Some(e)
                        &&& forall|j: int|
                            0 <= j < i ==> layer_fault(*plan, #[trigger] layers@[j], *b) is None
                    }
            },
        },
{
    if weights_rank != rank {
        return Err(Glm52MoeGemmError::Rank { weights: weights_rank, worker: rank });
    }
    match plan.validate(rows) {
        Ok(()) => {},
        Err(e) => {
            return Err(Glm52MoeGemmError::Plan(e));
        },
    }
    if layers.len() == 0 {
        return Err(Glm52MoeGemmError::NoLayers);
    }
    proof {
        let tma = rows.tma_aligned;
        assert(tma * plan.moe_w13_scale_cols == 48 * tma && tma * plan.moe_w2_scale_cols == 16
            * tma) by (nonlinear_arith)
            requires
                plan.moe_w13_scale_cols == 48,
                plan.moe_w2_scale_cols == 16,
        ;
    }
    let mut last = match validate_layer_plan(plan, &layers[0], b, workspaces[0]) {
        Ok(contracts) => contracts,
        Err(e) => {
            assert(layer_fault(*plan, layers@[0], *b) == Some(e));
            return Err(e);
        },
    };
    let mut i: usize = 1;
    while i < layers.len()
        invariant
            1 <= i <= layers.len(),
            workspaces.len() == layers.len(),
            6144 * plan.deepep_worst_expanded_tokens <= usize::MAX,
            plan.moe_w13_scale_tma_aligned_rows * plan.moe_w13_scale_cols <= usize::MAX,
            plan.moe_w2_scale_tma_aligned_rows * plan.moe_w2_scale_cols <= usize::MAX,
            3 * plan.local_experts < usize::MAX,
            weights_rank == rank,
            plan.fault(rows) is None,
            forall|j: int|
                0 <= j < i ==> layer_fault(*plan, #[trigger] layers@[j], *b) is None,
            last.0 == operand_contract(
                Glm52MoeOperand::W13,
                *plan,
                layers@[i - 1].w13,
                workspaces@[i - 1].0,
            ),
            last.1 == operand_contract(
                Glm52MoeOperand::W2,
                *plan,
                layers@[i - 1].w2,
                workspaces@[i - 1].1,
            ),
        decreases layers.len() - i,
    {
        last = match validate_layer_plan(plan, &layers[i], b, workspaces[i]) {
            Ok(contracts) => contracts,
            Err(e) => {
                assert(layer_fault(*plan, layers@[i as int], *b) == Some(e));
                return Err(e);
            },
        };
        i = i + 1;
    }
    Ok(
        Glm52MoeGemmContractReport {
            rank,
            layer_count: layers.len(),
            first_layer_idx: layers[0].layer_idx,
            last_layer_idx: layers[layers.len() - 1].layer_idx,
            psum_layout_entries: plan.local_experts,
            expert_alignment: plan.expert_alignment,
            w13: last.0,
            w2: last.1,
            graph_stable_arena: true,
        },
    )
}

} // verus!
