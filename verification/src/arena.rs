//! The decode arena: the buffers of one decode step, sized for the worst case
//! of the expert-parallel dispatch, and the bytes that they take.
use vstd::prelude::*;

use crate::config::{
    GLM52_DENSE_INTERMEDIATE, GLM52_EXPERT_INTERMEDIATE, GLM52_INDEX_HEADS, GLM52_INDEX_TOPK,
    GLM52_KV_A_OUT, GLM52_KV_LORA_RANK, GLM52_Q_LORA_RANK, GLM52_VOCAB,
};
use crate::deepep::{Glm52DeepEpDecodeCapacity, Glm52DeepEpShape};

verus! {

/// The dimensions of the decode arena.
#[derive(Clone, Copy, Debug, PartialEq, Eq, Structural)]
pub struct Glm52DecodeArenaPlan {
    pub batch_capacity: usize,
    pub hidden: usize,
    pub routed_experts: usize,
    pub topk: usize,
    pub local_experts: usize,
    pub expert_alignment: usize,
    pub dense_intermediate: usize,
    pub moe_intermediate: usize,
    pub vocab: usize,
    pub linear_quant_max_in: usize,
    pub linear_quant_scale_cols: usize,
    pub attention_q_a_out: usize,
    pub attention_q_b_out: usize,
    pub attention_kv_a_out: usize,
    pub attention_kv_lora_rank: usize,
    pub attention_kv_b_out: usize,
    pub attention_o_proj_in: usize,
    pub indexer_score_heads: usize,
    pub indexer_topk: usize,
    pub moe_quant_group_size: usize,
    pub moe_w13_scale_cols: usize,
    pub moe_w2_scale_cols: usize,
    pub moe_w13_scale_tma_aligned_rows: usize,
    pub moe_w2_scale_tma_aligned_rows: usize,
    pub moe_trtllm_grouped_offset_rows: usize,
    pub moe_gemm_expert_offsets_len: usize,
    pub moe_gemm_problem_sizes_len: usize,
    pub deepep_worst_recv_tokens: usize,
    pub deepep_worst_expanded_tokens: usize,
    pub deepep_src_metadata_len: usize,
    pub total_bytes: usize,
}

/// Why an arena plan or its buffers are refused.
#[derive(Clone, Copy, Debug, PartialEq, Eq, Structural)]
pub enum Glm52ArenaPlanError {
    ModelConstants,
    LayerPlan,
    MoePlan,
    ReceiveCap,
    DispatchCapacities,
    ExpertAlignment,
    NoBytes,
    BufferLengths,
    ByteAccounting { allocated: usize, planned: usize },
}

/// The rows that the grouped product's scale layouts are padded to, as the
/// kernels report them for the arena's expanded rows.
#[derive(Clone, Copy, Debug, PartialEq, Eq, Structural)]
pub struct Glm52ScaleRows {
    pub tma_aligned: usize,
    pub grouped_offset: usize,
}

/// One buffer: its elements and their bytes.
#[derive(Clone, Copy, Debug, PartialEq, Eq, Structural)]
pub struct Glm52ArenaBuffer {
    pub elements: usize,
    pub width: usize,
}

/// Bytes of half-precision elements.
pub fn bytes_bf16(elements: usize) -> (r: usize)
    requires
        2 * elements <= usize::MAX,
    ensures
        r == 2 * elements,
{
    elements * 2
}

/// Bytes of single-precision elements.
pub fn bytes_f32(elements: usize) -> (r: usize)
    requires
        4 * elements <= usize::MAX,
    ensures
        r == 4 * elements,
{
    elements * 4
}

/// Bytes of 32-bit integers.
pub fn bytes_i32(elements: usize) -> (r: usize)
    requires
        4 * elements <= usize::MAX,
    ensures
        r == 4 * elements,
{
    elements * 4
}

/// Bytes of 64-bit integers.
pub fn bytes_i64(elements: usize) -> (r: usize)
    requires
        8 * elements <= usize::MAX,
    ensures
        r == 8 * elements,
{
    elements * 8
}

/// Bytes of byte elements.
pub fn bytes_u8(elements: usize) -> (r: usize)
    ensures
        r == elements,
{
    elements
}

/// A buffer of the arena.
pub open spec fn buffer(elements: int, width: int) -> (int, int) {
    (elements, width)
}

/// The buffers of the arena in order: elements and bytes of an element. The
/// arena holds 128 rows, and 10240 rows for the expanded expert segments.
pub open spec fn arena_layout(rows: Glm52ScaleRows) -> Seq<(int, int)> {
    seq![
        // The residual stream and its norm.
        buffer(128int * 6144, 2),
        buffer(128int * 6144, 2),
        // The quantised input of a projection and its scales.
        buffer(128int * 16_384, 1),
        buffer(128int * 128, 4),
        // Attention: query, key-value and output.
        buffer(128int * 2048, 2),
        buffer(128int * 2048, 2),
        buffer(128int * 16_384, 2),
        buffer(128int * 576, 2),
        buffer(128int * 512, 2),
        buffer(128int * 64, 2),
        buffer(128int * 28_672, 2),
        buffer(128int * 16_384, 2),
        // The indexer.
        buffer(128int * 32, 2),
        buffer(128int * 128, 2),
        buffer(128int * 4096, 2),
        buffer(128int * 2048, 4),
        buffer(128int * 2048, 4),
        // The dense and the shared feed-forward blocks, and the logits.
        buffer(128int * 24_576, 2),
        buffer(128int * 12_288, 2),
        buffer(128int * 4096, 2),
        buffer(128int * 2048, 2),
        buffer(128int * 154_880, 2),
        // The router.
        buffer(128int * 256, 4),
        buffer(128int * 8, 4),
        buffer(128int * 8, 4),
        // The received rows and the first grouped product.
        buffer(10_240int * 6144, 2),
        buffer(10_240int * 6144, 1),
        buffer(10_240int * 48, 4),
        buffer(rows.tma_aligned * 48, 4),
        buffer(rows.grouped_offset * 48, 4),
        buffer(10_240int * 4096, 2),
        // The second grouped product.
        buffer(10_240int * 2048, 1),
        buffer(10_240int * 16, 4),
        buffer(rows.tma_aligned * 16, 4),
        buffer(rows.grouped_offset * 16, 4),
        buffer(10_240int * 6144, 2),
        // The grouped products' metadata and the dispatch's.
        buffer(33, 8),
        buffer(96, 4),
        buffer(96, 4),
        buffer(10_240, 4),
        buffer(10_240, 4),
        buffer(128int * 6144, 2),
    ]
}

/// The bytes of a buffer of one-, two-, four- or eight-byte elements.
pub open spec fn buffer_bytes(b: (int, int)) -> int {
    if b.1 == 1 {
        b.0
    } else if b.1 == 2 {
        2 * b.0
    } else if b.1 == 4 {
        4 * b.0
    } else {
        8 * b.0
    }
}

/// The bytes of the first `upto` buffers.
pub open spec fn layout_bytes(layout: Seq<(int, int)>, upto: int) -> int
    decreases upto,
{
    if upto <= 0 {
        0
    } else {
        layout_bytes(layout, upto - 1) + buffer_bytes(layout[upto - 1])
    }
}

/// Whether buffers are as laid out.
pub open spec fn laid_out(buffers: Seq<Glm52ArenaBuffer>, layout: Seq<(int, int)>) -> bool {
    &&& buffers.len() == layout.len()
    &&& forall|i: int|
        0 <= i < buffers.len() ==> (#[trigger] buffers[i]).elements == layout[i].0
            && buffers[i].width == layout[i].1
}

/// The scale rows whose arena a machine word can address.
pub open spec fn addressable(rows: Glm52ScaleRows) -> bool {
    arena_total(rows) <= usize::MAX
}

fn push_buffer(buffers: &mut Vec<Glm52ArenaBuffer>, elements: usize, width: usize)
    ensures
        final(buffers)@ == old(buffers)@.push(Glm52ArenaBuffer { elements, width }),
{
    buffers.push(Glm52ArenaBuffer { elements, width });
}

/// The arena's buffers in order.
#[verifier::rlimit(60)]
pub fn arena_buffers(rows: Glm52ScaleRows) -> (r: Vec<Glm52ArenaBuffer>)
    requires
        addressable(rows),
    ensures
        laid_out(r@, arena_layout(rows)),
        r.len() == 42,
        r@[28].elements == 48 * rows.tma_aligned && r@[33].elements == 16 * rows.tma_aligned,
        r@[29].elements == 48 * rows.grouped_offset && r@[34].elements == 16 * rows.grouped_offset,
        r@[21].elements == 128 * 154_880 && r@[21].width == 2,
{
    let mut b: Vec<Glm52ArenaBuffer> = Vec::new();
    push_buffer(&mut b, 128 * 6144, 2);
    push_buffer(&mut b, 128 * 6144, 2);
    push_buffer(&mut b, 128 * 16_384, 1);
    push_buffer(&mut b, 128 * 128, 4);
    push_buffer(&mut b, 128 * 2048, 2);
    push_buffer(&mut b, 128 * 2048, 2);
    push_buffer(&mut b, 128 * 16_384, 2);
    push_buffer(&mut b, 128 * 576, 2);
    push_buffer(&mut b, 128 * 512, 2);
    push_buffer(&mut b, 128 * 64, 2);
    push_buffer(&mut b, 128 * 28_672, 2);
    push_buffer(&mut b, 128 * 16_384, 2);
    push_buffer(&mut b, 128 * 32, 2);
    push_buffer(&mut b, 128 * 128, 2);
    push_buffer(&mut b, 128 * 4096, 2);
    push_buffer(&mut b, 128 * 2048, 4);
    push_buffer(&mut b, 128 * 2048, 4);
    push_buffer(&mut b, 128 * 24_576, 2);
    push_buffer(&mut b, 128 * 12_288, 2);
    push_buffer(&mut b, 128 * 4096, 2);
    push_buffer(&mut b, 128 * 2048, 2);
    push_buffer(&mut b, 128 * 154_880, 2);
    push_buffer(&mut b, 128 * 256, 4);
    push_buffer(&mut b, 128 * 8, 4);
    push_buffer(&mut b, 128 * 8, 4);
    push_buffer(&mut b, 10_240 * 6144, 2);
    push_buffer(&mut b, 10_240 * 6144, 1);
    push_buffer(&mut b, 10_240 * 48, 4);
    push_buffer(&mut b, rows.tma_aligned * 48, 4);
    push_buffer(&mut b, rows.grouped_offset * 48, 4);
    push_buffer(&mut b, 10_240 * 4096, 2);
    push_buffer(&mut b, 10_240 * 2048, 1);
    push_buffer(&mut b, 10_240 * 16, 4);
    push_buffer(&mut b, rows.tma_aligned * 16, 4);
    push_buffer(&mut b, rows.grouped_offset * 16, 4);
    push_buffer(&mut b, 10_240 * 6144, 2);
    push_buffer(&mut b, 33, 8);
    push_buffer(&mut b, 96, 4);
    push_buffer(&mut b, 96, 4);
    push_buffer(&mut b, 10_240, 4);
    push_buffer(&mut b, 10_240, 4);
    push_buffer(&mut b, 128 * 6144, 2);
    b
}

/// The bytes of the arena: what does not depend on the scale layouts, and 256
/// bytes for each row that they are padded to.
pub open spec fn arena_total(rows: Glm52ScaleRows) -> int {
    500_073_480 + 256 * (rows.tma_aligned + rows.grouped_offset)
}

/// The planned bytes are exactly what the arena's buffers take.
#[verifier::rlimit(60)]
pub proof fn planned_bytes_are_the_buffers(rows: Glm52ScaleRows)
    ensures
        layout_bytes(arena_layout(rows), arena_layout(rows).len() as int) == arena_total(rows),
{
    let layout = arena_layout(rows);
    reveal_with_fuel(layout_bytes, 43);
}

proof fn lemma_partial_bytes(layout: Seq<(int, int)>, i: int, upto: int)
    requires
        0 <= i <= upto <= layout.len(),
        forall|j: int| 0 <= j < layout.len() ==> (#[trigger] layout[j]).0 >= 0,
    ensures
        0 <= layout_bytes(layout, i) <= layout_bytes(layout, upto),
    decreases upto,
{
    if i < upto {
        lemma_partial_bytes(layout, i, upto - 1);
    } else if i > 0 {
        lemma_partial_bytes(layout, i - 1, i - 1);
    }
}

/// The bytes of the arena's buffers.
pub fn allocated_bytes(rows: Glm52ScaleRows) -> (r: usize)
    requires
        addressable(rows),
    ensures
        r == arena_total(rows),
        r == 500_073_480 + 256 * (rows.tma_aligned + rows.grouped_offset),
{
    let buffers: Vec<Glm52ArenaBuffer> = arena_buffers(rows);
    let ghost layout = arena_layout(rows);
    proof {
        planned_bytes_are_the_buffers(rows);
        assert forall|j: int| 0 <= j < layout.len() implies (#[trigger] layout[j]).0 >= 0 by {
            assert(buffers@[j].elements == layout[j].0);
        }
    }
    let mut sum: usize = 0;
    let mut i: usize = 0;
    while i < buffers.len()
        invariant
            i <= buffers.len(),
            addressable(rows),
            layout == arena_layout(rows),
            laid_out(buffers@, layout),
            forall|j: int| 0 <= j < layout.len() ==> (#[trigger] layout[j]).0 >= 0,
            layout_bytes(layout, layout.len() as int) == arena_total(rows),
            sum == layout_bytes(layout, i as int),
        decreases buffers.len() - i,
    {
        let b: Glm52ArenaBuffer = buffers[i];
        proof {
            assert(buffers@[i as int].elements == layout[i as int].0);
            lemma_partial_bytes(layout, i as int, i as int);
            lemma_partial_bytes(layout, i + 1, layout.len() as int);
        }
        sum = sum + match b.width {
            1 => bytes_u8(b.elements),
            2 => bytes_bf16(b.elements),
            4 => bytes_f32(b.elements),
            _ => bytes_i64(b.elements),
        };
        i = i + 1;
    }
    sum
}

impl Glm52DecodeArenaPlan {
    /// The arena plan of eight data-parallel ranks.
    pub fn tp1_dp8(rows: Glm52ScaleRows) -> (r: Self)
        requires
            addressable(rows),
        ensures
            r.fault(rows) is None,
            r.expert_alignment == 64,
            r.total_bytes == arena_total(rows),
    {
        let shape = Glm52DeepEpShape::tp1_dp8_h200();
        assert(shape.expanded_rows(1024) == 10_240) by {
            assert(1024 * crate::arith::least(shape.topk as int, shape.local_experts as int) == 8192)
                by (nonlinear_arith)
                requires
                    crate::arith::least(shape.topk as int, shape.local_experts as int) == 8,
            ;
            assert((shape.expert_alignment - 1) * shape.local_experts == 2016) by (nonlinear_arith)
                requires
                    shape.expert_alignment == 64,
                    shape.local_experts == 32,
            ;
            assert(crate::arith::round_up(10_208, 64) == 10_240);
        }
        let capacity: Glm52DeepEpDecodeCapacity = match shape.decode_capacity() {
            Ok(c) => c,
            Err(_) => Glm52DeepEpDecodeCapacity {
                shape,
                worst_recv_tokens: 0,
                worst_expanded_tokens: 0,
                src_metadata_len: 0,
                rank_count_len: 0,
            },
        };
        Glm52DecodeArenaPlan {
            batch_capacity: shape.decode_max_tokens_per_rank,
            hidden: shape.hidden,
            routed_experts: shape.routed_experts,
            topk: shape.topk,
            local_experts: shape.local_experts,
            expert_alignment: shape.expert_alignment,
            dense_intermediate: GLM52_DENSE_INTERMEDIATE,
            moe_intermediate: GLM52_EXPERT_INTERMEDIATE,
            vocab: GLM52_VOCAB,
            linear_quant_max_in: 16_384,
            linear_quant_scale_cols: 16_384 / 128,
            attention_q_a_out: GLM52_Q_LORA_RANK,
            attention_q_b_out: 16_384,
            attention_kv_a_out: GLM52_KV_A_OUT,
            attention_kv_lora_rank: GLM52_KV_LORA_RANK,
            attention_kv_b_out: 28_672,
            attention_o_proj_in: 16_384,
            indexer_score_heads: GLM52_INDEX_HEADS,
            indexer_topk: GLM52_INDEX_TOPK,
            moe_quant_group_size: 128,
            moe_w13_scale_cols: shape.hidden / 128,
            moe_w2_scale_cols: GLM52_EXPERT_INTERMEDIATE / 128,
            moe_w13_scale_tma_aligned_rows: rows.tma_aligned,
            moe_w2_scale_tma_aligned_rows: rows.tma_aligned,
            moe_trtllm_grouped_offset_rows: rows.grouped_offset,
            moe_gemm_expert_offsets_len: shape.local_experts + 1,
            moe_gemm_problem_sizes_len: shape.local_experts * 3,
            deepep_worst_recv_tokens: capacity.worst_recv_tokens,
            deepep_worst_expanded_tokens: capacity.worst_expanded_tokens,
            deepep_src_metadata_len: capacity.src_metadata_len,
            total_bytes: allocated_bytes(rows),
        }
    }

    /// What is wrong with a plan, given the kernels' scale rows.
    pub open spec fn fault(self, rows: Glm52ScaleRows) -> Option<Glm52ArenaPlanError> {
        if !(self.batch_capacity == 128 && self.hidden == 6144 && self.routed_experts == 256
            && self.topk == 8 && self.local_experts == 32) {
            Some(Glm52ArenaPlanError::ModelConstants)
        } else if !(self.dense_intermediate == 12_288 && self.moe_intermediate == 2048
            && self.vocab == 154_880 && self.linear_quant_max_in == 16_384
            && self.moe_quant_group_size > 0 && 16_384int % (self.moe_quant_group_size as int) == 0
            && self.linear_quant_scale_cols == 16_384int / (self.moe_quant_group_size as int)
            && self.attention_q_a_out == 2048 && self.attention_q_b_out == 16_384
            && self.attention_kv_a_out == 576 && self.attention_kv_lora_rank == 512
            && self.attention_kv_b_out == 28_672 && self.attention_o_proj_in == 16_384
            && self.indexer_score_heads == 32 && self.indexer_topk == 2048) {
            Some(Glm52ArenaPlanError::LayerPlan)
        } else if !(self.moe_quant_group_size == 128 && self.moe_w13_scale_cols == 48
            && self.moe_w2_scale_cols == 16 && self.moe_w13_scale_tma_aligned_rows
            == rows.tma_aligned && self.moe_w2_scale_tma_aligned_rows == rows.tma_aligned
            && self.moe_trtllm_grouped_offset_rows == rows.grouped_offset
            && self.moe_gemm_expert_offsets_len == 33 && self.moe_gemm_problem_sizes_len == 96) {
            Some(Glm52ArenaPlanError::MoePlan)
        } else if self.deepep_worst_recv_tokens != 1024 {
            Some(Glm52ArenaPlanError::ReceiveCap)
        } else if !(self.deepep_worst_expanded_tokens == 10_240 && self.deepep_src_metadata_len
            == 10_240) {
            Some(Glm52ArenaPlanError::DispatchCapacities)
        } else if self.expert_alignment == 0 || 10_240int % (self.expert_alignment as int) != 0 {
            Some(Glm52ArenaPlanError::ExpertAlignment)
        } else if self.total_bytes == 0 {
            Some(Glm52ArenaPlanError::NoBytes)
        } else {
            None
        }
    }

    /// Checks a plan against the model's constants and the kernels' scale
    /// rows.
    pub fn validate(&self, rows: Glm52ScaleRows) -> (r: Result<(), Glm52ArenaPlanError>)
        ensures
            match r {
                Ok(()) => self.fault(rows) is None,
                Err(e) => self.fault(rows) == Some(e),
            },
            r is Ok <==> {
                &&& self.batch_capacity == 128 && self.hidden == 6144
                &&& self.routed_experts == 256 && self.topk == 8 && self.local_experts == 32
                &&& self.dense_intermediate == 12_288 && self.moe_intermediate == 2048
                &&& self.vocab == 154_880 && self.linear_quant_max_in == 16_384
                &&& self.linear_quant_scale_cols == 128
                &&& self.attention_q_a_out == 2048 && self.attention_q_b_out == 16_384
                &&& self.attention_kv_a_out == 576 && self.attention_kv_lora_rank == 512
                &&& self.attention_kv_b_out == 28_672 && self.attention_o_proj_in == 16_384
                &&& self.indexer_score_heads == 32 && self.indexer_topk == 2048
                &&& self.moe_quant_group_size == 128
                &&& self.moe_w13_scale_cols == 48 && self.moe_w2_scale_cols == 16
                &&& self.moe_w13_scale_tma_aligned_rows == rows.tma_aligned
                &&& self.moe_w2_scale_tma_aligned_rows == rows.tma_aligned
                &&& self.moe_trtllm_grouped_offset_rows == rows.grouped_offset
                &&& self.moe_gemm_expert_offsets_len == 33
                &&& self.moe_gemm_problem_sizes_len == 96
                &&& self.deepep_worst_recv_tokens == 1024
                &&& self.deepep_worst_expanded_tokens == 10_240
                &&& self.deepep_src_metadata_len == 10_240
                &&& self.expert_alignment > 0 && 10_240int % (self.expert_alignment as int) == 0
                &&& self.total_bytes > 0
            },
    {
        if !(self.batch_capacity == 128 && self.hidden == 6144 && self.routed_experts == 256
            && self.topk == 8 && self.local_experts == 32) {
            return Err(Glm52ArenaPlanError::ModelConstants);
        }
        if !(self.dense_intermediate == GLM52_DENSE_INTERMEDIATE && self.moe_intermediate
            == GLM52_EXPERT_INTERMEDIATE && self.vocab == GLM52_VOCAB && self.linear_quant_max_in
            == 16_384 && self.moe_quant_group_size > 0 && self.linear_quant_max_in
            % self.moe_quant_group_size == 0 && self.linear_quant_scale_cols
            == self.linear_quant_max_in / self.moe_quant_group_size && self.attention_q_a_out
            == GLM52_Q_LORA_RANK && self.attention_q_b_out == 16_384 && self.attention_kv_a_out
            == GLM52_KV_A_OUT && self.attention_kv_lora_rank == GLM52_KV_LORA_RANK
            && self.attention_kv_b_out == 28_672 && self.attention_o_proj_in == 16_384
            && self.indexer_score_heads == GLM52_INDEX_HEADS && self.indexer_topk
            == GLM52_INDEX_TOPK) {
            return Err(Glm52ArenaPlanError::LayerPlan);
        }
        if !(self.moe_quant_group_size == 128 && self.moe_w13_scale_cols == self.hidden / 128
            && self.moe_w2_scale_cols == self.moe_intermediate / 128
            && self.moe_w13_scale_tma_aligned_rows == rows.tma_aligned
            && self.moe_w2_scale_tma_aligned_rows == rows.tma_aligned
            && self.moe_trtllm_grouped_offset_rows == rows.grouped_offset
            && self.moe_gemm_expert_offsets_len == self.local_experts + 1
            && self.moe_gemm_problem_sizes_len == self.local_experts * 3) {
            return Err(Glm52ArenaPlanError::MoePlan);
        }
        if self.deepep_worst_recv_tokens != 1024 {
            return Err(Glm52ArenaPlanError::ReceiveCap);
        }
        if !(self.deepep_worst_expanded_tokens == 10_240 && self.deepep_src_metadata_len
            == 10_240) {
            return Err(Glm52ArenaPlanError::DispatchCapacities);
        }
        if self.expert_alignment == 0 || self.deepep_worst_expanded_tokens % self.expert_alignment
            != 0 {
            return Err(Glm52ArenaPlanError::ExpertAlignment);
        }
        if self.total_bytes == 0 {
            return Err(Glm52ArenaPlanError::NoBytes);
        }
        Ok(())
    }
}

/// Checks the lengths of the allocated buffers and their bytes against the
/// plan.
pub fn validate_allocations(
    plan: &Glm52DecodeArenaPlan,
    rows: Glm52ScaleRows,
    lens: &Vec<usize>,
) -> (r: Result<(), Glm52ArenaPlanError>)
    requires
        addressable(rows),
    ensures
        ({
            let layout = arena_layout(rows);
            let as_planned = lens.len() == layout.len() && forall|i: int|
                0 <= i < lens.len() ==> #[trigger] lens@[i] == layout[i].0;
            match r {
                Ok(()) => as_planned && plan.total_bytes == arena_total(rows),
                Err(Glm52ArenaPlanError::BufferLengths) => !as_planned,
                Err(Glm52ArenaPlanError::ByteAccounting { allocated, planned }) => {
                    &&& as_planned
                    &&& allocated == arena_total(rows)
                    &&& planned == plan.total_bytes
                    &&& planned != allocated
                },
                Err(_) => false,
            }
        }),
{
    let buffers: Vec<Glm52ArenaBuffer> = arena_buffers(rows);
    let ghost layout = arena_layout(rows);
    if lens.len() != buffers.len() {
        return Err(Glm52ArenaPlanError::BufferLengths);
    }
    let mut i: usize = 0;
    while i < lens.len()
        invariant
            i <= lens.len(),
            lens.len() == buffers.len(),
            laid_out(buffers@, layout),
            layout == arena_layout(rows),
            forall|j: int| 0 <= j < i ==> #[trigger] lens@[j] == layout[j].0,
        decreases lens.len() - i,
    {
        if lens[i] != buffers[i].elements {
            assert(buffers@[i as int].elements == layout[i as int].0);
            assert(lens@[i as int] != layout[i as int].0);
            return Err(Glm52ArenaPlanError::BufferLengths);
        }
        assert(buffers@[i as int].elements == layout[i as int].0);
        i = i + 1;
    }
    let allocated: usize = allocated_bytes(rows);
    if allocated != plan.total_bytes {
        return Err(
            Glm52ArenaPlanError::ByteAccounting { allocated, planned: plan.total_bytes },
        );
    }
    Ok(())
}

} // verus!
