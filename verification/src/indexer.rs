//! The sparse-attention indexer: its weights' shapes, its buffers, and the
//! launches that turn one step's rows into the slots that they attend over.
use vstd::prelude::*;

use crate::arith::align_up;
use crate::budget::Glm52IndexerCacheLayout;
use crate::config::{
    FP8_BLOCK, GLM52_HIDDEN, GLM52_INDEX_HEADS, GLM52_INDEX_HEAD_DIM, GLM52_INDEX_TOPK,
    GLM52_Q_LORA_RANK,
};
use crate::proj::Glm52Proj;

verus! {

/// Why an indexer's weights are refused.
#[derive(Clone, Copy, Debug, PartialEq, Eq, Structural)]
pub enum Glm52IndexerError {
    QueryShape { got: Glm52Proj },
    KeyShape { got: Glm52Proj },
    HeadWeights { got: usize },
    KeyNorm { got: usize },
    HiddenTooSmall { got: usize },
}

/// Checks an indexer's weights: the projections' shapes, the elements of the
/// per-head weights and the bytes of the key norm's gamma and beta.
pub fn check_indexer_weights(
    wq_b: Glm52Proj,
    wk: Glm52Proj,
    weights_proj_len: usize,
    k_norm_w_bytes: usize,
    k_norm_b_bytes: usize,
) -> (r: Result<(), Glm52IndexerError>)
    ensures
        r == (if wq_b != (Glm52Proj { n: 4096, k: 2048 }) {
            Err::<(), _>(Glm52IndexerError::QueryShape { got: wq_b })
        } else if wk != (Glm52Proj { n: 128, k: 6144 }) {
            Err(Glm52IndexerError::KeyShape { got: wk })
        } else if weights_proj_len != 196_608 {
            Err(Glm52IndexerError::HeadWeights { got: weights_proj_len })
        } else if k_norm_w_bytes != 256 {
            Err(Glm52IndexerError::KeyNorm { got: k_norm_w_bytes })
        } else if k_norm_b_bytes != 256 {
            Err(Glm52IndexerError::KeyNorm { got: k_norm_b_bytes })
        } else {
            Ok(())
        }),
{
    if !(wq_b.n == GLM52_INDEX_HEADS * 128 && wq_b.k == GLM52_Q_LORA_RANK) {
        return Err(Glm52IndexerError::QueryShape { got: wq_b });
    }
    if !(wk.n == GLM52_INDEX_HEAD_DIM && wk.k == GLM52_HIDDEN) {
        return Err(Glm52IndexerError::KeyShape { got: wk });
    }
    if weights_proj_len != GLM52_INDEX_HEADS * 6144 {
        return Err(Glm52IndexerError::HeadWeights { got: weights_proj_len });
    }
    if k_norm_w_bytes != GLM52_INDEX_HEAD_DIM * 2 {
        return Err(Glm52IndexerError::KeyNorm { got: k_norm_w_bytes });
    }
    if k_norm_b_bytes != GLM52_INDEX_HEAD_DIM * 2 {
        return Err(Glm52IndexerError::KeyNorm { got: k_norm_b_bytes });
    }
    Ok(())
}

/// The shape of the paged scoring product of one decode step.
#[derive(Clone, Copy, Debug, PartialEq, Eq, Structural)]
pub struct Glm52MqaLogitsShape {
    pub batch_size: usize,
    pub next_n: usize,
    pub num_heads: usize,
    pub head_dim: usize,
    pub num_kv_blocks: usize,
    pub block_kv: usize,
    pub kv_cache_stride_bytes: usize,
    pub is_context_lens_2d: bool,
    pub is_varlen: bool,
    pub logits_stride: usize,
    pub block_table_stride: usize,
    pub num_sms: usize,
}

/// The scoring shape of a decode step: one new token per row, over the paged
/// index-key cache, with the scores of a row padded to 256.
pub fn decode_shape(
    batch: usize,
    layout: Glm52IndexerCacheLayout,
    block_table_stride: usize,
    num_sms: usize,
    max_model_len: usize,
) -> (r: Glm52MqaLogitsShape)
    requires
        crate::arith::round_up(max_model_len as int, 256) <= usize::MAX,
    ensures
        r.batch_size == batch,
        r.next_n == 1,
        r.num_heads == 32,
        r.head_dim == 128,
        r.num_kv_blocks == layout.cache_blocks,
        r.block_kv == layout.cache_block_size,
        r.kv_cache_stride_bytes == layout.cache_block_stride_bytes,
        !r.is_context_lens_2d,
        !r.is_varlen,
        r.logits_stride == crate::arith::round_up(max_model_len as int, 256),
        r.block_table_stride == block_table_stride,
        r.num_sms == num_sms,
{
    Glm52MqaLogitsShape {
        batch_size: batch,
        next_n: 1,
        num_heads: GLM52_INDEX_HEADS,
        head_dim: GLM52_INDEX_HEAD_DIM,
        num_kv_blocks: layout.cache_blocks,
        block_kv: layout.cache_block_size,
        kv_cache_stride_bytes: layout.cache_block_stride_bytes,
        is_context_lens_2d: false,
        is_varlen: false,
        logits_stride: align_up(max_model_len, 256),
        block_table_stride,
        num_sms,
    }
}

/// The lengths of the indexer's buffers, in elements.
#[derive(Clone, Copy, Debug, PartialEq, Eq, Structural)]
pub struct Glm52IndexerLens {
    pub q: usize,
    pub k: usize,
    pub head_weights: usize,
    pub q_scale: usize,
    pub context_lens: usize,
    pub logits: usize,
    pub topk: usize,
}

/// Sizes the indexer's buffers for a scoring shape.
pub fn indexer_lens(shape: Glm52MqaLogitsShape) -> (r: Glm52IndexerLens)
    requires
        4096 * shape.batch_size <= usize::MAX,
        shape.batch_size * shape.next_n * shape.logits_stride <= usize::MAX,
        shape.batch_size * shape.next_n <= usize::MAX,
    ensures
        r.q == 4096 * shape.batch_size,
        r.k == 128 * shape.batch_size,
        r.head_weights == 32 * shape.batch_size,
        r.q_scale == 32 * shape.batch_size,
        r.context_lens == shape.batch_size,
        r.logits == shape.batch_size * shape.next_n * shape.logits_stride,
        r.topk == 2048 * shape.batch_size,
{
    let t: usize = shape.batch_size;
    Glm52IndexerLens {
        q: t * 4096,
        k: t * 128,
        head_weights: t * 32,
        q_scale: t * 32,
        context_lens: t,
        logits: t * shape.next_n * shape.logits_stride,
        topk: t * GLM52_INDEX_TOPK,
    }
}

/// A buffer that the indexer's launches read or write.
#[derive(Clone, Copy, Debug, PartialEq, Eq, Structural)]
pub enum Glm52IndexerBuffer {
    /// The layer's normed input.
    Hidden,
    /// The query down-projection.
    QueryResidual,
    /// The rotary tables of the rows.
    Rotary,
    SlotMapping,
    SeqLens,
    BlockTable,
    Query,
    KeyRaw,
    Key,
    HeadWeights,
    QueryFp8,
    QueryScale,
    FoldedWeights,
    IndexCache,
    ContextLens,
    Schedule,
    Logits,
    Scores,
    TopkOffsets,
    Slots,
}

/// One launch of the indexer.
#[derive(Clone, Copy, Debug, PartialEq, Eq, Structural)]
pub enum Glm52IndexerLaunch {
    QueryProj { rows: usize },
    KeyProj { rows: usize },
    /// The per-head weights: `[32, 6144]` against the rows.
    HeadWeights { m: usize, n: usize, k: usize },
    KeyNorm { rows: usize, width: usize },
    Rope { heads: usize, rows: usize },
    QueryQuant { rows: usize, width: usize, group: usize },
    FoldWeights,
    KeyCache { rows: usize, blocks: usize, block_size: usize, block_stride: usize },
    CopyContextLens { rows: usize },
    Schedule,
    Score,
    Widen,
    TopK { rows: usize, topk: usize, max_len: usize },
    ToSlots { rows: usize, topk: usize, block_size: usize, table_stride: usize },
}

/// The indexer's launches in order.
pub open spec fn indexer_launches(shape: Glm52MqaLogitsShape, topk: usize) -> Seq<
    Glm52IndexerLaunch,
> {
    let t = shape.batch_size;
    seq![
        Glm52IndexerLaunch::QueryProj { rows: t },
        Glm52IndexerLaunch::KeyProj { rows: t },
        Glm52IndexerLaunch::HeadWeights { m: 32, n: t, k: 6144 },
        Glm52IndexerLaunch::KeyNorm { rows: t, width: 128 },
        Glm52IndexerLaunch::Rope { heads: 32, rows: t },
        Glm52IndexerLaunch::QueryQuant { rows: (32 * t) as usize, width: 128, group: 128 },
        Glm52IndexerLaunch::FoldWeights,
        Glm52IndexerLaunch::KeyCache {
            rows: t,
            blocks: shape.num_kv_blocks,
            block_size: shape.block_kv,
            block_stride: shape.kv_cache_stride_bytes,
        },
        Glm52IndexerLaunch::CopyContextLens { rows: t },
        Glm52IndexerLaunch::Schedule,
        Glm52IndexerLaunch::Score,
        Glm52IndexerLaunch::Widen,
        Glm52IndexerLaunch::TopK { rows: t, topk, max_len: shape.logits_stride },
        Glm52IndexerLaunch::ToSlots {
            rows: t,
            topk,
            block_size: shape.block_kv,
            table_stride: shape.block_table_stride,
        },
    ]
}

/// Plans the indexer's forward over a step's rows.
pub fn plan_indexer(shape: Glm52MqaLogitsShape, topk: usize) -> (r: Vec<Glm52IndexerLaunch>)
    requires
        32 * shape.batch_size <= usize::MAX,
    ensures
        r@ == indexer_launches(shape, topk),
{
    let t: usize = shape.batch_size;
    let mut plan: Vec<Glm52IndexerLaunch> = Vec::new();
    plan.push(Glm52IndexerLaunch::QueryProj { rows: t });
    plan.push(Glm52IndexerLaunch::KeyProj { rows: t });
    plan.push(Glm52IndexerLaunch::HeadWeights { m: GLM52_INDEX_HEADS, n: t, k: GLM52_HIDDEN });
    plan.push(Glm52IndexerLaunch::KeyNorm { rows: t, width: GLM52_INDEX_HEAD_DIM });
    plan.push(Glm52IndexerLaunch::Rope { heads: GLM52_INDEX_HEADS, rows: t });
    plan.push(
        Glm52IndexerLaunch::QueryQuant {
            rows: t * GLM52_INDEX_HEADS,
            width: GLM52_INDEX_HEAD_DIM,
            group: FP8_BLOCK,
        },
    );
    plan.push(Glm52IndexerLaunch::FoldWeights);
    plan.push(
        Glm52IndexerLaunch::KeyCache {
            rows: t,
            blocks: shape.num_kv_blocks,
            block_size: shape.block_kv,
            block_stride: shape.kv_cache_stride_bytes,
        },
    );
    plan.push(Glm52IndexerLaunch::CopyContextLens { rows: t });
    plan.push(Glm52IndexerLaunch::Schedule);
    plan.push(Glm52IndexerLaunch::Score);
    plan.push(Glm52IndexerLaunch::Widen);
    plan.push(Glm52IndexerLaunch::TopK { rows: t, topk, max_len: shape.logits_stride });
    plan.push(
        Glm52IndexerLaunch::ToSlots {
            rows: t,
            topk,
            block_size: shape.block_kv,
            table_stride: shape.block_table_stride,
        },
    );
    assert(plan@ =~= indexer_launches(shape, topk));
    plan
}

/// The launches that only put one row's key into the index cache.
pub open spec fn cache_fill_launches(layout: Glm52IndexerCacheLayout) -> Seq<Glm52IndexerLaunch> {
    seq![
        Glm52IndexerLaunch::KeyProj { rows: 1 },
        Glm52IndexerLaunch::KeyNorm { rows: 1, width: 128 },
        Glm52IndexerLaunch::Rope { heads: 32, rows: 1 },
        Glm52IndexerLaunch::KeyCache {
            rows: 1,
            blocks: layout.cache_blocks,
            block_size: layout.cache_block_size,
            block_stride: layout.cache_block_stride_bytes,
        },
    ]
}

/// Plans the launches that put one row's key into the index cache.
pub fn plan_cache_fill(hidden_len: usize, layout: Glm52IndexerCacheLayout) -> (r: Result<
    Vec<Glm52IndexerLaunch>,
    Glm52IndexerError,
>)
    ensures
        match r {
            Ok(plan) => hidden_len >= 6144 && plan@ == cache_fill_launches(layout),
            Err(e) => hidden_len < 6144 && e == (Glm52IndexerError::HiddenTooSmall {
                got: hidden_len,
            }),
        },
{
    if hidden_len < GLM52_HIDDEN {
        return Err(Glm52IndexerError::HiddenTooSmall { got: hidden_len });
    }
    let mut plan: Vec<Glm52IndexerLaunch> = Vec::new();
    plan.push(Glm52IndexerLaunch::KeyProj { rows: 1 });
    plan.push(Glm52IndexerLaunch::KeyNorm { rows: 1, width: GLM52_INDEX_HEAD_DIM });
    plan.push(Glm52IndexerLaunch::Rope { heads: GLM52_INDEX_HEADS, rows: 1 });
    plan.push(
        Glm52IndexerLaunch::KeyCache {
            rows: 1,
            blocks: layout.cache_blocks,
            block_size: layout.cache_block_size,
            block_stride: layout.cache_block_stride_bytes,
        },
    );
    assert(plan@ =~= cache_fill_launches(layout));
    Ok(plan)
}

/// Whether a launch reads a buffer.
pub open spec fn reads(l: Glm52IndexerLaunch, b: Glm52IndexerBuffer) -> bool {
    match l {
        Glm52IndexerLaunch::QueryProj { .. } => b == Glm52IndexerBuffer::QueryResidual,
        Glm52IndexerLaunch::KeyProj { .. } => b == Glm52IndexerBuffer::Hidden,
        Glm52IndexerLaunch::HeadWeights { .. } => b == Glm52IndexerBuffer::Hidden,
        Glm52IndexerLaunch::KeyNorm { .. } => b == Glm52IndexerBuffer::KeyRaw,
        Glm52IndexerLaunch::Rope { .. } => b == Glm52IndexerBuffer::Query || b
            == Glm52IndexerBuffer::Key || b == Glm52IndexerBuffer::Rotary,
        Glm52IndexerLaunch::QueryQuant { .. } => b == Glm52IndexerBuffer::Query,
        Glm52IndexerLaunch::FoldWeights => b == Glm52IndexerBuffer::HeadWeights || b
            == Glm52IndexerBuffer::QueryScale,
        Glm52IndexerLaunch::KeyCache { .. } => b == Glm52IndexerBuffer::Key || b
            == Glm52IndexerBuffer::SlotMapping,
        Glm52IndexerLaunch::CopyContextLens { .. } => b == Glm52IndexerBuffer::SeqLens,
        Glm52IndexerLaunch::Schedule => b == Glm52IndexerBuffer::ContextLens,
        Glm52IndexerLaunch::Score => b == Glm52IndexerBuffer::QueryFp8 || b
            == Glm52IndexerBuffer::IndexCache || b == Glm52IndexerBuffer::FoldedWeights || b
            == Glm52IndexerBuffer::ContextLens || b == Glm52IndexerBuffer::Schedule || b
            == Glm52IndexerBuffer::BlockTable,
        Glm52IndexerLaunch::Widen => b == Glm52IndexerBuffer::Logits,
        Glm52IndexerLaunch::TopK { .. } => b == Glm52IndexerBuffer::Scores || b
            == Glm52IndexerBuffer::ContextLens,
        Glm52IndexerLaunch::ToSlots { .. } => b == Glm52IndexerBuffer::TopkOffsets || b
            == Glm52IndexerBuffer::ContextLens || b == Glm52IndexerBuffer::BlockTable,
    }
}

/// Whether a launch writes a buffer.
pub open spec fn writes(l: Glm52IndexerLaunch, b: Glm52IndexerBuffer) -> bool {
    match l {
        Glm52IndexerLaunch::QueryProj { .. } => b == Glm52IndexerBuffer::Query,
        Glm52IndexerLaunch::KeyProj { .. } => b == Glm52IndexerBuffer::KeyRaw,
        Glm52IndexerLaunch::HeadWeights { .. } => b == Glm52IndexerBuffer::HeadWeights,
        Glm52IndexerLaunch::KeyNorm { .. } => b == Glm52IndexerBuffer::Key,
        Glm52IndexerLaunch::Rope { .. } => b == Glm52IndexerBuffer::Query || b
            == Glm52IndexerBuffer::Key,
        Glm52IndexerLaunch::QueryQuant { .. } => b == Glm52IndexerBuffer::QueryFp8 || b
            == Glm52IndexerBuffer::QueryScale,
        Glm52IndexerLaunch::FoldWeights => b == Glm52IndexerBuffer::FoldedWeights,
        Glm52IndexerLaunch::KeyCache { .. } => b == Glm52IndexerBuffer::IndexCache,
        Glm52IndexerLaunch::CopyContextLens { .. } => b == Glm52IndexerBuffer::ContextLens,
        Glm52IndexerLaunch::Schedule => b == Glm52IndexerBuffer::Schedule,
        Glm52IndexerLaunch::Score => b == Glm52IndexerBuffer::Logits,
        Glm52IndexerLaunch::Widen => b == Glm52IndexerBuffer::Scores,
        Glm52IndexerLaunch::TopK { .. } => b == Glm52IndexerBuffer::TopkOffsets,
        Glm52IndexerLaunch::ToSlots { .. } => b == Glm52IndexerBuffer::Slots,
    }
}

/// Whether a buffer is handed in with the step.
pub open spec fn is_input(b: Glm52IndexerBuffer) -> bool {
    b == Glm52IndexerBuffer::Hidden || b == Glm52IndexerBuffer::QueryResidual || b
        == Glm52IndexerBuffer::Rotary || b == Glm52IndexerBuffer::SlotMapping || b
        == Glm52IndexerBuffer::SeqLens || b == Glm52IndexerBuffer::BlockTable
}

/// Whether one of the first launches of a plan writes a buffer.
pub open spec fn written_before(
    plan: Seq<Glm52IndexerLaunch>,
    upto: int,
    b: Glm52IndexerBuffer,
) -> bool {
    exists|j: int| 0 <= j < upto && #[trigger] writes(plan[j], b)
}

/// Every buffer that a launch reads was handed in with the step or was
/// written by an earlier launch of the same step; and the selected slots are
/// written last.
pub proof fn indexer_reads_this_step(
    shape: Glm52MqaLogitsShape,
    topk: usize,
    i: int,
    b: Glm52IndexerBuffer,
)
    requires
        0 <= i < indexer_launches(shape, topk).len(),
        reads(indexer_launches(shape, topk)[i], b),
    ensures
        is_input(b) || written_before(indexer_launches(shape, topk), i, b),
        writes(indexer_launches(shape, topk).last(), Glm52IndexerBuffer::Slots),
{
    let p = indexer_launches(shape, topk);
    assert(writes(p[0], Glm52IndexerBuffer::Query));
    assert(writes(p[1], Glm52IndexerBuffer::KeyRaw));
    assert(writes(p[2], Glm52IndexerBuffer::HeadWeights));
    assert(writes(p[3], Glm52IndexerBuffer::Key));
    assert(writes(p[5], Glm52IndexerBuffer::QueryFp8));
    assert(writes(p[5], Glm52IndexerBuffer::QueryScale));
    assert(writes(p[6], Glm52IndexerBuffer::FoldedWeights));
    assert(writes(p[7], Glm52IndexerBuffer::IndexCache));
    assert(writes(p[8], Glm52IndexerBuffer::ContextLens));
    assert(writes(p[9], Glm52IndexerBuffer::Schedule));
    assert(writes(p[10], Glm52IndexerBuffer::Logits));
    assert(writes(p[11], Glm52IndexerBuffer::Scores));
    assert(writes(p[12], Glm52IndexerBuffer::TopkOffsets));
}

} // verus!
