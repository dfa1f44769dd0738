//! What the indexer's launches compute: the sparse selection of a step's
//! rows, as one composition of its kernels.
use vstd::prelude::*;

use crate::budget::Glm52IndexerCacheLayout;
use crate::indexer::{Glm52IndexerBuffer, Glm52IndexerLaunch, Glm52MqaLogitsShape};

verus! {

/// The functions that the indexer's kernels compute, with the extents that
/// they are launched over. A buffer's contents stand as one number, whatever
/// they are.
pub ghost struct Glm52IndexerKernels {
    pub query: spec_fn(int, int) -> int,
    pub key: spec_fn(int, int) -> int,
    /// Heads, rows and hidden width, and the hidden rows.
    pub head_weights: spec_fn(int, int, int, int) -> int,
    pub key_norm: spec_fn(int, int, int) -> int,
    /// Heads and rows, the rotary rows, and what is rotated.
    pub rotate_query: spec_fn(int, int, int, int) -> int,
    pub rotate_key: spec_fn(int, int, int, int) -> int,
    /// Rows, width and group, and what is quantised.
    pub quant: spec_fn(int, int, int, int) -> int,
    pub quant_scale: spec_fn(int, int, int, int) -> int,
    pub fold: spec_fn(int, int) -> int,
    /// Rows, the cache, the slots and the keys.
    pub put: spec_fn(int, Glm52IndexerCacheLayout, int, int, int) -> int,
    pub lens: spec_fn(int, int) -> int,
    pub schedule: spec_fn(int) -> int,
    /// Queries, cache, weights, lengths, schedule and block table.
    pub score: spec_fn(int, int, int, int, int, int) -> int,
    pub widen: spec_fn(int) -> int,
    /// Rows, how many, the longest row; scores and lengths.
    pub best: spec_fn(int, int, int, int, int) -> int,
    /// Rows, how many, block size and table stride; offsets, lengths, table.
    pub slots: spec_fn(int, int, int, int, int, int, int) -> int,
}

/// What the indexer's buffers hold.
pub ghost struct Glm52IndexerBuffers {
    pub of: Map<Glm52IndexerBuffer, int>,
}

impl Glm52IndexerBuffers {
    /// What a buffer holds.
    pub open spec fn get(self, b: Glm52IndexerBuffer) -> int {
        self.of[b]
    }

    /// The buffers with one of them written.
    pub open spec fn put(self, b: Glm52IndexerBuffer, value: int) -> Glm52IndexerBuffers {
        Glm52IndexerBuffers { of: self.of.insert(b, value) }
    }
}

/// What one launch does to the buffers.
pub open spec fn indexer_launch(
    m: Glm52IndexerKernels,
    s: Glm52IndexerBuffers,
    l: Glm52IndexerLaunch,
) -> Glm52IndexerBuffers {
    match l {
        Glm52IndexerLaunch::QueryProj { rows } => s.put(
            Glm52IndexerBuffer::Query,
            (m.query)(rows as int, s.get(Glm52IndexerBuffer::QueryResidual)),
        ),
        Glm52IndexerLaunch::KeyProj { rows } => s.put(
            Glm52IndexerBuffer::KeyRaw,
            (m.key)(rows as int, s.get(Glm52IndexerBuffer::Hidden)),
        ),
        Glm52IndexerLaunch::HeadWeights { m: heads, n, k } => s.put(
            Glm52IndexerBuffer::HeadWeights,
            (m.head_weights)(heads as int, n as int, k as int, s.get(Glm52IndexerBuffer::Hidden)),
        ),
        Glm52IndexerLaunch::KeyNorm { rows, width } => s.put(
            Glm52IndexerBuffer::Key,
            (m.key_norm)(rows as int, width as int, s.get(Glm52IndexerBuffer::KeyRaw)),
        ),
        Glm52IndexerLaunch::Rope { heads, rows } => s.put(
            Glm52IndexerBuffer::Query,
            (m.rotate_query)(
                heads as int,
                rows as int,
                s.get(Glm52IndexerBuffer::Rotary),
                s.get(Glm52IndexerBuffer::Query),
            ),
        ).put(
            Glm52IndexerBuffer::Key,
            (m.rotate_key)(
                heads as int,
                rows as int,
                s.get(Glm52IndexerBuffer::Rotary),
                s.get(Glm52IndexerBuffer::Key),
            ),
        ),
        Glm52IndexerLaunch::QueryQuant { rows, width, group } => s.put(
            Glm52IndexerBuffer::QueryFp8,
            (m.quant)(rows as int, width as int, group as int, s.get(Glm52IndexerBuffer::Query)),
        ).put(
            Glm52IndexerBuffer::QueryScale,
            (m.quant_scale)(
                rows as int,
                width as int,
                group as int,
                s.get(Glm52IndexerBuffer::Query),
            ),
        ),
        Glm52IndexerLaunch::FoldWeights => s.put(
            Glm52IndexerBuffer::FoldedWeights,
            (m.fold)(
                s.get(Glm52IndexerBuffer::HeadWeights),
                s.get(Glm52IndexerBuffer::QueryScale),
            ),
        ),
        Glm52IndexerLaunch::KeyCache { rows, blocks, block_size, block_stride } => s.put(
            Glm52IndexerBuffer::IndexCache,
            (m.put)(
                rows as int,
                Glm52IndexerCacheLayout {
                    cache_blocks: blocks,
                    cache_block_size: block_size,
                    cache_block_stride_bytes: block_stride,
                },
                s.get(Glm52IndexerBuffer::IndexCache),
                s.get(Glm52IndexerBuffer::SlotMapping),
                s.get(Glm52IndexerBuffer::Key),
            ),
        ),
        Glm52IndexerLaunch::CopyContextLens { rows } => s.put(
            Glm52IndexerBuffer::ContextLens,
            (m.lens)(rows as int, s.get(Glm52IndexerBuffer::SeqLens)),
        ),
        Glm52IndexerLaunch::Schedule => s.put(
            Glm52IndexerBuffer::Schedule,
            (m.schedule)(s.get(Glm52IndexerBuffer::ContextLens)),
        ),
        Glm52IndexerLaunch::Score => s.put(
            Glm52IndexerBuffer::Logits,
            (m.score)(
                s.get(Glm52IndexerBuffer::QueryFp8),
                s.get(Glm52IndexerBuffer::IndexCache),
                s.get(Glm52IndexerBuffer::FoldedWeights),
                s.get(Glm52IndexerBuffer::ContextLens),
                s.get(Glm52IndexerBuffer::Schedule),
                s.get(Glm52IndexerBuffer::BlockTable),
            ),
        ),
        Glm52IndexerLaunch::Widen => s.put(
            Glm52IndexerBuffer::Scores,
            (m.widen)(s.get(Glm52IndexerBuffer::Logits)),
        ),
        Glm52IndexerLaunch::TopK { rows, topk, max_len } => s.put(
            Glm52IndexerBuffer::TopkOffsets,
            (m.best)(
                rows as int,
                topk as int,
                max_len as int,
                s.get(Glm52IndexerBuffer::Scores),
                s.get(Glm52IndexerBuffer::ContextLens),
            ),
        ),
        Glm52IndexerLaunch::ToSlots { rows, topk, block_size, table_stride } => s.put(
            Glm52IndexerBuffer::Slots,
            (m.slots)(
                rows as int,
                topk as int,
                block_size as int,
                table_stride as int,
                s.get(Glm52IndexerBuffer::TopkOffsets),
                s.get(Glm52IndexerBuffer::ContextLens),
                s.get(Glm52IndexerBuffer::BlockTable),
            ),
        ),
    }
}

/// The buffers after the first `k` launches of a list.
pub open spec fn indexer_after(
    m: Glm52IndexerKernels,
    s: Glm52IndexerBuffers,
    plan: Seq<Glm52IndexerLaunch>,
    k: int,
) -> Glm52IndexerBuffers
    decreases k,
{
    if k <= 0 {
        s
    } else {
        indexer_launch(m, indexer_after(m, s, plan, k - 1), plan[k - 1])
    }
}

/// The indexer computes the sparse selection, whatever its kernels compute.
/// The key that goes into the cache is the hidden row's, normed and then
/// rotated; the query that is scored is the rotated one, quantised head by
/// head, and its scales are folded into the heads' weights; the scores run
/// over the cache that already holds the step's keys; and the best of them,
/// as many as asked for, become cache slots. Each kernel covers the shape's
/// rows.
pub proof fn the_indexer_selects_by_rotated_queries_and_keys(
    m: Glm52IndexerKernels,
    s: Glm52IndexerBuffers,
    shape: Glm52MqaLogitsShape,
    topk: usize,
)
    requires
        32 * shape.batch_size <= usize::MAX,
    ensures
        ({
            let plan = crate::indexer::indexer_launches(shape, topk);
            let r = indexer_after(m, s, plan, plan.len() as int);
            let t = shape.batch_size as int;
            let rotary = s.get(Glm52IndexerBuffer::Rotary);
            let hidden = s.get(Glm52IndexerBuffer::Hidden);
            let key = (m.rotate_key)(32, t, rotary, (m.key_norm)(t, 128, (m.key)(t, hidden)));
            let cache = (m.put)(
                t,
                Glm52IndexerCacheLayout {
                    cache_blocks: shape.num_kv_blocks,
                    cache_block_size: shape.block_kv,
                    cache_block_stride_bytes: shape.kv_cache_stride_bytes,
                },
                s.get(Glm52IndexerBuffer::IndexCache),
                s.get(Glm52IndexerBuffer::SlotMapping),
                key,
            );
            let query = (m.rotate_query)(
                32,
                t,
                rotary,
                (m.query)(t, s.get(Glm52IndexerBuffer::QueryResidual)),
            );
            let weights = (m.fold)(
                (m.head_weights)(32, t, 6144, hidden),
                (m.quant_scale)(32 * t, 128, 128, query),
            );
            let lens = (m.lens)(t, s.get(Glm52IndexerBuffer::SeqLens));
            let table = s.get(Glm52IndexerBuffer::BlockTable);
            let scores = (m.widen)(
                (m.score)(
                    (m.quant)(32 * t, 128, 128, query),
                    cache,
                    weights,
                    lens,
                    (m.schedule)(lens),
                    table,
                ),
            );
            &&& r.get(Glm52IndexerBuffer::IndexCache) == cache
            &&& r.get(Glm52IndexerBuffer::Slots) == (m.slots)(
                t,
                topk as int,
                shape.block_kv as int,
                shape.block_table_stride as int,
                (m.best)(t, topk as int, shape.logits_stride as int, scores, lens),
                lens,
                table,
            )
        }),
{
    reveal_with_fuel(indexer_after, 16);
}

/// A cache fill puts into the cache the key that the indexer itself would put
/// there for the same row.
pub proof fn a_cache_fill_is_the_indexers_own_write(
    m: Glm52IndexerKernels,
    s: Glm52IndexerBuffers,
    layout: Glm52IndexerCacheLayout,
    shape: Glm52MqaLogitsShape,
    topk: usize,
)
    requires
        shape.batch_size == 1,
        shape.num_kv_blocks == layout.cache_blocks,
        shape.block_kv == layout.cache_block_size,
        shape.kv_cache_stride_bytes == layout.cache_block_stride_bytes,
    ensures
        ({
            let fill = crate::indexer::cache_fill_launches(layout);
            let plan = crate::indexer::indexer_launches(shape, topk);
            indexer_after(m, s, fill, fill.len() as int).get(Glm52IndexerBuffer::IndexCache)
                == indexer_after(m, s, plan, plan.len() as int).get(
                Glm52IndexerBuffer::IndexCache,
            )
        }),
{
    reveal_with_fuel(indexer_after, 16);
}

/// No launch of the indexer writes a buffer that an earlier one has read:
/// what a launch reads is the buffer's final value of the step.
pub proof fn what_is_read_stays(shape: Glm52MqaLogitsShape, topk: usize, i: int, j: int)
    requires
        0 <= i < j < crate::indexer::indexer_launches(shape, topk).len(),
    ensures
        forall|b: Glm52IndexerBuffer|
            !(#[trigger] crate::indexer::reads(crate::indexer::indexer_launches(shape, topk)[i], b)
                && crate::indexer::writes(
                crate::indexer::indexer_launches(shape, topk)[j],
                b,
            )),
{
}

} // verus!
