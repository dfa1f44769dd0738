//! Building one rank's model: the checks, the cache and scratch sizes that
//! follow from the context cap, and the arenas that the offload tier sees.
use vstd::prelude::*;

use crate::budget::{glm52_index_cache_layout, glm52_pool_blocks, Glm52IndexerCacheLayout};
use crate::config::{
    bucket_index, decode_buckets, glm52_layer_has_full_indexer, GLM52_HEADS, GLM52_LAYERS,
    GLM52_MODEL_LEN_ALIGN, GLM52_SPARSE_TOPK, GLM52_VOCAB, NUM_SMS,
};
use crate::indexer::{decode_shape, Glm52MqaLogitsShape};
use crate::mla::{glm52_select_mla_backend, Glm52MlaBackend};
use crate::mla_plan::Glm52AttendShape;
use crate::offload::{arena_name, Glm52ArenaKind, Glm52KvArena};
use crate::text::decimal_text;
use crate::topology::Glm52MoeTopo;

verus! {

/// Why a rank's model cannot be built.
#[derive(Clone, Debug, PartialEq, Eq)]
pub enum Glm52BuildError {
    /// A head shard without a tensor-replicated topology, or the reverse.
    ShardTopology { topo: Glm52MoeTopo, shard: Option<usize> },
    ModelLen { max_model_len: usize },
    VocabBytes { embed: usize, head: usize },
    VocabShard { rank: usize, ranks: usize },
    /// The build left a tensor of the rank's weights untaken.
    NotConsumed { name: String },
}

/// A head shard as it is written in messages.
pub open spec fn shard_shown(shard: Option<usize>) -> Seq<char> {
    match shard {
        Some(rank) => "Some("@ + crate::text::decimal(rank as nat) + ")"@,
        None => "None"@,
    }
}

fn shard_text(shard: Option<usize>) -> (t: String)
    ensures
        t@ == shard_shown(shard),
{
    match shard {
        Some(rank) => {
            let mut t = String::from_str("Some(");
            t.append(decimal_text(rank as u64).as_str());
            t.append(")");
            t
        },
        None => String::from_str("None"),
    }
}

impl Glm52BuildError {
    /// The message for the operator.
    pub open spec fn text(self) -> Seq<char> {
        match self {
            Glm52BuildError::ShardTopology { topo, shard } => "GLM5.2 attention-TP shard must ride a tensor-replicated topology (topo "@
                + topo.label()
                + ", shard "@
                + shard_shown(shard)
                + ")"@,
            Glm52BuildError::ModelLen { max_model_len } => "GLM5.2 max_model_len "@
                + crate::text::decimal(max_model_len as nat)
                + " must be a positive multiple of 64 (the FlashMLA page / index-K block size)"@,
            Glm52BuildError::VocabBytes { .. } => "GLM5.2 embed/lm_head byte lengths unexpected"@,
            Glm52BuildError::VocabShard { rank, ranks } => "GLM5.2 vocab TP shard "@
                + crate::text::decimal(rank as nat)
                + "/"@
                + crate::text::decimal(ranks as nat)
                + " cannot partition 154880 rows"@,
            Glm52BuildError::NotConsumed { name } => "GLM5.2 model build left tensor "@
                + name@
                + " unconsumed"@,
        }
    }

    /// The message for the operator.
    pub fn message(&self) -> (m: String)
        ensures
            m@ == self.text(),
    {
        match self {
            Glm52BuildError::ShardTopology { topo, shard } => {
                let mut m = String::from_str(
                    "GLM5.2 attention-TP shard must ride a tensor-replicated topology (topo ",
                );
                m.append(topo.label_text());
                m.append(", shard ");
                m.append(shard_text(*shard).as_str());
                m.append(")");
                m
            },
            Glm52BuildError::ModelLen { max_model_len } => {
                let mut m = String::from_str("GLM5.2 max_model_len ");
                m.append(decimal_text(*max_model_len as u64).as_str());
                m.append(
                    " must be a positive multiple of 64 (the FlashMLA page / index-K block size)",
                );
                m
            },
            Glm52BuildError::VocabBytes { .. } => String::from_str(
                "GLM5.2 embed/lm_head byte lengths unexpected",
            ),
            Glm52BuildError::VocabShard { rank, ranks } => {
                let mut m = String::from_str("GLM5.2 vocab TP shard ");
                m.append(decimal_text(*rank as u64).as_str());
                m.append("/");
                m.append(decimal_text(*ranks as u64).as_str());
                m.append(" cannot partition 154880 rows");
                m
            },
            Glm52BuildError::NotConsumed { name } => {
                let mut m = String::from_str("GLM5.2 model build left tensor ");
                m.append(name.as_str());
                m.append(" unconsumed");
                m
            },
        }
    }
}

/// The rows of the vocabulary head that a rank decodes with.
#[derive(Clone, Copy, Debug, PartialEq, Eq, Structural)]
pub struct Glm52VocabShard {
    pub start: usize,
    pub rows: usize,
}

/// What one decode bucket is built with.
#[derive(Clone, Copy, Debug, PartialEq, Eq, Structural)]
pub struct Glm52BucketPlan {
    pub attend: Glm52AttendShape,
    pub scores: Glm52MqaLogitsShape,
    /// Entries of the bucket's page table.
    pub table_len: usize,
}

/// What a rank's model is built with.
#[derive(Clone, Copy, Debug, PartialEq, Eq)]
pub struct Glm52BuildPlan {
    /// Attention heads of this rank.
    pub heads: usize,
    pub backend: Glm52MlaBackend,
    /// Whether the attend schedule keeps to one part.
    pub single_part: bool,
    pub num_blocks: usize,
    pub table_width: usize,
    pub index_layout: Glm52IndexerCacheLayout,
    /// Bytes of one layer's KV cache.
    pub mla_cache_bytes: u64,
    /// Bytes of one full-indexer layer's index-key cache.
    pub index_cache_bytes: u64,
    /// Elements of one rotary table.
    pub rope_len: u64,
    pub shard: Option<Glm52VocabShard>,
    pub buckets: [Glm52BucketPlan; 4],
    /// Whether every bucket's attend kernel is loaded ahead.
    pub preflight: bool,
    /// Ranks whose tokens the expert collectives gather: one where the experts
    /// are replicated.
    pub ep_ranks: usize,
}

/// The heads that a rank holds.
pub open spec fn heads_of(topo: Glm52MoeTopo, sharded: bool) -> int {
    if sharded {
        64int / topo.devices()
    } else {
        64
    }
}

/// The plan of the bucket of `rows` rows.
pub open spec fn bucket_plan(rows: int, max_model_len: int, b: Glm52BucketPlan) -> bool {
    &&& b.attend.rows == rows
    &&& b.attend.blocks == crate::budget::pool_blocks(max_model_len)
    &&& b.attend.topk == 2048
    &&& b.scores.batch_size == rows
    &&& b.scores.next_n == 1
    &&& b.scores.num_heads == 32
    &&& b.scores.head_dim == 128
    &&& b.scores.num_kv_blocks == crate::budget::pool_blocks(max_model_len)
    &&& b.scores.block_kv == 64
    &&& b.scores.kv_cache_stride_bytes == 8448
    &&& !b.scores.is_context_lens_2d
    &&& !b.scores.is_varlen
    &&& b.scores.logits_stride == crate::arith::round_up(max_model_len, 256)
    &&& b.scores.block_table_stride == crate::budget::table_width(max_model_len)
    &&& b.scores.num_sms == 132
    &&& b.table_len == rows * crate::budget::table_width(max_model_len)
}

/// The inputs of a build that a machine word can address.
pub open spec fn addressable(max_model_len: usize) -> bool {
    &&& max_model_len < usize::MAX
    &&& crate::arith::round_up(max_model_len as int, 256) <= usize::MAX
    &&& crate::budget::pool_blocks(max_model_len as int) <= usize::MAX
    &&& crate::budget::arena_bytes(max_model_len as int) <= u64::MAX
}

/// What is wrong with a build's inputs.
pub open spec fn build_fault(
    topo: Glm52MoeTopo,
    shard: Option<usize>,
    max_model_len: usize,
    embed_bytes: usize,
    head_bytes: usize,
) -> Option<Glm52BuildError> {
    if topo.is_replicated() != (shard is Some) {
        Some(Glm52BuildError::ShardTopology { topo, shard })
    } else if max_model_len == 0 || max_model_len % 64 != 0 {
        Some(Glm52BuildError::ModelLen { max_model_len })
    } else if embed_bytes != 1_903_165_440 || head_bytes != 1_903_165_440 {
        Some(Glm52BuildError::VocabBytes { embed: embed_bytes, head: head_bytes })
    } else if shard is Some && shard->0 >= topo.devices() {
        Some(
            Glm52BuildError::VocabShard { rank: shard->0, ranks: topo.devices() as usize },
        )
    } else {
        None
    }
}

/// Sizes one decode bucket.
pub(crate) fn plan_bucket(
    rows: usize,
    max_model_len: usize,
    num_blocks: usize,
    table_width: usize,
    layout: Glm52IndexerCacheLayout,
) -> (r: Glm52BucketPlan)
    requires
        addressable(max_model_len),
        rows <= 8,
        num_blocks == crate::budget::pool_blocks(max_model_len as int),
        table_width == crate::budget::table_width(max_model_len as int),
        layout.cache_blocks == num_blocks,
        layout.cache_block_size == 64,
        layout.cache_block_stride_bytes == 8448,
    ensures
        bucket_plan(rows as int, max_model_len as int, r),
{
    assert(rows * table_width <= 8 * table_width) by (nonlinear_arith)
        requires
            rows <= 8,
    ;
    Glm52BucketPlan {
        attend: Glm52AttendShape { rows, blocks: num_blocks, topk: GLM52_SPARSE_TOPK },
        scores: decode_shape(rows, layout, table_width, NUM_SMS, max_model_len),
        table_len: rows * table_width,
    }
}

/// Plans the build of a rank's model: checks the inputs in order and sizes
/// everything that scales with the context cap.
pub fn plan_build(
    topo: Glm52MoeTopo,
    shard: Option<usize>,
    max_model_len: usize,
    flashinfer_supported: bool,
    embed_bytes: usize,
    head_bytes: usize,
) -> (r: Result<Glm52BuildPlan, Glm52BuildError>)
    requires
        addressable(max_model_len),
    ensures
        match r {
            Ok(p) => {
                &&& build_fault(topo, shard, max_model_len, embed_bytes, head_bytes) is None
                &&& p.heads == heads_of(topo, shard is Some)
                &&& p.backend == crate::mla::backend_of(p.heads, flashinfer_supported)
                &&& p.single_part == (shard is Some)
                &&& p.num_blocks == crate::budget::pool_blocks(max_model_len as int)
                &&& p.table_width == crate::budget::table_width(max_model_len as int)
                &&& p.index_layout == (Glm52IndexerCacheLayout {
                    cache_blocks: p.num_blocks,
                    cache_block_size: 64,
                    cache_block_stride_bytes: 8448,
                })
                &&& p.mla_cache_bytes == 64 * (p.num_blocks * p.backend.bytes_per_token())
                &&& p.index_cache_bytes == 8448 * p.num_blocks
                &&& p.rope_len == 32 * max_model_len
                &&& match shard {
                    Some(rank) => p.shard == Some(
                        Glm52VocabShard {
                            start: (rank * (154_880int / topo.devices())) as usize,
                            rows: (154_880int / topo.devices()) as usize,
                        },
                    ),
                    None => p.shard is None,
                }
                &&& bucket_plan(1, max_model_len as int, p.buckets@[0])
                &&& bucket_plan(2, max_model_len as int, p.buckets@[1])
                &&& bucket_plan(4, max_model_len as int, p.buckets@[2])
                &&& bucket_plan(8, max_model_len as int, p.buckets@[3])
                &&& p.preflight == (p.backend == Glm52MlaBackend::FlashInferFp8)
                &&& p.ep_ranks == (if topo.is_replicated() {
                    1
                } else {
                    topo.ep()
                })
            },
            Err(e) => build_fault(topo, shard, max_model_len, embed_bytes, head_bytes) == Some(e),
        },
        r is Ok <==> topo.is_replicated() == (shard is Some) && max_model_len > 0 && max_model_len
            % 64 == 0 && embed_bytes == 1_903_165_440 && head_bytes == 1_903_165_440 && (
        shard matches Some(rank) ==> rank < topo.devices()),
        r matches Ok(p) ==> {
            &&& p.heads == (if topo == Glm52MoeTopo::Tp8 {
                8int
            } else if topo == Glm52MoeTopo::Tp4 {
                16
            } else {
                64
            })
            &&& p.preflight <==> topo == Glm52MoeTopo::Tp4 && flashinfer_supported
            &&& p.buckets@[0].attend.rows == 1 && p.buckets@[1].attend.rows == 2
            &&& p.buckets@[2].attend.rows == 4 && p.buckets@[3].attend.rows == 8
            &&& forall|i: int|
                0 <= i < 4 ==> {
                    let b = #[trigger] p.buckets@[i];
                    &&& b.attend.topk == 2048 && b.attend.blocks == p.num_blocks
                    &&& b.scores.batch_size == b.attend.rows
                    &&& b.scores.num_kv_blocks == p.num_blocks
                    &&& b.scores.block_table_stride == p.table_width
                    &&& b.scores.logits_stride >= max_model_len
                    &&& b.scores.logits_stride % 256 == 0
                    &&& b.table_len == b.attend.rows * p.table_width
                }
        },
{
    if topo.uses_tensor_replicated_moe() != shard.is_some() {
        return Err(Glm52BuildError::ShardTopology { topo, shard });
    }
    if !(max_model_len > 0 && max_model_len % GLM52_MODEL_LEN_ALIGN == 0) {
        return Err(Glm52BuildError::ModelLen { max_model_len });
    }
    let ranks: usize = topo.device_count();
    let heads: usize = if shard.is_some() {
        GLM52_HEADS / ranks
    } else {
        GLM52_HEADS
    };
    proof {
        if topo is Tp8 {
            assert(ranks == 8);
            assert(shard is Some);
            assert(64int / 8 == 8 && heads == 8);
            assert(154_880int % 8 == 0);
        } else if topo is Tp4 {
            assert(ranks == 4);
            assert(shard is Some);
            assert(64int / 4 == 16 && heads == 16);
            assert(154_880int % 4 == 0);
        }
    }
    let backend: Glm52MlaBackend = glm52_select_mla_backend(heads, flashinfer_supported);
    let bytes_per_token: usize = backend.cache_bytes_per_token();
    let num_blocks: usize = glm52_pool_blocks(max_model_len);
    let (table_width, index_layout) = glm52_index_cache_layout(max_model_len);
    let vocab_bytes: usize = GLM52_VOCAB * 12_288;
    if !(embed_bytes == vocab_bytes && head_bytes == vocab_bytes) {
        return Err(Glm52BuildError::VocabBytes { embed: embed_bytes, head: head_bytes });
    }
    let head_shard: Option<Glm52VocabShard> = match shard {
        Some(rank) => {
            if !(rank < ranks && GLM52_VOCAB % ranks == 0) {
                return Err(Glm52BuildError::VocabShard { rank, ranks });
            }
            let rows: usize = GLM52_VOCAB / ranks;
            assert(rank * rows <= 64 * 154_880) by (nonlinear_arith)
                requires
                    rank < 64,
                    rows <= 154_880,
            ;
            Some(Glm52VocabShard { start: rank * rows, rows })
        },
        None => None,
    };
    assert(num_blocks * bytes_per_token <= num_blocks * 656) by (nonlinear_arith)
        requires
            bytes_per_token <= 656,
    ;
    assert(num_blocks * index_layout.cache_block_stride_bytes == 8448 * num_blocks)
        by (nonlinear_arith)
        requires
            index_layout.cache_block_stride_bytes == 8448,
    ;
    let mla_cache_bytes: u64 = 64 * (num_blocks as u64 * bytes_per_token as u64);
    let index_cache_bytes: u64 = index_layout.min_cache_bytes();
    let rows: [usize; 4] = decode_buckets();
    let b0 = plan_bucket(rows[0], max_model_len, num_blocks, table_width, index_layout);
    let b1 = plan_bucket(rows[1], max_model_len, num_blocks, table_width, index_layout);
    let b2 = plan_bucket(rows[2], max_model_len, num_blocks, table_width, index_layout);
    let b3 = plan_bucket(rows[3], max_model_len, num_blocks, table_width, index_layout);
    proof {
        crate::arith::round_up_is_least_multiple(max_model_len as int, 256);
    }
    Ok(
        Glm52BuildPlan {
            heads,
            backend,
            single_part: shard.is_some(),
            num_blocks,
            table_width,
            index_layout,
            mla_cache_bytes,
            index_cache_bytes,
            rope_len: 32 * max_model_len as u64,
            shard: head_shard,
            buckets: [b0, b1, b2, b3],
            preflight: match backend {
                Glm52MlaBackend::FlashInferFp8 => true,
                Glm52MlaBackend::FlashMlaFp8Ds => false,
            },
            ep_ranks: if topo.uses_ep_expert_bundles() {
                topo.expected_ep_size()
            } else {
                1
            },
        },
    )
}

/// Checks that a build took every tensor of the rank's weights: `left` are the
/// names of those still there, and the first of them is reported.
pub fn check_consumed(left: &Vec<String>) -> (r: Result<(), Glm52BuildError>)
    ensures
        left.len() == 0 ==> r is Ok,
        left.len() > 0 ==> (r matches Err(Glm52BuildError::NotConsumed { name }) && name@
            == left@[0]@),
{
    if left.len() == 0 {
        Ok(())
    } else {
        Err(Glm52BuildError::NotConsumed { name: left[0].as_str().to_owned() })
    }
}

/// The cap-scaled bytes that a build plan allocates: the caches of all
/// layers, both rotary tables, and every bucket's scores (as two- and
/// four-byte copies) and page table.
pub open spec fn allocated(p: Glm52BuildPlan) -> int {
    78 * p.mla_cache_bytes + crate::config::full_indexers_below(78) * p.index_cache_bytes + 4
        * p.rope_len + bucket_bytes(p.buckets@[0]) + bucket_bytes(p.buckets@[1]) + bucket_bytes(
        p.buckets@[2],
    ) + bucket_bytes(p.buckets@[3])
}

/// The cap-scaled bytes that a bucket allocates.
pub open spec fn bucket_bytes(b: Glm52BucketPlan) -> int {
    6 * (b.scores.batch_size * b.scores.logits_stride) + 4 * b.table_len
}

/// The ledger by which the context cap is chosen is exactly what a build
/// allocates where a cached token takes 656 bytes, and never less than it.
pub proof fn ledger_covers_the_build(max_model_len: usize, p: Glm52BuildPlan)
    requires
        p.num_blocks == crate::budget::pool_blocks(max_model_len as int),
        p.mla_cache_bytes == 64 * (p.num_blocks * p.backend.bytes_per_token()),
        p.index_cache_bytes == 8448 * p.num_blocks,
        p.rope_len == 32 * max_model_len,
        bucket_plan(1, max_model_len as int, p.buckets@[0]),
        bucket_plan(2, max_model_len as int, p.buckets@[1]),
        bucket_plan(4, max_model_len as int, p.buckets@[2]),
        bucket_plan(8, max_model_len as int, p.buckets@[3]),
    ensures
        allocated(p) <= crate::budget::arena_bytes(max_model_len as int),
        p.backend == Glm52MlaBackend::FlashMlaFp8Ds ==> allocated(p) == crate::budget::arena_bytes(
            max_model_len as int,
        ),
{
    crate::config::checkpoint_full_indexers();
    let stride = crate::arith::round_up(max_model_len as int, 256);
    let width = crate::budget::table_width(max_model_len as int);
    let per_token = p.backend.bytes_per_token();
    assert(p.num_blocks * per_token == 656 * p.num_blocks || p.num_blocks * per_token == 576
        * p.num_blocks) by (nonlinear_arith)
        requires
            per_token == 656 || per_token == 576,
    ;
    assert(per_token == 656 ==> p.num_blocks * per_token == 656 * p.num_blocks)
        by (nonlinear_arith);
    assert(crate::config::full_indexers_below(78) * p.index_cache_bytes == 21
        * p.index_cache_bytes) by (nonlinear_arith)
        requires
            crate::config::full_indexers_below(78) == 21,
    ;
    assert(1 * stride == stride && 2 * stride == stride + stride);
}

/// The vocabulary shards of a tensor-replicated topology are a partition:
/// every row of the head is in exactly one rank's shard.
#[verifier::spinoff_prover]
pub proof fn vocab_shards_partition_the_head(topo: Glm52MoeTopo, row: int)
    requires
        topo.is_replicated(),
        0 <= row < 154_880,
    ensures
        ({
            let rows = 154_880int / topo.devices();
            let owner = row / rows;
            &&& 0 <= owner < topo.devices()
            &&& owner * rows <= row < (owner + 1) * rows
            &&& forall|rank: int|
                #![trigger rank * rows]
                0 <= rank < topo.devices() && rank * rows <= row < (rank + 1) * rows ==> rank
                    == owner
        }),
{
    let rows = 154_880int / topo.devices();
    if topo == Glm52MoeTopo::Tp8 {
        assert(rows == 19_360);
    } else {
        assert(rows == 38_720);
    }
    vstd::arithmetic::div_mod::lemma_fundamental_div_mod(row, rows);
    assert forall|rank: int|
        #![trigger rank * rows]
        0 <= rank < topo.devices() && rank * rows <= row < (rank + 1) * rows implies rank == row
        / rows by {
        assert(0 <= row - rank * rows < rows) by (nonlinear_arith)
            requires
                rank * rows <= row < (rank + 1) * rows,
        ;
        assert(row == rank * rows + (row - rank * rows));
        vstd::arithmetic::div_mod::lemma_fundamental_div_mod_converse(
            row,
            rows,
            rank,
            row - rank * rows,
        );
    }
}

/// The rows of the vocabulary product: the selectable prefix of the full
/// head, or all rows of a shard that divides it.
pub fn logit_rows(head_rows: usize, selection_vocab: usize) -> (r: Option<usize>)
    requires
        0 < selection_vocab,
    ensures
        r == (if head_rows == 154_880 {
            Some(selection_vocab)
        } else if 0 < head_rows <= selection_vocab && selection_vocab % head_rows == 0 {
            Some(head_rows)
        } else {
            None::<usize>
        }),
{
    if head_rows == GLM52_VOCAB {
        return Some(selection_vocab);
    }
    if head_rows == 0 || head_rows > selection_vocab || selection_vocab % head_rows != 0 {
        return None;
    }
    Some(head_rows)
}

/// The bytes of one layer's caches.
#[derive(Clone, Copy, Debug, PartialEq, Eq, Structural)]
pub struct Glm52LayerCacheBytes {
    pub mla: u64,
    pub index_k: Option<u64>,
}

/// The caches that a build allocates, layer by layer.
pub fn layer_cache_bytes(p: &Glm52BuildPlan) -> (r: Vec<Glm52LayerCacheBytes>)
    ensures
        r.len() == 78,
        forall|l: int|
            0 <= l < 78 ==> #[trigger] r@[l] == (Glm52LayerCacheBytes {
                mla: p.mla_cache_bytes,
                index_k: if crate::config::has_full_indexer(l) {
                    Some(p.index_cache_bytes)
                } else {
                    None
                },
            }),
{
    let mut caches: Vec<Glm52LayerCacheBytes> = Vec::new();
    let mut layer: usize = 0;
    while layer < GLM52_LAYERS
        invariant
            layer <= 78,
            caches.len() == layer,
            forall|l: int|
                0 <= l < layer ==> #[trigger] caches@[l] == (Glm52LayerCacheBytes {
                    mla: p.mla_cache_bytes,
                    index_k: if crate::config::has_full_indexer(l) {
                        Some(p.index_cache_bytes)
                    } else {
                        None
                    },
                }),
        decreases 78 - layer,
    {
        caches.push(
            Glm52LayerCacheBytes {
                mla: p.mla_cache_bytes,
                index_k: if glm52_layer_has_full_indexer(layer) {
                    Some(p.index_cache_bytes)
                } else {
                    None
                },
            },
        );
        layer = layer + 1;
    }
    caches
}

/// A cache arena of the wrong size.
#[derive(Clone, Copy, Debug, PartialEq, Eq, Structural)]
pub struct Glm52ArenaError {
    pub layer: usize,
    pub kind: Glm52ArenaKind,
    pub got: u64,
    pub blocks: usize,
    pub block_bytes: usize,
}

/// The arenas of the first `upto` layers: name and bytes of a block.
pub open spec fn arena_list(
    caches: Seq<Glm52LayerCacheBytes>,
    upto: int,
    mla_block_bytes: int,
) -> Seq<(Seq<char>, int)>
    decreases upto,
{
    if upto <= 0 {
        Seq::empty()
    } else {
        let layer = (upto - 1) as nat;
        let before = arena_list(caches, upto - 1, mla_block_bytes).push(
            (crate::offload::native_name(layer, Glm52ArenaKind::Mla), mla_block_bytes),
        );
        if caches[upto - 1].index_k is Some {
            before.push((crate::offload::native_name(layer, Glm52ArenaKind::IndexK), 8448))
        } else {
            before
        }
    }
}

/// Every layer's KV pages are an arena of the rank under the layer's name,
/// every layer's index keys are one where it has some, and there is no other.
pub proof fn every_cache_is_an_arena(
    caches: Seq<Glm52LayerCacheBytes>,
    upto: int,
    mla_block_bytes: int,
    l: int,
)
    requires
        0 <= l < upto <= caches.len(),
    ensures
        ({
            let list = arena_list(caches, upto, mla_block_bytes);
            let mla = (crate::offload::native_name(l as nat, Glm52ArenaKind::Mla), mla_block_bytes);
            let index = (crate::offload::native_name(l as nat, Glm52ArenaKind::IndexK), 8448int);
            &&& list.contains(mla)
            &&& caches[l].index_k is Some ==> list.contains(index)
            &&& upto <= list.len() <= 2 * upto
            &&& (forall|k: int| 0 <= k < upto ==> (#[trigger] caches[k]).index_k is Some)
                ==> list.len() == 2 * upto
            &&& (forall|k: int| 0 <= k < upto ==> (#[trigger] caches[k]).index_k is None)
                ==> list.len() == upto
        }),
    decreases upto,
{
    let list = arena_list(caches, upto, mla_block_bytes);
    let before = arena_list(caches, upto - 1, mla_block_bytes);
    let mla = (crate::offload::native_name(l as nat, Glm52ArenaKind::Mla), mla_block_bytes);
    let index = (crate::offload::native_name(l as nat, Glm52ArenaKind::IndexK), 8448int);
    if upto > 1 {
        every_cache_is_an_arena(
            caches,
            upto - 1,
            mla_block_bytes,
            if l < upto - 1 {
                l
            } else {
                0
            },
        );
    }
    if l < upto - 1 {
        let at = choose|at: int| 0 <= at < before.len() && before[at] == mla;
        assert(list[at] == mla);
        if caches[l].index_k is Some {
            let at = choose|at: int| 0 <= at < before.len() && before[at] == index;
            assert(list[at] == index);
        }
    } else {
        assert(list[before.len() as int] == mla);
        if caches[l].index_k is Some {
            assert(list[before.len() as int + 1] == index);
        }
    }
}

/// An arena of a rank is that of one of its layers, with that kind's block
/// bytes.
pub proof fn an_arena_is_of_a_layer(
    caches: Seq<Glm52LayerCacheBytes>,
    upto: int,
    mla_block_bytes: int,
    at: int,
) -> (l: int)
    requires
        0 <= upto <= caches.len(),
        0 <= at < arena_list(caches, upto, mla_block_bytes).len(),
    ensures
        0 <= l < upto,
        ({
            let arena = arena_list(caches, upto, mla_block_bytes)[at];
            ||| arena.0 == crate::offload::native_name(l as nat, Glm52ArenaKind::Mla) && arena.1
                == mla_block_bytes
            ||| caches[l].index_k is Some && arena.0 == crate::offload::native_name(
                l as nat,
                Glm52ArenaKind::IndexK,
            ) && arena.1 == 8448
        }),
    decreases upto,
{
    if at < arena_list(caches, upto - 1, mla_block_bytes).len() {
        an_arena_is_of_a_layer(caches, upto - 1, mla_block_bytes, at)
    } else {
        upto - 1
    }
}

/// What is wrong with a layer's caches.
pub open spec fn arena_fault(
    c: Glm52LayerCacheBytes,
    layer: usize,
    blocks: usize,
    mla_block_bytes: usize,
) -> Option<Glm52ArenaError> {
    if c.mla != blocks * mla_block_bytes {
        Some(
            Glm52ArenaError {
                layer,
                kind: Glm52ArenaKind::Mla,
                got: c.mla,
                blocks,
                block_bytes: mla_block_bytes,
            },
        )
    } else if c.index_k is Some && c.index_k->0 != blocks * 8448 {
        Some(
            Glm52ArenaError {
                layer,
                kind: Glm52ArenaKind::IndexK,
                got: c.index_k->0,
                blocks,
                block_bytes: 8448,
            },
        )
    } else {
        None
    }
}

/// Whether a list of arenas is as named, all of one block count.
pub open spec fn arenas_are(
    arenas: Seq<Glm52KvArena>,
    blocks: usize,
    list: Seq<(Seq<char>, int)>,
) -> bool {
    &&& arenas.len() == list.len()
    &&& forall|i: int|
        0 <= i < arenas.len() ==> {
            &&& (#[trigger] arenas[i]).name@ == list[i].0
            &&& arenas[i].num_blocks == blocks
            &&& arenas[i].bytes_per_block == list[i].1
        }
}

/// The arenas that a rank registers: every layer's KV pages, and beside them
/// the index keys of the layers that have some, all of one block count.
pub fn kv_arenas(
    caches: &Vec<Glm52LayerCacheBytes>,
    max_model_len: usize,
    bytes_per_token: usize,
) -> (r: Result<Vec<Glm52KvArena>, Glm52ArenaError>)
    requires
        addressable(max_model_len),
        bytes_per_token <= 656,
    ensures
        ({
            let blocks = crate::budget::pool_blocks(max_model_len as int) as usize;
            let block_bytes = (64 * bytes_per_token) as usize;
            match r {
                Ok(arenas) => {
                    &&& forall|l: int|
                        0 <= l < caches.len() ==> arena_fault(
                            #[trigger] caches@[l],
                            l as usize,
                            blocks,
                            block_bytes,
                        ) is None
                    &&& arenas_are(
                        arenas@,
                        blocks,
                        arena_list(caches@, caches.len() as int, block_bytes as int),
                    )
                },
                Err(e) => {
                    &&& e.layer < caches.len()
                    &&& arena_fault(caches@[e.layer as int], e.layer, blocks, block_bytes) == Some(
                        e,
                    )
                    &&& forall|l: int|
                        0 <= l < e.layer ==> arena_fault(
                            #[trigger] caches@[l],
                            l as usize,
                            blocks,
                            block_bytes,
                        ) is None
                },
            }
        }),
        r is Ok <==> forall|l: int|
            0 <= l < caches.len() ==> (#[trigger] caches@[l]).mla == crate::budget::pool_blocks(
                max_model_len as int,
            ) * (64 * bytes_per_token) && (caches@[l].index_k matches Some(k) ==> k == 8448
                * crate::budget::pool_blocks(max_model_len as int)),
{
    let blocks: usize = glm52_pool_blocks(max_model_len);
    let block_bytes: usize = 64 * bytes_per_token;
    assert(blocks * block_bytes <= 41_984 * blocks) by (nonlinear_arith)
        requires
            block_bytes <= 41_984,
    ;
    let mla_bytes: u64 = blocks as u64 * block_bytes as u64;
    let index_bytes: u64 = blocks as u64 * 8448;
    let mut arenas: Vec<Glm52KvArena> = Vec::new();
    let mut layer: usize = 0;
    while layer < caches.len()
        invariant
            layer <= caches.len(),
            blocks == crate::budget::pool_blocks(max_model_len as int),
            block_bytes == 64 * bytes_per_token,
            mla_bytes == blocks * block_bytes,
            index_bytes == blocks * 8448,
            forall|l: int|
                0 <= l < layer ==> arena_fault(
                    #[trigger] caches@[l],
                    l as usize,
                    blocks,
                    block_bytes,
                ) is None,
            arenas_are(arenas@, blocks, arena_list(caches@, layer as int, block_bytes as int)),
        decreases caches.len() - layer,
    {
        let c: Glm52LayerCacheBytes = caches[layer];
        if c.mla != mla_bytes {
            return Err(
                Glm52ArenaError {
                    layer,
                    kind: Glm52ArenaKind::Mla,
                    got: c.mla,
                    blocks,
                    block_bytes,
                },
            );
        }
        if let Some(index_k) = c.index_k {
            if index_k != index_bytes {
                return Err(
                    Glm52ArenaError {
                        layer,
                        kind: Glm52ArenaKind::IndexK,
                        got: index_k,
                        blocks,
                        block_bytes: 8448,
                    },
                );
            }
        }
        arenas.push(
            Glm52KvArena {
                name: arena_name(layer, Glm52ArenaKind::Mla),
                num_blocks: blocks,
                bytes_per_block: block_bytes,
            },
        );
        if c.index_k.is_some() {
            arenas.push(
                Glm52KvArena {
                    name: arena_name(layer, Glm52ArenaKind::IndexK),
                    num_blocks: blocks,
                    bytes_per_block: 8448,
                },
            );
        }
        layer = layer + 1;
    }
    Ok(arenas)
}

/// One launch that puts the rotary dimensions of restored pages in place.
#[derive(Clone, Copy, Debug, PartialEq, Eq, Structural)]
pub struct Glm52RopeFixup {
    pub layer: usize,
    pub kind: Glm52ArenaKind,
    pub block_stride: usize,
    pub pages: usize,
}

/// Why restored pages cannot be put in place.
#[derive(Clone, Copy, Debug, PartialEq, Eq, Structural)]
pub enum Glm52FixupError {
    NoPages,
    CacheRow { bytes_per_token: usize },
}

/// The launches over the first `upto` layers.
pub open spec fn fixup_list(caches: Seq<Glm52LayerCacheBytes>, upto: int, pages: usize) -> Seq<
    Glm52RopeFixup,
>
    decreases upto,
{
    if upto <= 0 {
        Seq::empty()
    } else {
        let before = fixup_list(caches, upto - 1, pages).push(
            Glm52RopeFixup {
                layer: (upto - 1) as usize,
                kind: Glm52ArenaKind::Mla,
                block_stride: 41_984,
                pages,
            },
        );
        if caches[upto - 1].index_k is Some {
            before.push(
                Glm52RopeFixup {
                    layer: (upto - 1) as usize,
                    kind: Glm52ArenaKind::IndexK,
                    block_stride: 8448,
                    pages,
                },
            )
        } else {
            before
        }
    }
}

/// Restored pages are put in place in every arena of every layer, over all
/// pages: each layer's KV pages, and its index keys where it has some.
pub proof fn every_cache_is_put_in_place(
    caches: Seq<Glm52LayerCacheBytes>,
    upto: int,
    pages: usize,
    l: int,
    at: int,
)
    requires
        0 <= l < upto <= caches.len(),
        caches.len() <= usize::MAX,
        0 <= at < fixup_list(caches, upto, pages).len(),
    ensures
        ({
            let list = fixup_list(caches, upto, pages);
            let mla = Glm52RopeFixup {
                layer: l as usize,
                kind: Glm52ArenaKind::Mla,
                block_stride: 41_984,
                pages,
            };
            let index = Glm52RopeFixup {
                layer: l as usize,
                kind: Glm52ArenaKind::IndexK,
                block_stride: 8448,
                pages,
            };
            &&& list.contains(mla)
            &&& list.contains(index) <==> caches[l].index_k is Some
            &&& list[at].pages == pages && list[at].layer < upto
            &&& list[at].block_stride == (if list[at].kind == Glm52ArenaKind::Mla {
                41_984int
            } else {
                8448
            })
        }),
    decreases upto,
{
    let list = fixup_list(caches, upto, pages);
    let before = fixup_list(caches, upto - 1, pages);
    let mla = Glm52RopeFixup {
        layer: l as usize,
        kind: Glm52ArenaKind::Mla,
        block_stride: 41_984,
        pages,
    };
    let index = Glm52RopeFixup {
        layer: l as usize,
        kind: Glm52ArenaKind::IndexK,
        block_stride: 8448,
        pages,
    };
    assert forall|k: int| 0 <= k < before.len() implies #[trigger] list[k] == before[k]
        && before[k].layer < upto - 1 by {
        if upto > 1 {
            every_cache_is_put_in_place(caches, upto - 1, pages, 0, k);
        }
    }
    if at < before.len() && upto > 1 {
        every_cache_is_put_in_place(caches, upto - 1, pages, 0, at);
    }
    if l < upto - 1 {
        lemma_fixups_are_some(caches, upto - 1, pages);
        every_cache_is_put_in_place(caches, upto - 1, pages, l, 0);
        let k = choose|k: int| 0 <= k < before.len() && before[k] == mla;
        assert(list[k] == mla);
        if caches[l].index_k is Some {
            let k = choose|k: int| 0 <= k < before.len() && before[k] == index;
            assert(list[k] == index);
        }
        if list.contains(index) {
            let k = choose|k: int| 0 <= k < list.len() && list[k] == index;
            assert(k < before.len());
            assert(before[k] == index);
        }
    } else {
        assert(list[before.len() as int] == mla);
        if caches[l].index_k is Some {
            assert(list[before.len() as int + 1] == index);
        }
        if list.contains(index) {
            let k = choose|k: int| 0 <= k < list.len() && list[k] == index;
            assert(k >= before.len());
        }
    }
}

proof fn lemma_fixups_are_some(caches: Seq<Glm52LayerCacheBytes>, upto: int, pages: usize)
    requires
        0 <= upto,
    ensures
        fixup_list(caches, upto, pages).len() >= upto,
    decreases upto,
{
    if upto > 0 {
        lemma_fixups_are_some(caches, upto - 1, pages);
    }
}

/// Plans the launches that put restored pages in place, over every arena of
/// every layer.
pub fn plan_rope_fixup(
    caches: &Vec<Glm52LayerCacheBytes>,
    pages: &Vec<i32>,
    bytes_per_token: usize,
) -> (r: Result<Vec<Glm52RopeFixup>, Glm52FixupError>)
    ensures
        match r {
            Ok(plan) => {
                &&& pages.len() > 0 && bytes_per_token == 656
                &&& plan@ == fixup_list(caches@, caches.len() as int, pages.len())
            },
            Err(e) => e == (if pages.len() == 0 {
                Glm52FixupError::NoPages
            } else {
                Glm52FixupError::CacheRow { bytes_per_token }
            }) && (pages.len() == 0 || bytes_per_token != 656),
        },
{
    if pages.len() == 0 {
        return Err(Glm52FixupError::NoPages);
    }
    if bytes_per_token != 656 {
        return Err(Glm52FixupError::CacheRow { bytes_per_token });
    }
    let mut plan: Vec<Glm52RopeFixup> = Vec::new();
    let mut layer: usize = 0;
    while layer < caches.len()
        invariant
            layer <= caches.len(),
            bytes_per_token == 656,
            plan@ == fixup_list(caches@, layer as int, pages.len()),
        decreases caches.len() - layer,
    {
        plan.push(
            Glm52RopeFixup {
                layer,
                kind: Glm52ArenaKind::Mla,
                block_stride: 64 * bytes_per_token,
                pages: pages.len(),
            },
        );
        if caches[layer].index_k.is_some() {
            plan.push(
                Glm52RopeFixup {
                    layer,
                    kind: Glm52ArenaKind::IndexK,
                    block_stride: 8448,
                    pages: pages.len(),
                },
            );
        }
        layer = layer + 1;
    }
    Ok(plan)
}

/// Why a bucket's graph or captured context cannot be had.
#[derive(Clone, Copy, Debug, PartialEq, Eq, Structural)]
pub enum Glm52BucketError {
    Unknown { bucket: usize },
    NotCaptured { bucket: usize },
    CaptureDisabled,
}

/// The bucket whose whole-step graph is to be written out: it must have been
/// captured.
pub fn dump_bucket(bucket: usize, captured: [bool; 4]) -> (r: Result<usize, Glm52BucketError>)
    ensures
        match r {
            Ok(i) => {
                &&& i < 4 && captured@[i as int]
                &&& seq![1usize, 2usize, 4usize, 8usize][i as int] == bucket
            },
            Err(e) => if crate::config::is_bucket(bucket as int) {
                e == (Glm52BucketError::NotCaptured { bucket })
            } else {
                e == (Glm52BucketError::Unknown { bucket })
            },
        },
        crate::config::is_bucket(bucket as int) ==> (r is Ok <==> exists|i: int|
            0 <= i < 4 && seq![1usize, 2usize, 4usize, 8usize][i] == bucket
                && #[trigger] captured@[i]),
{
    match bucket_index(bucket) {
        Some(i) => if captured[i] {
            Ok(i)
        } else {
            Err(Glm52BucketError::NotCaptured { bucket })
        },
        None => Err(Glm52BucketError::Unknown { bucket }),
    }
}

/// The bucket whose captured draft context is to be read.
pub fn captured_bucket(bucket: usize, capture_enabled: bool) -> (r: Result<
    usize,
    Glm52BucketError,
>)
    ensures
        match r {
            Ok(i) => {
                &&& capture_enabled && i < 4
                &&& seq![1usize, 2usize, 4usize, 8usize][i as int] == bucket
            },
            Err(e) => if crate::config::is_bucket(bucket as int) {
                e == Glm52BucketError::CaptureDisabled && !capture_enabled
            } else {
                e == (Glm52BucketError::Unknown { bucket })
            },
        },
        r is Ok <==> crate::config::is_bucket(bucket as int) && capture_enabled,
{
    match bucket_index(bucket) {
        Some(i) => if capture_enabled {
            Ok(i)
        } else {
            Err(Glm52BucketError::CaptureDisabled)
        },
        None => Err(Glm52BucketError::Unknown { bucket }),
    }
}

} // verus!
