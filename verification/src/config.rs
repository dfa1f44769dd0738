//! The shape of the GLM5.2 checkpoint and of its decode kernels.
use vstd::prelude::*;

verus! {

/// Decoder layers.
pub const GLM52_LAYERS: usize = 78;

/// Leading layers with a dense feed-forward block; the others are MoE layers.
pub const GLM52_DENSE_LAYERS: usize = 3;

/// Checkpoint index of the multi-token-prediction layer.
pub const GLM52_MTP_LAYER: usize = 78;

/// Width of the residual stream.
pub const GLM52_HIDDEN: usize = 6144;

/// Vocabulary size.
pub const GLM52_VOCAB: usize = 154_880;

/// The checkpoint's `max_position_embeddings`.
pub const GLM52_MAX_CONTEXT: usize = 1_048_576;

/// Attention heads.
pub const GLM52_HEADS: usize = 64;

/// Rank of the query down-projection.
pub const GLM52_Q_LORA_RANK: usize = 2048;

/// Rank of the latent that the KV cache stores.
pub const GLM52_KV_LORA_RANK: usize = 512;

/// Query/key width per head without rotary position.
pub const GLM52_QK_NOPE_HEAD_DIM: usize = 192;

/// Query/key width per head with rotary position.
pub const GLM52_QK_ROPE_HEAD_DIM: usize = 64;

/// Query/key width per head.
pub const GLM52_QK_HEAD_DIM: usize = 256;

/// Value width per head.
pub const GLM52_V_HEAD_DIM: usize = 256;

/// Output width of the KV down-projection (latent plus rotary key).
pub const GLM52_KV_A_OUT: usize = 576;

/// Rows of the KV up-projection per head (key without position plus value).
pub const GLM52_KV_B_ROWS_PER_HEAD: usize = 448;

/// Half of the rotary width.
pub const GLM52_ROPE_HALF: usize = 32;

/// Heads of the sparse-attention indexer.
pub const GLM52_INDEX_HEADS: usize = 32;

/// Width of one indexer head.
pub const GLM52_INDEX_HEAD_DIM: usize = 128;

/// Positions that the indexer selects per row.
pub const GLM52_INDEX_TOPK: usize = 2048;

/// Routed experts of one MoE layer.
pub const GLM52_ROUTED_EXPERTS: usize = 256;

/// Experts that one token is routed to.
pub const GLM52_TOPK: usize = 8;

/// Intermediate width of one expert.
pub const GLM52_EXPERT_INTERMEDIATE: usize = 2048;

/// Intermediate width of a dense feed-forward block.
pub const GLM52_DENSE_INTERMEDIATE: usize = 12_288;

/// Ranks of the eight-way expert-parallel layout.
pub const GLM52_EP_RANKS: usize = 8;

/// Whole experts per rank of the eight-way expert-parallel layout.
pub const GLM52_LOCAL_EXPERTS: usize = 32;

/// Tokens per page of the packed KV cache.
pub const GLM52_PAGE_SIZE: usize = 64;

/// Bytes per token of the packed KV cache.
pub const GLM52_MLA_BYTES_PER_TOKEN: usize = 656;

/// Bytes per token of the plain E4M3 KV cache.
pub const GLM52_MLA_E4M3_BYTES_PER_TOKEN: usize = 576;

/// Positions that sparse attention reads per row.
pub const GLM52_SPARSE_TOPK: usize = 2048;

/// Edge of the square blocks that share one FP8 scale.
pub const FP8_BLOCK: usize = 128;

/// Tokens per block of the index-key cache.
pub const INDEX_CACHE_BLOCK: usize = 64;

/// Multiprocessors that the indexer's persistent grid is built for.
pub const NUM_SMS: usize = 132;

/// Batch lanes of one rank, and the largest decode bucket.
pub const GLM52_MAX_BATCH_PER_RANK: usize = 8;

/// The context cap is carved in whole cache pages.
pub const GLM52_MODEL_LEN_ALIGN: usize = 64;

/// Whether a number of rows is one of the decode batch buckets.
pub open spec fn is_bucket(rows: int) -> bool {
    rows == 1 || rows == 2 || rows == 4 || rows == 8
}

/// The decode batch buckets, ascending.
pub fn decode_buckets() -> (r: [usize; 4])
    ensures
        r@ == seq![1usize, 2usize, 4usize, 8usize],
{
    [1, 2, 4, 8]
}

/// The index of a bucket, or nothing where no bucket has that many rows.
pub fn bucket_index(rows: usize) -> (r: Option<usize>)
    ensures
        r == (if rows == 1 {
            Some(0usize)
        } else if rows == 2 {
            Some(1usize)
        } else if rows == 4 {
            Some(2usize)
        } else if rows == 8 {
            Some(3usize)
        } else {
            None
        }),
{
    match rows {
        1 => Some(0),
        2 => Some(1),
        4 => Some(2),
        8 => Some(3),
        _ => None,
    }
}

/// Whether a layer computes its own sparse-attention selection; the others
/// reuse the selection of the closest such layer before them.
pub open spec fn has_full_indexer(layer: int) -> bool {
    layer <= 2 || layer % 4 == 2
}

/// Whether a layer computes its own sparse-attention selection.
pub fn glm52_layer_has_full_indexer(layer: usize) -> (r: bool)
    ensures
        r == has_full_indexer(layer as int),
        r == (layer <= 2 || (layer - 2) % 4 == 0),
{
    layer.saturating_sub(2) % 4 == 0
}

/// How many of the first `n` layers compute their own selection.
pub open spec fn full_indexers_below(n: nat) -> nat
    decreases n,
{
    if n == 0 {
        0
    } else {
        full_indexers_below((n - 1) as nat) + if has_full_indexer(n - 1) {
            1nat
        } else {
            0nat
        }
    }
}

/// Counts the layers that compute their own selection.
pub fn full_indexer_layers(layers: usize) -> (r: usize)
    ensures
        r == full_indexers_below(layers as nat),
        r <= layers,
        layers <= 3 ==> r == layers,
        layers >= 3 ==> r == 3 + (layers - 3) / 4,
{
    let mut count: usize = 0;
    let mut layer: usize = 0;
    while layer < layers
        invariant
            layer <= layers,
            count == full_indexers_below(layer as nat),
            count <= layer,
        decreases layers - layer,
    {
        if glm52_layer_has_full_indexer(layer) {
            count = count + 1;
        }
        layer = layer + 1;
    }
    proof {
        if layers >= 3 {
            lemma_full_indexers_closed_form(layers as nat);
        } else {
            reveal_with_fuel(full_indexers_below, 3);
        }
    }
    count
}

proof fn lemma_full_indexers_closed_form(n: nat)
    requires
        n >= 3,
    ensures
        full_indexers_below(n) == 3 + (n - 3) / 4,
    decreases n,
{
    if n == 3 {
        reveal_with_fuel(full_indexers_below, 4);
    } else {
        lemma_full_indexers_closed_form((n - 1) as nat);
    }
}

/// Twenty-one of the checkpoint's layers compute their own selection.
pub proof fn checkpoint_full_indexers()
    ensures
        full_indexers_below(GLM52_LAYERS as nat) == 21,
{
    lemma_full_indexers_closed_form(GLM52_LAYERS as nat);
}

/// Every layer at or after the first has a layer with its own selection at
/// most three layers back.
pub proof fn shared_selection_is_close(layer: int) -> (source: int)
    requires
        layer >= 0,
    ensures
        0 <= source <= layer,
        layer - source <= 3,
        has_full_indexer(source),
        forall|l: int| source < l <= layer ==> !#[trigger] has_full_indexer(l),
{
    if layer <= 2 {
        layer
    } else {
        let back = (layer - 2) % 4;
        let source = layer - back;
        assert forall|l: int| source < l <= layer implies !#[trigger] has_full_indexer(l) by {
            assert((source - 2) % 4 == 0);
            assert(1 <= l - source <= 3);
        }
        source
    }
}

} // verus!
