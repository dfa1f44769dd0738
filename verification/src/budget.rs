//! The VRAM ledger of a rank and the context cap that is derived from it.
use vstd::prelude::*;
use vstd::string::*;

use crate::arith::{align_up, div_ceil};
use crate::config::{
    full_indexer_layers, GLM52_HIDDEN, GLM52_INDEX_HEAD_DIM, GLM52_LAYERS, GLM52_MAX_BATCH_PER_RANK,
    GLM52_MAX_CONTEXT, GLM52_MLA_BYTES_PER_TOKEN, GLM52_MODEL_LEN_ALIGN, GLM52_PAGE_SIZE,
    GLM52_ROPE_HALF, INDEX_CACHE_BLOCK,
};
use crate::dspark::{
    dspark_cache_len, DSPARK_HEAD_DIM, DSPARK_LAYERS, DSPARK_QKV_DIM, GLM52_DSPARK_CONTEXT_DIM,
};
use crate::text::{byte_size_text, decimal_text};

verus! {

/// Free VRAM held back from the context-cap budget on every rank.
pub const GLM52_VRAM_RESERVE_BYTES: u64 = 5_368_709_120;

/// What is held back in addition while the DSpark drafter is enabled.
pub const GLM52_DSPARK_VRAM_RESERVE_BYTES: u64 = 5_368_709_120;

/// The smallest cap worth serving with.
pub const GLM52_MIN_MODEL_LEN: usize = 4096;

/// Free VRAM every rank must still have once everything is resident.
pub const GLM52_POST_BUILD_MIN_FREE_BYTES: u64 = 1_073_741_824;

/// Pages of the rank-wide pool: every lane can hold a request of the full cap
/// plus its dangling token, and one page is reserved for padding rows.
pub open spec fn pool_blocks(max_model_len: int) -> int {
    8 * crate::arith::ceil_div(max_model_len + 1, 64) + 1
}

/// Pages that one request of the full cap addresses.
pub open spec fn table_width(max_model_len: int) -> int {
    crate::arith::ceil_div(max_model_len, 64)
}

/// Bytes that the model build allocates on a rank for a cap.
pub open spec fn arena_bytes(max_model_len: int) -> int {
    let blocks = pool_blocks(max_model_len);
    // The packed KV pages of 78 layers and the index keys of 21 layers.
    78 * (blocks * 41_984) + 21 * (blocks
        * 8_448)
    // The cosine and sine tables of 32 two-byte columns.
     + 128
        * max_model_len
    // Indexer logits (two- and four-byte copies) and page tables of 15 bucket rows.
     + 90 * crate::arith::round_up(max_model_len, 256) + 60 * table_width(max_model_len)
}

/// Bytes that the DSpark lane allocates on a rank for a cap.
pub open spec fn dspark_arena_bytes(max_model_len: int) -> int {
    let len = max_model_len + 8;
    // Per lane: the draft KV, the pending context and the projected context.
    8 * (81_920 * len + 61_440 * len + 24_576
        * len)
    // Rank-wide: the variable-length tail and the rotary tables.
     + 28_672 * len + 256 * len
}

/// Bytes that a cap costs a rank.
pub open spec fn cap_bytes(max_model_len: int, dspark_enabled: bool) -> int {
    arena_bytes(max_model_len) + if dspark_enabled {
        dspark_arena_bytes(max_model_len)
    } else {
        0
    }
}

/// What is held back from the budget.
pub open spec fn reserve(dspark_enabled: bool) -> int {
    if dspark_enabled {
        10_737_418_240
    } else {
        5_368_709_120
    }
}

/// What is left for the caches.
pub open spec fn budget(min_free_vram_bytes: int, dspark_enabled: bool) -> int {
    if min_free_vram_bytes >= reserve(dspark_enabled) {
        min_free_vram_bytes - reserve(dspark_enabled)
    } else {
        0
    }
}

/// Whether `cap` is the largest cap of whole pages that fits, or zero where
/// no cap of at least one page fits.
pub open spec fn is_derived_cap(cap: int, budget_bytes: int, dspark_enabled: bool) -> bool {
    &&& 0 <= cap <= 1_048_576
    &&& cap % 64 == 0
    &&& cap == 0 || cap_bytes(cap, dspark_enabled) <= budget_bytes
    &&& forall|c: int|
        cap < c <= 1_048_576 && c % 64 == 0 ==> #[trigger] cap_bytes(c, dspark_enabled)
            > budget_bytes
}

/// The rank-wide KV pool size for a cap.
pub fn glm52_pool_blocks(max_model_len: usize) -> (r: usize)
    requires
        max_model_len < usize::MAX,
        pool_blocks(max_model_len as int) <= usize::MAX,
    ensures
        r == pool_blocks(max_model_len as int),
        r == 8 * ((max_model_len + 64) / 64) + 1,
{
    GLM52_MAX_BATCH_PER_RANK * div_ceil(max_model_len + 1, GLM52_PAGE_SIZE) + 1
}

/// The page-table width for a cap.
pub fn glm52_table_width(max_model_len: usize) -> (r: usize)
    ensures
        r == table_width(max_model_len as int),
        r == (max_model_len + 63) / 64,
{
    div_ceil(max_model_len, GLM52_PAGE_SIZE)
}

/// The layout of one layer's index-key cache.
#[derive(Clone, Copy, Debug, PartialEq, Eq, Structural)]
pub struct Glm52IndexerCacheLayout {
    pub cache_blocks: usize,
    pub cache_block_size: usize,
    pub cache_block_stride_bytes: usize,
}

impl Glm52IndexerCacheLayout {
    /// Bytes that a cache of this layout holds.
    pub fn min_cache_bytes(&self) -> (r: u64)
        requires
            self.cache_blocks * self.cache_block_stride_bytes <= u64::MAX,
        ensures
            r == self.cache_blocks * self.cache_block_stride_bytes,
    {
        self.cache_blocks as u64 * self.cache_block_stride_bytes as u64
    }
}

/// The page-table width and the index-key cache layout for a cap. The index
/// keys are addressed by the same page ids as the KV cache.
pub fn glm52_index_cache_layout(max_model_len: usize) -> (r: (usize, Glm52IndexerCacheLayout))
    requires
        max_model_len < usize::MAX,
        pool_blocks(max_model_len as int) <= usize::MAX,
    ensures
        r.0 == table_width(max_model_len as int),
        r.1.cache_blocks == pool_blocks(max_model_len as int),
        r.1.cache_block_size == 64,
        r.1.cache_block_stride_bytes == 64 * 132,
{
    let layout = Glm52IndexerCacheLayout {
        cache_blocks: glm52_pool_blocks(max_model_len),
        cache_block_size: INDEX_CACHE_BLOCK,
        cache_block_stride_bytes: INDEX_CACHE_BLOCK * (GLM52_INDEX_HEAD_DIM + 4),
    };
    (glm52_table_width(max_model_len), layout)
}

/// Bytes that the model build allocates on a rank for a cap.
pub fn glm52_arena_bytes(max_model_len: usize) -> (r: u64)
    requires
        max_model_len < usize::MAX,
        crate::arith::round_up(max_model_len as int, 256) <= usize::MAX,
        pool_blocks(max_model_len as int) <= usize::MAX,
        arena_bytes(max_model_len as int) <= u64::MAX,
    ensures
        r == arena_bytes(max_model_len as int),
        r == 3_452_160 * (8 * ((max_model_len + 64) / 64) + 1) + 128 * max_model_len + 23_040 * ((
        max_model_len + 255) / 256) + 60 * ((max_model_len + 63) / 64),
{
    proof {
        crate::arith::ceil_div_splits(max_model_len + 1, 64);
        crate::arith::ceil_div_splits(max_model_len as int, 64);
        crate::arith::ceil_div_splits(max_model_len as int, 256);
        crate::config::checkpoint_full_indexers();
    }
    let num_blocks: u64 = glm52_pool_blocks(max_model_len) as u64;
    let mla: u64 = GLM52_LAYERS as u64 * (num_blocks * (GLM52_PAGE_SIZE as u64
        * GLM52_MLA_BYTES_PER_TOKEN as u64));
    let (table_width, index_layout) = glm52_index_cache_layout(max_model_len);
    let index_k: u64 = full_indexer_layers(GLM52_LAYERS) as u64 * index_layout.min_cache_bytes();
    let rope_tables: u64 = 2 * (max_model_len as u64 * GLM52_ROPE_HALF as u64 * 2);
    let bucket_rows: u64 = 15;
    let logits_stride: u64 = align_up(max_model_len, 256) as u64;
    let indexer_logits: u64 = bucket_rows * (logits_stride * 6);
    let block_tables: u64 = bucket_rows * (table_width as u64 * 4);
    mla + index_k + rope_tables + indexer_logits + block_tables
}

/// Bytes that the DSpark lane allocates on a rank for a cap.
pub fn glm52_dspark_arena_bytes(max_model_len: usize) -> (r: u64)
    requires
        max_model_len + 8 <= usize::MAX,
        dspark_arena_bytes(max_model_len as int) <= u64::MAX,
    ensures
        r == dspark_arena_bytes(max_model_len as int),
        r == 1_372_416 * (max_model_len + 8),
{
    let cache_len: u64 = dspark_cache_len(max_model_len) as u64;
    let bf16: u64 = 2;
    let kv_row: u64 = DSPARK_LAYERS as u64 * 2 * DSPARK_QKV_DIM as u64 * bf16;
    let pending_row: u64 = GLM52_DSPARK_CONTEXT_DIM as u64 * bf16;
    let context_row: u64 = 2 * GLM52_HIDDEN as u64 * bf16;
    let tail_row: u64 = (GLM52_HIDDEN as u64 + 2 * DSPARK_QKV_DIM as u64) * bf16;
    let rope_row: u64 = 2 * DSPARK_HEAD_DIM as u64 * bf16;
    let lane_row: u64 = GLM52_MAX_BATCH_PER_RANK as u64 * (kv_row + pending_row + context_row);
    let row: u64 = lane_row + tail_row + rope_row;
    assert(row * cache_len == 1_372_416 * cache_len) by (nonlinear_arith)
        requires
            row == 1_372_416,
    ;
    row * cache_len
}

proof fn lemma_ledger_is_positive(max_model_len: int)
    requires
        0 <= max_model_len,
    ensures
        0 <= arena_bytes(max_model_len),
        0 <= dspark_arena_bytes(max_model_len),
{
    crate::arith::ceil_div_splits(max_model_len + 1, 64);
    crate::arith::ceil_div_splits(max_model_len, 64);
    crate::arith::ceil_div_splits(max_model_len, 256);
}

proof fn lemma_ledger_costs(max_model_len: int, dspark_enabled: bool)
    requires
        0 < max_model_len,
    ensures
        cap_bytes(max_model_len, dspark_enabled) > 0,
{
    cap_bytes_monotone(0, max_model_len, dspark_enabled);
    lemma_ledger_is_positive(0);
}

/// Within the checkpoint's context every ledger fits in 64 bits, and the page
/// counts in 32.
proof fn lemma_ledger_bounds(max_model_len: int)
    requires
        0 <= max_model_len <= 1_048_576,
    ensures
        0 <= pool_blocks(max_model_len) <= 0x2_0009,
        0 <= table_width(max_model_len) <= 0x4000,
        0 <= crate::arith::round_up(max_model_len, 256) <= 0x10_0000,
        0 <= arena_bytes(max_model_len) <= 0xffff_ffff_ffff,
        0 <= dspark_arena_bytes(max_model_len) <= 0xffff_ffff_ffff,
{
}

/// The caps whose ledger a machine word can hold.
pub open spec fn cap_addressable(max_model_len: usize, dspark_enabled: bool) -> bool {
    &&& max_model_len < usize::MAX
    &&& crate::arith::round_up(max_model_len as int, 256) <= usize::MAX
    &&& pool_blocks(max_model_len as int) <= usize::MAX
    &&& dspark_enabled ==> max_model_len + 8 <= usize::MAX
    &&& cap_bytes(max_model_len as int, dspark_enabled) <= u64::MAX
}

/// Exact cap-scaled bytes a rank allocates for a candidate cap.
pub fn glm52_cap_bytes(max_model_len: usize, dspark_enabled: bool) -> (r: u64)
    requires
        cap_addressable(max_model_len, dspark_enabled),
    ensures
        r == cap_bytes(max_model_len as int, dspark_enabled),
        !dspark_enabled ==> r == arena_bytes(max_model_len as int),
        dspark_enabled ==> r == arena_bytes(max_model_len as int) + dspark_arena_bytes(
            max_model_len as int,
        ),
{
    proof {
        lemma_ledger_is_positive(max_model_len as int);
    }
    glm52_arena_bytes(max_model_len) + if dspark_enabled {
        glm52_dspark_arena_bytes(max_model_len)
    } else {
        0
    }
}

/// The launch-time context-cap decision and the numbers behind it.
#[derive(Clone, Copy, Debug, PartialEq, Eq, Structural)]
pub struct Glm52ContextBudget {
    pub max_model_len: usize,
    /// Exact bytes the cap costs a rank.
    pub arena_bytes: u64,
    pub reserve_bytes: u64,
    pub budget_bytes: u64,
}

/// Why no context cap can be served.
#[derive(Clone, Copy, Debug, PartialEq, Eq, Structural)]
pub enum Glm52BudgetError {
    BelowMinimum { requested: usize },
    AboveCheckpoint { requested: usize },
    Unaligned { requested: usize, below: usize, above: usize },
    OverBudget {
        requested: usize,
        required: u64,
        budget_bytes: u64,
        min_free_vram_bytes: u64,
        reserve_bytes: u64,
    },
    CapTooSmall {
        derived: usize,
        budget_bytes: u64,
        min_free_vram_bytes: u64,
        reserve_bytes: u64,
    },
}

impl Glm52BudgetError {
    /// The message for the operator.
    pub open spec fn text(self) -> Seq<char> {
        match self {
            Glm52BudgetError::BelowMinimum { requested } => "GLM5.2 --max-model-len "@
                + crate::text::decimal(requested as nat) + " is below the minimum 4096"@,
            Glm52BudgetError::AboveCheckpoint { requested } => "GLM5.2 --max-model-len "@
                + crate::text::decimal(requested as nat)
                + " exceeds the checkpoint's max_position_embeddings 1048576"@,
            Glm52BudgetError::Unaligned { requested, below, above } => "GLM5.2 --max-model-len "@
                + crate::text::decimal(requested as nat)
                + " must be a multiple of 64 (the FlashMLA page size); nearest valid values are "@
                + crate::text::decimal(below as nat) + " and "@ + crate::text::decimal(
                above as nat,
            ),
            Glm52BudgetError::OverBudget {
                requested,
                required,
                budget_bytes,
                min_free_vram_bytes,
                reserve_bytes,
            } => "GLM5.2 --max-model-len "@ + crate::text::decimal(requested as nat) + " needs "@
                + crate::text::byte_size_display(required) + " of cache per rank but only "@
                + crate::text::byte_size_display(budget_bytes) + " fits (min rank free VRAM "@
                + crate::text::byte_size_display(min_free_vram_bytes) + " - reserve "@
                + crate::text::byte_size_display(reserve_bytes) + "); lower it or free VRAM"@,
            Glm52BudgetError::CapTooSmall {
                derived,
                budget_bytes,
                min_free_vram_bytes,
                reserve_bytes,
            } => "GLM5.2 free VRAM leaves a context cap of "@ + crate::text::decimal(
                derived as nat,
            ) + " (< 4096): budget "@ + crate::text::byte_size_display(budget_bytes)
                + " (min rank free VRAM "@ + crate::text::byte_size_display(min_free_vram_bytes)
                + " - reserve "@ + crate::text::byte_size_display(reserve_bytes) + ")"@,
        }
    }

    /// The message for the operator.
    pub fn message(&self) -> (m: String)
        ensures
            m@ == self.text(),
    {
        match *self {
            Glm52BudgetError::BelowMinimum { requested } => {
                let mut m = String::from_str("GLM5.2 --max-model-len ");
                m.append(decimal_text(requested as u64).as_str());
                m.append(" is below the minimum 4096");
                m
            },
            Glm52BudgetError::AboveCheckpoint { requested } => {
                let mut m = String::from_str("GLM5.2 --max-model-len ");
                m.append(decimal_text(requested as u64).as_str());
                m.append(" exceeds the checkpoint's max_position_embeddings 1048576");
                m
            },
            Glm52BudgetError::Unaligned { requested, below, above } => {
                let mut m = String::from_str("GLM5.2 --max-model-len ");
                m.append(decimal_text(requested as u64).as_str());
                m.append(
                    " must be a multiple of 64 (the FlashMLA page size); nearest valid values are ",
                );
                m.append(decimal_text(below as u64).as_str());
                m.append(" and ");
                m.append(decimal_text(above as u64).as_str());
                m
            },
            Glm52BudgetError::OverBudget {
                requested,
                required,
                budget_bytes,
                min_free_vram_bytes,
                reserve_bytes,
            } => {
                let mut m = String::from_str("GLM5.2 --max-model-len ");
                m.append(decimal_text(requested as u64).as_str());
                m.append(" needs ");
                m.append(byte_size_text(required).as_str());
                m.append(" of cache per rank but only ");
                m.append(byte_size_text(budget_bytes).as_str());
                m.append(" fits (min rank free VRAM ");
                m.append(byte_size_text(min_free_vram_bytes).as_str());
                m.append(" - reserve ");
                m.append(byte_size_text(reserve_bytes).as_str());
                m.append("); lower it or free VRAM");
                m
            },
            Glm52BudgetError::CapTooSmall {
                derived,
                budget_bytes,
                min_free_vram_bytes,
                reserve_bytes,
            } => {
                let mut m = String::from_str("GLM5.2 free VRAM leaves a context cap of ");
                m.append(decimal_text(derived as u64).as_str());
                m.append(" (< 4096): budget ");
                m.append(byte_size_text(budget_bytes).as_str());
                m.append(" (min rank free VRAM ");
                m.append(byte_size_text(min_free_vram_bytes).as_str());
                m.append(" - reserve ");
                m.append(byte_size_text(reserve_bytes).as_str());
                m.append(")");
                m
            },
        }
    }
}

/// Finds the largest cap of whole pages that fits the budget.
fn largest_fitting_cap(budget_bytes: u64, dspark_enabled: bool) -> (cap: usize)
    ensures
        is_derived_cap(cap as int, budget_bytes as int, dspark_enabled),
{
    let mut lo: usize = 0;
    let mut hi: usize = GLM52_MAX_CONTEXT / GLM52_MODEL_LEN_ALIGN;
    while lo < hi
        invariant
            lo <= hi <= 16_384,
            lo == 0 || cap_bytes(lo * 64, dspark_enabled) <= budget_bytes,
            forall|c: int|
                hi * 64 < c <= 1_048_576 && c % 64 == 0 ==> #[trigger] cap_bytes(c, dspark_enabled)
                    > budget_bytes,
        decreases hi - lo,
    {
        let mid: usize = div_ceil(lo + hi, 2);
        if glm52_cap_bytes(mid * GLM52_MODEL_LEN_ALIGN, dspark_enabled) <= budget_bytes {
            lo = mid;
        } else {
            assert forall|c: int|
                (mid - 1) * 64 < c <= 1_048_576 && c % 64 == 0 implies #[trigger] cap_bytes(
                c,
                dspark_enabled,
            ) > budget_bytes by {
                cap_bytes_monotone(mid * 64, c, dspark_enabled);
            }
            hi = mid - 1;
        }
    }
    lo * GLM52_MODEL_LEN_ALIGN
}

/// Decides the per-request context cap from the VRAM that is free on the
/// tightest rank once the weights are loaded.
pub fn derive_max_model_len(
    requested: Option<usize>,
    min_free_vram_bytes: u64,
    dspark_enabled: bool,
) -> (r: Result<Glm52ContextBudget, Glm52BudgetError>)
    ensures
        match r {
            Ok(b) => {
                &&& 4096 <= b.max_model_len <= 1_048_576
                &&& b.max_model_len % 64 == 0
                &&& b.arena_bytes == cap_bytes(b.max_model_len as int, dspark_enabled)
                &&& b.reserve_bytes == reserve(dspark_enabled)
                &&& b.budget_bytes == budget(min_free_vram_bytes as int, dspark_enabled)
                &&& b.arena_bytes <= b.budget_bytes
                &&& requested is Some ==> b.max_model_len == requested.unwrap()
                &&& requested is None ==> is_derived_cap(
                    b.max_model_len as int,
                    b.budget_bytes as int,
                    dspark_enabled,
                )
            },
            Err(Glm52BudgetError::BelowMinimum { requested: cap }) => {
                requested == Some(cap) && cap < 4096
            },
            Err(Glm52BudgetError::AboveCheckpoint { requested: cap }) => {
                requested == Some(cap) && cap > 1_048_576
            },
            Err(Glm52BudgetError::Unaligned { requested: cap, below, above }) => {
                &&& requested == Some(cap)
                &&& 4096 <= cap <= 1_048_576
                &&& below % 64 == 0 && above == below + 64
                &&& below < cap < above
            },
            Err(Glm52BudgetError::OverBudget {
                requested: cap,
                required,
                budget_bytes,
                min_free_vram_bytes: free,
                reserve_bytes,
            }) => {
                &&& requested == Some(cap)
                &&& 4096 <= cap <= 1_048_576 && cap % 64 == 0
                &&& required == cap_bytes(cap as int, dspark_enabled)
                &&& budget_bytes == budget(min_free_vram_bytes as int, dspark_enabled)
                &&& required > budget_bytes
                &&& free == min_free_vram_bytes
                &&& reserve_bytes == reserve(dspark_enabled)
            },
            Err(Glm52BudgetError::CapTooSmall {
                derived,
                budget_bytes,
                min_free_vram_bytes: free,
                reserve_bytes,
            }) => {
                &&& requested is None
                &&& derived < 4096
                &&& is_derived_cap(derived as int, budget_bytes as int, dspark_enabled)
                &&& budget_bytes == budget(min_free_vram_bytes as int, dspark_enabled)
                &&& free == min_free_vram_bytes
                &&& reserve_bytes == reserve(dspark_enabled)
            },
        },
        r matches Ok(b) ==> {
            &&& b.reserve_bytes == (if dspark_enabled {
                10_737_418_240int
            } else {
                5_368_709_120
            })
            &&& b.budget_bytes + b.reserve_bytes == min_free_vram_bytes
            &&& requested is None ==> b.max_model_len == 1_048_576 || cap_bytes(
                b.max_model_len + 64,
                dspark_enabled,
            ) > b.budget_bytes
        },
{
    let reserve_bytes: u64 = GLM52_VRAM_RESERVE_BYTES + if dspark_enabled {
        GLM52_DSPARK_VRAM_RESERVE_BYTES
    } else {
        0
    };
    let budget_bytes: u64 = min_free_vram_bytes.saturating_sub(reserve_bytes);
    let max_model_len: usize = match requested {
        Some(requested) => {
            if requested < GLM52_MIN_MODEL_LEN {
                return Err(Glm52BudgetError::BelowMinimum { requested });
            }
            if requested > GLM52_MAX_CONTEXT {
                return Err(Glm52BudgetError::AboveCheckpoint { requested });
            }
            if requested % GLM52_MODEL_LEN_ALIGN != 0 {
                let below: usize = requested / GLM52_MODEL_LEN_ALIGN * GLM52_MODEL_LEN_ALIGN;
                return Err(
                    Glm52BudgetError::Unaligned {
                        requested,
                        below,
                        above: below + GLM52_MODEL_LEN_ALIGN,
                    },
                );
            }
            let required: u64 = glm52_cap_bytes(requested, dspark_enabled);
            if required > budget_bytes {
                return Err(
                    Glm52BudgetError::OverBudget {
                        requested,
                        required,
                        budget_bytes,
                        min_free_vram_bytes,
                        reserve_bytes,
                    },
                );
            }
            requested
        },
        None => {
            let derived: usize = largest_fitting_cap(budget_bytes, dspark_enabled);
            if derived < GLM52_MIN_MODEL_LEN {
                return Err(
                    Glm52BudgetError::CapTooSmall {
                        derived,
                        budget_bytes,
                        min_free_vram_bytes,
                        reserve_bytes,
                    },
                );
            }
            derived
        },
    };
    proof {
        lemma_ledger_costs(max_model_len as int, dspark_enabled);
    }
    Ok(
        Glm52ContextBudget {
            max_model_len,
            arena_bytes: glm52_cap_bytes(max_model_len, dspark_enabled),
            reserve_bytes,
            budget_bytes,
        },
    )
}

/// The VRAM that is free on the tightest rank.
pub fn min_free_vram(free_vram_bytes: &Vec<u64>) -> (r: u64)
    requires
        free_vram_bytes.len() > 0,
    ensures
        free_vram_bytes@.contains(r),
        forall|i: int| 0 <= i < free_vram_bytes.len() ==> r <= #[trigger] free_vram_bytes[i],
{
    let mut least: u64 = free_vram_bytes[0];
    let mut i: usize = 1;
    while i < free_vram_bytes.len()
        invariant
            1 <= i <= free_vram_bytes.len(),
            free_vram_bytes@.contains(least),
            forall|j: int| 0 <= j < i ==> least <= #[trigger] free_vram_bytes[j],
        decreases free_vram_bytes.len() - i,
    {
        if free_vram_bytes[i] < least {
            least = free_vram_bytes[i];
        }
        i = i + 1;
    }
    least
}

/// A rank that has too little VRAM left after the build.
#[derive(Clone, Copy, Debug, PartialEq, Eq, Structural)]
pub struct Glm52HeadroomError {
    pub rank: usize,
    pub free: u64,
}

impl Glm52HeadroomError {
    /// The message for the operator.
    pub fn message(&self) -> (m: String)
        ensures
            m@ == "GLM5.2 rank "@ + crate::text::decimal(self.rank as nat) + " has only "@
                + crate::text::byte_size_display(self.free) + " free VRAM after build (< "@
                + crate::text::byte_size_display(GLM52_POST_BUILD_MIN_FREE_BYTES)
                + " headroom for graph capture); lower --max-model-len or free device memory"@,
    {
        let mut m = String::from_str("GLM5.2 rank ");
        m.append(decimal_text(self.rank as u64).as_str());
        m.append(" has only ");
        m.append(byte_size_text(self.free).as_str());
        m.append(" free VRAM after build (< ");
        m.append(byte_size_text(GLM52_POST_BUILD_MIN_FREE_BYTES).as_str());
        m.append(" headroom for graph capture); lower --max-model-len or free device memory");
        m
    }
}

/// Checks that every rank still has the headroom that graph capture needs;
/// the first rank without it is reported.
pub fn ensure_post_build_headroom(free_vram_bytes: &Vec<u64>) -> (r: Result<(), Glm52HeadroomError>)
    ensures
        match r {
            Ok(()) => forall|i: int|
                0 <= i < free_vram_bytes.len() ==> #[trigger] free_vram_bytes[i]
                    >= GLM52_POST_BUILD_MIN_FREE_BYTES,
            Err(e) => {
                &&& e.rank < free_vram_bytes.len()
                &&& e.free == free_vram_bytes[e.rank as int]
                &&& e.free < GLM52_POST_BUILD_MIN_FREE_BYTES
                &&& forall|i: int|
                    0 <= i < e.rank ==> #[trigger] free_vram_bytes[i]
                        >= GLM52_POST_BUILD_MIN_FREE_BYTES
            },
        },
{
    let mut rank: usize = 0;
    while rank < free_vram_bytes.len()
        invariant
            rank <= free_vram_bytes.len(),
            forall|i: int|
                0 <= i < rank ==> #[trigger] free_vram_bytes[i] >= GLM52_POST_BUILD_MIN_FREE_BYTES,
        decreases free_vram_bytes.len() - rank,
    {
        let free: u64 = free_vram_bytes[rank];
        if free < GLM52_POST_BUILD_MIN_FREE_BYTES {
            return Err(Glm52HeadroomError { rank, free });
        }
        rank = rank + 1;
    }
    Ok(())
}

/// A larger cap costs more.
pub proof fn cap_bytes_monotone(a: int, b: int, dspark_enabled: bool)
    requires
        0 <= a <= b,
    ensures
        cap_bytes(a, dspark_enabled) <= cap_bytes(b, dspark_enabled),
        a < b ==> cap_bytes(a, dspark_enabled) < cap_bytes(b, dspark_enabled),
{
    crate::arith::ceil_div_monotone(a + 1, b + 1, 64);
    crate::arith::ceil_div_monotone(a, b, 64);
    crate::arith::ceil_div_monotone(a, b, 256);
}

/// A budget has one derived cap.
pub proof fn derived_cap_is_unique(a: int, b: int, budget_bytes: int, dspark_enabled: bool)
    requires
        is_derived_cap(a, budget_bytes, dspark_enabled),
        is_derived_cap(b, budget_bytes, dspark_enabled),
    ensures
        a == b,
{
    if a < b {
        assert(cap_bytes(b, dspark_enabled) > budget_bytes);
    } else if b < a {
        assert(cap_bytes(a, dspark_enabled) > budget_bytes);
    }
}

/// More free VRAM never derives a smaller cap.
pub proof fn derived_cap_grows_with_free_vram(
    free: int,
    more: int,
    cap: int,
    larger: int,
    dspark_enabled: bool,
)
    requires
        0 <= free <= more,
        is_derived_cap(cap, budget(free, dspark_enabled), dspark_enabled),
        is_derived_cap(larger, budget(more, dspark_enabled), dspark_enabled),
    ensures
        cap <= larger,
{
    if larger < cap {
        assert(cap_bytes(cap, dspark_enabled) > budget(more, dspark_enabled));
    }
}

/// The drafter never enlarges the cap.
pub proof fn drafter_never_enlarges_the_cap(free: int, plain: int, dspark: int)
    requires
        0 <= free,
        is_derived_cap(plain, budget(free, false), false),
        is_derived_cap(dspark, budget(free, true), true),
    ensures
        dspark <= plain,
{
    if plain < dspark {
        assert(cap_bytes(dspark, false) > budget(free, false));
        assert(cap_bytes(dspark, true) >= cap_bytes(dspark, false));
    }
}

/// Free VRAM of exactly the reserve plus what a page-aligned cap costs
/// derives that cap.
pub proof fn exact_budget_derives_its_cap(cap: int, dspark_enabled: bool)
    requires
        0 <= cap <= 1_048_576,
        cap % 64 == 0,
    ensures
        is_derived_cap(
            cap,
            budget(reserve(dspark_enabled) + cap_bytes(cap, dspark_enabled), dspark_enabled),
            dspark_enabled,
        ),
{
    lemma_ledger_bounds(cap);
    assert forall|c: int| cap < c <= 1_048_576 && c % 64 == 0 implies #[trigger] cap_bytes(
        c,
        dspark_enabled,
    ) > cap_bytes(cap, dspark_enabled) by {
        cap_bytes_monotone(cap, c, dspark_enabled);
    }
}

/// Eight requests whose prompt and output together reach one token past the
/// cap can draw all their pages at once, and the padding page stays apart.
pub proof fn pool_serves_every_lane(max_model_len: int, tokens: Seq<int>)
    requires
        max_model_len >= 0,
        tokens.len() == 8,
        forall|i: int| 0 <= i < 8 ==> 0 <= #[trigger] tokens[i] <= max_model_len + 1,
    ensures
        crate::arith::ceil_div(tokens[0], 64) + crate::arith::ceil_div(tokens[1], 64)
            + crate::arith::ceil_div(tokens[2], 64) + crate::arith::ceil_div(tokens[3], 64)
            + crate::arith::ceil_div(tokens[4], 64) + crate::arith::ceil_div(tokens[5], 64)
            + crate::arith::ceil_div(tokens[6], 64) + crate::arith::ceil_div(tokens[7], 64) + 1
            <= pool_blocks(max_model_len),
{
    assert forall|i: int| 0 <= i < 8 implies crate::arith::ceil_div(#[trigger] tokens[i], 64)
        <= crate::arith::ceil_div(max_model_len + 1, 64) by {
        crate::arith::ceil_div_monotone(tokens[i], max_model_len + 1, 64);
    }
    assert(tokens[0] + tokens[1] + tokens[2] + tokens[3] + tokens[4] + tokens[5] + tokens[6]
        + tokens[7] >= 0);
}

/// A page-aligned cap fills its page table: the table of one request covers
/// exactly the cap.
pub proof fn aligned_cap_fills_its_table(max_model_len: int)
    requires
        max_model_len >= 0,
        max_model_len % 64 == 0,
    ensures
        table_width(max_model_len) * 64 == max_model_len,
{
}

} // verus!
