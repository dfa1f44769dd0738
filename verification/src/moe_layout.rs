//! The grouped layout of the received rows: where each local expert's segment
//! starts and ends, and what the grouped products are told about it.
use vstd::prelude::*;

use crate::arena::Glm52DecodeArenaPlan;
use crate::arith::align_up;
use crate::deepep::{GLM52_DEEPEP_EXPERT_ALIGNMENT, GLM52_EP_WORLD};

verus! {

/// Why a grouped layout or a buffer around it is refused.
#[derive(Clone, Copy, Debug, PartialEq, Eq, Structural)]
pub enum Glm52MoeLayoutError {
    ScratchTooSmall { rank: usize, psum_rank: usize, psum_expert: usize },
    Alignment { rank: usize, alignment: usize },
    SnapshotShape { rank: usize, psum_rank: usize, psum_expert: usize },
    Invalid { rank: usize },
    MetadataEntries { got: usize, want: usize },
    TooFewOffsets { got: usize },
    Offsets { start: i64, end: i64, capacity: usize },
    SampleRange { start: usize, end: usize, stride: usize, len: usize },
    Tokens { tokens: usize, capacity: usize },
    Rows { rows: usize, capacity: usize },
}

/// What a grouped layout holds.
#[derive(Clone, Copy, Debug, PartialEq, Eq, Structural)]
pub struct Glm52MoePsumLayoutReport {
    pub rank: usize,
    pub local_experts: usize,
    pub expert_alignment: usize,
    pub recv_tokens: usize,
    pub active_experts: usize,
    pub expanded_rows: usize,
    pub empty_rank: bool,
    pub grouped_layout_valid: bool,
}

/// A grouped layout as it was read back, with its report.
#[derive(Debug)]
pub struct Glm52MoePsumLayoutSnapshot {
    pub report: Glm52MoePsumLayoutReport,
    pub psum_expert: Vec<i32>,
}

/// A prefix-sum entry as a row.
pub open spec fn clamped(end: i32) -> int {
    if end >= 0 {
        end as int
    } else {
        0
    }
}

/// Where an expert's segment starts: behind the one before it, padded.
pub open spec fn segment_start(psum: Seq<i32>, e: int, alignment: int) -> int {
    if e <= 0 {
        0
    } else {
        crate::arith::round_up(clamped(psum[e - 1]), alignment)
    }
}

/// Whether an expert's segment is one: it ends where it starts or later.
pub open spec fn segment_sound(psum: Seq<i32>, e: int, alignment: int) -> bool {
    psum[e] >= 0 && psum[e] >= segment_start(psum, e, alignment)
}

/// How many of the first `k` experts have rows.
pub open spec fn active_below(psum: Seq<i32>, alignment: int, k: int) -> nat
    decreases k,
{
    if k <= 0 {
        0
    } else {
        active_below(psum, alignment, k - 1) + (if clamped(psum[k - 1]) > segment_start(
            psum,
            k - 1,
            alignment,
        ) {
            1nat
        } else {
            0
        })
    }
}

/// The rows that all segments take.
pub open spec fn expanded_rows(psum: Seq<i32>, alignment: int) -> int {
    segment_start(psum, psum.len() as int, alignment)
}

/// Whether prefix sums do not fall.
pub open spec fn not_falling(psum: Seq<i32>) -> bool {
    forall|i: int| 0 < i < psum.len() ==> psum[i - 1] <= #[trigger] psum[i]
}

/// Whether a grouped layout is sound and fits the arena.
pub open spec fn layout_sound(
    plan: Glm52DecodeArenaPlan,
    psum_rank: Seq<i32>,
    psum_expert: Seq<i32>,
) -> bool {
    let alignment = plan.expert_alignment as int;
    &&& 0 <= psum_rank.last() <= plan.deepep_worst_recv_tokens
    &&& not_falling(psum_rank)
    &&& forall|e: int|
        0 <= e < psum_expert.len() ==> #[trigger] segment_sound(psum_expert, e, alignment)
    &&& forall|e: int|
        0 <= e < psum_expert.len() ==> clamped(#[trigger] psum_expert[e])
            <= plan.deepep_worst_expanded_tokens
    &&& expanded_rows(psum_expert, alignment) <= plan.deepep_worst_expanded_tokens
}

/// The start of the segment behind one that ends at `end`.
fn next_start(end: usize, alignment: usize) -> (r: usize)
    requires
        0 < alignment <= 0x7fff_ffff,
        end <= 0x7fff_ffff,
    ensures
        r == crate::arith::round_up(end as int, alignment as int),
        r <= 0xffff_fffe,
{
    proof {
        crate::arith::round_up_is_least_multiple(end as int, alignment as int);
    }
    align_up(end, alignment)
}

/// Checks the buffers that a grouped layout is read from.
pub fn check_layout_scratch(
    rank: usize,
    plan: &Glm52DecodeArenaPlan,
    psum_rank_len: usize,
    psum_expert_len: usize,
) -> (r: Result<(), Glm52MoeLayoutError>)
    requires
        plan.local_experts < usize::MAX,
    ensures
        r == (if psum_rank_len < 8 || psum_expert_len < plan.local_experts + 1 {
            Err::<(), _>(
                Glm52MoeLayoutError::ScratchTooSmall {
                    rank,
                    psum_rank: psum_rank_len,
                    psum_expert: psum_expert_len,
                },
            )
        } else if plan.expert_alignment != 64 {
            Err(Glm52MoeLayoutError::Alignment { rank, alignment: plan.expert_alignment })
        } else {
            Ok(())
        }),
{
    if !(psum_rank_len >= GLM52_EP_WORLD && psum_expert_len >= plan.local_experts + 1) {
        return Err(
            Glm52MoeLayoutError::ScratchTooSmall {
                rank,
                psum_rank: psum_rank_len,
                psum_expert: psum_expert_len,
            },
        );
    }
    if plan.expert_alignment != GLM52_DEEPEP_EXPERT_ALIGNMENT {
        return Err(Glm52MoeLayoutError::Alignment { rank, alignment: plan.expert_alignment });
    }
    Ok(())
}

impl Glm52MoePsumLayoutSnapshot {
    /// Takes a grouped layout in: the prefix sums over the source ranks and
    /// over the local experts must be sound and fit the arena.
    pub fn new(
        rank: usize,
        plan: &Glm52DecodeArenaPlan,
        psum_rank: Vec<i32>,
        psum_expert: Vec<i32>,
    ) -> (r: Result<Self, Glm52MoeLayoutError>)
        requires
            0 < plan.expert_alignment <= 0x7fff_ffff,
        ensures
            match r {
                Ok(s) => {
                    &&& psum_rank.len() == 8 && psum_expert.len() == plan.local_experts
                    &&& layout_sound(*plan, psum_rank@, psum_expert@)
                    &&& s.psum_expert@ == psum_expert@
                    &&& s.report.rank == rank
                    &&& s.report.local_experts == plan.local_experts
                    &&& s.report.expert_alignment == plan.expert_alignment
                    &&& s.report.recv_tokens == psum_rank@[7]
                    &&& s.report.active_experts == active_below(
                        psum_expert@,
                        plan.expert_alignment as int,
                        psum_expert.len() as int,
                    )
                    &&& s.report.expanded_rows == expanded_rows(
                        psum_expert@,
                        plan.expert_alignment as int,
                    )
                    &&& s.report.empty_rank == (s.report.expanded_rows == 0)
                    &&& s.report.grouped_layout_valid
                },
                Err(e) => if psum_rank.len() != 8 || psum_expert.len() != plan.local_experts {
                    e == (Glm52MoeLayoutError::SnapshotShape {
                        rank,
                        psum_rank: psum_rank.len(),
                        psum_expert: psum_expert.len(),
                    })
                } else {
                    e == (Glm52MoeLayoutError::Invalid { rank }) && !layout_sound(
                        *plan,
                        psum_rank@,
                        psum_expert@,
                    )
                },
            },
    {
        if !(psum_rank.len() == GLM52_EP_WORLD && psum_expert.len() == plan.local_experts) {
            return Err(
                Glm52MoeLayoutError::SnapshotShape {
                    rank,
                    psum_rank: psum_rank.len(),
                    psum_expert: psum_expert.len(),
                },
            );
        }
        let alignment: usize = plan.expert_alignment;
        let recv: i32 = psum_rank[7];
        let mut valid: bool = recv >= 0;
        let recv_tokens: usize = if recv >= 0 {
            recv as usize
        } else {
            0
        };
        valid = valid && recv_tokens <= plan.deepep_worst_recv_tokens;
        let mut i: usize = 1;
        let ghost head = valid;
        while i < 8
            invariant
                1 <= i <= 8,
                psum_rank.len() == 8,
                valid == (head && forall|j: int|
                    0 < j < i ==> psum_rank@[j - 1] <= #[trigger] psum_rank@[j]),
            decreases 8 - i,
        {
            let before: i32 = psum_rank[i - 1];
            valid = valid && before <= psum_rank[i];
            i = i + 1;
        }
        assert(valid == (0 <= psum_rank@.last() <= plan.deepep_worst_recv_tokens && not_falling(
            psum_rank@,
        )));
        let ghost ranks = valid;
        let mut previous_end: usize = 0;
        let mut active: usize = 0;
        let mut e: usize = 0;
        while e < psum_expert.len()
            invariant
                e <= psum_expert.len(),
                0 < alignment <= 0x7fff_ffff,
                alignment == plan.expert_alignment,
                previous_end <= 0x7fff_ffff,
                e == 0 ==> previous_end == 0,
                e > 0 ==> previous_end == clamped(psum_expert@[e - 1]),
                active == active_below(psum_expert@, alignment as int, e as int),
                active <= e,
                valid == (ranks && (forall|k: int|
                    0 <= k < e ==> #[trigger] segment_sound(psum_expert@, k, alignment as int)) && (
                forall|k: int|
                    0 <= k < e ==> clamped(#[trigger] psum_expert@[k])
                        <= plan.deepep_worst_expanded_tokens)),
            decreases psum_expert.len() - e,
        {
            let raw: i32 = psum_expert[e];
            let end: usize = if raw >= 0 {
                raw as usize
            } else {
                0
            };
            let start: usize = if e == 0 {
                0
            } else {
                next_start(previous_end, alignment)
            };
            assert(start == segment_start(psum_expert@, e as int, alignment as int));
            assert((raw >= 0 && end >= start) == segment_sound(
                psum_expert@,
                e as int,
                alignment as int,
            ));
            assert(end == clamped(psum_expert@[e as int]));
            valid = valid && raw >= 0 && end >= start && end <= plan.deepep_worst_expanded_tokens;
            if end > start {
                active = active + 1;
            }
            previous_end = end;
            e = e + 1;
        }
        let expanded: usize = if psum_expert.len() == 0 {
            0
        } else {
            next_start(previous_end, alignment)
        };
        valid = valid && expanded <= plan.deepep_worst_expanded_tokens;
        if !valid {
            return Err(Glm52MoeLayoutError::Invalid { rank });
        }
        Ok(
            Glm52MoePsumLayoutSnapshot {
                report: Glm52MoePsumLayoutReport {
                    rank,
                    local_experts: plan.local_experts,
                    expert_alignment: alignment,
                    recv_tokens,
                    active_experts: active,
                    expanded_rows: expanded,
                    empty_rank: expanded == 0,
                    grouped_layout_valid: true,
                },
                psum_expert,
            },
        )
    }
}

/// Whether prefix sums suit a product that walks segments in blocks of
/// `block_m` rows.
pub open spec fn block_compatible(psum: Seq<i32>, block_m: int) -> bool {
    forall|e: int| 0 <= e < psum.len() ==> #[trigger] segment_sound(psum, e, block_m)
}

/// Whether prefix sums suit a product that walks segments in blocks of
/// `block_m` rows.
pub fn deepgemm_psum_compatible(psum_expert: &Vec<i32>, block_m: usize) -> (r: bool)
    requires
        0 < block_m <= 0x7fff_ffff,
    ensures
        r == block_compatible(psum_expert@, block_m as int),
        r ==> forall|e: int| 0 <= e < psum_expert.len() ==> (#[trigger] psum_expert@[e]) >= 0,
        r ==> forall|e: int|
            0 < e < psum_expert.len() ==> (#[trigger] psum_expert@[e]) >= crate::arith::round_up(
                psum_expert@[e - 1] as int,
                block_m as int,
            ),
        !r ==> exists|e: int|
            0 <= e < psum_expert.len() && ((#[trigger] psum_expert@[e]) < 0 || (e > 0
                && psum_expert@[e] < crate::arith::round_up(
                if psum_expert@[e - 1] >= 0 {
                    psum_expert@[e - 1] as int
                } else {
                    0
                },
                block_m as int,
            ))),
{
    let mut previous_end: usize = 0;
    let mut e: usize = 0;
    while e < psum_expert.len()
        invariant
            e <= psum_expert.len(),
            0 < block_m <= 0x7fff_ffff,
            previous_end <= 0x7fff_ffff,
            e == 0 ==> previous_end == 0,
            e > 0 ==> previous_end == clamped(psum_expert@[e - 1]),
            forall|k: int|
                0 <= k < e ==> #[trigger] segment_sound(psum_expert@, k, block_m as int),
        decreases psum_expert.len() - e,
    {
        let raw: i32 = psum_expert[e];
        if raw < 0 {
            assert(!segment_sound(psum_expert@, e as int, block_m as int));
            return false;
        }
        let end: usize = raw as usize;
        let start: usize = next_start(previous_end, block_m);
        proof {
            if e == 0 {
                crate::arith::round_up_is_least_multiple(0, block_m as int);
                assert(0 * block_m <= 0 * block_m);
                assert(start == 0) by {
                    assert(0 <= 0 * block_m);
                }
            }
        }
        if end < start {
            assert(!segment_sound(psum_expert@, e as int, block_m as int));
            return false;
        }
        assert(segment_sound(psum_expert@, e as int, block_m as int));
        previous_end = end;
        e = e + 1;
    }
    assert forall|k: int| 0 <= k < psum_expert.len() implies (#[trigger] psum_expert@[k]) >= 0 by {
        assert(segment_sound(psum_expert@, k, block_m as int));
    }
    assert forall|k: int| 0 < k < psum_expert.len() implies (#[trigger] psum_expert@[k])
        >= crate::arith::round_up(psum_expert@[k - 1] as int, block_m as int) by {
        assert(segment_sound(psum_expert@, k - 1, block_m as int));
        assert(segment_sound(psum_expert@, k, block_m as int));
    }
    true
}

/// The segments of a sound layout do not overlap: each ends at or before the
/// next one starts.
pub proof fn segments_do_not_overlap(psum: Seq<i32>, alignment: int, e: int, later: int)
    requires
        alignment > 0,
        block_compatible(psum, alignment),
        0 <= e < later < psum.len(),
    ensures
        segment_start(psum, e, alignment) <= psum[e] <= segment_start(psum, later, alignment),
    decreases later - e,
{
    assert(segment_sound(psum, e, alignment));
    assert(segment_sound(psum, later - 1, alignment));
    crate::arith::round_up_is_least_multiple(clamped(psum[later - 1]), alignment);
    if e < later - 1 {
        segments_do_not_overlap(psum, alignment, e, later - 1);
    }
}

/// A layout that suits blocks of 128 rows suits blocks of 64.
pub proof fn wide_blocks_suit_narrow_ones(psum: Seq<i32>)
    requires
        block_compatible(psum, 128),
    ensures
        block_compatible(psum, 64),
{
    assert forall|e: int| 0 <= e < psum.len() implies #[trigger] segment_sound(psum, e, 64) by {
        assert(segment_sound(psum, e, 128));
        if e > 0 {
            let end = clamped(psum[e - 1]);
            let blocks = crate::arith::ceil_div(end, 128);
            crate::arith::round_up_is_least_multiple(end, 128);
            crate::arith::round_up_is_least_multiple(end, 64);
            assert((2 * blocks) * 64 == blocks * 128);
            assert(end <= (2 * blocks) * 64);
        }
    }
}

/// In a sound layout the received tokens do not fall from rank to rank and
/// stay within the cap; each expert's segment starts on the alignment, less
/// than one alignment behind the end of the one before it, ends at or behind
/// its start and within the arena; and so do the rows of all segments.
pub proof fn a_sound_layout_stays_in_the_arena(
    plan: Glm52DecodeArenaPlan,
    psum_rank: Seq<i32>,
    psum_expert: Seq<i32>,
    i: int,
    e: int,
)
    requires
        plan.expert_alignment > 0,
        psum_rank.len() > 0,
        layout_sound(plan, psum_rank, psum_expert),
        0 <= i < psum_rank.len(),
        0 <= e < psum_expert.len(),
    ensures
        psum_rank[i] <= psum_rank.last() <= plan.deepep_worst_recv_tokens,
        ({
            let a = plan.expert_alignment as int;
            let start = segment_start(psum_expert, e, a);
            &&& 0 <= start <= psum_expert[e] <= plan.deepep_worst_expanded_tokens
            &&& start % a == 0
            &&& e == 0 ==> start == 0
            &&& e > 0 ==> psum_expert[e - 1] <= start < psum_expert[e - 1] + a
            &&& psum_expert[e] <= expanded_rows(psum_expert, a)
                <= plan.deepep_worst_expanded_tokens
            &&& expanded_rows(psum_expert, a) % a == 0
        }),
{
    let a = plan.expert_alignment as int;
    lemma_ranks_rise(psum_rank, i, psum_rank.len() - 1);
    let last = psum_expert.len() - 1;
    assert(segment_sound(psum_expert, e, a));
    assert(segment_sound(psum_expert, last, a));
    assert(clamped(psum_expert[e]) <= plan.deepep_worst_expanded_tokens);
    crate::arith::round_up_is_least_multiple(clamped(psum_expert[last]), a);
    if e > 0 {
        assert(segment_sound(psum_expert, e - 1, a));
        crate::arith::round_up_is_least_multiple(clamped(psum_expert[e - 1]), a);
    } else {
        assert(0int % a == 0) by {
            vstd::arithmetic::div_mod::lemma_small_mod(0, a as nat);
        }
    }
    if e < last {
        segments_do_not_overlap(psum_expert, a, e, last);
    }
}

/// Prefix sums whose segments start on the alignment, end behind their starts
/// and fit the arena are a sound layout.
pub proof fn a_layout_in_the_arena_is_sound(
    plan: Glm52DecodeArenaPlan,
    psum_rank: Seq<i32>,
    psum_expert: Seq<i32>,
)
    requires
        plan.expert_alignment > 0,
        psum_rank.len() > 0,
        0 <= psum_rank.last() <= plan.deepep_worst_recv_tokens,
        forall|i: int, j: int|
            0 <= i < j < psum_rank.len() ==> #[trigger] psum_rank[i] <= #[trigger] psum_rank[j],
        forall|e: int|
            0 <= e < psum_expert.len() ==> 0 <= #[trigger] psum_expert[e]
                && segment_start(psum_expert, e, plan.expert_alignment as int) <= psum_expert[e]
                <= plan.deepep_worst_expanded_tokens,
        expanded_rows(psum_expert, plan.expert_alignment as int)
            <= plan.deepep_worst_expanded_tokens,
    ensures
        layout_sound(plan, psum_rank, psum_expert),
{
    let a = plan.expert_alignment as int;
    assert forall|e: int| 0 <= e < psum_expert.len() implies #[trigger] segment_sound(
        psum_expert,
        e,
        a,
    ) by {
        assert(0 <= psum_expert[e]);
    }
    assert forall|i: int| 0 < i < psum_rank.len() implies psum_rank[i - 1]
        <= #[trigger] psum_rank[i] by {
        assert(psum_rank[i - 1] <= psum_rank[i]);
    }
}

proof fn lemma_ranks_rise(psum: Seq<i32>, i: int, j: int)
    requires
        not_falling(psum),
        0 <= i <= j < psum.len(),
    ensures
        psum[i] <= psum[j],
    decreases j - i,
{
    if i < j {
        lemma_ranks_rise(psum, i, j - 1);
        assert(psum[j - 1] <= psum[j]);
    }
}

/// The active experts are those that have rows.
pub proof fn active_experts_are_those_with_rows(psum: Seq<i32>, alignment: int, k: int)
    requires
        0 <= k,
    ensures
        ({
            let active = Set::new(|e: int| 0 <= e < k && segment_rows(psum, e, alignment) > 0);
            active.finite() && active.len() == active_below(psum, alignment, k)
        }),
    decreases k,
{
    let active = Set::new(|e: int| 0 <= e < k && segment_rows(psum, e, alignment) > 0);
    if k == 0 {
        assert(active =~= Set::empty());
    } else {
        active_experts_are_those_with_rows(psum, alignment, k - 1);
        let fewer = Set::new(|e: int| 0 <= e < k - 1 && segment_rows(psum, e, alignment) > 0);
        if segment_rows(psum, k - 1, alignment) > 0 {
            assert(active =~= fewer.insert(k - 1));
        } else {
            assert(active =~= fewer);
        }
    }
}

/// Metadata that was found sound puts each expert's problem where its segment
/// stands: it starts on the alignment, and its rows end where the prefix sums
/// say.
pub proof fn a_sound_problem_is_its_segment(
    psum: Seq<i32>,
    offsets: Seq<i64>,
    sizes: Seq<i32>,
    e: int,
    alignment: int,
    capacity: int,
    n: int,
    k: int,
)
    requires
        alignment > 0,
        0 <= e < psum.len(),
        offset_sound(psum, offsets, e, alignment, capacity),
        problem_sound(psum, sizes, e, alignment, n, k),
    ensures
        0 <= offsets[e] <= psum[e] <= capacity,
        offsets[e] as int % alignment == 0,
        e == 0 ==> offsets[e] == 0,
        e > 0 && psum[e - 1] >= 0 ==> psum[e - 1] <= offsets[e] < psum[e - 1] + alignment,
        offsets[e] + sizes[3 * e] == psum[e],
        sizes[3 * e + 1] == n && sizes[3 * e + 2] == k,
{
    if e > 0 {
        crate::arith::round_up_is_least_multiple(clamped(psum[e - 1]), alignment);
    } else {
        vstd::arithmetic::div_mod::lemma_small_mod(0, alignment as nat);
    }
}

/// What the grouped products' metadata was found to be.
#[derive(Clone, Copy, Debug, PartialEq, Eq, Structural)]
pub struct Glm52MoeGemmMetadataValidation {
    pub offsets_valid: bool,
    pub w13_problem_sizes_valid: bool,
    pub w2_problem_sizes_valid: bool,
    pub active_experts: usize,
    pub expanded_rows: usize,
    pub trtllm_grouped_offset_scale_rows_required: usize,
    pub trtllm_grouped_offset_scale_rows_covered: bool,
}

/// The grouped products' metadata as it was read back.
#[derive(Debug)]
pub struct Glm52MoeGemmMetadata {
    pub expert_offsets: Vec<i64>,
    pub w13_problem_sizes: Vec<i32>,
    pub w2_problem_sizes: Vec<i32>,
}

/// Whether the offsets of an expert are those of its segment.
pub open spec fn offset_sound(
    psum: Seq<i32>,
    offsets: Seq<i64>,
    e: int,
    alignment: int,
    capacity: int,
) -> bool {
    &&& segment_sound(psum, e, alignment)
    &&& segment_start(psum, e, alignment) <= capacity
    &&& clamped(psum[e]) <= capacity
    &&& offsets[e] == segment_start(psum, e, alignment)
}

/// The rows of an expert.
pub open spec fn segment_rows(psum: Seq<i32>, e: int, alignment: int) -> int {
    if clamped(psum[e]) >= segment_start(psum, e, alignment) {
        clamped(psum[e]) - segment_start(psum, e, alignment)
    } else {
        0
    }
}

/// Whether the problem size of an expert is its rows by `n` by `k`.
pub open spec fn problem_sound(
    psum: Seq<i32>,
    sizes: Seq<i32>,
    e: int,
    alignment: int,
    n: int,
    k: int,
) -> bool {
    sizes[3 * e] == segment_rows(psum, e, alignment) && sizes[3 * e + 1] == n && sizes[3 * e + 2]
        == k
}

/// Validates the grouped products' metadata against the layout that it was
/// derived from.
pub fn validate_moe_gemm_metadata_outputs(
    plan: &Glm52DecodeArenaPlan,
    psum_expert: &Vec<i32>,
    metadata: &Glm52MoeGemmMetadata,
    rows_required: usize,
    w13_scale_len: usize,
    w2_scale_len: usize,
) -> (r: Result<Glm52MoeGemmMetadataValidation, Glm52MoeLayoutError>)
    requires
        0 < plan.expert_alignment <= 0x7fff_ffff,
        plan.moe_intermediate == 2048,
        plan.hidden == 6144,
        plan.moe_w13_scale_cols == 48,
        plan.moe_w2_scale_cols == 16,
        plan.local_experts < usize::MAX / 3,
        48 * rows_required <= usize::MAX,
        metadata.expert_offsets.len() == plan.local_experts + 1,
        metadata.w13_problem_sizes.len() == 3 * plan.local_experts,
        metadata.w2_problem_sizes.len() == 3 * plan.local_experts,
    ensures
        ({
            let alignment = plan.expert_alignment as int;
            let capacity = plan.deepep_worst_expanded_tokens as int;
            let count = plan.local_experts as int;
            match r {
                Ok(v) => {
                    &&& psum_expert.len() == count
                    &&& v.offsets_valid == ((forall|e: int|
                        0 <= e < count ==> #[trigger] offset_sound(
                            psum_expert@,
                            metadata.expert_offsets@,
                            e,
                            alignment,
                            capacity,
                        )) && expanded_rows(psum_expert@, alignment) <= capacity
                        && metadata.expert_offsets@[count] == expanded_rows(
                        psum_expert@,
                        alignment,
                    ))
                    &&& v.w13_problem_sizes_valid == (forall|e: int|
                        0 <= e < count ==> #[trigger] problem_sound(
                            psum_expert@,
                            metadata.w13_problem_sizes@,
                            e,
                            alignment,
                            4096,
                            6144,
                        ))
                    &&& v.w2_problem_sizes_valid == (forall|e: int|
                        0 <= e < count ==> #[trigger] problem_sound(
                            psum_expert@,
                            metadata.w2_problem_sizes@,
                            e,
                            alignment,
                            6144,
                            2048,
                        ))
                    &&& v.active_experts == active_below(psum_expert@, alignment, count)
                    &&& v.expanded_rows == expanded_rows(psum_expert@, alignment)
                    &&& v.trtllm_grouped_offset_scale_rows_required == rows_required
                    &&& v.trtllm_grouped_offset_scale_rows_covered == (
                    plan.moe_trtllm_grouped_offset_rows >= rows_required && w13_scale_len >= 48
                        * rows_required && w2_scale_len >= 16 * rows_required)
                },
                Err(e) => psum_expert.len() != count && e
                    == (Glm52MoeLayoutError::MetadataEntries {
                    got: psum_expert.len(),
                    want: plan.local_experts,
                }),
            }
        }),
{
    let count: usize = plan.local_experts;
    if psum_expert.len() != count {
        return Err(
            Glm52MoeLayoutError::MetadataEntries { got: psum_expert.len(), want: count },
        );
    }
    let alignment: usize = plan.expert_alignment;
    let capacity: usize = plan.deepep_worst_expanded_tokens;
    let mut offsets_valid: bool = true;
    let mut w13_valid: bool = true;
    let mut w2_valid: bool = true;
    let mut previous_end: usize = 0;
    let mut active: usize = 0;
    let mut e: usize = 0;
    while e < count
        invariant
            e <= count,
            count == plan.local_experts,
            count < usize::MAX / 3,
            psum_expert.len() == count,
            metadata.expert_offsets.len() == count + 1,
            metadata.w13_problem_sizes.len() == 3 * count,
            metadata.w2_problem_sizes.len() == 3 * count,
            0 < alignment <= 0x7fff_ffff,
            previous_end <= 0x7fff_ffff,
            e == 0 ==> previous_end == 0,
            e > 0 ==> previous_end == clamped(psum_expert@[e - 1]),
            active == active_below(psum_expert@, alignment as int, e as int),
            active <= e,
            offsets_valid == (forall|k: int|
                0 <= k < e ==> #[trigger] offset_sound(
                    psum_expert@,
                    metadata.expert_offsets@,
                    k,
                    alignment as int,
                    capacity as int,
                )),
            w13_valid == (forall|k: int|
                0 <= k < e ==> #[trigger] problem_sound(
                    psum_expert@,
                    metadata.w13_problem_sizes@,
                    k,
                    alignment as int,
                    4096,
                    6144,
                )),
            w2_valid == (forall|k: int|
                0 <= k < e ==> #[trigger] problem_sound(
                    psum_expert@,
                    metadata.w2_problem_sizes@,
                    k,
                    alignment as int,
                    6144,
                    2048,
                )),
        decreases count - e,
    {
        let raw: i32 = psum_expert[e];
        let end: usize = if raw >= 0 {
            raw as usize
        } else {
            0
        };
        let start: usize = if e == 0 {
            0
        } else {
            next_start(previous_end, alignment)
        };
        let rows: usize = if end >= start {
            end - start
        } else {
            0
        };
        let base: usize = 3 * e;
        let ghost here = e as int;
        assert(start == segment_start(psum_expert@, here, alignment as int));
        assert(rows == segment_rows(psum_expert@, here, alignment as int));
        let offset_here: bool = raw >= 0 && end >= start && start <= capacity && end <= capacity
            && metadata.expert_offsets[e] == start as i64;
        assert(offset_here == offset_sound(
            psum_expert@,
            metadata.expert_offsets@,
            here,
            alignment as int,
            capacity as int,
        ));
        let w13_here: bool = metadata.w13_problem_sizes[base] == rows as i32
            && metadata.w13_problem_sizes[base + 1] == 4096 && metadata.w13_problem_sizes[base + 2]
            == 6144;
        assert(w13_here == problem_sound(
            psum_expert@,
            metadata.w13_problem_sizes@,
            here,
            alignment as int,
            4096,
            6144,
        ));
        let w2_here: bool = metadata.w2_problem_sizes[base] == rows as i32
            && metadata.w2_problem_sizes[base + 1] == 6144 && metadata.w2_problem_sizes[base + 2]
            == 2048;
        assert(w2_here == problem_sound(
            psum_expert@,
            metadata.w2_problem_sizes@,
            here,
            alignment as int,
            6144,
            2048,
        ));
        offsets_valid = offsets_valid && offset_here;
        w13_valid = w13_valid && w13_here;
        w2_valid = w2_valid && w2_here;
        if rows > 0 {
            active = active + 1;
        }
        previous_end = end;
        e = e + 1;
    }
    let expanded: usize = if count == 0 {
        0
    } else {
        next_start(previous_end, alignment)
    };
    offsets_valid = offsets_valid && expanded <= capacity && metadata.expert_offsets[count]
        == expanded as i64;
    Ok(
        Glm52MoeGemmMetadataValidation {
            offsets_valid,
            w13_problem_sizes_valid: w13_valid,
            w2_problem_sizes_valid: w2_valid,
            active_experts: active,
            expanded_rows: expanded,
            trtllm_grouped_offset_scale_rows_required: rows_required,
            trtllm_grouped_offset_scale_rows_covered: plan.moe_trtllm_grouped_offset_rows
                >= rows_required && w13_scale_len >= rows_required * 48 && w2_scale_len
                >= rows_required * 16,
        },
    )
}

/// Whether the offsets of an expert are a range within the arena.
pub open spec fn range_sound(offsets: Seq<i64>, e: int, capacity: int) -> bool {
    0 <= offsets[e] <= offsets[e + 1] <= capacity
}

/// Whether an expert has no rows.
pub open spec fn range_empty(offsets: Seq<i64>, e: int, capacity: int) -> bool {
    range_sound(offsets, e, capacity) && offsets[e] == offsets[e + 1]
}

/// The rows of the first expert that has some. Offsets that are no ranges up
/// to there are refused.
pub fn first_active_expert_range(expert_offsets: &Vec<i64>, capacity: usize) -> (r: Result<
    Option<(usize, usize)>,
    Glm52MoeLayoutError,
>)
    requires
        capacity <= 0x7fff_ffff_ffff_ffff,
    ensures
        match r {
            Ok(Some((start, end))) => exists|e: int|
                {
                    &&& 0 <= e < expert_offsets.len() - 1
                    &&& #[trigger] range_sound(expert_offsets@, e, capacity as int)
                    &&& start == expert_offsets@[e] && end == expert_offsets@[e + 1] && start < end
                    &&& forall|k: int|
                        0 <= k < e ==> #[trigger] range_empty(expert_offsets@, k, capacity as int)
                },
            Ok(None) => {
                &&& expert_offsets.len() >= 2
                &&& forall|k: int|
                    0 <= k < expert_offsets.len() - 1 ==> #[trigger] range_empty(expert_offsets@, k, capacity as int)
            },
            Err(Glm52MoeLayoutError::TooFewOffsets { got }) => got == expert_offsets.len() && got
                < 2,
            Err(Glm52MoeLayoutError::Offsets { start, end, capacity: c }) => exists|e: int|
                {
                    &&& 0 <= e < expert_offsets.len() - 1
                    &&& !(#[trigger] range_sound(expert_offsets@, e, capacity as int))
                    &&& start == expert_offsets@[e] && end == expert_offsets@[e + 1] && c
                        == capacity
                    &&& forall|k: int|
                        0 <= k < e ==> #[trigger] range_empty(expert_offsets@, k, capacity as int)
                },
            Err(_) => false,
        },
{
    if expert_offsets.len() < 2 {
        return Err(Glm52MoeLayoutError::TooFewOffsets { got: expert_offsets.len() });
    }
    let limit: i64 = capacity as i64;
    let mut e: usize = 0;
    while e < expert_offsets.len() - 1
        invariant
            e <= expert_offsets.len() - 1,
            expert_offsets.len() >= 2,
            limit == capacity,
            forall|k: int|
                0 <= k < e ==> #[trigger] range_empty(expert_offsets@, k, capacity as int),
        decreases expert_offsets.len() - e,
    {
        let start: i64 = expert_offsets[e];
        let end: i64 = expert_offsets[e + 1];
        if !(start >= 0 && end >= start && end <= limit) {
            assert(!range_sound(expert_offsets@, e as int, capacity as int));
            return Err(Glm52MoeLayoutError::Offsets { start, end, capacity });
        }
        assert(range_sound(expert_offsets@, e as int, capacity as int));
        if end > start {
            return Ok(Some((start as usize, end as usize)));
        }
        assert(range_empty(expert_offsets@, e as int, capacity as int));
        e = e + 1;
    }
    Ok(None)
}

/// The rows of an output that are sampled: up to four of them, each up to
/// 1024 columns wide. Each sample is an offset and a length.
pub fn sample_rows(start_row: usize, end_row: usize, stride: usize, len: usize) -> (r: Result<
    Vec<(usize, usize)>,
    Glm52MoeLayoutError,
>)
    requires
        end_row * stride <= usize::MAX,
    ensures
        match r {
            Ok(samples) => {
                &&& start_row < end_row && end_row * stride <= len
                &&& samples.len() == crate::arith::least(4, end_row - start_row)
                &&& forall|i: int|
                    0 <= i < samples.len() ==> (#[trigger] samples@[i]).0 == (start_row + i)
                        * stride && samples@[i].1 == crate::arith::least(stride as int, 1024)
                        && samples@[i].0 + samples@[i].1 <= len
            },
            Err(e) => !(start_row < end_row && end_row * stride <= len) && e
                == (Glm52MoeLayoutError::SampleRange { start: start_row, end: end_row, stride, len }),
        },
{
    if !(start_row < end_row && end_row * stride <= len) {
        return Err(
            Glm52MoeLayoutError::SampleRange { start: start_row, end: end_row, stride, len },
        );
    }
    let cols: usize = if stride <= 1024 {
        stride
    } else {
        1024
    };
    let count: usize = if end_row - start_row <= 4 {
        end_row - start_row
    } else {
        4
    };
    let mut samples: Vec<(usize, usize)> = Vec::new();
    let mut i: usize = 0;
    while i < count
        invariant
            i <= count <= 4,
            start_row + count <= end_row,
            end_row * stride <= len,
            cols == crate::arith::least(stride as int, 1024),
            samples.len() == i,
            forall|j: int|
                0 <= j < i ==> (#[trigger] samples@[j]).0 == (start_row + j) * stride
                    && samples@[j].1 == crate::arith::least(stride as int, 1024) && samples@[j].0
                    + samples@[j].1 <= len,
        decreases count - i,
    {
        let row: usize = start_row + i;
        assert(row * stride + stride <= end_row * stride) by (nonlinear_arith)
            requires
                row < end_row,
        ;
        samples.push((row * stride, cols));
        i = i + 1;
    }
    Ok(samples)
}

/// Whether a token count fits the arena.
pub fn check_tokens(tokens: usize, capacity: usize) -> (r: Result<(), Glm52MoeLayoutError>)
    ensures
        r == (if 1 <= tokens <= capacity {
            Ok::<(), Glm52MoeLayoutError>(())
        } else {
            Err(Glm52MoeLayoutError::Tokens { tokens, capacity })
        }),
{
    if tokens == 0 || tokens > capacity {
        return Err(Glm52MoeLayoutError::Tokens { tokens, capacity });
    }
    Ok(())
}

/// Whether a row count fits the expanded rows of the arena.
pub fn validate_moe_quant_rows(plan: &Glm52DecodeArenaPlan, rows: usize) -> (r: Result<
    (),
    Glm52MoeLayoutError,
>)
    ensures
        r == (if 1 <= rows <= plan.deepep_worst_expanded_tokens {
            Ok::<(), Glm52MoeLayoutError>(())
        } else {
            Err(Glm52MoeLayoutError::Rows { rows, capacity: plan.deepep_worst_expanded_tokens })
        }),
{
    if rows == 0 || rows > plan.deepep_worst_expanded_tokens {
        return Err(
            Glm52MoeLayoutError::Rows { rows, capacity: plan.deepep_worst_expanded_tokens },
        );
    }
    Ok(())
}

/// The routes of a smoke test: every token goes to the first expert of each
/// rank.
pub fn seed_routes(tokens: usize, capacity: usize, local_experts: usize) -> (r: Result<
    Vec<i32>,
    Glm52MoeLayoutError,
>)
    requires
        7 * local_experts <= 0x7fff_ffff,
        8 * capacity <= usize::MAX,
    ensures
        match r {
            Ok(routes) => {
                &&& 1 <= tokens <= capacity
                &&& routes.len() == 8 * tokens
                &&& forall|i: int|
                    0 <= i < routes.len() ==> #[trigger] routes@[i] == (i % 8) * local_experts
            },
            Err(e) => !(1 <= tokens <= capacity) && e == (Glm52MoeLayoutError::Tokens {
                tokens,
                capacity,
            }),
        },
{
    match check_tokens(tokens, capacity) {
        Ok(()) => {},
        Err(e) => {
            return Err(e);
        },
    }
    let mut routes: Vec<i32> = Vec::new();
    let mut i: usize = 0;
    while i < 8 * tokens
        invariant
            i <= 8 * tokens,
            8 * tokens <= usize::MAX,
            7 * local_experts <= 0x7fff_ffff,
            routes.len() == i,
            forall|j: int|
                0 <= j < i ==> #[trigger] routes@[j] == (j % 8) * local_experts,
        decreases 8 * tokens - i,
    {
        let rank: usize = i % GLM52_EP_WORLD;
        assert(rank * local_experts <= 7 * local_experts) by (nonlinear_arith)
            requires
                rank <= 7,
        ;
        routes.push((rank * local_experts) as i32);
        i = i + 1;
    }
    Ok(routes)
}

/// The integer part of a smoke test's inputs: a row's number plus `shift`,
/// times a factor that repeats along the columns.
pub open spec fn seed_factor(row: int, col: int, modulus: int, shift: int) -> int {
    (row + shift) * (col % modulus + 1)
}

/// The integer parts of a smoke test's inputs, row by row.
pub fn seed_factors(rows: usize, width: usize, modulus: usize, shift: usize) -> (r: Vec<u64>)
    requires
        rows <= 0xffff_ffff,
        0 < modulus <= 0xffff,
        shift <= 0xffff,
        rows * width <= usize::MAX,
    ensures
        r.len() == rows * width,
        forall|row: int, col: int|
            0 <= row < rows && 0 <= col < width ==> #[trigger] r@[row * width + col]
                == seed_factor(row, col, modulus as int, shift as int),
        forall|row: int, col: int|
            0 <= row < rows && 0 <= col < width ==> #[trigger] r@[row * width + col] == (row
                + shift) * (col % (modulus as int) + 1),
{
    let mut factors: Vec<u64> = Vec::new();
    let mut row: usize = 0;
    while row < rows
        invariant
            row <= rows <= 0xffff_ffff,
            0 < modulus <= 0xffff,
            shift <= 0xffff,
            rows * width <= usize::MAX,
            factors.len() == row * width,
            forall|i: int, j: int|
                0 <= i < row && 0 <= j < width ==> #[trigger] factors@[i * width + j]
                    == seed_factor(i, j, modulus as int, shift as int),
        decreases rows - row,
    {
        let ghost before = factors@;
        let mut col: usize = 0;
        while col < width
            invariant
                col <= width,
                row < rows <= 0xffff_ffff,
                0 < modulus <= 0xffff,
                shift <= 0xffff,
                before.len() == row * width,
                factors.len() == row * width + col,
                forall|k: int| 0 <= k < before.len() ==> #[trigger] factors@[k] == before[k],
                forall|j: int|
                    0 <= j < col ==> #[trigger] factors@[row * width + j] == seed_factor(
                        row as int,
                        j,
                        modulus as int,
                        shift as int,
                    ),
            decreases width - col,
        {
            let a: u64 = row as u64 + shift as u64;
            let b: u64 = (col % modulus) as u64 + 1;
            assert(a * b <= 0x1_0001_0000 * 0x1_0000) by (nonlinear_arith)
                requires
                    a <= 0x1_0001_0000,
                    b <= 0x1_0000,
            ;
            factors.push(a * b);
            col = col + 1;
        }
        assert((row + 1) * width == row * width + width) by (nonlinear_arith);
        assert forall|i: int, j: int|
            0 <= i < row + 1 && 0 <= j < width implies #[trigger] factors@[i * width + j]
            == seed_factor(i, j, modulus as int, shift as int) by {
            if i < row {
                assert(0 <= i * width + j < row * width) by (nonlinear_arith)
                    requires
                        0 <= i < row,
                        0 <= j < width,
                ;
                assert(before[i * width + j] == factors@[i * width + j]);
            }
        }
        row = row + 1;
    }
    factors
}

/// Whether an entry of the routes names an expert that no earlier entry of
/// the same token names.
pub open spec fn route_sound(routes: Seq<i32>, i: int, topk: int, experts: int) -> bool {
    &&& 0 <= routes[i] < experts
    &&& forall|j: int|
        (i / topk) * topk <= j < i ==> #[trigger] routes[j] != routes[i]
}

/// Whether every token is routed to distinct experts with positive weights.
/// The weights come as the answers to whether each is finite and positive.
pub fn routes_valid(
    routes: &Vec<i32>,
    weight_positive: &Vec<bool>,
    tokens: usize,
    topk: usize,
    experts: usize,
) -> (r: bool)
    requires
        topk > 0,
        tokens * topk <= usize::MAX,
        routes.len() == tokens * topk,
        weight_positive.len() == tokens * topk,
    ensures
        r == ((forall|i: int|
            0 <= i < routes.len() ==> #[trigger] route_sound(
                routes@,
                i,
                topk as int,
                experts as int,
            )) && (forall|i: int|
            0 <= i < routes.len() ==> #[trigger] weight_positive@[i])),
        r ==> forall|i: int|
            0 <= i < routes.len() ==> 0 <= #[trigger] routes@[i] < experts && weight_positive@[i],
{
    let mut valid: bool = true;
    let mut i: usize = 0;
    while i < routes.len()
        invariant
            i <= routes.len(),
            topk > 0,
            routes.len() == weight_positive.len(),
            valid == ((forall|k: int|
                0 <= k < i ==> #[trigger] route_sound(
                    routes@,
                    k,
                    topk as int,
                    experts as int,
                )) && (forall|k: int| 0 <= k < i ==> #[trigger] weight_positive@[k])),
        decreases routes.len() - i,
    {
        let expert: i32 = routes[i];
        let mut here: bool = expert >= 0 && (expert as u32) as u64 <= experts as u64
            && expert as usize != experts;
        assert(here == (0 <= routes@[i as int] < experts));
        proof {
            vstd::arithmetic::div_mod::lemma_mod_decreases(i as nat, topk as nat);
        }
        let first: usize = i - i % topk;
        proof {
            vstd::arithmetic::div_mod::lemma_fundamental_div_mod(i as int, topk as int);
            assert((i as int / topk as int) * topk == first) by (nonlinear_arith)
                requires
                    i == topk * (i as int / topk as int) + i as int % topk as int,
                    first == i - i as int % topk as int,
            ;
        }
        let ghost in_range = here;
        let mut j: usize = first;
        while j < i
            invariant
                first <= j <= i < routes.len(),
                expert == routes@[i as int],
                here == (in_range && forall|k: int|
                    first <= k < j ==> #[trigger] routes@[k] != expert),
            decreases i - j,
        {
            here = here && routes[j] != expert;
            j = j + 1;
        }
        assert(here == route_sound(routes@, i as int, topk as int, experts as int));
        valid = valid && here && weight_positive[i];
        i = i + 1;
    }
    assert forall|k: int| valid && 0 <= k < routes.len() implies 0 <= #[trigger] routes@[k]
        < experts by {
        assert(route_sound(routes@, k, topk as int, experts as int));
    }
    valid
}

/// Sound routes send no token to one expert twice.
pub proof fn no_token_meets_an_expert_twice(
    routes: Seq<i32>,
    topk: int,
    experts: int,
    token: int,
    a: int,
    b: int,
)
    requires
        topk > 0,
        0 <= token,
        (token + 1) * topk <= routes.len(),
        forall|i: int|
            0 <= i < routes.len() ==> #[trigger] route_sound(routes, i, topk, experts),
        0 <= a < b < topk,
    ensures
        routes[token * topk + a] != routes[token * topk + b],
{
    let i = token * topk + b;
    assert((token + 1) * topk == token * topk + topk) by (nonlinear_arith);
    assert(0 <= token * topk) by (nonlinear_arith)
        requires
            0 <= token,
            topk > 0,
    ;
    assert(i / topk == token) by {
        vstd::arithmetic::div_mod::lemma_fundamental_div_mod_converse(i, topk, token, b);
    }
    assert(route_sound(routes, i, topk, experts));
    assert(routes[token * topk + a] != routes[i]);
}

/// The row-major scale that stands at a place of the column-major padded
/// layout; nothing where the layout is padding.
pub open spec fn scale_source(i: int, rows: int, cols: int, aligned_rows: int) -> Option<int> {
    let row = i % aligned_rows;
    let col = i / aligned_rows;
    if row < rows {
        Some(row * cols + col)
    } else {
        None
    }
}

/// The padded layout holds the scales column by column: the scale of a row
/// and a column stands at the column's start plus the row, once, and what
/// stands behind the rows of a column is padding.
pub proof fn scales_stand_column_by_column(rows: int, cols: int, aligned_rows: int, row: int, col: int)
    requires
        0 <= row < aligned_rows,
        rows <= aligned_rows,
        0 <= col < cols,
    ensures
        scale_source(col * aligned_rows + row, rows, cols, aligned_rows) == (if row < rows {
            Some(row * cols + col)
        } else {
            None
        }),
{
    let i = col * aligned_rows + row;
    vstd::arithmetic::div_mod::lemma_fundamental_div_mod_converse(i, aligned_rows, col, row);
}

/// The row-major scale that stands at a place of the column-major padded
/// layout.
pub fn deepgemm_scale_source(i: usize, rows: usize, cols: usize, aligned_rows: usize) -> (r: Option<
    usize,
>)
    requires
        aligned_rows > 0,
        rows * cols <= usize::MAX,
        i < aligned_rows * cols,
    ensures
        match r {
            Some(k) => scale_source(i as int, rows as int, cols as int, aligned_rows as int)
                == Some(k as int) && k < rows * cols,
            None => scale_source(i as int, rows as int, cols as int, aligned_rows as int) is None,
        },
{
    let row: usize = i % aligned_rows;
    let col: usize = i / aligned_rows;
    if row < rows {
        proof {
            vstd::arithmetic::div_mod::lemma_fundamental_div_mod(i as int, aligned_rows as int);
            assert(col < cols) by (nonlinear_arith)
                requires
                    i < aligned_rows * cols,
                    i == aligned_rows * col + row,
                    row >= 0,
            ;
            assert(row * cols + col < rows * cols) by (nonlinear_arith)
                requires
                    row < rows,
                    col < cols,
            ;
        }
        Some(row * cols + col)
    } else {
        None
    }
}

/// The expert whose segment covers a row of the grouped layout: the first
/// whose destination starts at or before the row and ends behind it.
pub open spec fn covers(offsets: Seq<i64>, starts: Seq<usize>, e: int, row: int) -> bool {
    starts[e] <= row < starts[e] + (offsets[e + 1] - offsets[e])
}

/// The source row that stands at a row of the grouped layout, given where
/// each expert's destination starts. The outer nothing says that an expert's
/// offsets are no range; the inner one that the row is padding.
pub fn grouped_source_row(
    offsets: &Vec<i64>,
    starts: &Vec<usize>,
    capacity: usize,
    row: usize,
) -> (r: Option<Option<usize>>)
    requires
        capacity <= 0x7fff_ffff_ffff_ffff,
        offsets.len() >= 2,
        starts.len() == offsets.len() - 1,
    ensures
        match r {
            Some(Some(source)) => exists|e: int|
                {
                    &&& 0 <= e < starts.len()
                    &&& #[trigger] covers(offsets@, starts@, e, row as int)
                    &&& source == offsets@[e] + (row - starts@[e])
                    &&& source < capacity
                    &&& forall|k: int|
                        0 <= k < e ==> !(#[trigger] covers(offsets@, starts@, k, row as int))
                    &&& forall|k: int|
                        0 <= k <= e ==> #[trigger] range_sound(offsets@, k, capacity as int)
                },
            Some(None) => {
                &&& forall|k: int|
                    0 <= k < starts.len() ==> !(#[trigger] covers(offsets@, starts@, k, row as int))
                &&& forall|k: int|
                    0 <= k < starts.len() ==> #[trigger] range_sound(offsets@, k, capacity as int)
            },
            None => exists|e: int|
                {
                    &&& 0 <= e < starts.len()
                    &&& !(#[trigger] range_sound(offsets@, e, capacity as int))
                    &&& forall|k: int|
                        0 <= k < e ==> !(#[trigger] covers(offsets@, starts@, k, row as int))
                    &&& forall|k: int|
                        0 <= k < e ==> #[trigger] range_sound(offsets@, k, capacity as int)
                },
        },
{
    let limit: i64 = capacity as i64;
    let mut e: usize = 0;
    while e < starts.len()
        invariant
            e <= starts.len(),
            starts.len() == offsets.len() - 1,
            limit == capacity,
            forall|k: int| 0 <= k < e ==> !(#[trigger] covers(offsets@, starts@, k, row as int)),
            forall|k: int| 0 <= k < e ==> #[trigger] range_sound(offsets@, k, capacity as int),
        decreases starts.len() - e,
    {
        let from: i64 = offsets[e];
        let to: i64 = offsets[e + 1];
        if from < 0 || to < from || to > limit {
            assert(!range_sound(offsets@, e as int, capacity as int));
            return None;
        }
        assert(range_sound(offsets@, e as int, capacity as int));
        let rows: usize = (to - from) as usize;
        if row >= starts[e] && row - starts[e] < rows {
            assert(covers(offsets@, starts@, e as int, row as int));
            return Some(Some(from as usize + (row - starts[e])));
        }
        assert(!covers(offsets@, starts@, e as int, row as int));
        e = e + 1;
    }
    Some(None)
}

} // verus!
