//! The launches of the attention block, in order: the front half (down- and
//! up-projections with their norms) and the attend half (absorb, query and
//! cache packing, sparse attention, back-projection).
use vstd::prelude::*;

use crate::config::{
    FP8_BLOCK, GLM52_HEADS, GLM52_KV_A_OUT, GLM52_KV_LORA_RANK, GLM52_QK_HEAD_DIM,
    GLM52_QK_NOPE_HEAD_DIM, GLM52_Q_LORA_RANK, GLM52_V_HEAD_DIM,
};
use crate::mla::{Glm52MlaBackend, Glm52MlaError, Glm52MlaProj};

verus! {

/// A matrix of the absorb and back-projection products.
#[derive(Clone, Copy, Debug, PartialEq, Eq, Structural)]
pub enum Glm52MlaBuffer {
    UpKey,
    QueryFull,
    QueryLatent,
    UpValue,
    Latent,
    Value,
}

/// A batched product, one matrix per head: column-major `c = op(a) * b`.
#[derive(Clone, Copy, Debug, PartialEq, Eq, Structural)]
pub struct Glm52StridedGemm {
    pub trans_a: bool,
    pub m: usize,
    pub n: usize,
    pub k: usize,
    pub a: Glm52MlaBuffer,
    pub lda: usize,
    pub stride_a: usize,
    pub b: Glm52MlaBuffer,
    pub ldb: usize,
    pub stride_b: usize,
    pub c: Glm52MlaBuffer,
    pub ldc: usize,
    pub stride_c: usize,
    pub batch: usize,
}

/// One launch of the attention block.
#[derive(Clone, Copy, Debug, PartialEq, Eq, Structural)]
pub enum Glm52MlaLaunch {
    /// Both down-projections of one row in one grid.
    LinearPair,
    /// Both down-projections of the packed weight, as partial sums.
    PackedPartials { rows: usize },
    /// The partial sums reduced into the two down-projections.
    SplitReduce { rows: usize, left: usize, right: usize },
    Linear { proj: Glm52MlaProj, rows: usize },
    QueryNorm { rows: usize, width: usize },
    CkvSplit { rows: usize },
    KvNorm { rows: usize, width: usize },
    Gemm(Glm52StridedGemm),
    QueryAssemble { rows: usize, heads: usize },
    CkvQuant { rows: usize, width: usize, group: usize },
    CachePack { rows: usize },
    /// Query assembly, key-value norm and cache packing in one launch.
    FrontPack { rows: usize, heads: usize },
    SparseDecode { rows: usize, heads: usize, blocks: usize, topk: usize },
    FlashMla { rows: usize, blocks: usize, topk: usize },
    FlashInfer { rows: usize, heads: usize, blocks: usize, topk: usize },
}

/// How the front computes the two down-projections of the hidden state.
#[derive(Clone, Copy, Debug, PartialEq, Eq, Structural)]
pub enum Glm52FrontPath {
    Pair,
    Packed,
    Separate,
}

/// The path of a row count: one row takes the pair, more rows the packed
/// weight where there is one and the kernel table routes it.
pub open spec fn front_path_of(rows: usize, packed: bool, routed: bool) -> Glm52FrontPath {
    if rows == 1 {
        Glm52FrontPath::Pair
    } else if packed && routed {
        Glm52FrontPath::Packed
    } else {
        Glm52FrontPath::Separate
    }
}

/// The path of a row count. Both halves of the front go by it.
pub fn front_path(rows: usize, packed: bool, routed: bool) -> (r: Glm52FrontPath)
    ensures
        r == front_path_of(rows, packed, routed),
        match r {
            Glm52FrontPath::Pair => rows == 1,
            Glm52FrontPath::Packed => rows != 1 && packed && routed,
            Glm52FrontPath::Separate => rows != 1 && !(packed && routed),
        },
{
    if rows == 1 {
        Glm52FrontPath::Pair
    } else if packed && routed {
        Glm52FrontPath::Packed
    } else {
        Glm52FrontPath::Separate
    }
}

/// The launches of the query phase.
pub open spec fn front_q_launches(path: Glm52FrontPath, rows: usize) -> Seq<Glm52MlaLaunch> {
    let norm = Glm52MlaLaunch::QueryNorm { rows, width: 2048 };
    match path {
        Glm52FrontPath::Pair => seq![Glm52MlaLaunch::LinearPair, norm],
        Glm52FrontPath::Packed => seq![
            Glm52MlaLaunch::PackedPartials { rows },
            Glm52MlaLaunch::SplitReduce { rows, left: 2048, right: 576 },
            norm,
        ],
        Glm52FrontPath::Separate => seq![
            Glm52MlaLaunch::Linear { proj: Glm52MlaProj::QA, rows },
            norm,
        ],
    }
}

/// The launches of the rest of the front.
pub open spec fn front_rest_launches(
    path: Glm52FrontPath,
    rows: usize,
    folds_kv_pack: bool,
) -> Seq<Glm52MlaLaunch> {
    seq![Glm52MlaLaunch::Linear { proj: Glm52MlaProj::QB, rows }] + (if path
        == Glm52FrontPath::Separate {
        seq![Glm52MlaLaunch::Linear { proj: Glm52MlaProj::KvA, rows }]
    } else {
        Seq::<Glm52MlaLaunch>::empty()
    }) + (if folds_kv_pack {
        Seq::<Glm52MlaLaunch>::empty()
    } else {
        seq![
            Glm52MlaLaunch::CkvSplit { rows },
            Glm52MlaLaunch::KvNorm { rows, width: 512 },
        ]
    })
}

/// Plans the query phase: the query down-projection and its norm, which is
/// all that the indexer waits for.
pub fn plan_front_q(rows: usize, packed: bool, routed: bool) -> (r: Vec<Glm52MlaLaunch>)
    ensures
        r@ == front_q_launches(front_path_of(rows, packed, routed), rows),
{
    let mut plan: Vec<Glm52MlaLaunch> = Vec::new();
    match front_path(rows, packed, routed) {
        Glm52FrontPath::Pair => {
            plan.push(Glm52MlaLaunch::LinearPair);
        },
        Glm52FrontPath::Packed => {
            plan.push(Glm52MlaLaunch::PackedPartials { rows });
            plan.push(
                Glm52MlaLaunch::SplitReduce {
                    rows,
                    left: GLM52_Q_LORA_RANK,
                    right: GLM52_KV_A_OUT,
                },
            );
        },
        Glm52FrontPath::Separate => {
            plan.push(Glm52MlaLaunch::Linear { proj: Glm52MlaProj::QA, rows });
        },
    }
    plan.push(Glm52MlaLaunch::QueryNorm { rows, width: GLM52_Q_LORA_RANK });
    assert(plan@ =~= front_q_launches(front_path_of(rows, packed, routed), rows));
    plan
}

/// Checks the split count that the packed launch reports before its partial
/// sums are reduced: none means that it left no partial sums.
pub fn check_packed_split(splits: usize) -> (r: Result<usize, Glm52MlaError>)
    ensures
        r == (if splits > 0 {
            Ok::<usize, Glm52MlaError>(splits)
        } else {
            Err(Glm52MlaError::RegisterTile)
        }),
{
    if splits == 0 {
        return Err(Glm52MlaError::RegisterTile);
    }
    Ok(splits)
}

/// Plans the rest of the front. Where the attend half folds the key-value
/// packing, the compressed key-value rows stay raw.
pub fn plan_front_rest(
    rows: usize,
    packed: bool,
    routed: bool,
    folds_kv_pack: bool,
    front_heads: usize,
    weight_heads: usize,
) -> (r: Result<Vec<Glm52MlaLaunch>, Glm52MlaError>)
    ensures
        match r {
            Ok(plan) => {
                &&& weight_heads == front_heads
                &&& plan@ == front_rest_launches(
                    front_path_of(rows, packed, routed),
                    rows,
                    folds_kv_pack,
                )
            },
            Err(e) => weight_heads != front_heads && e == (Glm52MlaError::FrontHeads {
                front: front_heads,
                weights: weight_heads,
            }),
        },
{
    if weight_heads != front_heads {
        return Err(Glm52MlaError::FrontHeads { front: front_heads, weights: weight_heads });
    }
    let mut plan: Vec<Glm52MlaLaunch> = Vec::new();
    plan.push(Glm52MlaLaunch::Linear { proj: Glm52MlaProj::QB, rows });
    if let Glm52FrontPath::Separate = front_path(rows, packed, routed) {
        plan.push(Glm52MlaLaunch::Linear { proj: Glm52MlaProj::KvA, rows });
    }
    if !folds_kv_pack {
        plan.push(Glm52MlaLaunch::CkvSplit { rows });
        plan.push(Glm52MlaLaunch::KvNorm { rows, width: GLM52_KV_LORA_RANK });
    }
    assert(plan@ =~= front_rest_launches(
        front_path_of(rows, packed, routed),
        rows,
        folds_kv_pack,
    ));
    Ok(plan)
}

/// The attend kernel that a schedule or a scratch was built for.
#[derive(Clone, Copy, Debug, PartialEq, Eq, Structural)]
pub enum Glm52AttendKind {
    Rightsize,
    FlashMla,
    FlashInfer,
}

/// The attend kernel of a head count: few enough heads take the right-sized
/// kernel.
pub open spec fn attend_kind_of(
    backend: Glm52MlaBackend,
    heads: usize,
    head_slots: usize,
) -> Glm52AttendKind {
    match backend {
        Glm52MlaBackend::FlashInferFp8 => Glm52AttendKind::FlashInfer,
        Glm52MlaBackend::FlashMlaFp8Ds => if heads <= head_slots {
            Glm52AttendKind::Rightsize
        } else {
            Glm52AttendKind::FlashMla
        },
    }
}

/// The attend kernel of a head count.
pub fn attend_kind(backend: Glm52MlaBackend, heads: usize, head_slots: usize) -> (r:
    Glm52AttendKind)
    ensures
        r == attend_kind_of(backend, heads, head_slots),
        (r == Glm52AttendKind::FlashInfer) == (backend == Glm52MlaBackend::FlashInferFp8),
        (r == Glm52AttendKind::Rightsize) == (backend == Glm52MlaBackend::FlashMlaFp8Ds && heads
            <= head_slots),
{
    match backend {
        Glm52MlaBackend::FlashInferFp8 => Glm52AttendKind::FlashInfer,
        Glm52MlaBackend::FlashMlaFp8Ds => if heads <= head_slots {
            Glm52AttendKind::Rightsize
        } else {
            Glm52AttendKind::FlashMla
        },
    }
}

/// The shape of a decode step's attention.
#[derive(Clone, Copy, Debug, PartialEq, Eq, Structural)]
pub struct Glm52AttendShape {
    pub rows: usize,
    pub blocks: usize,
    pub topk: usize,
}

/// Whether a schedule folds the key-value packing into the attend half.
pub fn folds_kv_pack(schedule: Glm52AttendKind) -> (r: bool)
    ensures
        r == (schedule == Glm52AttendKind::FlashInfer),
{
    match schedule {
        Glm52AttendKind::FlashInfer => true,
        Glm52AttendKind::Rightsize | Glm52AttendKind::FlashMla => false,
    }
}

/// The absorb product: each head's query against its key factor.
pub open spec fn absorb_gemm(rows: usize, heads: usize) -> Glm52StridedGemm {
    Glm52StridedGemm {
        trans_a: false,
        m: 512,
        n: rows,
        k: 192,
        a: Glm52MlaBuffer::UpKey,
        lda: 512,
        stride_a: 98_304,
        b: Glm52MlaBuffer::QueryFull,
        ldb: (256 * heads) as usize,
        stride_b: 256,
        c: Glm52MlaBuffer::QueryLatent,
        ldc: (512 * heads) as usize,
        stride_c: 512,
        batch: heads,
    }
}

/// The back product: each head's latent against its value factor. The latent
/// keeps the full width of the architecture but for the FlashInfer kernel.
pub open spec fn back_gemm(rows: usize, heads: usize, kind: Glm52AttendKind) -> Glm52StridedGemm {
    Glm52StridedGemm {
        trans_a: true,
        m: 256,
        n: rows,
        k: 512,
        a: Glm52MlaBuffer::UpValue,
        lda: 512,
        stride_a: 131_072,
        b: Glm52MlaBuffer::Latent,
        ldb: if kind == Glm52AttendKind::FlashInfer {
            (512 * heads) as usize
        } else {
            32_768
        },
        stride_b: 512,
        c: Glm52MlaBuffer::Value,
        ldc: (256 * heads) as usize,
        stride_c: 256,
        batch: heads,
    }
}

/// The launches of the attend half.
pub open spec fn attend_launches(
    shape: Glm52AttendShape,
    heads: usize,
    kind: Glm52AttendKind,
) -> Seq<Glm52MlaLaunch> {
    let rows = shape.rows;
    let blocks = shape.blocks;
    let topk = shape.topk;
    seq![Glm52MlaLaunch::Gemm(absorb_gemm(rows, heads))] + (match kind {
        Glm52AttendKind::FlashInfer => seq![
            Glm52MlaLaunch::FrontPack { rows, heads },
            Glm52MlaLaunch::FlashInfer { rows, heads, blocks, topk },
        ],
        Glm52AttendKind::Rightsize => seq![
            Glm52MlaLaunch::QueryAssemble { rows, heads },
            Glm52MlaLaunch::CkvQuant { rows, width: 512, group: 128 },
            Glm52MlaLaunch::CachePack { rows },
            Glm52MlaLaunch::SparseDecode { rows, heads, blocks, topk },
        ],
        Glm52AttendKind::FlashMla => seq![
            Glm52MlaLaunch::QueryAssemble { rows, heads },
            Glm52MlaLaunch::CkvQuant { rows, width: 512, group: 128 },
            Glm52MlaLaunch::CachePack { rows },
            Glm52MlaLaunch::FlashMla { rows, blocks, topk },
        ],
    }) + seq![
        Glm52MlaLaunch::Gemm(back_gemm(rows, heads, kind)),
        Glm52MlaLaunch::Linear { proj: Glm52MlaProj::OProj, rows },
    ]
}

/// What is wrong with a schedule and a scratch that do not belong together.
pub open spec fn attend_mismatch(
    schedule: Glm52AttendKind,
    scratch: Glm52AttendKind,
) -> Glm52MlaError {
    if schedule == Glm52AttendKind::FlashInfer || scratch == Glm52AttendKind::FlashInfer {
        Glm52MlaError::BackendMismatch
    } else {
        Glm52MlaError::Fp8DsMismatch
    }
}

/// Plans the attend half. The weights, the front buffers and the scratch must
/// carry the same heads, and schedule and scratch the same kernel.
pub fn plan_attend(
    shape: Glm52AttendShape,
    weight_heads: usize,
    front_heads: usize,
    scratch_heads: usize,
    schedule: Glm52AttendKind,
    scratch: Glm52AttendKind,
) -> (r: Result<Vec<Glm52MlaLaunch>, Glm52MlaError>)
    requires
        weight_heads <= 64,
    ensures
        match r {
            Ok(plan) => {
                &&& weight_heads == front_heads && weight_heads == scratch_heads
                &&& schedule == scratch
                &&& plan@ == attend_launches(shape, weight_heads, schedule)
            },
            Err(e) => e == (if weight_heads != front_heads || weight_heads != scratch_heads {
                Glm52MlaError::AttendHeads {
                    weights: weight_heads,
                    front: front_heads,
                    scratch: scratch_heads,
                }
            } else {
                attend_mismatch(schedule, scratch)
            }) && (weight_heads != front_heads || weight_heads != scratch_heads || schedule
                != scratch),
        },
{
    if !(weight_heads == front_heads && weight_heads == scratch_heads) {
        return Err(
            Glm52MlaError::AttendHeads {
                weights: weight_heads,
                front: front_heads,
                scratch: scratch_heads,
            },
        );
    }
    let heads: usize = weight_heads;
    let rows: usize = shape.rows;
    let blocks: usize = shape.blocks;
    let topk: usize = shape.topk;
    let mut plan: Vec<Glm52MlaLaunch> = Vec::new();
    plan.push(
        Glm52MlaLaunch::Gemm(
            Glm52StridedGemm {
                trans_a: false,
                m: GLM52_KV_LORA_RANK,
                n: rows,
                k: GLM52_QK_NOPE_HEAD_DIM,
                a: Glm52MlaBuffer::UpKey,
                lda: GLM52_KV_LORA_RANK,
                stride_a: 98_304,
                b: Glm52MlaBuffer::QueryFull,
                ldb: heads * GLM52_QK_HEAD_DIM,
                stride_b: GLM52_QK_HEAD_DIM,
                c: Glm52MlaBuffer::QueryLatent,
                ldc: heads * GLM52_KV_LORA_RANK,
                stride_c: GLM52_KV_LORA_RANK,
                batch: heads,
            },
        ),
    );
    let latent_stride: usize = match (schedule, scratch) {
        (Glm52AttendKind::FlashInfer, Glm52AttendKind::FlashInfer) => {
            plan.push(Glm52MlaLaunch::FrontPack { rows, heads });
            plan.push(Glm52MlaLaunch::FlashInfer { rows, heads, blocks, topk });
            heads * GLM52_KV_LORA_RANK
        },
        (Glm52AttendKind::FlashInfer, _) | (_, Glm52AttendKind::FlashInfer) => {
            return Err(Glm52MlaError::BackendMismatch);
        },
        (Glm52AttendKind::Rightsize, Glm52AttendKind::Rightsize) => {
            plan.push(Glm52MlaLaunch::QueryAssemble { rows, heads });
            plan.push(
                Glm52MlaLaunch::CkvQuant { rows, width: GLM52_KV_LORA_RANK, group: FP8_BLOCK },
            );
            plan.push(Glm52MlaLaunch::CachePack { rows });
            plan.push(Glm52MlaLaunch::SparseDecode { rows, heads, blocks, topk });
            GLM52_HEADS * 512
        },
        (Glm52AttendKind::FlashMla, Glm52AttendKind::FlashMla) => {
            plan.push(Glm52MlaLaunch::QueryAssemble { rows, heads });
            plan.push(
                Glm52MlaLaunch::CkvQuant { rows, width: GLM52_KV_LORA_RANK, group: FP8_BLOCK },
            );
            plan.push(Glm52MlaLaunch::CachePack { rows });
            plan.push(Glm52MlaLaunch::FlashMla { rows, blocks, topk });
            GLM52_HEADS * 512
        },
        _ => {
            return Err(Glm52MlaError::Fp8DsMismatch);
        },
    };
    plan.push(
        Glm52MlaLaunch::Gemm(
            Glm52StridedGemm {
                trans_a: true,
                m: GLM52_V_HEAD_DIM,
                n: rows,
                k: GLM52_KV_LORA_RANK,
                a: Glm52MlaBuffer::UpValue,
                lda: GLM52_KV_LORA_RANK,
                stride_a: 131_072,
                b: Glm52MlaBuffer::Latent,
                ldb: latent_stride,
                stride_b: GLM52_KV_LORA_RANK,
                c: Glm52MlaBuffer::Value,
                ldc: heads * GLM52_V_HEAD_DIM,
                stride_c: GLM52_V_HEAD_DIM,
                batch: heads,
            },
        ),
    );
    plan.push(Glm52MlaLaunch::Linear { proj: Glm52MlaProj::OProj, rows });
    assert(plan@ =~= attend_launches(shape, heads, schedule));
    Ok(plan)
}

/// Decides whether a kernel must be loaded before a step is captured: only
/// the FlashInfer kernel is.
pub fn plan_preflight(
    shape: Glm52AttendShape,
    heads: usize,
    schedule: Glm52AttendKind,
    scratch: Glm52AttendKind,
) -> (r: Result<Option<Glm52MlaLaunch>, Glm52MlaError>)
    ensures
        r == (if (schedule == Glm52AttendKind::FlashInfer) != (scratch
            == Glm52AttendKind::FlashInfer) {
            Err::<Option<Glm52MlaLaunch>, _>(Glm52MlaError::BackendMismatch)
        } else if schedule == Glm52AttendKind::FlashInfer {
            Ok(
                Some(
                    Glm52MlaLaunch::FlashInfer {
                        rows: shape.rows,
                        heads,
                        blocks: shape.blocks,
                        topk: shape.topk,
                    },
                ),
            )
        } else {
            Ok(None)
        }),
{
    match (folds_kv_pack(schedule), folds_kv_pack(scratch)) {
        (true, true) => Ok(
            Some(
                Glm52MlaLaunch::FlashInfer {
                    rows: shape.rows,
                    heads,
                    blocks: shape.blocks,
                    topk: shape.topk,
                },
            ),
        ),
        (false, false) => Ok(None),
        _ => Err(Glm52MlaError::BackendMismatch),
    }
}

/// The buffer lengths of the front, in elements.
#[derive(Clone, Copy, Debug, PartialEq, Eq, Structural)]
pub struct Glm52MlaFrontLens {
    pub q_a: usize,
    pub q_resid: usize,
    pub q_full: usize,
    pub ckv: usize,
    pub kv_c: usize,
    pub k_pe: usize,
    pub packed: usize,
}

/// Sizes the front's buffers for a row count and a head count.
pub fn front_lens(rows: usize, heads: usize) -> (r: Result<Glm52MlaFrontLens, Glm52MlaError>)
    requires
        16_384 * rows <= usize::MAX,
    ensures
        match r {
            Ok(l) => {
                &&& 1 <= heads <= 64
                &&& l.q_a == 2048 * rows
                &&& l.q_resid == 2048 * rows
                &&& l.q_full == rows * heads * 256
                &&& l.ckv == 576 * rows
                &&& l.kv_c == 512 * rows
                &&& l.k_pe == 64 * rows
                &&& l.packed == 2624 * rows
            },
            Err(e) => e == (Glm52MlaError::HeadsOutOfRange { heads }) && !(1 <= heads <= 64),
        },
{
    if heads == 0 || heads > GLM52_HEADS {
        return Err(Glm52MlaError::HeadsOutOfRange { heads });
    }
    assert(rows * heads * 256 <= 16_384 * rows && rows * heads <= rows * heads * 256)
        by (nonlinear_arith)
        requires
            heads <= 64,
    ;
    Ok(
        Glm52MlaFrontLens {
            q_a: rows * 2048,
            q_resid: rows * 2048,
            q_full: rows * heads * GLM52_QK_HEAD_DIM,
            ckv: rows * 576,
            kv_c: rows * 512,
            k_pe: rows * 64,
            packed: rows * 2624,
        },
    )
}

/// The buffer lengths of the attend half, in elements. The latent of the
/// other kernels is sized by their own schedule.
#[derive(Clone, Copy, Debug, PartialEq, Eq, Structural)]
pub struct Glm52MlaAttendLens {
    pub ql_nope: usize,
    pub value: usize,
    pub query: usize,
    pub latent: Option<usize>,
    pub ckv_fp8: usize,
    pub ckv_scales: usize,
}

/// Sizes the attend half's buffers. The FlashInfer kernel takes a compact
/// query, the others the full width, whatever the shard.
pub fn attend_lens(rows: usize, heads: usize, backend: Glm52MlaBackend) -> (r: Result<
    Glm52MlaAttendLens,
    Glm52MlaError,
>)
    requires
        36_864 * rows <= usize::MAX,
    ensures
        match r {
            Ok(l) => {
                &&& 1 <= heads <= 64
                &&& l.ql_nope == rows * heads * 512
                &&& l.value == rows * heads * 256
                &&& match backend {
                    Glm52MlaBackend::FlashMlaFp8Ds => {
                        &&& l.query == 36_864 * rows
                        &&& l.latent is None
                        &&& l.ckv_fp8 == 512 * rows
                        &&& l.ckv_scales == 4 * rows
                    },
                    Glm52MlaBackend::FlashInferFp8 => {
                        &&& l.query == rows * heads * 576
                        &&& l.latent == Some((rows * heads * 512) as usize)
                        &&& l.ckv_fp8 == 0
                        &&& l.ckv_scales == 0
                    },
                }
            },
            Err(e) => e == (Glm52MlaError::HeadsOutOfRange { heads }) && !(1 <= heads <= 64),
        },
{
    if heads == 0 || heads > GLM52_HEADS {
        return Err(Glm52MlaError::HeadsOutOfRange { heads });
    }
    assert(rows * heads * 576 <= 36_864 * rows && rows * heads * 512 <= rows * heads * 576 && rows
        * heads * 256 <= rows * heads * 576 && rows * heads <= rows * heads * 576)
        by (nonlinear_arith)
        requires
            heads <= 64,
    ;
    let row_heads: usize = rows * heads;
    Ok(
        match backend {
            Glm52MlaBackend::FlashMlaFp8Ds => Glm52MlaAttendLens {
                ql_nope: row_heads * 512,
                value: row_heads * 256,
                query: rows * 36_864,
                latent: None,
                ckv_fp8: rows * 512,
                ckv_scales: rows * 4,
            },
            Glm52MlaBackend::FlashInferFp8 => Glm52MlaAttendLens {
                ql_nope: row_heads * 512,
                value: row_heads * 256,
                query: row_heads * 576,
                latent: Some(row_heads * 512),
                ckv_fp8: 0,
                ckv_scales: 0,
            },
        },
    )
}

/// Whether a launch writes the compressed key-value rows.
pub open spec fn writes_ckv(l: Glm52MlaLaunch) -> bool {
    l == Glm52MlaLaunch::LinearPair || l is SplitReduce || (l matches Glm52MlaLaunch::Linear {
        proj,
        ..
    } && proj == Glm52MlaProj::KvA)
}

/// Whether a launch writes the new tokens into the paged cache.
pub open spec fn writes_cache(l: Glm52MlaLaunch) -> bool {
    l is CachePack || l is FrontPack
}

/// Whether a launch normalises the compressed key-value rows.
pub open spec fn norms_kv(l: Glm52MlaLaunch) -> bool {
    l is KvNorm || l is FrontPack
}

/// How many launches of a plan do a thing.
pub open spec fn how_many(
    plan: Seq<Glm52MlaLaunch>,
    does: spec_fn(Glm52MlaLaunch) -> bool,
) -> nat
    decreases plan.len(),
{
    if plan.len() == 0 {
        0
    } else {
        how_many(plan.drop_last(), does) + (if does(plan.last()) {
            1nat
        } else {
            0
        })
    }
}

proof fn lemma_how_many_adds(
    a: Seq<Glm52MlaLaunch>,
    b: Seq<Glm52MlaLaunch>,
    does: spec_fn(Glm52MlaLaunch) -> bool,
)
    ensures
        how_many(a + b, does) == how_many(a, does) + how_many(b, does),
    decreases b.len(),
{
    if b.len() == 0 {
        assert(a + b =~= a);
    } else {
        assert((a + b).drop_last() =~= a + b.drop_last());
        lemma_how_many_adds(a, b.drop_last(), does);
    }
}

proof fn lemma_how_many_of_short(plan: Seq<Glm52MlaLaunch>, does: spec_fn(Glm52MlaLaunch) -> bool)
    requires
        plan.len() <= 4,
    ensures
        plan.len() == 0 ==> how_many(plan, does) == 0,
        plan.len() == 1 ==> how_many(plan, does) == tally(does(plan[0])),
        plan.len() == 2 ==> how_many(plan, does) == tally(does(plan[0])) + tally(does(plan[1])),
        plan.len() == 3 ==> how_many(plan, does) == tally(does(plan[0])) + tally(does(plan[1]))
            + tally(does(plan[2])),
        plan.len() == 4 ==> how_many(plan, does) == tally(does(plan[0])) + tally(does(plan[1]))
            + tally(does(plan[2])) + tally(does(plan[3])),
{
    reveal_with_fuel(how_many, 5);
}

/// One for a thing that is done.
pub open spec fn tally(done: bool) -> nat {
    if done {
        1
    } else {
        0
    }
}

/// Whatever path the front takes, it computes the compressed key-value rows
/// exactly once.
pub proof fn kv_rows_are_projected_once(rows: usize, packed: bool, routed: bool, fold: bool)
    ensures
        how_many(
            front_q_launches(front_path_of(rows, packed, routed), rows) + front_rest_launches(
                front_path_of(rows, packed, routed),
                rows,
                fold,
            ),
            |l: Glm52MlaLaunch| writes_ckv(l),
        ) == 1,
{
    let does = |l: Glm52MlaLaunch| writes_ckv(l);
    let path = front_path_of(rows, packed, routed);
    let q = front_q_launches(path, rows);
    let rest = front_rest_launches(path, rows, fold);
    lemma_how_many_adds(q, rest, does);
    lemma_how_many_of_short(q, does);
    lemma_how_many_of_short(rest, does);
}

/// Front and attend half together normalise the compressed key-value rows
/// once and write the new tokens into the cache once, whichever kernel
/// attends.
pub proof fn new_tokens_are_cached_once(
    shape: Glm52AttendShape,
    heads: usize,
    kind: Glm52AttendKind,
    packed: bool,
    routed: bool,
)
    ensures
        how_many(
            front_rest_launches(
                front_path_of(shape.rows, packed, routed),
                shape.rows,
                kind == Glm52AttendKind::FlashInfer,
            ) + attend_launches(shape, heads, kind),
            |l: Glm52MlaLaunch| writes_cache(l),
        ) == 1,
        how_many(
            front_rest_launches(
                front_path_of(shape.rows, packed, routed),
                shape.rows,
                kind == Glm52AttendKind::FlashInfer,
            ) + attend_launches(shape, heads, kind),
            |l: Glm52MlaLaunch| norms_kv(l),
        ) == 1,
{
    let rest = front_rest_launches(
        front_path_of(shape.rows, packed, routed),
        shape.rows,
        kind == Glm52AttendKind::FlashInfer,
    );
    let all = attend_launches(shape, heads, kind);
    let head = seq![all[0]];
    let tail = all.subrange(all.len() - 2, all.len() as int);
    let middle = all.subrange(1, all.len() - 2);
    assert(all =~= head + middle + tail);
    let cache = |l: Glm52MlaLaunch| writes_cache(l);
    let norm = |l: Glm52MlaLaunch| norms_kv(l);
    lemma_how_many_adds(rest, all, cache);
    lemma_how_many_adds(head + middle, tail, cache);
    lemma_how_many_adds(head, middle, cache);
    lemma_how_many_of_short(rest, cache);
    lemma_how_many_of_short(head, cache);
    lemma_how_many_of_short(middle, cache);
    lemma_how_many_of_short(tail, cache);
    lemma_how_many_adds(rest, all, norm);
    lemma_how_many_adds(head + middle, tail, norm);
    lemma_how_many_adds(head, middle, norm);
    lemma_how_many_of_short(rest, norm);
    lemma_how_many_of_short(head, norm);
    lemma_how_many_of_short(middle, norm);
    lemma_how_many_of_short(tail, norm);
}

} // verus!
