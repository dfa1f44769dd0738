//! What the launches of the attention block compute: the attended rows, as
//! one composition of its kernels, and the elements that its batched products
//! read and write.
use vstd::prelude::*;

use crate::mla::Glm52MlaProj;
use crate::mla_plan::{
    Glm52AttendKind, Glm52AttendShape, Glm52MlaBuffer, Glm52MlaLaunch, Glm52StridedGemm,
};

verus! {

/// The functions that the attention block's kernels compute, with the extents
/// that they are launched over. A buffer's contents stand as one number,
/// whatever they are.
pub ghost struct Glm52MlaKernels {
    /// A projection of rows: the projection, the rows, and what is projected.
    pub linear: spec_fn(Glm52MlaProj, int, int) -> int,
    /// The partial sums of the packed weight.
    pub partials: spec_fn(int, int) -> int,
    /// The left and the right part that partial sums reduce to: rows, the
    /// two widths, and the sums.
    pub reduce_left: spec_fn(int, int, int, int) -> int,
    pub reduce_right: spec_fn(int, int, int, int) -> int,
    pub query_norm: spec_fn(int, int, int) -> int,
    pub split_latent: spec_fn(int, int) -> int,
    pub split_rotary: spec_fn(int, int) -> int,
    pub kv_norm: spec_fn(int, int, int) -> int,
    pub product: spec_fn(Glm52StridedGemm, int, int) -> int,
    /// Rows and heads; the latent query, the query, the rotary rows.
    pub assemble: spec_fn(int, int, int, int, int) -> int,
    /// Rows, width and group, and what is quantised.
    pub quant: spec_fn(int, int, int, int) -> int,
    pub quant_scale: spec_fn(int, int, int, int) -> int,
    /// Rows; the latents, their scales, the rotary keys, the rotary rows, the
    /// cache and the slots.
    pub pack: spec_fn(int, int, int, int, int, int, int) -> int,
    /// Rows; the raw key-value rows, the rotary rows, the cache, the slots.
    pub pack_raw: spec_fn(int, int, int, int, int) -> int,
    /// Rows, heads, blocks and how many; the query, the cache, the selection.
    pub sparse: spec_fn(int, int, int, int, int, int, int) -> int,
    /// Rows, blocks and how many; the query, the cache, the selection.
    pub flash: spec_fn(int, int, int, int, int, int) -> int,
    /// Rows, heads, blocks and how many; the query, the cache, the selection
    /// and the lengths.
    pub infer: spec_fn(int, int, int, int, int, int, int, int) -> int,
}

/// What the attention block's buffers hold.
pub ghost struct Glm52MlaBuffers {
    pub hidden: int,
    pub rotary: int,
    pub slots: int,
    pub selection: int,
    pub lens: int,
    pub up_key: int,
    pub up_value: int,
    pub partial: int,
    pub q_a: int,
    pub q_resid: int,
    pub q_full: int,
    pub ckv: int,
    pub kv_raw: int,
    pub k_pe: int,
    pub kv_c: int,
    pub q_latent: int,
    pub query: int,
    pub ckv_fp8: int,
    pub ckv_scale: int,
    pub cache: int,
    pub latent: int,
    pub value: int,
    pub out: int,
}

impl Glm52MlaBuffers {
    /// What an operand of a batched product holds.
    pub open spec fn get(self, b: Glm52MlaBuffer) -> int {
        match b {
            Glm52MlaBuffer::UpKey => self.up_key,
            Glm52MlaBuffer::QueryFull => self.q_full,
            Glm52MlaBuffer::QueryLatent => self.q_latent,
            Glm52MlaBuffer::UpValue => self.up_value,
            Glm52MlaBuffer::Latent => self.latent,
            Glm52MlaBuffer::Value => self.value,
        }
    }

    /// The buffers with the result of a batched product written.
    pub open spec fn put(self, b: Glm52MlaBuffer, x: int) -> Glm52MlaBuffers {
        match b {
            Glm52MlaBuffer::UpKey => Glm52MlaBuffers { up_key: x, ..self },
            Glm52MlaBuffer::QueryFull => Glm52MlaBuffers { q_full: x, ..self },
            Glm52MlaBuffer::QueryLatent => Glm52MlaBuffers { q_latent: x, ..self },
            Glm52MlaBuffer::UpValue => Glm52MlaBuffers { up_value: x, ..self },
            Glm52MlaBuffer::Latent => Glm52MlaBuffers { latent: x, ..self },
            Glm52MlaBuffer::Value => Glm52MlaBuffers { value: x, ..self },
        }
    }
}

/// What a projection reads and writes.
pub open spec fn mla_linear(
    m: Glm52MlaKernels,
    s: Glm52MlaBuffers,
    proj: Glm52MlaProj,
    rows: int,
) -> Glm52MlaBuffers {
    match proj {
        Glm52MlaProj::QA => Glm52MlaBuffers { q_a: (m.linear)(proj, rows, s.hidden), ..s },
        Glm52MlaProj::KvA => Glm52MlaBuffers { ckv: (m.linear)(proj, rows, s.hidden), ..s },
        Glm52MlaProj::QB => Glm52MlaBuffers { q_full: (m.linear)(proj, rows, s.q_resid), ..s },
        Glm52MlaProj::KvB => Glm52MlaBuffers { value: (m.linear)(proj, rows, s.kv_c), ..s },
        Glm52MlaProj::OProj => Glm52MlaBuffers { out: (m.linear)(proj, rows, s.value), ..s },
    }
}

/// What one launch does to the buffers.
pub open spec fn mla_launch(
    m: Glm52MlaKernels,
    s: Glm52MlaBuffers,
    l: Glm52MlaLaunch,
) -> Glm52MlaBuffers {
    match l {
        Glm52MlaLaunch::LinearPair => mla_linear(
            m,
            mla_linear(m, s, Glm52MlaProj::QA, 1),
            Glm52MlaProj::KvA,
            1,
        ),
        Glm52MlaLaunch::PackedPartials { rows } => Glm52MlaBuffers {
            partial: (m.partials)(rows as int, s.hidden),
            ..s
        },
        Glm52MlaLaunch::SplitReduce { rows, left, right } => Glm52MlaBuffers {
            q_a: (m.reduce_left)(rows as int, left as int, right as int, s.partial),
            ckv: (m.reduce_right)(rows as int, left as int, right as int, s.partial),
            ..s
        },
        Glm52MlaLaunch::Linear { proj, rows } => mla_linear(m, s, proj, rows as int),
        Glm52MlaLaunch::QueryNorm { rows, width } => Glm52MlaBuffers {
            q_resid: (m.query_norm)(rows as int, width as int, s.q_a),
            ..s
        },
        Glm52MlaLaunch::CkvSplit { rows } => Glm52MlaBuffers {
            kv_raw: (m.split_latent)(rows as int, s.ckv),
            k_pe: (m.split_rotary)(rows as int, s.ckv),
            ..s
        },
        Glm52MlaLaunch::KvNorm { rows, width } => Glm52MlaBuffers {
            kv_c: (m.kv_norm)(rows as int, width as int, s.kv_raw),
            ..s
        },
        Glm52MlaLaunch::Gemm(g) => s.put(g.c, (m.product)(g, s.get(g.a), s.get(g.b))),
        Glm52MlaLaunch::QueryAssemble { rows, heads } => Glm52MlaBuffers {
            query: (m.assemble)(rows as int, heads as int, s.q_latent, s.q_full, s.rotary),
            ..s
        },
        Glm52MlaLaunch::CkvQuant { rows, width, group } => Glm52MlaBuffers {
            ckv_fp8: (m.quant)(rows as int, width as int, group as int, s.kv_c),
            ckv_scale: (m.quant_scale)(rows as int, width as int, group as int, s.kv_c),
            ..s
        },
        Glm52MlaLaunch::CachePack { rows } => Glm52MlaBuffers {
            cache: (m.pack)(
                rows as int,
                s.ckv_fp8,
                s.ckv_scale,
                s.k_pe,
                s.rotary,
                s.cache,
                s.slots,
            ),
            ..s
        },
        Glm52MlaLaunch::FrontPack { rows, heads } => Glm52MlaBuffers {
            query: (m.assemble)(rows as int, heads as int, s.q_latent, s.q_full, s.rotary),
            cache: (m.pack_raw)(rows as int, s.ckv, s.rotary, s.cache, s.slots),
            ..s
        },
        Glm52MlaLaunch::SparseDecode { rows, heads, blocks, topk } => Glm52MlaBuffers {
            latent: (m.sparse)(
                rows as int,
                heads as int,
                blocks as int,
                topk as int,
                s.query,
                s.cache,
                s.selection,
            ),
            ..s
        },
        Glm52MlaLaunch::FlashMla { rows, blocks, topk } => Glm52MlaBuffers {
            latent: (m.flash)(
                rows as int,
                blocks as int,
                topk as int,
                s.query,
                s.cache,
                s.selection,
            ),
            ..s
        },
        Glm52MlaLaunch::FlashInfer { rows, heads, blocks, topk } => Glm52MlaBuffers {
            latent: (m.infer)(
                rows as int,
                heads as int,
                blocks as int,
                topk as int,
                s.query,
                s.cache,
                s.selection,
                s.lens,
            ),
            ..s
        },
    }
}

/// The buffers after the first launches of a plan.
pub open spec fn mla_after(
    m: Glm52MlaKernels,
    s: Glm52MlaBuffers,
    plan: Seq<Glm52MlaLaunch>,
    k: nat,
) -> Glm52MlaBuffers
    decreases k,
{
    if k == 0 {
        s
    } else {
        mla_launch(m, mla_after(m, s, plan, (k - 1) as nat), plan[k - 1])
    }
}

/// The packed weight stacks the query and the key-value down-projection: its
/// partial sums, cut at their widths, reduce to the two.
pub open spec fn stacks_the_projections(m: Glm52MlaKernels) -> bool {
    forall|rows: int, hidden: int|
        {
            let partial = #[trigger] (m.partials)(rows, hidden);
            &&& (m.reduce_left)(rows, 2048, 576, partial) == (m.linear)(
                Glm52MlaProj::QA,
                rows,
                hidden,
            )
            &&& (m.reduce_right)(rows, 2048, 576, partial) == (m.linear)(
                Glm52MlaProj::KvA,
                rows,
                hidden,
            )
        }
}

/// Whatever path the front takes, its first half leaves the normalised query
/// latents of the hidden rows, which is all that the indexer waits for, and
/// its second half the queries and the key-value rows: split and normalised
/// where the attend half does not fold that, raw where it does.
pub proof fn every_front_path_projects_the_hidden_rows(
    m: Glm52MlaKernels,
    s: Glm52MlaBuffers,
    rows: usize,
    packed: bool,
    routed: bool,
    fold: bool,
)
    requires
        stacks_the_projections(m),
    ensures
        ({
            let path = crate::mla_plan::front_path_of(rows, packed, routed);
            let first = crate::mla_plan::front_q_launches(path, rows);
            let rest = crate::mla_plan::front_rest_launches(path, rows, fold);
            let mid = mla_after(m, s, first, first.len());
            let end = mla_after(m, mid, rest, rest.len());
            let resid = (m.query_norm)(
                rows as int,
                2048,
                (m.linear)(Glm52MlaProj::QA, rows as int, s.hidden),
            );
            let ckv = (m.linear)(Glm52MlaProj::KvA, rows as int, s.hidden);
            &&& mid.q_resid == resid
            &&& mid.q_full == s.q_full
            &&& end.q_resid == resid
            &&& end.q_full == (m.linear)(Glm52MlaProj::QB, rows as int, resid)
            &&& end.ckv == ckv
            &&& end.kv_c == (if fold {
                s.kv_c
            } else {
                (m.kv_norm)(rows as int, 512, (m.split_latent)(rows as int, ckv))
            })
            &&& end.k_pe == (if fold {
                s.k_pe
            } else {
                (m.split_rotary)(rows as int, ckv)
            })
            &&& end.hidden == s.hidden && end.cache == s.cache && end.latent == s.latent
        }),
{
    reveal_with_fuel(mla_after, 5);
    let partial = (m.partials)(rows as int, s.hidden);
    assert((m.reduce_left)(rows as int, 2048, 576, partial) == (m.linear)(
        Glm52MlaProj::QA,
        rows as int,
        s.hidden,
    ));
}

/// The attend half absorbs the key factor into the queries, writes the new
/// tokens into the cache, attends over the cache as it stands behind that
/// write, brings the latents back through the value factor, and projects the
/// result. It reads the front's rows and leaves them.
pub proof fn an_attend_pass_is_the_attention(
    m: Glm52MlaKernels,
    s: Glm52MlaBuffers,
    shape: Glm52AttendShape,
    heads: usize,
    kind: Glm52AttendKind,
)
    ensures
        ({
            let plan = crate::mla_plan::attend_launches(shape, heads, kind);
            let end = mla_after(m, s, plan, plan.len());
            let rows = shape.rows as int;
            let h = heads as int;
            let blocks = shape.blocks as int;
            let topk = shape.topk as int;
            let absorbed = (m.product)(
                crate::mla_plan::absorb_gemm(shape.rows, heads),
                s.up_key,
                s.q_full,
            );
            let query = (m.assemble)(rows, h, absorbed, s.q_full, s.rotary);
            let cache = if kind == Glm52AttendKind::FlashInfer {
                (m.pack_raw)(rows, s.ckv, s.rotary, s.cache, s.slots)
            } else {
                (m.pack)(
                    rows,
                    (m.quant)(rows, 512, 128, s.kv_c),
                    (m.quant_scale)(rows, 512, 128, s.kv_c),
                    s.k_pe,
                    s.rotary,
                    s.cache,
                    s.slots,
                )
            };
            let latent = match kind {
                Glm52AttendKind::Rightsize => (m.sparse)(
                    rows,
                    h,
                    blocks,
                    topk,
                    query,
                    cache,
                    s.selection,
                ),
                Glm52AttendKind::FlashMla => (m.flash)(
                    rows,
                    blocks,
                    topk,
                    query,
                    cache,
                    s.selection,
                ),
                Glm52AttendKind::FlashInfer => (m.infer)(
                    rows,
                    h,
                    blocks,
                    topk,
                    query,
                    cache,
                    s.selection,
                    s.lens,
                ),
            };
            let value = (m.product)(
                crate::mla_plan::back_gemm(shape.rows, heads, kind),
                s.up_value,
                latent,
            );
            &&& end.cache == cache
            &&& end.latent == latent
            &&& end.value == value
            &&& end.out == (m.linear)(Glm52MlaProj::OProj, rows, value)
            &&& end.q_full == s.q_full && end.ckv == s.ckv && end.kv_c == s.kv_c
            &&& end.k_pe == s.k_pe && end.q_resid == s.q_resid
            &&& end.up_key == s.up_key && end.up_value == s.up_value
        }),
{
    reveal_with_fuel(mla_after, 8);
}

/// Where a product reads the left operand of head `h`, row `i` and inner
/// index `x`.
pub open spec fn left_at(g: Glm52StridedGemm, h: int, i: int, x: int) -> int {
    if g.trans_a {
        h * g.stride_a + i * g.lda + x
    } else {
        h * g.stride_a + x * g.lda + i
    }
}

/// Where a product reads the right operand of head `h`, inner index `x` and
/// column `t`.
pub open spec fn right_at(g: Glm52StridedGemm, h: int, x: int, t: int) -> int {
    h * g.stride_b + t * g.ldb + x
}

/// Where a product writes head `h`, row `i` and column `t`.
pub open spec fn result_at(g: Glm52StridedGemm, h: int, i: int, t: int) -> int {
    h * g.stride_c + t * g.ldc + i
}

/// The absorb product sums, for each token and head, over the unrotated query
/// lanes: it reads lane `x` of the compact query rows of 256 lanes per head
/// and of the key factor, which holds for each head and lane the 512 latent
/// lanes, and writes the compact latent rows of 512 lanes per head.
pub proof fn absorbing_walks_heads_and_tokens(
    rows: usize,
    heads: usize,
    h: int,
    t: int,
    i: int,
    x: int,
)
    requires
        heads <= 64,
    ensures
        ({
            let g = crate::mla_plan::absorb_gemm(rows, heads);
            &&& g.batch == heads && g.n == rows && g.m == 512 && g.k == 192
            &&& left_at(g, h, i, x) == (h * 192 + x) * 512 + i
            &&& right_at(g, h, x, t) == (t * heads + h) * 256 + x
            &&& result_at(g, h, i, t) == (t * heads + h) * 512 + i
        }),
{
    let g = crate::mla_plan::absorb_gemm(rows, heads);
    assert(t * (256 * heads) == (t * heads) * 256) by (nonlinear_arith);
    assert(t * (512 * heads) == (t * heads) * 512) by (nonlinear_arith);
}

/// The back product sums, for each token and head, over the 512 latent lanes:
/// it reads the value factor, which holds for each head and value lane the
/// latent lanes, and the latent rows, compact for the FlashInfer kernel and of
/// all 64 heads else, and writes the compact value rows of 256 lanes per head.
pub proof fn the_back_product_walks_heads_and_tokens(
    rows: usize,
    heads: usize,
    kind: Glm52AttendKind,
    h: int,
    t: int,
    i: int,
    x: int,
)
    requires
        heads <= 64,
    ensures
        ({
            let g = crate::mla_plan::back_gemm(rows, heads, kind);
            let held: int = if kind == Glm52AttendKind::FlashInfer {
                heads as int
            } else {
                64
            };
            &&& g.batch == heads && g.n == rows && g.m == 256 && g.k == 512
            &&& left_at(g, h, i, x) == (h * 256 + i) * 512 + x
            &&& right_at(g, h, x, t) == (t * held + h) * 512 + x
            &&& result_at(g, h, i, t) == (t * heads + h) * 256 + i
        }),
{
    let g = crate::mla_plan::back_gemm(rows, heads, kind);
    assert(t * (256 * heads) == (t * heads) * 256) by (nonlinear_arith);
    assert(t * (512 * heads) == (t * heads) * 512) by (nonlinear_arith);
    if kind == Glm52AttendKind::FlashInfer {
        assert(g.ldb == 512 * heads);
    } else {
        assert(t * g.ldb == t * 32_768);
    }
    assert(i * g.lda == i * 512);
}

} // verus!
