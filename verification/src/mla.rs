//! Multi-head latent attention of one decoder layer: the shapes its weights
//! must have, how the key-value up-projection splits into the two absorbed
//! factors, and the launches of the front and the attend half in order.
use vstd::prelude::*;

use crate::config::{
    FP8_BLOCK, GLM52_HEADS, GLM52_HIDDEN, GLM52_KV_A_OUT, GLM52_KV_B_ROWS_PER_HEAD,
    GLM52_KV_LORA_RANK, GLM52_MLA_BYTES_PER_TOKEN, GLM52_MLA_E4M3_BYTES_PER_TOKEN,
    GLM52_QK_HEAD_DIM, GLM52_Q_LORA_RANK, GLM52_V_HEAD_DIM,
};
use crate::proj::{pack_proj_pair, Glm52PackedPair, Glm52Proj, Glm52ProjError};

verus! {

/// The kernel family that attends over the paged cache.
#[derive(Clone, Copy, Debug, PartialEq, Eq, Structural)]
pub enum Glm52MlaBackend {
    FlashMlaFp8Ds,
    FlashInferFp8,
}

/// A projection of the attention block.
#[derive(Clone, Copy, Debug, PartialEq, Eq, Structural)]
pub enum Glm52MlaProj {
    QA,
    QB,
    KvA,
    KvB,
    OProj,
}

/// Why an attention layer is refused.
#[derive(Clone, Copy, Debug, PartialEq, Eq, Structural)]
pub enum Glm52MlaError {
    QueryRows { n: usize },
    TooManyHeads { heads: usize },
    HeadMismatch { heads: usize, kv_b_n: usize, o_proj_k: usize },
    Shape { which: Glm52MlaProj, got: Glm52Proj, want: Glm52Proj },
    LayernormLengths { q_a: usize, kv_a: usize },
    HeadsOutOfRange { heads: usize },
    FrontHeads { front: usize, weights: usize },
    AttendHeads { weights: usize, front: usize, scratch: usize },
    BackendMismatch,
    Fp8DsMismatch,
    RegisterTile,
    Bytes(Glm52ProjError),
}

impl Glm52MlaBackend {
    /// Bytes of one cached token.
    pub open spec fn bytes_per_token(self) -> usize {
        match self {
            Glm52MlaBackend::FlashMlaFp8Ds => GLM52_MLA_BYTES_PER_TOKEN,
            Glm52MlaBackend::FlashInferFp8 => GLM52_MLA_E4M3_BYTES_PER_TOKEN,
        }
    }

    /// Bytes of one cached token.
    pub fn cache_bytes_per_token(self) -> (r: usize)
        ensures
            r == self.bytes_per_token(),
            r == 656 || r == 576,
            r == (if self == Glm52MlaBackend::FlashMlaFp8Ds {
                656usize
            } else {
                576
            }),
    {
        match self {
            Glm52MlaBackend::FlashMlaFp8Ds => GLM52_MLA_BYTES_PER_TOKEN,
            Glm52MlaBackend::FlashInferFp8 => GLM52_MLA_E4M3_BYTES_PER_TOKEN,
        }
    }
}

/// The backend of a head count: sixteen heads take the FlashInfer kernel where
/// the device supports it.
pub open spec fn backend_of(heads: usize, flashinfer_supported: bool) -> Glm52MlaBackend {
    if heads == 16 && flashinfer_supported {
        Glm52MlaBackend::FlashInferFp8
    } else {
        Glm52MlaBackend::FlashMlaFp8Ds
    }
}

/// Selects the backend of a head count.
pub fn glm52_select_mla_backend(heads: usize, flashinfer_supported: bool) -> (r: Glm52MlaBackend)
    ensures
        r == backend_of(heads, flashinfer_supported),
        (r == Glm52MlaBackend::FlashInferFp8) == (heads == 16 && flashinfer_supported),
{
    if heads == 16 && flashinfer_supported {
        Glm52MlaBackend::FlashInferFp8
    } else {
        Glm52MlaBackend::FlashMlaFp8Ds
    }
}

/// Whether three projection widths name one head count of the architecture.
pub open spec fn heads_agree(heads: int, q_b_n: usize, kv_b_n: usize, o_proj_k: usize) -> bool {
    &&& 1 <= heads <= 64
    &&& q_b_n == 256 * heads
    &&& kv_b_n == 448 * heads
    &&& o_proj_k == 256 * heads
}

/// Why three projection widths name no head count: the query rows are judged
/// first, then the count, then the other two widths.
pub open spec fn heads_fault(q_b_n: usize, kv_b_n: usize, o_proj_k: usize) -> Option<
    Glm52MlaError,
> {
    let heads = (q_b_n / 256) as usize;
    if q_b_n == 0 || q_b_n % 256 != 0 {
        Some(Glm52MlaError::QueryRows { n: q_b_n })
    } else if heads > 64 {
        Some(Glm52MlaError::TooManyHeads { heads })
    } else if kv_b_n != 448 * heads || o_proj_k != 256 * heads {
        Some(Glm52MlaError::HeadMismatch { heads, kv_b_n, o_proj_k })
    } else {
        None
    }
}

/// Derives the head count of a possibly sharded weight set from the query,
/// key-value and output widths, which must agree.
pub fn mla_heads(q_b_n: usize, kv_b_n: usize, o_proj_k: usize) -> (r: Result<usize, Glm52MlaError>)
    ensures
        match heads_fault(q_b_n, kv_b_n, o_proj_k) {
            None => r matches Ok(heads) && heads_agree(heads as int, q_b_n, kv_b_n, o_proj_k),
            Some(fault) => r == Err::<usize, _>(fault),
        },
        r is Ok <==> exists|heads: int| heads_agree(heads, q_b_n, kv_b_n, o_proj_k),
        match r {
            Ok(heads) => 1 <= heads <= 64 && q_b_n == 256 * heads && kv_b_n == 448 * heads
                && o_proj_k == 256 * heads,
            Err(Glm52MlaError::QueryRows { n }) => n == q_b_n && (n == 0 || n % 256 != 0),
            Err(Glm52MlaError::TooManyHeads { heads }) => q_b_n == 256 * heads && heads > 64,
            Err(Glm52MlaError::HeadMismatch { heads, kv_b_n: kv, o_proj_k: o }) => {
                &&& 1 <= heads <= 64 && q_b_n == 256 * heads && kv == kv_b_n && o == o_proj_k
                &&& kv != 448 * heads || o != 256 * heads
            },
            Err(_) => false,
        },
{
    if !(q_b_n % GLM52_QK_HEAD_DIM == 0 && q_b_n > 0) {
        return Err(Glm52MlaError::QueryRows { n: q_b_n });
    }
    let heads: usize = q_b_n / GLM52_QK_HEAD_DIM;
    assert(q_b_n == 256 * heads);
    if heads > GLM52_HEADS {
        return Err(Glm52MlaError::TooManyHeads { heads });
    }
    if !(kv_b_n == heads * GLM52_KV_B_ROWS_PER_HEAD && o_proj_k == heads * GLM52_V_HEAD_DIM) {
        return Err(Glm52MlaError::HeadMismatch { heads, kv_b_n, o_proj_k });
    }
    assert(heads_agree(heads as int, q_b_n, kv_b_n, o_proj_k));
    Ok(heads)
}

/// The projections of one attention layer.
#[derive(Clone, Copy, Debug, PartialEq, Eq, Structural)]
pub struct Glm52MlaProjs {
    pub q_a: Glm52Proj,
    pub q_b: Glm52Proj,
    pub kv_a: Glm52Proj,
    pub kv_b: Glm52Proj,
    pub o_proj: Glm52Proj,
}

/// The shape that a projection must have in a layer of so many heads.
pub open spec fn mla_shape(which: Glm52MlaProj, heads: int) -> Glm52Proj {
    match which {
        Glm52MlaProj::QA => Glm52Proj { n: 2048, k: 6144 },
        Glm52MlaProj::QB => Glm52Proj { n: (256 * heads) as usize, k: 2048 },
        Glm52MlaProj::KvA => Glm52Proj { n: 576, k: 6144 },
        Glm52MlaProj::KvB => Glm52Proj { n: (448 * heads) as usize, k: 512 },
        Glm52MlaProj::OProj => Glm52Proj { n: 6144, k: (256 * heads) as usize },
    }
}

impl Glm52MlaProjs {
    /// A projection of the layer.
    pub open spec fn part(self, which: Glm52MlaProj) -> Glm52Proj {
        match which {
            Glm52MlaProj::QA => self.q_a,
            Glm52MlaProj::QB => self.q_b,
            Glm52MlaProj::KvA => self.kv_a,
            Glm52MlaProj::KvB => self.kv_b,
            Glm52MlaProj::OProj => self.o_proj,
        }
    }

    /// Whether every projection has the shape of the architecture.
    pub open spec fn shaped(self, heads: int) -> bool {
        &&& 1 <= heads <= 64
        &&& forall|which: Glm52MlaProj| #[trigger] self.part(which) == mla_shape(which, heads)
    }

    /// The refusal of a projection that has not its shape.
    pub open spec fn shape_fault(self, which: Glm52MlaProj, heads: int) -> Option<Glm52MlaError> {
        if self.part(which) != mla_shape(which, heads) {
            Some(
                Glm52MlaError::Shape {
                    which,
                    got: self.part(which),
                    want: mla_shape(which, heads),
                },
            )
        } else {
            None
        }
    }

    /// Why a layer's weights are refused: the head count is judged first,
    /// then the shapes in the order of the projections, then the norms.
    pub open spec fn fault(self, q_a_ln: usize, kv_a_ln: usize) -> Option<Glm52MlaError> {
        let heads = (self.q_b.n / 256) as int;
        if heads_fault(self.q_b.n, self.kv_b.n, self.o_proj.k) is Some {
            heads_fault(self.q_b.n, self.kv_b.n, self.o_proj.k)
        } else if self.shape_fault(Glm52MlaProj::QA, heads) is Some {
            self.shape_fault(Glm52MlaProj::QA, heads)
        } else if self.shape_fault(Glm52MlaProj::QB, heads) is Some {
            self.shape_fault(Glm52MlaProj::QB, heads)
        } else if self.shape_fault(Glm52MlaProj::KvA, heads) is Some {
            self.shape_fault(Glm52MlaProj::KvA, heads)
        } else if self.shape_fault(Glm52MlaProj::KvB, heads) is Some {
            self.shape_fault(Glm52MlaProj::KvB, heads)
        } else if self.shape_fault(Glm52MlaProj::OProj, heads) is Some {
            self.shape_fault(Glm52MlaProj::OProj, heads)
        } else if q_a_ln != 2048 || kv_a_ln != 512 {
            Some(Glm52MlaError::LayernormLengths { q_a: q_a_ln, kv_a: kv_a_ln })
        } else {
            None
        }
    }

    /// Checks the layer's weights and returns their head count.
    pub fn check(self, q_a_ln: usize, kv_a_ln: usize) -> (r: Result<usize, Glm52MlaError>)
        ensures
            match self.fault(q_a_ln, kv_a_ln) {
                None => r matches Ok(heads) && self.shaped(heads as int) && q_a_ln == 2048
                    && kv_a_ln == 512,
                Some(fault) => r == Err::<usize, _>(fault),
            },
            r is Ok <==> q_a_ln == 2048 && kv_a_ln == 512 && exists|heads: int| self.shaped(heads),
            r matches Ok(heads) ==> {
                &&& 1 <= heads <= 64
                &&& self.q_a == (Glm52Proj { n: 2048, k: 6144 })
                &&& self.q_b.n == 256 * heads && self.q_b.k == 2048
                &&& self.kv_a == (Glm52Proj { n: 576, k: 6144 })
                &&& self.kv_b.n == 448 * heads && self.kv_b.k == 512
                &&& self.o_proj.n == 6144 && self.o_proj.k == 256 * heads
            },
            self.q_a == (Glm52Proj { n: 2048, k: 6144 }) && self.kv_a == (Glm52Proj {
                n: 576,
                k: 6144,
            }) && self.q_b.k == 2048 && self.kv_b.k == 512 && self.o_proj.n == 6144 && q_a_ln
                == 2048 && kv_a_ln == 512 && 0 < self.q_b.n <= 16_384 && self.q_b.n % 256 == 0
                && self.kv_b.n == 448 * (self.q_b.n / 256) && self.o_proj.k == self.q_b.n
                ==> r is Ok,
    {
        proof {
            assert forall|heads: int| #[trigger] self.shaped(heads) implies heads_agree(
                heads,
                self.q_b.n,
                self.kv_b.n,
                self.o_proj.k,
            ) by {
                assert(self.part(Glm52MlaProj::QB) == mla_shape(Glm52MlaProj::QB, heads));
                assert(self.part(Glm52MlaProj::KvB) == mla_shape(Glm52MlaProj::KvB, heads));
                assert(self.part(Glm52MlaProj::OProj) == mla_shape(Glm52MlaProj::OProj, heads));
            }
        }
        let heads: usize = match mla_heads(self.q_b.n, self.kv_b.n, self.o_proj.k) {
            Ok(heads) => heads,
            Err(e) => {
                return Err(e);
            },
        };
        assert(heads_agree(heads as int, self.q_b.n, self.kv_b.n, self.o_proj.k));
        assert(forall|other: int| #[trigger] self.shaped(other) ==> other == heads);
        let q_a = Glm52Proj { n: GLM52_Q_LORA_RANK, k: GLM52_HIDDEN };
        if self.q_a != q_a {
            assert(self.part(Glm52MlaProj::QA) != mla_shape(Glm52MlaProj::QA, heads as int));
            return Err(
                Glm52MlaError::Shape { which: Glm52MlaProj::QA, got: self.q_a, want: q_a },
            );
        }
        let q_b = Glm52Proj { n: heads * GLM52_QK_HEAD_DIM, k: GLM52_Q_LORA_RANK };
        if self.q_b != q_b {
            assert(self.part(Glm52MlaProj::QB) != mla_shape(Glm52MlaProj::QB, heads as int));
            return Err(
                Glm52MlaError::Shape { which: Glm52MlaProj::QB, got: self.q_b, want: q_b },
            );
        }
        let kv_a = Glm52Proj { n: GLM52_KV_A_OUT, k: GLM52_HIDDEN };
        if self.kv_a != kv_a {
            assert(self.part(Glm52MlaProj::KvA) != mla_shape(Glm52MlaProj::KvA, heads as int));
            return Err(
                Glm52MlaError::Shape { which: Glm52MlaProj::KvA, got: self.kv_a, want: kv_a },
            );
        }
        let kv_b = Glm52Proj { n: heads * GLM52_KV_B_ROWS_PER_HEAD, k: GLM52_KV_LORA_RANK };
        if self.kv_b != kv_b {
            assert(self.part(Glm52MlaProj::KvB) != mla_shape(Glm52MlaProj::KvB, heads as int));
            return Err(
                Glm52MlaError::Shape { which: Glm52MlaProj::KvB, got: self.kv_b, want: kv_b },
            );
        }
        let o_proj = Glm52Proj { n: GLM52_HIDDEN, k: heads * GLM52_V_HEAD_DIM };
        if self.o_proj != o_proj {
            assert(self.part(Glm52MlaProj::OProj) != mla_shape(Glm52MlaProj::OProj, heads as int));
            return Err(
                Glm52MlaError::Shape { which: Glm52MlaProj::OProj, got: self.o_proj, want: o_proj },
            );
        }
        assert(self.shaped(heads as int));
        if !(q_a_ln == GLM52_Q_LORA_RANK && kv_a_ln == GLM52_KV_LORA_RANK) {
            return Err(Glm52MlaError::LayernormLengths { q_a: q_a_ln, kv_a: kv_a_ln });
        }
        Ok(heads)
    }
}

/// The packed query and key-value down-projection, where the kernel table
/// routes its shape at the full batch.
pub fn pack_qa_kva(routed: bool, q_a: Glm52Proj, kv_a: Glm52Proj) -> (r: Option<Glm52PackedPair>)
    requires
        q_a == mla_shape(Glm52MlaProj::QA, 64),
        kv_a == mla_shape(Glm52MlaProj::KvA, 64),
    ensures
        r is Some <==> routed,
        r matches Some(p) ==> {
            &&& p.proj == (Glm52Proj { n: 2624, k: 6144 })
            &&& p.weight_split == 12_582_912
            &&& p.weight_len == 16_121_856
            &&& p.scale_split == 3072
            &&& p.scale_len == 4032
        },
{
    if !routed {
        return None;
    }
    proof {
        crate::proj::lemma_hidden_proj_bytes(q_a);
        crate::proj::lemma_hidden_proj_bytes(kv_a);
    }
    match pack_proj_pair(q_a, kv_a) {
        Ok(p) => Some(p),
        Err(_) => None,
    }
}

/// Bytes that the packed projections of all layers take on one rank.
pub open spec fn qa_kva_twin_bytes(routed: bool) -> int {
    if routed {
        78 * (16_121_856int + 4032)
    } else {
        0
    }
}

/// Bytes that the packed projections of all layers take on one rank.
pub fn glm52_qa_kva_twin_bytes(routed: bool) -> (r: usize)
    ensures
        r == qa_kva_twin_bytes(routed),
        routed ==> r == 78 * 16_125_888,
        !routed ==> r == 0,
{
    if routed {
        78 * (16_121_856 + 4032)
    } else {
        0
    }
}

/// The twin ledger is what packing every layer allocates.
pub proof fn twin_ledger_is_the_allocation(packed: Glm52PackedPair)
    requires
        packed.proj == (Glm52Proj { n: 2624, k: 6144 }),
        packed.weight_len == packed.proj.weight_bytes(),
        packed.scale_len == packed.proj.scale_bytes(),
    ensures
        qa_kva_twin_bytes(true) == 78 * (packed.weight_len + packed.scale_len),
{
    crate::proj::lemma_hidden_proj_bytes(packed.proj);
}

/// Where an element of the absorbed key factor comes from in the key-value
/// up-projection: `(row, column)`.
pub open spec fn uk_source(i: int) -> (int, int) {
    ((i / 98_304) * 448 + (i / 512) % 192, i % 512)
}

/// Where an element of the absorbed value factor comes from.
pub open spec fn uv_source(i: int) -> (int, int) {
    ((i / 131_072) * 448 + 192 + (i / 512) % 256, i % 512)
}

/// The scale of an element of the key-value up-projection.
pub open spec fn kv_b_scale(row: int, col: int) -> int {
    (row / 128) * 4 + col / 128
}

/// The key-value up-projection split into its absorbed factors, both still
/// E4M3 codes, head by head.
#[derive(Debug)]
pub struct Glm52AbsorbCodes {
    pub heads: usize,
    /// `[heads, 192, 512]`
    pub uk: Vec<u8>,
    /// `[heads, 256, 512]`
    pub uv: Vec<u8>,
}

/// An element below a head count's extent lies in one of its heads.
proof fn lemma_heads_of(i: int, heads: int, extent: int)
    by (nonlinear_arith)
    requires
        0 <= i < extent * heads,
        extent > 0,
    ensures
        0 <= i / extent < heads,
{
}

/// The flat source of an element of the absorbed key factor.
fn uk_place(i: usize) -> (r: usize)
    requires
        229_376 * (i / 98_304) + 229_376 <= usize::MAX,
    ensures
        r == 512 * uk_source(i as int).0 + uk_source(i as int).1,
        r < 229_376 * (i / 98_304) + 229_376,
{
    ((i / 98_304) * 448 + (i / 512) % 192) * 512 + i % 512
}

/// The flat source of an element of the absorbed value factor.
fn uv_place(i: usize) -> (r: usize)
    requires
        229_376 * (i / 131_072) + 229_376 <= usize::MAX,
    ensures
        r == 512 * uv_source(i as int).0 + uv_source(i as int).1,
        r < 229_376 * (i / 131_072) + 229_376,
{
    ((i / 131_072) * 448 + 192 + (i / 512) % 256) * 512 + i % 512
}

/// Splits the key-value up-projection. Each head's first 192 rows are the
/// absorbed key factor, the other 256 its value factor.
pub fn split_kv_b(kv_b: Glm52Proj, weight: &Vec<u8>, scale_len: usize) -> (r: Result<
    Glm52AbsorbCodes,
    Glm52MlaError,
>)
    requires
        kv_b.k == 512,
        kv_b.n % 448 == 0,
        kv_b.addressable(),
    ensures
        match r {
            Ok(a) => {
                &&& weight.len() == kv_b.weight_bytes() && scale_len == kv_b.scale_bytes()
                &&& kv_b.n == 448 * a.heads
                &&& a.uk.len() == 98_304 * a.heads
                &&& a.uv.len() == 131_072 * a.heads
                &&& forall|i: int|
                    0 <= i < a.uk.len() ==> #[trigger] a.uk@[i] == weight@[512 * uk_source(i).0
                        + uk_source(i).1]
                &&& forall|i: int|
                    0 <= i < a.uv.len() ==> #[trigger] a.uv@[i] == weight@[512 * uv_source(i).0
                        + uv_source(i).1]
            },
            Err(e) => e == Glm52MlaError::Bytes(
                if weight.len() != kv_b.weight_bytes() {
                    Glm52ProjError::WeightBytes { got: weight.len(), n: kv_b.n, k: kv_b.k }
                } else {
                    Glm52ProjError::ScaleBytes { got: scale_len, n: kv_b.n, k: kv_b.k }
                },
            ) && (weight.len() != kv_b.weight_bytes() || scale_len != kv_b.scale_bytes()),
        },
{
    match kv_b.check_bytes(weight.len(), scale_len) {
        Ok(()) => {},
        Err(e) => {
            return Err(Glm52MlaError::Bytes(e));
        },
    }
    let heads: usize = kv_b.n / GLM52_KV_B_ROWS_PER_HEAD;
    assert(weight.len() == 229_376 * heads) by {
        assert(kv_b.n * kv_b.k == 512 * kv_b.n) by (nonlinear_arith)
            requires
                kv_b.k == 512,
        ;
    }
    let uk_len: usize = heads * 98_304;
    let uv_len: usize = heads * 131_072;
    let mut uk: Vec<u8> = Vec::new();
    let mut i: usize = 0;
    while i < uk_len
        invariant
            i <= uk_len,
            uk_len == 98_304 * heads,
            weight.len() == 229_376 * heads,
            uk.len() == i,
            forall|j: int|
                0 <= j < i ==> #[trigger] uk@[j] == weight@[512 * uk_source(j).0 + uk_source(j).1],
        decreases uk_len - i,
    {
        proof {
            lemma_heads_of(i as int, heads as int, 98_304);
        }
        uk.push(weight[uk_place(i)]);
        i = i + 1;
    }
    let mut uv: Vec<u8> = Vec::new();
    let mut k: usize = 0;
    while k < uv_len
        invariant
            k <= uv_len,
            uv_len == 131_072 * heads,
            weight.len() == 229_376 * heads,
            uv.len() == k,
            forall|j: int|
                0 <= j < k ==> #[trigger] uv@[j] == weight@[512 * uv_source(j).0 + uv_source(j).1],
        decreases uv_len - k,
    {
        proof {
            lemma_heads_of(k as int, heads as int, 131_072);
        }
        uv.push(weight[uv_place(k)]);
        k = k + 1;
    }
    Ok(Glm52AbsorbCodes { heads, uk, uv })
}

/// The scale of an element of the absorbed key factor.
pub fn uk_scale_index(i: usize) -> (r: usize)
    requires
        i < 6_291_456,
    ensures
        r == kv_b_scale(uk_source(i as int).0, uk_source(i as int).1),
        r == 4 * ((448 * (i / 98_304) + (i / 512) % 192) / 128) + (i % 512) / 128,
{
    let row: usize = (i / 98_304) * 448 + (i / 512) % 192;
    (row / FP8_BLOCK) * 4 + (i % 512) / FP8_BLOCK
}

/// The scale of an element of the absorbed value factor.
pub fn uv_scale_index(i: usize) -> (r: usize)
    requires
        i < 8_388_608,
    ensures
        r == kv_b_scale(uv_source(i as int).0, uv_source(i as int).1),
        r == 4 * ((448 * (i / 131_072) + 192 + (i / 512) % 256) / 128) + (i % 512) / 128,
{
    let row: usize = (i / 131_072) * 448 + 192 + (i / 512) % 256;
    (row / FP8_BLOCK) * 4 + (i % 512) / FP8_BLOCK
}

/// Every element of the key-value up-projection lands in exactly one absorbed
/// factor, at one place.
pub proof fn absorb_split_loses_nothing(heads: int, row: int, col: int)
    requires
        1 <= heads <= 64,
        0 <= row < 448 * heads,
        0 <= col < 512,
    ensures
        row % 448 < 192 ==> {
            let at = ((row / 448) * 192 + row % 448) * 512 + col;
            &&& 0 <= at < 98_304 * heads
            &&& uk_source(at) == (row, col)
            &&& forall|i: int| 0 <= i && #[trigger] uk_source(i) == (row, col) ==> i == at
            &&& forall|i: int| 0 <= i ==> #[trigger] uv_source(i) != (row, col)
        },
        row % 448 >= 192 ==> {
            let at = ((row / 448) * 256 + (row % 448 - 192)) * 512 + col;
            &&& 0 <= at < 131_072 * heads
            &&& uv_source(at) == (row, col)
            &&& forall|i: int| 0 <= i && #[trigger] uv_source(i) == (row, col) ==> i == at
            &&& forall|i: int| 0 <= i ==> #[trigger] uk_source(i) != (row, col)
        },
{
    let h = row / 448;
    let r = row % 448;
    assert forall|i: int| 0 <= i implies (#[trigger] uk_source(i)).0 / 448 == i / 98_304
        && uk_source(i).0 % 448 == (i / 512) % 192 && uk_source(i).0 % 448 < 192 by {}
    assert forall|i: int| 0 <= i implies (#[trigger] uv_source(i)).0 / 448 == i / 131_072
        && uv_source(i).0 % 448 == 192 + (i / 512) % 256 && uv_source(i).0 % 448 >= 192 by {}
    if r < 192 {
        let at = (h * 192 + r) * 512 + col;
        assert(at / 512 == h * 192 + r);
        assert(at / 98_304 == h);
    } else {
        let at = (h * 256 + (r - 192)) * 512 + col;
        assert(at / 512 == h * 256 + (r - 192));
        assert(at / 131_072 == h);
    }
}

} // verus!
