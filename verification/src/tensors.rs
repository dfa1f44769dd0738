//! The checkpoint tensors of a model: their names, the order in which they are
//! taken, and the bytes they must have.
use vstd::prelude::*;
use vstd::string::*;

use crate::config::{
    glm52_layer_has_full_indexer, GLM52_DENSE_LAYERS, GLM52_HIDDEN, GLM52_LAYERS,
};
use crate::proj::{Glm52Proj, Glm52ProjError};
use crate::text::decimal_text;

verus! {

/// A block-scaled projection of a decoder layer.
#[derive(Clone, Copy, Debug, PartialEq, Eq, Structural)]
pub enum Glm52LayerProj {
    KvB,
    QA,
    QB,
    KvA,
    OProj,
    IndexerWqB,
    IndexerWk,
    Gate,
    Up,
    Down,
    SharedGate,
    SharedUp,
    SharedDown,
}

/// A plain tensor of a decoder layer.
#[derive(Clone, Copy, Debug, PartialEq, Eq, Structural)]
pub enum Glm52LayerVector {
    QALayernorm,
    KvALayernorm,
    IndexerKNormWeight,
    IndexerKNormBias,
    IndexerWeightsProj,
    RouterGate,
    RouterBias,
    InputLayernorm,
    PostAttentionLayernorm,
}

/// What is taken for a layer, in one step.
#[derive(Clone, Copy, Debug, PartialEq, Eq, Structural)]
pub enum Glm52LayerTake {
    Proj(Glm52LayerProj),
    Vector(Glm52LayerVector),
    /// The rank's routed experts.
    Experts,
}

impl Glm52LayerProj {
    /// The projection's name below its layer.
    pub open spec fn stem(self) -> Seq<char> {
        match self {
            Glm52LayerProj::KvB => ".self_attn.kv_b_proj"@,
            Glm52LayerProj::QA => ".self_attn.q_a_proj"@,
            Glm52LayerProj::QB => ".self_attn.q_b_proj"@,
            Glm52LayerProj::KvA => ".self_attn.kv_a_proj_with_mqa"@,
            Glm52LayerProj::OProj => ".self_attn.o_proj"@,
            Glm52LayerProj::IndexerWqB => ".self_attn.indexer.wq_b"@,
            Glm52LayerProj::IndexerWk => ".self_attn.indexer.wk"@,
            Glm52LayerProj::Gate => ".mlp.gate_proj"@,
            Glm52LayerProj::Up => ".mlp.up_proj"@,
            Glm52LayerProj::Down => ".mlp.down_proj"@,
            Glm52LayerProj::SharedGate => ".mlp.shared_experts.gate_proj"@,
            Glm52LayerProj::SharedUp => ".mlp.shared_experts.up_proj"@,
            Glm52LayerProj::SharedDown => ".mlp.shared_experts.down_proj"@,
        }
    }

    /// The projection's shape.
    pub open spec fn shape_of(self) -> Glm52Proj {
        match self {
            Glm52LayerProj::KvB => Glm52Proj { n: 28_672, k: 512 },
            Glm52LayerProj::QA => Glm52Proj { n: 2048, k: 6144 },
            Glm52LayerProj::QB => Glm52Proj { n: 16_384, k: 2048 },
            Glm52LayerProj::KvA => Glm52Proj { n: 576, k: 6144 },
            Glm52LayerProj::OProj => Glm52Proj { n: 6144, k: 16_384 },
            Glm52LayerProj::IndexerWqB => Glm52Proj { n: 4096, k: 2048 },
            Glm52LayerProj::IndexerWk => Glm52Proj { n: 128, k: 6144 },
            Glm52LayerProj::Gate | Glm52LayerProj::Up => Glm52Proj { n: 12_288, k: 6144 },
            Glm52LayerProj::Down => Glm52Proj { n: 6144, k: 12_288 },
            Glm52LayerProj::SharedGate | Glm52LayerProj::SharedUp => Glm52Proj {
                n: 2048,
                k: 6144,
            },
            Glm52LayerProj::SharedDown => Glm52Proj { n: 6144, k: 2048 },
        }
    }

    /// The projection's shape.
    pub fn shape(self) -> (r: Glm52Proj)
        ensures
            r == self.shape_of(),
            match self {
                Glm52LayerProj::KvB => r.n == 64 * 448 && r.k == 512,
                Glm52LayerProj::QA => r.n == 2048 && r.k == 6144,
                Glm52LayerProj::QB => r.n == 64 * 256 && r.k == 2048,
                Glm52LayerProj::KvA => r.n == 512 + 64 && r.k == 6144,
                Glm52LayerProj::OProj => r.n == 6144 && r.k == 64 * 256,
                Glm52LayerProj::IndexerWqB => r.n == 32 * 128 && r.k == 2048,
                Glm52LayerProj::IndexerWk => r.n == 128 && r.k == 6144,
                Glm52LayerProj::Gate | Glm52LayerProj::Up => r.n == 12_288 && r.k == 6144,
                Glm52LayerProj::Down => r.n == 6144 && r.k == 12_288,
                Glm52LayerProj::SharedGate | Glm52LayerProj::SharedUp => r.n == 2048 && r.k == 6144,
                Glm52LayerProj::SharedDown => r.n == 6144 && r.k == 2048,
            },
    {
        match self {
            Glm52LayerProj::KvB => Glm52Proj { n: 28_672, k: 512 },
            Glm52LayerProj::QA => Glm52Proj { n: 2048, k: GLM52_HIDDEN },
            Glm52LayerProj::QB => Glm52Proj { n: 16_384, k: 2048 },
            Glm52LayerProj::KvA => Glm52Proj { n: 576, k: GLM52_HIDDEN },
            Glm52LayerProj::OProj => Glm52Proj { n: GLM52_HIDDEN, k: 16_384 },
            Glm52LayerProj::IndexerWqB => Glm52Proj { n: 4096, k: 2048 },
            Glm52LayerProj::IndexerWk => Glm52Proj { n: 128, k: GLM52_HIDDEN },
            Glm52LayerProj::Gate | Glm52LayerProj::Up => Glm52Proj { n: 12_288, k: GLM52_HIDDEN },
            Glm52LayerProj::Down => Glm52Proj { n: GLM52_HIDDEN, k: 12_288 },
            Glm52LayerProj::SharedGate | Glm52LayerProj::SharedUp => Glm52Proj {
                n: 2048,
                k: GLM52_HIDDEN,
            },
            Glm52LayerProj::SharedDown => Glm52Proj { n: GLM52_HIDDEN, k: 2048 },
        }
    }

    /// The projection's name below its layer.
    pub fn stem_text(self) -> (r: &'static str)
        ensures
            r@ == self.stem(),
            match self {
                Glm52LayerProj::KvB => r@ == ".self_attn.kv_b_proj"@,
                Glm52LayerProj::QA => r@ == ".self_attn.q_a_proj"@,
                Glm52LayerProj::QB => r@ == ".self_attn.q_b_proj"@,
                Glm52LayerProj::KvA => r@ == ".self_attn.kv_a_proj_with_mqa"@,
                Glm52LayerProj::OProj => r@ == ".self_attn.o_proj"@,
                Glm52LayerProj::IndexerWqB => r@ == ".self_attn.indexer.wq_b"@,
                Glm52LayerProj::IndexerWk => r@ == ".self_attn.indexer.wk"@,
                Glm52LayerProj::Gate => r@ == ".mlp.gate_proj"@,
                Glm52LayerProj::Up => r@ == ".mlp.up_proj"@,
                Glm52LayerProj::Down => r@ == ".mlp.down_proj"@,
                Glm52LayerProj::SharedGate => r@ == ".mlp.shared_experts.gate_proj"@,
                Glm52LayerProj::SharedUp => r@ == ".mlp.shared_experts.up_proj"@,
                Glm52LayerProj::SharedDown => r@ == ".mlp.shared_experts.down_proj"@,
            },
    {
        match self {
            Glm52LayerProj::KvB => ".self_attn.kv_b_proj",
            Glm52LayerProj::QA => ".self_attn.q_a_proj",
            Glm52LayerProj::QB => ".self_attn.q_b_proj",
            Glm52LayerProj::KvA => ".self_attn.kv_a_proj_with_mqa",
            Glm52LayerProj::OProj => ".self_attn.o_proj",
            Glm52LayerProj::IndexerWqB => ".self_attn.indexer.wq_b",
            Glm52LayerProj::IndexerWk => ".self_attn.indexer.wk",
            Glm52LayerProj::Gate => ".mlp.gate_proj",
            Glm52LayerProj::Up => ".mlp.up_proj",
            Glm52LayerProj::Down => ".mlp.down_proj",
            Glm52LayerProj::SharedGate => ".mlp.shared_experts.gate_proj",
            Glm52LayerProj::SharedUp => ".mlp.shared_experts.up_proj",
            Glm52LayerProj::SharedDown => ".mlp.shared_experts.down_proj",
        }
    }

    /// Checks the bytes of the projection's weight and scales.
    pub fn check(self, weight_bytes: usize, scale_bytes: usize) -> (r: Result<(), Glm52ProjError>)
        ensures
            r == (if weight_bytes != self.shape_of().weight_bytes() {
                Err::<(), _>(
                    Glm52ProjError::WeightBytes {
                        got: weight_bytes,
                        n: self.shape_of().n,
                        k: self.shape_of().k,
                    },
                )
            } else if scale_bytes != self.shape_of().scale_bytes() {
                Err(
                    Glm52ProjError::ScaleBytes {
                        got: scale_bytes,
                        n: self.shape_of().n,
                        k: self.shape_of().k,
                    },
                )
            } else {
                Ok(())
            }),
    {
        let shape = self.shape();
        assert(shape.addressable()) by {
            assert(shape.n * shape.k <= 28_672 * 16_384) by (nonlinear_arith)
                requires
                    shape.n <= 28_672,
                    shape.k <= 16_384,
            ;
            let rows = crate::arith::ceil_div(shape.n as int, 128);
            let cols = crate::arith::ceil_div(shape.k as int, 128);
            assert(rows * cols * 4 <= 224 * 128 * 4) by (nonlinear_arith)
                requires
                    0 <= rows <= 224,
                    0 <= cols <= 128,
            ;
        }
        shape.check_bytes(weight_bytes, scale_bytes)
    }
}

impl Glm52LayerVector {
    /// The tensor's name below its layer.
    pub open spec fn stem(self) -> Seq<char> {
        match self {
            Glm52LayerVector::QALayernorm => ".self_attn.q_a_layernorm.weight"@,
            Glm52LayerVector::KvALayernorm => ".self_attn.kv_a_layernorm.weight"@,
            Glm52LayerVector::IndexerKNormWeight => ".self_attn.indexer.k_norm.weight"@,
            Glm52LayerVector::IndexerKNormBias => ".self_attn.indexer.k_norm.bias"@,
            Glm52LayerVector::IndexerWeightsProj => ".self_attn.indexer.weights_proj.weight"@,
            Glm52LayerVector::RouterGate => ".mlp.gate.weight"@,
            Glm52LayerVector::RouterBias => ".mlp.gate.e_score_correction_bias"@,
            Glm52LayerVector::InputLayernorm => ".input_layernorm.weight"@,
            Glm52LayerVector::PostAttentionLayernorm => ".post_attention_layernorm.weight"@,
        }
    }

    /// The tensor's bytes: two per element, four in the router's bias.
    pub open spec fn bytes_of(self) -> usize {
        match self {
            Glm52LayerVector::QALayernorm => 4096,
            Glm52LayerVector::KvALayernorm => 1024,
            Glm52LayerVector::IndexerKNormWeight | Glm52LayerVector::IndexerKNormBias => 256,
            Glm52LayerVector::IndexerWeightsProj => 393_216,
            Glm52LayerVector::RouterGate => 3_145_728,
            Glm52LayerVector::RouterBias => 1024,
            Glm52LayerVector::InputLayernorm | Glm52LayerVector::PostAttentionLayernorm => 12_288,
        }
    }

    /// The tensor's bytes.
    pub fn bytes(self) -> (r: usize)
        ensures
            r == self.bytes_of(),
    {
        match self {
            Glm52LayerVector::QALayernorm => 2048 * 2,
            Glm52LayerVector::KvALayernorm => 512 * 2,
            Glm52LayerVector::IndexerKNormWeight | Glm52LayerVector::IndexerKNormBias => 128 * 2,
            Glm52LayerVector::IndexerWeightsProj => 32 * 6144 * 2,
            Glm52LayerVector::RouterGate => 256 * 6144 * 2,
            Glm52LayerVector::RouterBias => 256 * 4,
            Glm52LayerVector::InputLayernorm | Glm52LayerVector::PostAttentionLayernorm => {
                GLM52_HIDDEN * 2
            },
        }
    }

    /// The tensor's name below its layer.
    pub fn stem_text(self) -> (r: &'static str)
        ensures
            r@ == self.stem(),
            match self {
                Glm52LayerVector::QALayernorm => r@ == ".self_attn.q_a_layernorm.weight"@,
                Glm52LayerVector::KvALayernorm => r@ == ".self_attn.kv_a_layernorm.weight"@,
                Glm52LayerVector::IndexerKNormWeight => r@ == ".self_attn.indexer.k_norm.weight"@,
                Glm52LayerVector::IndexerKNormBias => r@ == ".self_attn.indexer.k_norm.bias"@,
                Glm52LayerVector::IndexerWeightsProj => r@ == ".self_attn.indexer.weights_proj.weight"@,
                Glm52LayerVector::RouterGate => r@ == ".mlp.gate.weight"@,
                Glm52LayerVector::RouterBias => r@ == ".mlp.gate.e_score_correction_bias"@,
                Glm52LayerVector::InputLayernorm => r@ == ".input_layernorm.weight"@,
                Glm52LayerVector::PostAttentionLayernorm => r@ == ".post_attention_layernorm.weight"@,
            },
    {
        match self {
            Glm52LayerVector::QALayernorm => ".self_attn.q_a_layernorm.weight",
            Glm52LayerVector::KvALayernorm => ".self_attn.kv_a_layernorm.weight",
            Glm52LayerVector::IndexerKNormWeight => ".self_attn.indexer.k_norm.weight",
            Glm52LayerVector::IndexerKNormBias => ".self_attn.indexer.k_norm.bias",
            Glm52LayerVector::IndexerWeightsProj => ".self_attn.indexer.weights_proj.weight",
            Glm52LayerVector::RouterGate => ".mlp.gate.weight",
            Glm52LayerVector::RouterBias => ".mlp.gate.e_score_correction_bias",
            Glm52LayerVector::InputLayernorm => ".input_layernorm.weight",
            Glm52LayerVector::PostAttentionLayernorm => ".post_attention_layernorm.weight",
        }
    }
}

/// What is taken for a layer's attention.
pub open spec fn attention_takes() -> Seq<Glm52LayerTake> {
    seq![
        Glm52LayerTake::Proj(Glm52LayerProj::KvB),
        Glm52LayerTake::Proj(Glm52LayerProj::QA),
        Glm52LayerTake::Vector(Glm52LayerVector::QALayernorm),
        Glm52LayerTake::Proj(Glm52LayerProj::QB),
        Glm52LayerTake::Proj(Glm52LayerProj::KvA),
        Glm52LayerTake::Vector(Glm52LayerVector::KvALayernorm),
        Glm52LayerTake::Proj(Glm52LayerProj::OProj),
    ]
}

/// What is taken for a layer's indexer.
pub open spec fn indexer_takes(full: bool) -> Seq<Glm52LayerTake> {
    if full {
        seq![
            Glm52LayerTake::Vector(Glm52LayerVector::IndexerKNormWeight),
            Glm52LayerTake::Vector(Glm52LayerVector::IndexerKNormBias),
            Glm52LayerTake::Vector(Glm52LayerVector::IndexerWeightsProj),
            Glm52LayerTake::Proj(Glm52LayerProj::IndexerWqB),
            Glm52LayerTake::Proj(Glm52LayerProj::IndexerWk),
        ]
    } else {
        Seq::empty()
    }
}

/// What is taken for a layer's feed-forward half. Where the experts are
/// replicated, the router is all: the routed experts and the shared one stand
/// in the rank's slice bank.
pub open spec fn mlp_takes(dense: bool, replicated: bool) -> Seq<Glm52LayerTake> {
    if !dense && replicated {
        seq![
            Glm52LayerTake::Vector(Glm52LayerVector::RouterGate),
            Glm52LayerTake::Vector(Glm52LayerVector::RouterBias),
        ]
    } else if dense {
        seq![
            Glm52LayerTake::Proj(Glm52LayerProj::Gate),
            Glm52LayerTake::Proj(Glm52LayerProj::Up),
            Glm52LayerTake::Proj(Glm52LayerProj::Down),
        ]
    } else {
        seq![
            Glm52LayerTake::Vector(Glm52LayerVector::RouterGate),
            Glm52LayerTake::Vector(Glm52LayerVector::RouterBias),
            Glm52LayerTake::Proj(Glm52LayerProj::SharedGate),
            Glm52LayerTake::Proj(Glm52LayerProj::SharedUp),
            Glm52LayerTake::Proj(Glm52LayerProj::SharedDown),
            Glm52LayerTake::Experts,
        ]
    }
}

/// What is taken for a layer, in order.
pub open spec fn layer_takes(layer: int, replicated: bool) -> Seq<Glm52LayerTake> {
    attention_takes() + indexer_takes(crate::config::has_full_indexer(layer)) + mlp_takes(
        layer < 3,
        replicated,
    ) + seq![
        Glm52LayerTake::Vector(Glm52LayerVector::InputLayernorm),
        Glm52LayerTake::Vector(Glm52LayerVector::PostAttentionLayernorm),
    ]
}

/// Plans what is taken for a decoder layer.
pub fn plan_layer_takes(layer: usize, replicated: bool) -> (r: Vec<Glm52LayerTake>)
    ensures
        r@ == layer_takes(layer as int, replicated),
{
    let mut takes: Vec<Glm52LayerTake> = vec![
        Glm52LayerTake::Proj(Glm52LayerProj::KvB),
        Glm52LayerTake::Proj(Glm52LayerProj::QA),
        Glm52LayerTake::Vector(Glm52LayerVector::QALayernorm),
        Glm52LayerTake::Proj(Glm52LayerProj::QB),
        Glm52LayerTake::Proj(Glm52LayerProj::KvA),
        Glm52LayerTake::Vector(Glm52LayerVector::KvALayernorm),
        Glm52LayerTake::Proj(Glm52LayerProj::OProj),
    ];
    assert(takes@ =~= attention_takes());
    let mut indexer: Vec<Glm52LayerTake> = Vec::new();
    if glm52_layer_has_full_indexer(layer) {
        indexer.push(Glm52LayerTake::Vector(Glm52LayerVector::IndexerKNormWeight));
        indexer.push(Glm52LayerTake::Vector(Glm52LayerVector::IndexerKNormBias));
        indexer.push(Glm52LayerTake::Vector(Glm52LayerVector::IndexerWeightsProj));
        indexer.push(Glm52LayerTake::Proj(Glm52LayerProj::IndexerWqB));
        indexer.push(Glm52LayerTake::Proj(Glm52LayerProj::IndexerWk));
    }
    assert(indexer@ =~= indexer_takes(crate::config::has_full_indexer(layer as int)));
    takes.append(&mut indexer);
    let mut mlp: Vec<Glm52LayerTake> = Vec::new();
    if layer < GLM52_DENSE_LAYERS {
        mlp.push(Glm52LayerTake::Proj(Glm52LayerProj::Gate));
        mlp.push(Glm52LayerTake::Proj(Glm52LayerProj::Up));
        mlp.push(Glm52LayerTake::Proj(Glm52LayerProj::Down));
    } else {
        mlp.push(Glm52LayerTake::Vector(Glm52LayerVector::RouterGate));
        mlp.push(Glm52LayerTake::Vector(Glm52LayerVector::RouterBias));
        if !replicated {
            mlp.push(Glm52LayerTake::Proj(Glm52LayerProj::SharedGate));
            mlp.push(Glm52LayerTake::Proj(Glm52LayerProj::SharedUp));
            mlp.push(Glm52LayerTake::Proj(Glm52LayerProj::SharedDown));
            mlp.push(Glm52LayerTake::Experts);
        }
    }
    assert(mlp@ =~= mlp_takes(layer < 3, replicated));
    takes.append(&mut mlp);
    let ghost before = takes@;
    takes.push(Glm52LayerTake::Vector(Glm52LayerVector::InputLayernorm));
    takes.push(Glm52LayerTake::Vector(Glm52LayerVector::PostAttentionLayernorm));
    assert(takes@ =~= before + seq![
        Glm52LayerTake::Vector(Glm52LayerVector::InputLayernorm),
        Glm52LayerTake::Vector(Glm52LayerVector::PostAttentionLayernorm),
    ]);
    takes
}

/// The full name of a layer's tensor.
pub open spec fn tensor_name(layer: nat, stem: Seq<char>, suffix: Seq<char>) -> Seq<char> {
    "model.layers."@ + crate::text::decimal(layer) + stem + suffix
}

/// The names of a projection's weight and scales.
pub fn proj_names(layer: usize, proj: Glm52LayerProj) -> (r: (String, String))
    ensures
        r.0@ == tensor_name(layer as nat, proj.stem(), ".weight"@),
        r.1@ == tensor_name(layer as nat, proj.stem(), ".weight_scale_inv"@),
        r.0@ == "model.layers."@ + crate::text::decimal(layer as nat) + proj.stem() + ".weight"@,
        r.1@ == "model.layers."@ + crate::text::decimal(layer as nat) + proj.stem()
            + ".weight_scale_inv"@,
{
    let digits: String = decimal_text(layer as u64);
    let mut weight: String = String::from_str("model.layers.");
    weight.append(digits.as_str());
    weight.append(proj.stem_text());
    weight.append(".weight");
    let mut scale: String = String::from_str("model.layers.");
    scale.append(digits.as_str());
    scale.append(proj.stem_text());
    scale.append(".weight_scale_inv");
    (weight, scale)
}

/// The name of a plain tensor.
pub fn vector_name(layer: usize, vector: Glm52LayerVector) -> (r: String)
    ensures
        r@ == tensor_name(layer as nat, vector.stem(), Seq::empty()),
        r@ == "model.layers."@ + crate::text::decimal(layer as nat) + vector.stem(),
{
    let digits: String = decimal_text(layer as u64);
    let mut name: String = String::from_str("model.layers.");
    name.append(digits.as_str());
    name.append(vector.stem_text());
    assert(name@ =~= tensor_name(layer as nat, vector.stem(), Seq::empty()));
    name
}

/// The name of a tensor that a projection or a plain tensor takes.
pub open spec fn takes_name(take: Glm52LayerTake, layer: nat, name: Seq<char>) -> bool {
    match take {
        Glm52LayerTake::Proj(proj) => name == tensor_name(layer, proj.stem(), ".weight"@) || name
            == tensor_name(layer, proj.stem(), ".weight_scale_inv"@),
        Glm52LayerTake::Vector(vector) => name == tensor_name(layer, vector.stem(), Seq::empty()),
        Glm52LayerTake::Experts => false,
    }
}

proof fn lemma_stems_start_with_a_dot(take: Glm52LayerTake)
    ensures
        take matches Glm52LayerTake::Proj(p) ==> p.stem().len() > 0 && p.stem()[0] == '.',
        take matches Glm52LayerTake::Vector(v) ==> v.stem().len() > 0 && v.stem()[0] == '.',
{
    reveal_strlit(".self_attn.kv_b_proj");
    reveal_strlit(".self_attn.q_a_proj");
    reveal_strlit(".self_attn.q_b_proj");
    reveal_strlit(".self_attn.kv_a_proj_with_mqa");
    reveal_strlit(".self_attn.o_proj");
    reveal_strlit(".self_attn.indexer.wq_b");
    reveal_strlit(".self_attn.indexer.wk");
    reveal_strlit(".mlp.gate_proj");
    reveal_strlit(".mlp.up_proj");
    reveal_strlit(".mlp.down_proj");
    reveal_strlit(".mlp.shared_experts.gate_proj");
    reveal_strlit(".mlp.shared_experts.up_proj");
    reveal_strlit(".mlp.shared_experts.down_proj");
    reveal_strlit(".self_attn.q_a_layernorm.weight");
    reveal_strlit(".self_attn.kv_a_layernorm.weight");
    reveal_strlit(".self_attn.indexer.k_norm.weight");
    reveal_strlit(".self_attn.indexer.k_norm.bias");
    reveal_strlit(".self_attn.indexer.weights_proj.weight");
    reveal_strlit(".mlp.gate.weight");
    reveal_strlit(".mlp.gate.e_score_correction_bias");
    reveal_strlit(".input_layernorm.weight");
    reveal_strlit(".post_attention_layernorm.weight");
}

/// The tail of a layer's tensor name, behind the layer's number.
proof fn lemma_name_tail(layer: nat, stem: Seq<char>, suffix: Seq<char>)
    requires
        stem.len() > 0,
    ensures
        tensor_name(layer, stem, suffix) == "model.layers."@ + (crate::text::decimal(layer) + (stem
            + suffix)),
        (stem + suffix)[0] == stem[0],
{
    assert(tensor_name(layer, stem, suffix) =~= "model.layers."@ + (crate::text::decimal(layer) + (
    stem + suffix)));
}

/// No tensor is taken for two layers: a name says its layer.
pub proof fn a_tensor_name_says_its_layer(
    take: Glm52LayerTake,
    layer: nat,
    other: Glm52LayerTake,
    other_layer: nat,
    name: Seq<char>,
)
    requires
        takes_name(take, layer, name),
        takes_name(other, other_layer, name),
    ensures
        layer == other_layer,
{
    let prefix = "model.layers."@;
    lemma_stems_start_with_a_dot(take);
    lemma_stems_start_with_a_dot(other);
    let stem = stem_of(take);
    let other_stem = stem_of(other);
    let suffix = if name == tensor_name(layer, stem, ".weight"@) && take is Proj {
        ".weight"@
    } else if take is Proj {
        ".weight_scale_inv"@
    } else {
        Seq::empty()
    };
    let other_suffix = if name == tensor_name(other_layer, other_stem, ".weight"@)
        && other is Proj {
        ".weight"@
    } else if other is Proj {
        ".weight_scale_inv"@
    } else {
        Seq::empty()
    };
    lemma_name_tail(layer, stem, suffix);
    lemma_name_tail(other_layer, other_stem, other_suffix);
    let a = crate::text::decimal(layer);
    let b = crate::text::decimal(other_layer);
    let x = stem + suffix;
    let y = other_stem + other_suffix;
    assert(name.subrange(prefix.len() as int, name.len() as int) =~= a + x);
    assert(name.subrange(prefix.len() as int, name.len() as int) =~= b + y);
    crate::text::decimal_holds_digits(layer);
    crate::text::decimal_holds_digits(other_layer);
    crate::offload::lemma_digits_split(a, x, b, y);
    crate::text::decimal_injective(layer, other_layer);
}

/// The stem of what is taken.
pub open spec fn stem_of(take: Glm52LayerTake) -> Seq<char> {
    match take {
        Glm52LayerTake::Proj(proj) => proj.stem(),
        Glm52LayerTake::Vector(vector) => vector.stem(),
        Glm52LayerTake::Experts => Seq::empty(),
    }
}

/// A layer's takes are all different.
pub proof fn a_layer_takes_nothing_twice(layer: int, replicated: bool, i: int, j: int)
    requires
        0 <= i < j < layer_takes(layer, replicated).len(),
    ensures
        layer_takes(layer, replicated)[i] != layer_takes(layer, replicated)[j],
{
}

/// A layer takes its attention and its norms, its indexer where it has a full
/// one, the dense feed-forward block below the fourth layer, and from there on
/// the router, with the shared and the routed experts where they are not
/// replicated; and nothing else.
pub proof fn a_layer_takes_what_it_needs(layer: int, replicated: bool, take: Glm52LayerTake)
    ensures
        layer_takes(layer, replicated).contains(take) <==> (match take {
            Glm52LayerTake::Proj(p) => match p {
                Glm52LayerProj::KvB | Glm52LayerProj::QA | Glm52LayerProj::QB
                | Glm52LayerProj::KvA | Glm52LayerProj::OProj => true,
                Glm52LayerProj::IndexerWqB | Glm52LayerProj::IndexerWk =>
                    crate::config::has_full_indexer(layer),
                Glm52LayerProj::Gate | Glm52LayerProj::Up | Glm52LayerProj::Down => layer < 3,
                Glm52LayerProj::SharedGate | Glm52LayerProj::SharedUp
                | Glm52LayerProj::SharedDown => layer >= 3 && !replicated,
            },
            Glm52LayerTake::Vector(v) => match v {
                Glm52LayerVector::QALayernorm | Glm52LayerVector::KvALayernorm
                | Glm52LayerVector::InputLayernorm
                | Glm52LayerVector::PostAttentionLayernorm => true,
                Glm52LayerVector::IndexerKNormWeight | Glm52LayerVector::IndexerKNormBias
                | Glm52LayerVector::IndexerWeightsProj => crate::config::has_full_indexer(layer),
                Glm52LayerVector::RouterGate | Glm52LayerVector::RouterBias => layer >= 3,
            },
            Glm52LayerTake::Experts => layer >= 3 && !replicated,
        }),
{
    let list = layer_takes(layer, replicated);
    let full = crate::config::has_full_indexer(layer);
    let at: int = if full {
        12
    } else {
        7
    };
    let end: int = at + mlp_takes(layer < 3, replicated).len();
    assert(list.len() == end + 2);
    assert(list[0] == Glm52LayerTake::Proj(Glm52LayerProj::KvB));
    assert(list[1] == Glm52LayerTake::Proj(Glm52LayerProj::QA));
    assert(list[2] == Glm52LayerTake::Vector(Glm52LayerVector::QALayernorm));
    assert(list[3] == Glm52LayerTake::Proj(Glm52LayerProj::QB));
    assert(list[4] == Glm52LayerTake::Proj(Glm52LayerProj::KvA));
    assert(list[5] == Glm52LayerTake::Vector(Glm52LayerVector::KvALayernorm));
    assert(list[6] == Glm52LayerTake::Proj(Glm52LayerProj::OProj));
    if full {
        assert(list[7] == Glm52LayerTake::Vector(Glm52LayerVector::IndexerKNormWeight));
        assert(list[8] == Glm52LayerTake::Vector(Glm52LayerVector::IndexerKNormBias));
        assert(list[9] == Glm52LayerTake::Vector(Glm52LayerVector::IndexerWeightsProj));
        assert(list[10] == Glm52LayerTake::Proj(Glm52LayerProj::IndexerWqB));
        assert(list[11] == Glm52LayerTake::Proj(Glm52LayerProj::IndexerWk));
    }
    if layer < 3 {
        assert(list[at] == Glm52LayerTake::Proj(Glm52LayerProj::Gate));
        assert(list[at + 1] == Glm52LayerTake::Proj(Glm52LayerProj::Up));
        assert(list[at + 2] == Glm52LayerTake::Proj(Glm52LayerProj::Down));
    } else {
        assert(list[at] == Glm52LayerTake::Vector(Glm52LayerVector::RouterGate));
        assert(list[at + 1] == Glm52LayerTake::Vector(Glm52LayerVector::RouterBias));
        if !replicated {
            assert(list[at + 2] == Glm52LayerTake::Proj(Glm52LayerProj::SharedGate));
            assert(list[at + 3] == Glm52LayerTake::Proj(Glm52LayerProj::SharedUp));
            assert(list[at + 4] == Glm52LayerTake::Proj(Glm52LayerProj::SharedDown));
            assert(list[at + 5] == Glm52LayerTake::Experts);
        }
    }
    assert(list[end] == Glm52LayerTake::Vector(Glm52LayerVector::InputLayernorm));
    assert(list[end + 1] == Glm52LayerTake::Vector(Glm52LayerVector::PostAttentionLayernorm));
}

/// What is taken for a model, in one step.
#[derive(Clone, Copy, Debug, PartialEq, Eq, Structural)]
pub enum Glm52ModelTake {
    Layer { layer: usize, take: Glm52LayerTake },
    Embed,
    Head,
    FinalNorm,
}

/// A layer's takes as takes of the model.
pub open spec fn takes_of_layer(layer: int, replicated: bool) -> Seq<Glm52ModelTake> {
    Seq::new(
        layer_takes(layer, replicated).len(),
        |i: int|
            Glm52ModelTake::Layer {
                layer: layer as usize,
                take: layer_takes(layer, replicated)[i],
            },
    )
}

/// What is taken for the first `upto` layers.
pub open spec fn takes_below(upto: int, replicated: bool) -> Seq<Glm52ModelTake>
    decreases upto,
{
    if upto <= 0 {
        Seq::empty()
    } else {
        takes_below(upto - 1, replicated) + takes_of_layer(upto - 1, replicated)
    }
}

/// What is taken for the whole model, in order: every decoder layer, the
/// embedding, the vocabulary head and the final norm.
pub open spec fn model_takes(replicated: bool) -> Seq<Glm52ModelTake> {
    takes_below(78, replicated) + seq![
        Glm52ModelTake::Embed,
        Glm52ModelTake::Head,
        Glm52ModelTake::FinalNorm,
    ]
}

/// Plans what is taken for the whole model.
pub fn plan_model_takes(replicated: bool) -> (r: Vec<Glm52ModelTake>)
    ensures
        r@ == model_takes(replicated),
{
    let mut takes: Vec<Glm52ModelTake> = Vec::new();
    let mut layer: usize = 0;
    while layer < GLM52_LAYERS
        invariant
            layer <= 78,
            takes@ == takes_below(layer as int, replicated),
        decreases 78 - layer,
    {
        let of_layer: Vec<Glm52LayerTake> = plan_layer_takes(layer, replicated);
        let ghost before = takes@;
        let mut i: usize = 0;
        while i < of_layer.len()
            invariant
                i <= of_layer.len(),
                of_layer@ == layer_takes(layer as int, replicated),
                takes@ == before + takes_of_layer(layer as int, replicated).subrange(0, i as int),
            decreases of_layer.len() - i,
        {
            takes.push(Glm52ModelTake::Layer { layer, take: of_layer[i] });
            assert(takes@ =~= before + takes_of_layer(layer as int, replicated).subrange(
                0,
                i + 1,
            ));
            i = i + 1;
        }
        assert(takes_of_layer(layer as int, replicated).subrange(0, i as int)
            =~= takes_of_layer(layer as int, replicated));
        layer = layer + 1;
    }
    takes.push(Glm52ModelTake::Embed);
    takes.push(Glm52ModelTake::Head);
    takes.push(Glm52ModelTake::FinalNorm);
    assert(takes@ =~= model_takes(replicated));
    takes
}

/// The names of the tensors that a take takes. A rank's experts are packed and
/// have no names of their own.
pub open spec fn names_of(take: Glm52ModelTake) -> Seq<Seq<char>> {
    match take {
        Glm52ModelTake::Layer { layer, take } => match take {
            Glm52LayerTake::Proj(proj) => seq![
                tensor_name(layer as nat, proj.stem(), ".weight"@),
                tensor_name(layer as nat, proj.stem(), ".weight_scale_inv"@),
            ],
            Glm52LayerTake::Vector(vector) => seq![
                tensor_name(layer as nat, vector.stem(), Seq::empty()),
            ],
            Glm52LayerTake::Experts => Seq::empty(),
        },
        Glm52ModelTake::Embed => seq!["model.embed_tokens.weight"@],
        Glm52ModelTake::Head => seq!["lm_head.weight"@],
        Glm52ModelTake::FinalNorm => seq!["model.norm.weight"@],
    }
}

/// The names of the tensors that a take takes.
pub fn take_names(take: Glm52ModelTake) -> (r: Vec<String>)
    ensures
        crate::json::texts(r@) == names_of(take),
        match take {
            Glm52ModelTake::Layer { layer, take } => match take {
                Glm52LayerTake::Proj(proj) => {
                    &&& r.len() == 2
                    &&& r@[0]@ == "model.layers."@ + crate::text::decimal(layer as nat)
                        + proj.stem() + ".weight"@
                    &&& r@[1]@ == "model.layers."@ + crate::text::decimal(layer as nat)
                        + proj.stem() + ".weight_scale_inv"@
                },
                Glm52LayerTake::Vector(vector) => r.len() == 1 && r@[0]@ == "model.layers."@
                    + crate::text::decimal(layer as nat) + vector.stem(),
                Glm52LayerTake::Experts => r.len() == 0,
            },
            Glm52ModelTake::Embed => r.len() == 1 && r@[0]@ == "model.embed_tokens.weight"@,
            Glm52ModelTake::Head => r.len() == 1 && r@[0]@ == "lm_head.weight"@,
            Glm52ModelTake::FinalNorm => r.len() == 1 && r@[0]@ == "model.norm.weight"@,
        },
{
    let mut names: Vec<String> = Vec::new();
    match take {
        Glm52ModelTake::Layer { layer, take } => match take {
            Glm52LayerTake::Proj(proj) => {
                let (weight, scale) = proj_names(layer, proj);
                names.push(weight);
                names.push(scale);
            },
            Glm52LayerTake::Vector(vector) => {
                names.push(vector_name(layer, vector));
            },
            Glm52LayerTake::Experts => {},
        },
        Glm52ModelTake::Embed => {
            names.push(String::from_str("model.embed_tokens.weight"));
        },
        Glm52ModelTake::Head => {
            names.push(String::from_str("lm_head.weight"));
        },
        Glm52ModelTake::FinalNorm => {
            names.push(String::from_str("model.norm.weight"));
        },
    }
    assert(crate::json::texts(names@) =~= names_of(take));
    assert(names.len() == crate::json::texts(names@).len());
    assert(forall|i: int|
        0 <= i < names.len() ==> (#[trigger] names@[i])@ == crate::json::texts(names@)[i]);
    names
}

/// Where a take of the model's layers stands: in one layer, at one place.
proof fn lemma_take_has_a_place(upto: int, replicated: bool, i: int) -> (r: (int, int))
    requires
        0 <= upto <= 78,
        0 <= i < takes_below(upto, replicated).len(),
    ensures
        0 <= r.0 < upto,
        0 <= r.1 < layer_takes(r.0, replicated).len(),
        i == takes_below(r.0, replicated).len() + r.1,
        takes_below(upto, replicated)[i] == (Glm52ModelTake::Layer {
            layer: r.0 as usize,
            take: layer_takes(r.0, replicated)[r.1],
        }),
    decreases upto,
{
    let before = takes_below(upto - 1, replicated);
    if i < before.len() {
        lemma_take_has_a_place(upto - 1, replicated, i)
    } else {
        (upto - 1, i - before.len())
    }
}

proof fn lemma_layers_are_taken(upto: int, replicated: bool, layer: int, x: int)
    requires
        0 <= layer < upto <= 78,
        0 <= x < layer_takes(layer, replicated).len(),
    ensures
        takes_below(upto, replicated).contains(
            Glm52ModelTake::Layer {
                layer: layer as usize,
                take: layer_takes(layer, replicated)[x],
            },
        ),
    decreases upto,
{
    let take = Glm52ModelTake::Layer {
        layer: layer as usize,
        take: layer_takes(layer, replicated)[x],
    };
    let before = takes_below(upto - 1, replicated);
    if layer < upto - 1 {
        lemma_layers_are_taken(upto - 1, replicated, layer, x);
        let at = choose|at: int| 0 <= at < before.len() && before[at] == take;
        assert(takes_below(upto, replicated)[at] == take);
    } else {
        assert(takes_below(upto, replicated)[before.len() + x] == take);
    }
}

/// A model takes what each of its 78 layers takes, and the embedding, the head
/// and the final norm.
pub proof fn a_model_takes_its_layers(replicated: bool, layer: usize, take: Glm52LayerTake)
    ensures
        model_takes(replicated).contains(Glm52ModelTake::Layer { layer, take }) <==> layer < 78
            && layer_takes(layer as int, replicated).contains(take),
        model_takes(replicated).contains(Glm52ModelTake::Embed),
        model_takes(replicated).contains(Glm52ModelTake::Head),
        model_takes(replicated).contains(Glm52ModelTake::FinalNorm),
{
    let layers = takes_below(78, replicated);
    let all = model_takes(replicated);
    let this = Glm52ModelTake::Layer { layer, take };
    assert(all[layers.len() as int] == Glm52ModelTake::Embed);
    assert(all[layers.len() as int + 1] == Glm52ModelTake::Head);
    assert(all[layers.len() as int + 2] == Glm52ModelTake::FinalNorm);
    if layer < 78 && layer_takes(layer as int, replicated).contains(take) {
        let list = layer_takes(layer as int, replicated);
        let x = choose|x: int| 0 <= x < list.len() && list[x] == take;
        lemma_layers_are_taken(78, replicated, layer as int, x);
        let at = choose|at: int| 0 <= at < layers.len() && layers[at] == this;
        assert(all[at] == this);
    }
    if all.contains(this) {
        let i = choose|i: int| 0 <= i < all.len() && all[i] == this;
        assert(i < layers.len());
        let (l, x) = lemma_take_has_a_place(78, replicated, i);
        assert(layer_takes(l, replicated)[x] == take);
    }
}

/// The attention projections of a layer have the shapes of all 64 heads, and
/// a plain tensor two bytes for each element of what it belongs to, four in
/// the router's bias.
pub proof fn taken_shapes_are_the_architectures()
    ensures
        Glm52LayerProj::QA.shape_of() == crate::mla::mla_shape(crate::mla::Glm52MlaProj::QA, 64),
        Glm52LayerProj::QB.shape_of() == crate::mla::mla_shape(crate::mla::Glm52MlaProj::QB, 64),
        Glm52LayerProj::KvA.shape_of() == crate::mla::mla_shape(crate::mla::Glm52MlaProj::KvA, 64),
        Glm52LayerProj::KvB.shape_of() == crate::mla::mla_shape(crate::mla::Glm52MlaProj::KvB, 64),
        Glm52LayerProj::OProj.shape_of() == crate::mla::mla_shape(
            crate::mla::Glm52MlaProj::OProj,
            64,
        ),
        Glm52LayerVector::QALayernorm.bytes_of() == 2 * Glm52LayerProj::QA.shape_of().n,
        Glm52LayerVector::KvALayernorm.bytes_of() == 2 * Glm52LayerProj::KvB.shape_of().k,
        Glm52LayerVector::IndexerKNormWeight.bytes_of() == 2
            * Glm52LayerProj::IndexerWk.shape_of().n,
        Glm52LayerVector::IndexerKNormBias.bytes_of() == 2
            * Glm52LayerProj::IndexerWk.shape_of().n,
        Glm52LayerProj::IndexerWqB.shape_of().n == 32 * Glm52LayerProj::IndexerWk.shape_of().n,
        Glm52LayerVector::IndexerWeightsProj.bytes_of() == 2 * (32 * 6144),
        Glm52LayerVector::RouterGate.bytes_of() == 2 * (256 * 6144),
        Glm52LayerVector::RouterBias.bytes_of() == 4 * 256,
        Glm52LayerVector::InputLayernorm.bytes_of() == 2 * 6144,
        Glm52LayerVector::PostAttentionLayernorm.bytes_of() == 2 * 6144,
        Glm52LayerProj::Gate.shape_of() == Glm52LayerProj::Up.shape_of(),
        Glm52LayerProj::Down.shape_of() == (Glm52Proj {
            n: Glm52LayerProj::Gate.shape_of().k,
            k: Glm52LayerProj::Gate.shape_of().n,
        }),
        Glm52LayerProj::SharedGate.shape_of() == Glm52LayerProj::SharedUp.shape_of(),
        Glm52LayerProj::SharedDown.shape_of() == (Glm52Proj {
            n: Glm52LayerProj::SharedGate.shape_of().k,
            k: Glm52LayerProj::SharedGate.shape_of().n,
        }),
{
}

/// The model's takes are all different: nothing is taken twice.
pub proof fn a_model_takes_nothing_twice(replicated: bool, i: int, j: int)
    requires
        0 <= i < j < model_takes(replicated).len(),
    ensures
        model_takes(replicated)[i] != model_takes(replicated)[j],
{
    let layers = takes_below(78, replicated);
    if i < layers.len() {
        let (a, x) = lemma_take_has_a_place(78, replicated, i);
        if j < layers.len() {
            let (b, y) = lemma_take_has_a_place(78, replicated, j);
            if a == b {
                a_layer_takes_nothing_twice(a, replicated, x, y);
            }
        }
    }
}

} // verus!
