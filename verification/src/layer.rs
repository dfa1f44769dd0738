//! The walk over the decoder layers of one step: which launches run, in which
//! order, and through which buffers the residual stream passes.
use vstd::prelude::*;

use crate::config::{
    glm52_layer_has_full_indexer, GLM52_DENSE_LAYERS, GLM52_HEADS, GLM52_LAYERS,
};
use crate::dspark::aux_feature;
use crate::text::decimal_text;
use crate::topology::Glm52MoeTopo;

verus! {

/// What feeds the residual stream after a layer's attention.
#[derive(Clone, Copy, Debug, PartialEq, Eq, Structural)]
pub enum Glm52LayerMlp {
    Dense,
    /// Experts spread over the ranks, beside a shared one.
    Moe,
    /// A slice of every expert on every rank: the layer's own weight is the
    /// router, and the shared expert is one of the bank's.
    Replicated,
}

/// What the walk has to know of one decoder layer.
#[derive(Clone, Copy, Debug, PartialEq, Eq, Structural)]
pub struct Glm52LayerFacts {
    /// Attention heads that this rank holds.
    pub heads: usize,
    /// Whether the layer selects its own sparse tokens.
    pub full_indexer: bool,
    /// Whether the layer owns an index-key cache.
    pub owns_index_cache: bool,
    pub mlp: Glm52LayerMlp,
}

/// Why a walk over the layers is refused.
#[derive(Clone, Copy, Debug, PartialEq, Eq, Structural)]
pub enum Glm52LayerFault {
    /// A head shard without an all-reduce, or the full heads with one.
    Wiring { heads: usize, all_reduce: bool },
    MissingIndexCache,
    UnexpectedIndexCache,
    /// A shared selection before any layer selected.
    NoSelection,
}

impl Glm52LayerFault {
    /// The message for the operator.
    pub open spec fn text(self) -> Seq<char> {
        match self {
            Glm52LayerFault::Wiring { heads, all_reduce } => "GLM5.2 attention-TP wiring mismatch: layer holds "@
                + crate::text::decimal(heads as nat)
                + " heads but AR is "@
                + (if all_reduce {
                    "wired"@
                } else {
                    "absent"@
                }),
            Glm52LayerFault::MissingIndexCache => "GLM5.2 full-indexer layer is missing its index-K cache"@,
            Glm52LayerFault::UnexpectedIndexCache => "GLM5.2 shared-indexer layer unexpectedly owns an index-K cache"@,
            Glm52LayerFault::NoSelection => "GLM5.2 shared-indexer layer reached before any full indexer ran"@,
        }
    }

    /// The message for the operator.
    pub fn message(&self) -> (m: String)
        ensures
            m@ == self.text(),
    {
        match *self {
            Glm52LayerFault::Wiring { heads, all_reduce } => {
                let mut m = String::from_str("GLM5.2 attention-TP wiring mismatch: layer holds ");
                m.append(decimal_text(heads as u64).as_str());
                m.append(" heads but AR is ");
                if all_reduce {
                    m.append("wired");
                } else {
                    m.append("absent");
                }
                m
            },
            Glm52LayerFault::MissingIndexCache => String::from_str(
                "GLM5.2 full-indexer layer is missing its index-K cache",
            ),
            Glm52LayerFault::UnexpectedIndexCache => String::from_str(
                "GLM5.2 shared-indexer layer unexpectedly owns an index-K cache",
            ),
            Glm52LayerFault::NoSelection => String::from_str(
                "GLM5.2 shared-indexer layer reached before any full indexer ran",
            ),
        }
    }
}

/// A refused layer.
#[derive(Clone, Copy, Debug, PartialEq, Eq, Structural)]
pub struct Glm52LayerError {
    pub layer: usize,
    pub fault: Glm52LayerFault,
}

/// One launch of the walk. The attention output alternates between two
/// buffers, told apart by `odd`.
#[derive(Clone, Copy, Debug, PartialEq, Eq, Structural)]
pub enum Glm52LayerOp {
    Embed,
    /// The first layer's input norm.
    InputNorm,
    FrontQuery { layer: usize },
    /// The sparse selection, on the side stream where there is one.
    Indexer { layer: usize, aside: bool },
    FrontRest { layer: usize },
    JoinIndexer,
    /// The attention output into its buffer.
    Attend { layer: usize, odd: bool },
    /// A head shard's attention output, still a partial sum.
    AttendPartial { layer: usize },
    AllReduce { layer: usize, odd: bool },
    /// The residual added to the attention output, and the sum's norm.
    PostNorm { layer: usize, odd: bool, first: bool },
    Dense { layer: usize },
    /// The shared expert and all routed ones, on this rank alone.
    AllExperts { layer: usize },
    /// The shared expert, on the side stream.
    SharedExpert { layer: usize },
    Router { layer: usize },
    Routed { layer: usize, rows: usize, global_rows: usize },
    JoinShared,
    AddShared,
    /// The rank's slices of the routed experts and of the shared one, reduced
    /// over the group.
    SliceBank { layer: usize, rows: usize },
    /// The feed-forward output added, and the next layer's input norm.
    FinishFused { odd: bool, next: usize },
    /// The feed-forward output added, after the last layer.
    Finish { odd: bool },
    /// The residual copied out as a feature of the draft context.
    Capture { feature: usize, odd: bool },
    FinalNorm,
    Head,
    Argmax,
}

/// One launch, or none.
pub open spec fn op_if(cond: bool, op: Glm52LayerOp) -> Seq<Glm52LayerOp> {
    if cond {
        seq![op]
    } else {
        Seq::empty()
    }
}

/// What is wrong with a layer that is reached with or without a selection.
pub open spec fn layer_fault(f: Glm52LayerFacts, all_reduce: bool, selected: bool) -> Option<
    Glm52LayerFault,
> {
    if (f.heads != 64) != all_reduce {
        Some(Glm52LayerFault::Wiring { heads: f.heads, all_reduce })
    } else if f.full_indexer && !f.owns_index_cache {
        Some(Glm52LayerFault::MissingIndexCache)
    } else if !f.full_indexer && f.owns_index_cache {
        Some(Glm52LayerFault::UnexpectedIndexCache)
    } else if !f.full_indexer && !selected {
        Some(Glm52LayerFault::NoSelection)
    } else {
        None
    }
}

/// The launches of a layer's attention half.
pub open spec fn attention_ops(
    layer: usize,
    f: Glm52LayerFacts,
    all_reduce: bool,
    aside: bool,
    odd: bool,
    first: bool,
) -> Seq<Glm52LayerOp> {
    seq![Glm52LayerOp::FrontQuery { layer }] + op_if(
        f.full_indexer,
        Glm52LayerOp::Indexer { layer, aside },
    ) + seq![Glm52LayerOp::FrontRest { layer }] + op_if(
        f.full_indexer && aside,
        Glm52LayerOp::JoinIndexer,
    ) + op_if(!all_reduce, Glm52LayerOp::Attend { layer, odd }) + op_if(
        all_reduce,
        Glm52LayerOp::AttendPartial { layer },
    ) + op_if(all_reduce, Glm52LayerOp::AllReduce { layer, odd }) + seq![
        Glm52LayerOp::PostNorm { layer, odd, first },
    ]
}

/// Plans a layer's attention half. Returns the launches and leaves in
/// `selected` whether a sparse selection is there for the layers to come.
pub fn plan_attention_half(
    layer: usize,
    f: Glm52LayerFacts,
    all_reduce: bool,
    aside: bool,
    selected: &mut bool,
    odd: bool,
    first: bool,
) -> (r: Result<Vec<Glm52LayerOp>, Glm52LayerFault>)
    ensures
        match r {
            Ok(ops) => {
                &&& layer_fault(f, all_reduce, *old(selected)) is None
                &&& ops@ == attention_ops(layer, f, all_reduce, aside, odd, first)
                &&& *final(selected)
            },
            Err(e) => {
                &&& layer_fault(f, all_reduce, *old(selected)) == Some(e)
                &&& *final(selected) == *old(selected)
            },
        },
        r is Ok <==> (f.heads != 64) == all_reduce && f.full_indexer == f.owns_index_cache && (
        f.full_indexer || *old(selected)),
        r matches Err(Glm52LayerFault::Wiring { heads, all_reduce: reduced }) ==> heads == f.heads
            && reduced == all_reduce && (heads == 64) == reduced,
        r matches Err(Glm52LayerFault::NoSelection) ==> !f.full_indexer && !*old(selected),
{
    let sharded: bool = f.heads != GLM52_HEADS;
    if sharded != all_reduce {
        return Err(Glm52LayerFault::Wiring { heads: f.heads, all_reduce });
    }
    let mut ops: Vec<Glm52LayerOp> = Vec::new();
    ops.push(Glm52LayerOp::FrontQuery { layer });
    if f.full_indexer {
        if !f.owns_index_cache {
            return Err(Glm52LayerFault::MissingIndexCache);
        }
        ops.push(Glm52LayerOp::Indexer { layer, aside });
    } else {
        if f.owns_index_cache {
            return Err(Glm52LayerFault::UnexpectedIndexCache);
        }
        if !*selected {
            return Err(Glm52LayerFault::NoSelection);
        }
    }
    *selected = true;
    ops.push(Glm52LayerOp::FrontRest { layer });
    if f.full_indexer && aside {
        ops.push(Glm52LayerOp::JoinIndexer);
    }
    if all_reduce {
        ops.push(Glm52LayerOp::AttendPartial { layer });
        ops.push(Glm52LayerOp::AllReduce { layer, odd });
    } else {
        ops.push(Glm52LayerOp::Attend { layer, odd });
    }
    ops.push(Glm52LayerOp::PostNorm { layer, odd, first });
    assert(ops@ =~= attention_ops(layer, f, all_reduce, aside, odd, first));
    Ok(ops)
}

/// The launches of a layer's feed-forward half.
pub open spec fn mlp_ops(
    layer: usize,
    mlp: Glm52LayerMlp,
    rows: usize,
    global_rows: usize,
) -> Seq<Glm52LayerOp> {
    match mlp {
        Glm52LayerMlp::Dense => seq![Glm52LayerOp::Dense { layer }],
        Glm52LayerMlp::Moe => seq![Glm52LayerOp::SharedExpert { layer }] + seq![
            Glm52LayerOp::Router { layer },
        ] + seq![Glm52LayerOp::Routed { layer, rows, global_rows }] + seq![
            Glm52LayerOp::JoinShared,
        ] + seq![Glm52LayerOp::AddShared],
        Glm52LayerMlp::Replicated => seq![Glm52LayerOp::Router { layer }] + seq![
            Glm52LayerOp::SliceBank { layer, rows },
        ],
    }
}

/// The feature of the draft context that is captured after a layer.
pub open spec fn feature_after(layer: int) -> Option<usize> {
    if layer == 7 {
        Some(0)
    } else if layer == 22 {
        Some(1)
    } else if layer == 38 {
        Some(2)
    } else if layer == 54 {
        Some(3)
    } else if layer == 69 {
        Some(4)
    } else {
        None
    }
}

/// The launches that close a layer.
pub open spec fn close_ops(layer: usize, count: nat, odd: bool) -> Seq<Glm52LayerOp> {
    op_if(
        layer + 1 < count,
        Glm52LayerOp::FinishFused { odd, next: (layer + 1) as usize },
    ) + op_if(layer + 1 >= count, Glm52LayerOp::Finish { odd }) + (match feature_after(
        layer as int,
    ) {
        Some(feature) => seq![Glm52LayerOp::Capture { feature, odd }],
        None => Seq::empty(),
    })
}

/// Plans a layer's feed-forward half.
pub fn plan_mlp_half(layer: usize, mlp: Glm52LayerMlp, rows: usize, global_rows: usize) -> (r: Vec<
    Glm52LayerOp,
>)
    ensures
        r@ == mlp_ops(layer, mlp, rows, global_rows),
{
    let mut ops: Vec<Glm52LayerOp> = Vec::new();
    match mlp {
        Glm52LayerMlp::Dense => {
            ops.push(Glm52LayerOp::Dense { layer });
        },
        Glm52LayerMlp::Moe => {
            ops.push(Glm52LayerOp::SharedExpert { layer });
            ops.push(Glm52LayerOp::Router { layer });
            ops.push(Glm52LayerOp::Routed { layer, rows, global_rows });
            ops.push(Glm52LayerOp::JoinShared);
            ops.push(Glm52LayerOp::AddShared);
        },
        Glm52LayerMlp::Replicated => {
            ops.push(Glm52LayerOp::Router { layer });
            ops.push(Glm52LayerOp::SliceBank { layer, rows });
        },
    }
    assert(ops@ =~= mlp_ops(layer, mlp, rows, global_rows));
    ops
}

/// Plans the close of layer `layer` of `count`.
pub fn plan_close(layer: usize, count: usize, odd: bool) -> (r: Vec<Glm52LayerOp>)
    requires
        layer < count,
    ensures
        r@ == close_ops(layer, count as nat, odd),
{
    let mut ops: Vec<Glm52LayerOp> = Vec::new();
    if layer + 1 < count {
        ops.push(Glm52LayerOp::FinishFused { odd, next: layer + 1 });
    } else {
        ops.push(Glm52LayerOp::Finish { odd });
    }
    if let Some(feature) = aux_feature(layer) {
        assert(feature_after(layer as int) == Some(feature));
        ops.push(Glm52LayerOp::Capture { feature, odd });
    } else {
        assert(feature_after(layer as int) is None) by {
            assert(crate::dspark::aux_layer(0) != layer);
            assert(crate::dspark::aux_layer(1) != layer);
            assert(crate::dspark::aux_layer(2) != layer);
            assert(crate::dspark::aux_layer(3) != layer);
            assert(crate::dspark::aux_layer(4) != layer);
        }
    }
    assert(ops@ =~= close_ops(layer, count as nat, odd));
    ops
}

/// What runs on the side stream is joined before it is used: no layer attends
/// before the selection that it launched aside is back, and no shared expert's
/// output is added before it is back.
pub proof fn side_streams_are_joined_before_use(
    layer: usize,
    f: Glm52LayerFacts,
    all_reduce: bool,
    aside: bool,
    odd: bool,
    first: bool,
    mlp: Glm52LayerMlp,
    rows: usize,
    global_rows: usize,
    i: int,
)
    ensures
        ({
            let ops = attention_ops(layer, f, all_reduce, aside, odd, first);
            0 <= i < ops.len() && (ops[i] is Attend || ops[i] is AttendPartial) && f.full_indexer
                ==> exists|launched: int|
                {
                    &&& 0 <= launched < i
                    &&& #[trigger] ops[launched] == (Glm52LayerOp::Indexer { layer, aside })
                    &&& aside ==> exists|joined: int|
                        launched < joined < i && #[trigger] ops[joined] == Glm52LayerOp::JoinIndexer
                }
        }),
        ({
            let ops = mlp_ops(layer, mlp, rows, global_rows);
            0 <= i < ops.len() && ops[i] is AddShared ==> exists|launched: int, joined: int|
                {
                    &&& 0 <= launched < joined < i
                    &&& #[trigger] ops[launched] == (Glm52LayerOp::SharedExpert { layer })
                    &&& #[trigger] ops[joined] == Glm52LayerOp::JoinShared
                }
        }),
{
    let a = attention_ops(layer, f, all_reduce, aside, odd, first);
    if 0 <= i < a.len() && (a[i] is Attend || a[i] is AttendPartial) && f.full_indexer {
        assert(a[1] == (Glm52LayerOp::Indexer { layer, aside }));
        if aside {
            assert(a[3] == Glm52LayerOp::JoinIndexer);
        }
    }
    let ops = mlp_ops(layer, mlp, rows, global_rows);
    if 0 <= i < ops.len() && ops[i] is AddShared {
        assert(ops[0] == (Glm52LayerOp::SharedExpert { layer }));
        assert(ops[3] == Glm52LayerOp::JoinShared);
    }
}

/// The experts of a step run over the step's own rows, and their collective
/// over those of all ranks.
pub proof fn experts_run_over_the_steps_rows(
    layers: Seq<Glm52LayerFacts>,
    l: int,
    shape: Glm52WalkShape,
    i: int,
)
    requires
        0 <= l < layers.len() <= usize::MAX,
        0 <= i < layer_ops(layers, l, shape).len(),
    ensures
        layer_ops(layers, l, shape)[i] matches Glm52LayerOp::Routed { layer, rows, global_rows }
            ==> layer == l && rows == shape.rows && global_rows == shape.global_rows,
        layer_ops(layers, l, shape)[i] matches Glm52LayerOp::SliceBank { layer, rows } ==> layer
            == l && rows == shape.rows,
        layer_ops(layers, l, shape)[i] matches Glm52LayerOp::Indexer { layer, aside } ==> layer
            == l && aside == shape.aside,
{
    let odd = l % 2 == 1;
    let a = attention_ops(l as usize, layers[l], shape.all_reduce, shape.aside, odd, l == 0);
    let b = mlp_ops(l as usize, layers[l].mlp, shape.rows, shape.global_rows);
    let c = close_ops(l as usize, layers.len(), odd);
    let ops = layer_ops(layers, l, shape);
    assert(ops == a + b + c);
    if i < a.len() {
        lemma_attention_runs_no_experts(
            l as usize,
            layers[l],
            shape.all_reduce,
            shape.aside,
            odd,
            l == 0,
            i,
        );
        assert(ops[i] == a[i]);
    } else if i < a.len() + b.len() {
        assert(ops[i] == b[i - a.len()]);
    } else {
        lemma_close_runs_no_experts(l as usize, layers.len(), odd, i - a.len() - b.len());
        assert(ops[i] == c[i - a.len() - b.len()]);
    }
}

proof fn lemma_attention_runs_no_experts(
    layer: usize,
    f: Glm52LayerFacts,
    all_reduce: bool,
    aside: bool,
    odd: bool,
    first: bool,
    i: int,
)
    requires
        0 <= i < attention_ops(layer, f, all_reduce, aside, odd, first).len(),
    ensures
        ({
            let op = attention_ops(layer, f, all_reduce, aside, odd, first)[i];
            &&& !(op is Routed) && !(op is SliceBank)
            &&& op is Indexer ==> op == (Glm52LayerOp::Indexer { layer, aside })
        }),
{
}

proof fn lemma_close_runs_no_experts(layer: usize, count: nat, odd: bool, i: int)
    requires
        0 <= i < close_ops(layer, count, odd).len(),
    ensures
        ({
            let op = close_ops(layer, count, odd)[i];
            !(op is Routed) && !(op is SliceBank) && !(op is Indexer)
        }),
{
}

/// A feature of the draft context is captured after its own layer and after no
/// other.
pub proof fn features_are_captured_after_their_layers(layer: int, feature: int)
    requires
        0 <= feature < 5,
    ensures
        feature_after(layer) == Some(feature as usize) <==> layer == crate::dspark::aux_layer(
            feature,
        ),
        feature_after(layer) matches Some(f) ==> f < 5,
{
}

/// How a step runs: its rows on this rank and over all ranks, and whether the
/// attention outputs are reduced over a tensor-parallel group.
#[derive(Clone, Copy, Debug, PartialEq, Eq, Structural)]
pub struct Glm52WalkShape {
    pub rows: usize,
    pub global_rows: usize,
    pub all_reduce: bool,
    pub aside: bool,
}

/// All launches of one layer.
pub open spec fn layer_ops(layers: Seq<Glm52LayerFacts>, l: int, shape: Glm52WalkShape) -> Seq<
    Glm52LayerOp,
> {
    let odd = l % 2 == 1;
    attention_ops(l as usize, layers[l], shape.all_reduce, shape.aside, odd, l == 0) + mlp_ops(
        l as usize,
        layers[l].mlp,
        shape.rows,
        shape.global_rows,
    ) + close_ops(l as usize, layers.len(), odd)
}

/// The launches of the first `upto` layers.
pub open spec fn walk_ops(layers: Seq<Glm52LayerFacts>, upto: int, shape: Glm52WalkShape) -> Seq<
    Glm52LayerOp,
>
    decreases upto,
{
    if upto <= 0 {
        seq![Glm52LayerOp::Embed] + seq![Glm52LayerOp::InputNorm]
    } else {
        walk_ops(layers, upto - 1, shape) + layer_ops(layers, upto - 1, shape)
    }
}

/// The launches of a whole step.
pub open spec fn step_body_ops(layers: Seq<Glm52LayerFacts>, shape: Glm52WalkShape) -> Seq<
    Glm52LayerOp,
> {
    walk_ops(layers, layers.len() as int, shape) + seq![Glm52LayerOp::FinalNorm] + seq![
        Glm52LayerOp::Head,
    ] + seq![Glm52LayerOp::Argmax]
}

/// Whether some layer below `l` selects its own sparse tokens.
pub open spec fn selected_before(layers: Seq<Glm52LayerFacts>, l: int) -> bool {
    exists|j: int| 0 <= j < l && j < layers.len() && (#[trigger] layers[j]).full_indexer
}

/// What is wrong with the walk's layer `l`.
pub open spec fn walk_fault(layers: Seq<Glm52LayerFacts>, l: int, shape: Glm52WalkShape) -> Option<
    Glm52LayerFault,
> {
    layer_fault(layers[l], shape.all_reduce, selected_before(layers, l))
}

/// Whether every layer of the walk can run.
pub open spec fn walkable(layers: Seq<Glm52LayerFacts>, shape: Glm52WalkShape) -> bool {
    forall|l: int| 0 <= l < layers.len() ==> #[trigger] walk_fault(layers, l, shape) is None
}

/// Plans one layer of the walk.
pub fn plan_layer(
    layers: &Vec<Glm52LayerFacts>,
    l: usize,
    shape: Glm52WalkShape,
    selected: &mut bool,
) -> (r: Result<Vec<Glm52LayerOp>, Glm52LayerFault>)
    requires
        l < layers.len(),
    ensures
        match r {
            Ok(ops) => {
                &&& layer_fault(layers@[l as int], shape.all_reduce, *old(selected)) is None
                &&& ops@ == layer_ops(layers@, l as int, shape)
                &&& *final(selected)
            },
            Err(e) => {
                &&& layer_fault(layers@[l as int], shape.all_reduce, *old(selected)) == Some(e)
                &&& *final(selected) == *old(selected)
            },
        },
{
    let f: Glm52LayerFacts = layers[l];
    let odd: bool = l % 2 == 1;
    let mut ops: Vec<Glm52LayerOp> = match plan_attention_half(
        l,
        f,
        shape.all_reduce,
        shape.aside,
        selected,
        odd,
        l == 0,
    ) {
        Ok(ops) => ops,
        Err(fault) => {
            return Err(fault);
        },
    };
    let mut mlp: Vec<Glm52LayerOp> = plan_mlp_half(l, f.mlp, shape.rows, shape.global_rows);
    ops.append(&mut mlp);
    let mut close: Vec<Glm52LayerOp> = plan_close(l, layers.len(), odd);
    ops.append(&mut close);
    Ok(ops)
}

/// Plans a whole step: the embedding, every layer, the final norm, the
/// vocabulary head and the argmax. The first layer that cannot run refuses it.
pub fn plan_step_body(layers: &Vec<Glm52LayerFacts>, shape: Glm52WalkShape) -> (r: Result<
    Vec<Glm52LayerOp>,
    Glm52LayerError,
>)
    requires
        layers.len() > 0,
    ensures
        match r {
            Ok(ops) => walkable(layers@, shape) && ops@ == step_body_ops(layers@, shape),
            Err(e) => {
                &&& e.layer < layers.len()
                &&& walk_fault(layers@, e.layer as int, shape) == Some(e.fault)
                &&& forall|l: int|
                    0 <= l < e.layer ==> #[trigger] walk_fault(layers@, l, shape) is None
            },
        },
{
    let mut ops: Vec<Glm52LayerOp> = Vec::new();
    ops.push(Glm52LayerOp::Embed);
    ops.push(Glm52LayerOp::InputNorm);
    assert(ops@ =~= walk_ops(layers@, 0, shape));
    let mut selected: bool = false;
    let mut l: usize = 0;
    while l < layers.len()
        invariant
            l <= layers.len(),
            ops@ == walk_ops(layers@, l as int, shape),
            selected == selected_before(layers@, l as int),
            forall|j: int| 0 <= j < l ==> #[trigger] walk_fault(layers@, j, shape) is None,
        decreases layers.len() - l,
    {
        let f: Glm52LayerFacts = layers[l];
        let mut layer: Vec<Glm52LayerOp> = match plan_layer(layers, l, shape, &mut selected) {
            Ok(ops) => ops,
            Err(fault) => {
                return Err(Glm52LayerError { layer: l, fault });
            },
        };
        ops.append(&mut layer);
        proof {
            if f.full_indexer {
                assert(layers@[l as int].full_indexer);
            }
            assert(selected_before(layers@, l + 1));
        }
        l = l + 1;
    }
    ops.push(Glm52LayerOp::FinalNorm);
    ops.push(Glm52LayerOp::Head);
    ops.push(Glm52LayerOp::Argmax);
    assert(ops@ =~= step_body_ops(layers@, shape));
    Ok(ops)
}

/// A layer of a topology's model: its heads, whether it selects, and its
/// feed-forward half.
pub open spec fn facts_of(layer: int, topo: Glm52MoeTopo) -> Glm52LayerFacts {
    Glm52LayerFacts {
        heads: (if topo.is_replicated() {
            64int / topo.devices()
        } else {
            64
        }) as usize,
        full_indexer: crate::config::has_full_indexer(layer),
        owns_index_cache: crate::config::has_full_indexer(layer),
        mlp: if layer < 3 {
            Glm52LayerMlp::Dense
        } else if topo.is_replicated() {
            Glm52LayerMlp::Replicated
        } else {
            Glm52LayerMlp::Moe
        },
    }
}

/// The layers of a topology's model.
pub open spec fn model_facts(topo: Glm52MoeTopo) -> Seq<Glm52LayerFacts> {
    Seq::new(78, |l: int| facts_of(l, topo))
}

/// The layers of a topology's model.
pub fn model_layers(topo: Glm52MoeTopo) -> (r: Vec<Glm52LayerFacts>)
    ensures
        r@ == model_facts(topo),
        r.len() == 78,
        forall|l: int|
            0 <= l < 78 ==> {
                let f = #[trigger] r@[l];
                &&& f.heads == (if topo == Glm52MoeTopo::Tp8 {
                    8int
                } else if topo == Glm52MoeTopo::Tp4 {
                    16
                } else {
                    64
                })
                &&& f.full_indexer == (l <= 2 || (l - 2) % 4 == 0)
                &&& f.owns_index_cache == f.full_indexer
                &&& f.mlp == Glm52LayerMlp::Dense <==> l < 3
                &&& f.mlp == Glm52LayerMlp::Replicated <==> l >= 3 && topo.is_replicated()
            },
{
    let replicated: bool = topo.uses_tensor_replicated_moe();
    let heads: usize = if replicated {
        GLM52_HEADS / topo.device_count()
    } else {
        GLM52_HEADS
    };
    let mut layers: Vec<Glm52LayerFacts> = Vec::new();
    let mut layer: usize = 0;
    while layer < GLM52_LAYERS
        invariant
            layer <= 78,
            replicated == topo.is_replicated(),
            heads == (if replicated {
                64int / topo.devices()
            } else {
                64
            }),
            layers.len() == layer,
            forall|l: int| 0 <= l < layer ==> #[trigger] layers@[l] == facts_of(l, topo),
        decreases 78 - layer,
    {
        let full_indexer: bool = glm52_layer_has_full_indexer(layer);
        layers.push(
            Glm52LayerFacts {
                heads,
                full_indexer,
                owns_index_cache: full_indexer,
                mlp: if layer < GLM52_DENSE_LAYERS {
                    Glm52LayerMlp::Dense
                } else if replicated {
                    Glm52LayerMlp::Replicated
                } else {
                    Glm52LayerMlp::Moe
                },
            },
        );
        layer = layer + 1;
    }
    assert(layers@ =~= model_facts(topo));
    proof {
        assert(64int / 8 == 8 && 64int / 4 == 16);
        assert forall|l: int| 0 <= l < 78 implies ({
            let f = #[trigger] layers@[l];
            &&& f.heads == (if topo == Glm52MoeTopo::Tp8 {
                8int
            } else if topo == Glm52MoeTopo::Tp4 {
                16
            } else {
                64
            })
            &&& f.full_indexer == (l <= 2 || (l - 2) % 4 == 0)
        }) by {
            assert(layers@[l] == facts_of(l, topo));
        }
    }
    layers
}

/// A model's step is never refused, given that its attention outputs are
/// reduced exactly where its heads are sharded.
pub proof fn a_model_can_walk(topo: Glm52MoeTopo, shape: Glm52WalkShape)
    requires
        shape.all_reduce == topo.is_replicated(),
    ensures
        walkable(model_facts(topo), shape),
{
    let layers = model_facts(topo);
    assert(64int / 8 == 8 && 64int / 4 == 16);
    assert(layers[0].full_indexer);
    assert forall|l: int| 0 <= l < layers.len() implies #[trigger] walk_fault(
        layers,
        l,
        shape,
    ) is None by {
        assert(layers[l] == facts_of(l, topo));
        if l > 0 {
            assert(selected_before(layers, l));
        }
    }
}

/// A launch that only a shared expert of its own, or experts spread over
/// ranks, need.
pub open spec fn spreads_experts(op: Glm52LayerOp) -> bool {
    op is SharedExpert || op is Routed || op is JoinShared || op is AddShared
}

/// A replicated model's feed-forward halves launch the router and the slice
/// bank, or the dense product, and nothing of spread experts.
pub proof fn a_replicated_model_shares_nothing(
    topo: Glm52MoeTopo,
    l: int,
    shape: Glm52WalkShape,
    i: int,
)
    requires
        topo.is_replicated(),
        0 <= l < 78,
        0 <= i < layer_ops(model_facts(topo), l, shape).len(),
    ensures
        !spreads_experts(layer_ops(model_facts(topo), l, shape)[i]),
{
    assert(model_facts(topo)[l] == facts_of(l, topo));
}

/// Where the feed-forward half of a layer run alone is computed.
#[derive(Clone, Copy, Debug, PartialEq, Eq, Structural)]
pub enum Glm52SingleMlp {
    Dense,
    /// Every expert on this rank.
    AllExperts,
    /// Experts spread over ranks, which only a collective step reaches.
    Collective,
}

/// Why a layer cannot run alone.
#[derive(Clone, Copy, Debug, PartialEq, Eq, Structural)]
pub enum Glm52SingleLayerError {
    Layer(Glm52LayerFault),
    NeedsCollective,
}

/// The launches of one layer run alone.
pub open spec fn single_layer_ops(f: Glm52LayerFacts, dense: bool) -> Seq<Glm52LayerOp> {
    seq![Glm52LayerOp::InputNorm] + attention_ops(0, f, false, false, false, true) + seq![
        if dense {
            Glm52LayerOp::Dense { layer: 0 }
        } else {
            Glm52LayerOp::AllExperts { layer: 0 }
        },
    ] + seq![Glm52LayerOp::Finish { odd: false }]
}

/// Plans one layer run alone, on the residual stream as it stands.
pub fn plan_single_layer(f: Glm52LayerFacts, mlp: Glm52SingleMlp, selected: &mut bool) -> (r:
    Result<Vec<Glm52LayerOp>, Glm52SingleLayerError>)
    ensures
        match r {
            Ok(ops) => {
                &&& layer_fault(f, false, *old(selected)) is None
                &&& mlp != Glm52SingleMlp::Collective
                &&& ops@ == single_layer_ops(f, mlp == Glm52SingleMlp::Dense)
                &&& *final(selected)
            },
            Err(Glm52SingleLayerError::Layer(fault)) => {
                &&& layer_fault(f, false, *old(selected)) == Some(fault)
                &&& *final(selected) == *old(selected)
            },
            Err(Glm52SingleLayerError::NeedsCollective) => {
                &&& layer_fault(f, false, *old(selected)) is None
                &&& mlp == Glm52SingleMlp::Collective
                &&& *final(selected)
            },
        },
{
    let mut ops: Vec<Glm52LayerOp> = vec![Glm52LayerOp::InputNorm];
    match plan_attention_half(0, f, false, false, selected, false, true) {
        Ok(mut attention) => {
            ops.append(&mut attention);
        },
        Err(fault) => {
            return Err(Glm52SingleLayerError::Layer(fault));
        },
    }
    match mlp {
        Glm52SingleMlp::Dense => {
            ops.push(Glm52LayerOp::Dense { layer: 0 });
        },
        Glm52SingleMlp::AllExperts => {
            ops.push(Glm52LayerOp::AllExperts { layer: 0 });
        },
        Glm52SingleMlp::Collective => {
            return Err(Glm52SingleLayerError::NeedsCollective);
        },
    }
    ops.push(Glm52LayerOp::Finish { odd: false });
    assert(ops@ =~= single_layer_ops(f, mlp == Glm52SingleMlp::Dense));
    Ok(ops)
}

} // verus!
