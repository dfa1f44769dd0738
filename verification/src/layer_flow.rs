//! What the launches of a step compute: the walk over the layers, with its
//! alternating buffers and fused norms, is the plain residual network.
use vstd::prelude::*;

use crate::layer::{Glm52LayerFacts, Glm52LayerMlp, Glm52LayerOp, Glm52WalkShape};

verus! {

/// The functions that a model's kernels compute. A buffer's contents stand as
/// one number, whatever they are.
pub ghost struct Glm52Kernels {
    pub embed: int,
    pub input_norm: spec_fn(int, int) -> int,
    /// The query that a layer makes of its input.
    pub front_query: spec_fn(int, int) -> int,
    /// The keys and values that a layer makes of its input.
    pub front_rest: spec_fn(int, int) -> int,
    pub index: spec_fn(int, int, int) -> int,
    pub attend: spec_fn(int, int, int, int) -> int,
    pub reduce: spec_fn(int, int) -> int,
    pub add: spec_fn(int, int) -> int,
    pub post_norm: spec_fn(int, int) -> int,
    pub dense: spec_fn(int, int) -> int,
    pub shared: spec_fn(int, int) -> int,
    pub router: spec_fn(int, int) -> int,
    pub routed: spec_fn(int, int, int) -> int,
    pub slices: spec_fn(int, int, int) -> int,
    pub final_norm: spec_fn(int) -> int,
    pub head: spec_fn(int) -> int,
    pub argmax: spec_fn(int) -> int,
}

/// The buffers that the launches read and write.
pub ghost struct Glm52Buffers {
    pub hidden: int,
    pub normed: int,
    pub query: int,
    pub key_value: int,
    /// The attention output of the even and of the odd layers.
    pub even: int,
    pub odd: int,
    pub partial: int,
    pub normed2: int,
    pub mlp_out: int,
    pub shared: int,
    /// The routes of the tokens to the experts.
    pub route: int,
    pub routed: int,
    /// The sparse selection.
    pub selection: int,
    pub captured: Map<usize, int>,
    pub final_normed: int,
    pub logits: int,
    pub token: int,
}

impl Glm52Buffers {
    /// The attention output of a layer.
    pub open spec fn attn(self, odd: bool) -> int {
        if odd {
            self.odd
        } else {
            self.even
        }
    }

    /// The attention output of a layer replaced.
    pub open spec fn with_attn(self, odd: bool, value: int) -> Glm52Buffers {
        if odd {
            Glm52Buffers { odd: value, ..self }
        } else {
            Glm52Buffers { even: value, ..self }
        }
    }
}

/// What one launch does to the buffers.
pub open spec fn launch(m: Glm52Kernels, s: Glm52Buffers, op: Glm52LayerOp) -> Glm52Buffers {
    match op {
        Glm52LayerOp::Embed => Glm52Buffers { hidden: m.embed, ..s },
        Glm52LayerOp::InputNorm => Glm52Buffers { normed: (m.input_norm)(0, s.hidden), ..s },
        Glm52LayerOp::Indexer { layer, .. } => Glm52Buffers {
            selection: (m.index)(layer as int, s.normed, s.query),
            ..s
        },
        Glm52LayerOp::Attend { layer, odd } => s.with_attn(
            odd,
            (m.attend)(layer as int, s.query, s.key_value, s.selection),
        ),
        Glm52LayerOp::AttendPartial { layer } => Glm52Buffers {
            partial: (m.attend)(layer as int, s.query, s.key_value, s.selection),
            ..s
        },
        Glm52LayerOp::AllReduce { layer, odd } => s.with_attn(
            odd,
            (m.reduce)(layer as int, s.partial),
        ),
        Glm52LayerOp::PostNorm { layer, odd, first } => {
            let sum = (m.add)(
                s.attn(odd),
                if first {
                    s.hidden
                } else {
                    s.attn(!odd)
                },
            );
            Glm52Buffers {
                normed2: (m.post_norm)(layer as int, sum),
                ..s.with_attn(odd, sum)
            }
        },
        Glm52LayerOp::Dense { layer } => Glm52Buffers {
            mlp_out: (m.dense)(layer as int, s.normed2),
            ..s
        },
        Glm52LayerOp::AllExperts { layer } => Glm52Buffers {
            mlp_out: (m.add)(
                (m.routed)(layer as int, s.normed2, (m.router)(layer as int, s.normed2)),
                (m.shared)(layer as int, s.normed2),
            ),
            ..s
        },
        Glm52LayerOp::SharedExpert { layer } => Glm52Buffers {
            shared: (m.shared)(layer as int, s.normed2),
            ..s
        },
        Glm52LayerOp::Routed { layer, .. } => Glm52Buffers {
            routed: (m.routed)(layer as int, s.normed2, s.route),
            ..s
        },
        Glm52LayerOp::Router { layer } => Glm52Buffers {
            route: (m.router)(layer as int, s.normed2),
            ..s
        },
        Glm52LayerOp::SliceBank { layer, .. } => Glm52Buffers {
            mlp_out: (m.slices)(layer as int, s.normed2, s.route),
            ..s
        },
        Glm52LayerOp::FrontQuery { layer } => Glm52Buffers {
            query: (m.front_query)(layer as int, s.normed),
            ..s
        },
        Glm52LayerOp::FrontRest { layer } => Glm52Buffers {
            key_value: (m.front_rest)(layer as int, s.normed),
            ..s
        },
        Glm52LayerOp::AddShared => Glm52Buffers { mlp_out: (m.add)(s.routed, s.shared), ..s },
        Glm52LayerOp::FinishFused { odd, next } => {
            let sum = (m.add)(s.attn(odd), s.mlp_out);
            Glm52Buffers { normed: (m.input_norm)(next as int, sum), ..s.with_attn(odd, sum) }
        },
        Glm52LayerOp::Finish { odd } => Glm52Buffers {
            hidden: (m.add)(s.attn(odd), s.mlp_out),
            ..s
        },
        Glm52LayerOp::Capture { feature, odd } => Glm52Buffers {
            captured: s.captured.insert(feature, s.attn(odd)),
            ..s
        },
        Glm52LayerOp::FinalNorm => Glm52Buffers { final_normed: (m.final_norm)(s.hidden), ..s },
        Glm52LayerOp::Head => Glm52Buffers { logits: (m.head)(s.final_normed), ..s },
        Glm52LayerOp::Argmax => Glm52Buffers { token: (m.argmax)(s.logits), ..s },
        Glm52LayerOp::JoinIndexer | Glm52LayerOp::JoinShared => s,
    }
}

/// What a list of launches does to the buffers.
pub open spec fn run(m: Glm52Kernels, s: Glm52Buffers, ops: Seq<Glm52LayerOp>) -> Glm52Buffers
    decreases ops.len(),
{
    if ops.len() == 0 {
        s
    } else {
        launch(m, run(m, s, ops.drop_last()), ops.last())
    }
}

/// The selection that a layer attends by, given the one before it and the
/// layer's input.
pub open spec fn select(
    m: Glm52Kernels,
    f: Glm52LayerFacts,
    l: int,
    before: int,
    residual: int,
) -> int {
    if f.full_indexer {
        let normed = (m.input_norm)(l, residual);
        (m.index)(l, normed, (m.front_query)(l, normed))
    } else {
        before
    }
}

/// The residual after a layer's attention.
pub open spec fn after_attention(
    m: Glm52Kernels,
    l: int,
    all_reduce: bool,
    selection: int,
    residual: int,
) -> int {
    let normed = (m.input_norm)(l, residual);
    let out = (m.attend)(l, (m.front_query)(l, normed), (m.front_rest)(l, normed), selection);
    (m.add)(
        if all_reduce {
            (m.reduce)(l, out)
        } else {
            out
        },
        residual,
    )
}

/// What a layer's feed-forward half adds to the residual.
pub open spec fn feed_forward(m: Glm52Kernels, l: int, mlp: Glm52LayerMlp, mid: int) -> int {
    let normed = (m.post_norm)(l, mid);
    match mlp {
        Glm52LayerMlp::Dense => (m.dense)(l, normed),
        Glm52LayerMlp::Moe => (m.add)(
            (m.routed)(l, normed, (m.router)(l, normed)),
            (m.shared)(l, normed),
        ),
        Glm52LayerMlp::Replicated => (m.slices)(l, normed, (m.router)(l, normed)),
    }
}

/// The residual and the selection with which layer `l` is entered.
pub open spec fn stream(
    m: Glm52Kernels,
    layers: Seq<Glm52LayerFacts>,
    l: int,
    all_reduce: bool,
    start: int,
) -> (int, int)
    decreases l,
{
    if l <= 0 {
        (m.embed, start)
    } else {
        let (residual, before) = stream(m, layers, l - 1, all_reduce, start);
        let f = layers[l - 1];
        let selection = select(m, f, l - 1, before, residual);
        let mid = after_attention(m, l - 1, all_reduce, selection, residual);
        ((m.add)(mid, feed_forward(m, l - 1, f.mlp, mid)), selection)
    }
}

proof fn lemma_run_one(m: Glm52Kernels, s: Glm52Buffers, op: Glm52LayerOp)
    ensures
        run(m, s, seq![op]) == launch(m, s, op),
{
    let one = seq![op];
    assert(one.drop_last() =~= Seq::empty());
    assert(run(m, s, one.drop_last()) == s);
}

proof fn lemma_run_joins(
    m: Glm52Kernels,
    s: Glm52Buffers,
    a: Seq<Glm52LayerOp>,
    b: Seq<Glm52LayerOp>,
)
    ensures
        run(m, s, a + b) == run(m, run(m, s, a), b),
    decreases b.len(),
{
    if b.len() == 0 {
        assert(a + b =~= a);
    } else {
        assert((a + b).drop_last() =~= a + b.drop_last());
        lemma_run_joins(m, s, a, b.drop_last());
    }
}

proof fn lemma_run_if(
    m: Glm52Kernels,
    s: Glm52Buffers,
    a: Seq<Glm52LayerOp>,
    cond: bool,
    op: Glm52LayerOp,
)
    ensures
        run(m, s, a + crate::layer::op_if(cond, op)) == (if cond {
            launch(m, run(m, s, a), op)
        } else {
            run(m, s, a)
        }),
{
    lemma_run_joins(m, s, a, crate::layer::op_if(cond, op));
    if cond {
        lemma_run_one(m, run(m, s, a), op);
    }
}

proof fn lemma_run_then(m: Glm52Kernels, s: Glm52Buffers, a: Seq<Glm52LayerOp>, op: Glm52LayerOp)
    ensures
        run(m, s, a + seq![op]) == launch(m, run(m, s, a), op),
{
    lemma_run_joins(m, s, a, seq![op]);
    lemma_run_one(m, run(m, s, a), op);
}

/// What the attention half leaves behind.
proof fn lemma_attention(
    m: Glm52Kernels,
    s: Glm52Buffers,
    l: usize,
    f: Glm52LayerFacts,
    all_reduce: bool,
    aside: bool,
    odd: bool,
    residual: int,
)
    requires
        s.normed == (m.input_norm)(l as int, residual),
        residual == (if l == 0 {
            s.hidden
        } else {
            s.attn(!odd)
        }),
    ensures
        ({
            let r = run(
                m,
                s,
                crate::layer::attention_ops(l, f, all_reduce, aside, odd, l == 0),
            );
            let selection = select(m, f, l as int, s.selection, residual);
            let mid = after_attention(m, l as int, all_reduce, selection, residual);
            &&& r.selection == selection
            &&& r.attn(odd) == mid
            &&& r.normed2 == (m.post_norm)(l as int, mid)
            &&& r.captured == s.captured
        }),
{
    let a0 = seq![Glm52LayerOp::FrontQuery { layer: l }];
    let i = Glm52LayerOp::Indexer { layer: l, aside };
    let a1 = a0 + crate::layer::op_if(f.full_indexer, i);
    let a2 = a1 + seq![Glm52LayerOp::FrontRest { layer: l }];
    let a3 = a2 + crate::layer::op_if(f.full_indexer && aside, Glm52LayerOp::JoinIndexer);
    let at = Glm52LayerOp::Attend { layer: l, odd };
    let a4 = a3 + crate::layer::op_if(!all_reduce, at);
    let ap = Glm52LayerOp::AttendPartial { layer: l };
    let a5 = a4 + crate::layer::op_if(all_reduce, ap);
    let ar = Glm52LayerOp::AllReduce { layer: l, odd };
    let a6 = a5 + crate::layer::op_if(all_reduce, ar);
    lemma_run_one(m, s, Glm52LayerOp::FrontQuery { layer: l });
    lemma_run_if(m, s, a0, f.full_indexer, i);
    lemma_run_then(m, s, a1, Glm52LayerOp::FrontRest { layer: l });
    lemma_run_if(m, s, a2, f.full_indexer && aside, Glm52LayerOp::JoinIndexer);
    lemma_run_if(m, s, a3, !all_reduce, at);
    lemma_run_if(m, s, a4, all_reduce, ap);
    lemma_run_if(m, s, a5, all_reduce, ar);
    lemma_run_then(m, s, a6, Glm52LayerOp::PostNorm { layer: l, odd, first: l == 0 });
}

/// What the feed-forward half leaves behind.
proof fn lemma_mlp(
    m: Glm52Kernels,
    s: Glm52Buffers,
    l: usize,
    mlp: Glm52LayerMlp,
    rows: usize,
    global_rows: usize,
    mid: int,
)
    requires
        s.normed2 == (m.post_norm)(l as int, mid),
    ensures
        ({
            let r = run(m, s, crate::layer::mlp_ops(l, mlp, rows, global_rows));
            &&& r.mlp_out == feed_forward(m, l as int, mlp, mid)
            &&& r.even == s.even && r.odd == s.odd
            &&& r.selection == s.selection
            &&& r.captured == s.captured
        }),
{
    match mlp {
        Glm52LayerMlp::Dense => {
            lemma_run_one(m, s, Glm52LayerOp::Dense { layer: l });
        },
        Glm52LayerMlp::Moe => {
            let a0 = seq![Glm52LayerOp::SharedExpert { layer: l }];
            let a1 = a0 + seq![Glm52LayerOp::Router { layer: l }];
            let routed = Glm52LayerOp::Routed { layer: l, rows, global_rows };
            let a2 = a1 + seq![routed];
            let a3 = a2 + seq![Glm52LayerOp::JoinShared];
            lemma_run_one(m, s, Glm52LayerOp::SharedExpert { layer: l });
            lemma_run_then(m, s, a0, Glm52LayerOp::Router { layer: l });
            lemma_run_then(m, s, a1, routed);
            lemma_run_then(m, s, a2, Glm52LayerOp::JoinShared);
            lemma_run_then(m, s, a3, Glm52LayerOp::AddShared);
        },
        Glm52LayerMlp::Replicated => {
            let a0 = seq![Glm52LayerOp::Router { layer: l }];
            lemma_run_one(m, s, Glm52LayerOp::Router { layer: l });
            lemma_run_then(m, s, a0, Glm52LayerOp::SliceBank { layer: l, rows });
        },
    }
}

/// What closing a layer leaves behind.
proof fn lemma_close(m: Glm52Kernels, s: Glm52Buffers, l: usize, count: nat, odd: bool)
    requires
        l < count <= usize::MAX,
    ensures
        ({
            let r = run(m, s, crate::layer::close_ops(l, count, odd));
            let sum = (m.add)(s.attn(odd), s.mlp_out);
            &&& r.selection == s.selection
            &&& l + 1 == count ==> r.hidden == sum
            &&& l + 1 < count ==> {
                &&& r.attn(odd) == sum
                &&& r.normed == (m.input_norm)(l + 1, sum)
                &&& crate::layer::feature_after(l as int) matches Some(f) ==> r.captured
                    == s.captured.insert(f, sum)
            }
            &&& crate::layer::feature_after(l as int) is None ==> r.captured == s.captured
            &&& crate::layer::feature_after(l as int) matches Some(f) ==> r.captured.remove(f)
                == s.captured.remove(f)
        }),
{
    let fused = Glm52LayerOp::FinishFused { odd, next: (l + 1) as usize };
    let a0 = crate::layer::op_if(l + 1 < count, fused);
    let finish = Glm52LayerOp::Finish { odd };
    let a1 = a0 + crate::layer::op_if(l + 1 >= count, finish);
    assert(Seq::<Glm52LayerOp>::empty() + a0 =~= a0);
    lemma_run_if(m, s, Seq::empty(), l + 1 < count, fused);
    lemma_run_if(m, s, a0, l + 1 >= count, finish);
    let closed = crate::layer::close_ops(l, count, odd);
    match crate::layer::feature_after(l as int) {
        Some(feature) => {
            lemma_run_then(m, s, a1, Glm52LayerOp::Capture { feature, odd });
            let r = run(m, s, closed);
            assert(r.captured.remove(feature) =~= s.captured.remove(feature));
        },
        None => {
            assert(closed =~= a1);
        },
    }
}

/// Whether the buffers hold what layer `l` of the walk starts from.
pub open spec fn enters(
    m: Glm52Kernels,
    layers: Seq<Glm52LayerFacts>,
    l: int,
    all_reduce: bool,
    start: int,
    s: Glm52Buffers,
) -> bool {
    let (residual, selection) = stream(m, layers, l, all_reduce, start);
    &&& residual == (if l == 0 {
        s.hidden
    } else {
        s.attn((l - 1) % 2 == 1)
    })
    &&& s.normed == (m.input_norm)(l, residual)
    &&& s.selection == selection
    &&& forall|j: int|
        0 <= j < l ==> (#[trigger] crate::layer::feature_after(j) matches Some(f)
            ==> s.captured.contains_key(f) && s.captured[f] == stream(
            m,
            layers,
            j + 1,
            all_reduce,
            start,
        ).0)
}

/// One layer takes what it is entered with to what the next one starts from.
proof fn lemma_layer(
    m: Glm52Kernels,
    layers: Seq<Glm52LayerFacts>,
    l: int,
    shape: Glm52WalkShape,
    start: int,
    s: Glm52Buffers,
)
    requires
        0 <= l < layers.len() <= usize::MAX,
        enters(m, layers, l, shape.all_reduce, start, s),
    ensures
        ({
            let r = run(m, s, crate::layer::layer_ops(layers, l, shape));
            &&& l + 1 < layers.len() ==> enters(m, layers, l + 1, shape.all_reduce, start, r)
            &&& l + 1 == layers.len() ==> {
                &&& r.hidden == stream(m, layers, l + 1, shape.all_reduce, start).0
                &&& forall|j: int|
                    0 <= j < l ==> (#[trigger] crate::layer::feature_after(j) matches Some(f)
                        ==> r.captured.contains_key(f) && r.captured[f] == stream(
                        m,
                        layers,
                        j + 1,
                        shape.all_reduce,
                        start,
                    ).0)
            }
        }),
{
    let odd = l % 2 == 1;
    let f = layers[l];
    let (residual, before) = stream(m, layers, l, shape.all_reduce, start);
    let selection = select(m, f, l, before, residual);
    let mid = after_attention(m, l, shape.all_reduce, selection, residual);
    let attention = crate::layer::attention_ops(
        l as usize,
        f,
        shape.all_reduce,
        shape.aside,
        odd,
        l == 0,
    );
    let mlp = crate::layer::mlp_ops(l as usize, f.mlp, shape.rows, shape.global_rows);
    let close = crate::layer::close_ops(l as usize, layers.len(), odd);
    let s1 = run(m, s, attention);
    let s2 = run(m, s1, mlp);
    let s3 = run(m, s2, close);
    assert(((l - 1) % 2 == 1) == !odd || l == 0);
    lemma_attention(m, s, l as usize, f, shape.all_reduce, shape.aside, odd, residual);
    lemma_mlp(m, s1, l as usize, f.mlp, shape.rows, shape.global_rows, mid);
    lemma_close(m, s2, l as usize, layers.len(), odd);
    lemma_run_joins(m, s, attention, mlp);
    lemma_run_joins(m, s, attention + mlp, close);
    let next = stream(m, layers, l + 1, shape.all_reduce, start);
    assert(next == ((m.add)(mid, feed_forward(m, l, f.mlp, mid)), selection));
    assert forall|j: int| 0 <= j < l implies (#[trigger] crate::layer::feature_after(
        j,
    ) matches Some(g) ==> s3.captured.contains_key(g) && s3.captured[g] == stream(
        m,
        layers,
        j + 1,
        shape.all_reduce,
        start,
    ).0) by {
        if let Some(g) = crate::layer::feature_after(j) {
            if let Some(h) = crate::layer::feature_after(l) {
                assert(g != h);
                assert(s3.captured.remove(h).contains_key(g));
                assert(s3.captured.remove(h)[g] == s.captured.remove(h)[g]);
            }
        }
    }
}

/// After the first `upto` layers the buffers hold what the next one starts
/// from.
proof fn lemma_walk(
    m: Glm52Kernels,
    layers: Seq<Glm52LayerFacts>,
    upto: int,
    shape: Glm52WalkShape,
    s: Glm52Buffers,
)
    requires
        0 <= upto < layers.len() <= usize::MAX,
    ensures
        enters(
            m,
            layers,
            upto,
            shape.all_reduce,
            s.selection,
            run(m, s, crate::layer::walk_ops(layers, upto, shape)),
        ),
    decreases upto,
{
    if upto <= 0 {
        let a0 = seq![Glm52LayerOp::Embed];
        lemma_run_one(m, s, Glm52LayerOp::Embed);
        lemma_run_then(m, s, a0, Glm52LayerOp::InputNorm);
    } else {
        lemma_walk(m, layers, upto - 1, shape, s);
        let before = crate::layer::walk_ops(layers, upto - 1, shape);
        lemma_run_joins(m, s, before, crate::layer::layer_ops(layers, upto - 1, shape));
        lemma_layer(m, layers, upto - 1, shape, s.selection, run(m, s, before));
    }
}

/// A step's launches compute the plain residual network: whatever the kernels
/// compute, the token is the argmax of the head over the residual that comes
/// out of the last layer, each layer attends by the selection of the nearest
/// selecting layer at or below it, and each draft feature is the residual that
/// leaves its layer.
pub proof fn step_body_is_the_residual_network(
    m: Glm52Kernels,
    layers: Seq<Glm52LayerFacts>,
    shape: Glm52WalkShape,
    s: Glm52Buffers,
)
    requires
        0 < layers.len() <= usize::MAX,
    ensures
        ({
            let r = run(m, s, crate::layer::step_body_ops(layers, shape));
            let count = layers.len() as int;
            &&& r.token == (m.argmax)(
                (m.head)(
                    (m.final_norm)(stream(m, layers, count, shape.all_reduce, s.selection).0),
                ),
            )
            &&& forall|j: int|
                0 <= j < count - 1 ==> (#[trigger] crate::layer::feature_after(j) matches Some(f)
                    ==> r.captured.contains_key(f) && r.captured[f] == stream(
                    m,
                    layers,
                    j + 1,
                    shape.all_reduce,
                    s.selection,
                ).0)
        }),
{
    let last = layers.len() - 1;
    let before = crate::layer::walk_ops(layers, last, shape);
    lemma_walk(m, layers, last, shape, s);
    let s1 = run(m, s, before);
    lemma_layer(m, layers, last, shape, s.selection, s1);
    lemma_run_joins(m, s, before, crate::layer::layer_ops(layers, last, shape));
    let a0 = crate::layer::walk_ops(layers, layers.len() as int, shape);
    let a1 = a0 + seq![Glm52LayerOp::FinalNorm];
    let a2 = a1 + seq![Glm52LayerOp::Head];
    lemma_run_then(m, s, a0, Glm52LayerOp::FinalNorm);
    lemma_run_then(m, s, a1, Glm52LayerOp::Head);
    lemma_run_then(m, s, a2, Glm52LayerOp::Argmax);
}

/// In a walk that can run, the first layer selects, so that no layer attends
/// by a selection left over from an earlier step.
pub proof fn no_selection_is_left_over(
    m: Glm52Kernels,
    layers: Seq<Glm52LayerFacts>,
    shape: Glm52WalkShape,
    l: int,
    start: int,
    other: int,
)
    requires
        crate::layer::walkable(layers, shape),
        0 < l <= layers.len(),
    ensures
        layers[0].full_indexer,
        stream(m, layers, l, shape.all_reduce, start) == stream(
            m,
            layers,
            l,
            shape.all_reduce,
            other,
        ),
    decreases l,
{
    assert(crate::layer::walk_fault(layers, 0, shape) is None);
    assert(!crate::layer::selected_before(layers, 0));
    assert(stream(m, layers, 0, shape.all_reduce, start).0 == stream(
        m,
        layers,
        0,
        shape.all_reduce,
        other,
    ).0);
    if l > 1 {
        no_selection_is_left_over(m, layers, shape, l - 1, start, other);
    }
}

/// A layer run alone adds to the residual stream what the same layer adds in
/// the network.
pub proof fn a_single_layer_is_a_network_layer(
    m: Glm52Kernels,
    s: Glm52Buffers,
    f: Glm52LayerFacts,
    dense: bool,
)
    ensures
        ({
            let r = run(m, s, crate::layer::single_layer_ops(f, dense));
            let selection = select(m, f, 0, s.selection, s.hidden);
            let mid = after_attention(m, 0, false, selection, s.hidden);
            let mlp = if dense {
                Glm52LayerMlp::Dense
            } else {
                Glm52LayerMlp::Moe
            };
            &&& r.hidden == (m.add)(mid, feed_forward(m, 0, mlp, mid))
            &&& r.selection == selection
        }),
{
    let norm = seq![Glm52LayerOp::InputNorm];
    let attention = crate::layer::attention_ops(0, f, false, false, false, true);
    let mlp = if dense {
        Glm52LayerOp::Dense { layer: 0 }
    } else {
        Glm52LayerOp::AllExperts { layer: 0 }
    };
    lemma_run_one(m, s, Glm52LayerOp::InputNorm);
    lemma_run_joins(m, s, norm, attention);
    lemma_attention(m, run(m, s, norm), 0, f, false, false, false, s.hidden);
    lemma_run_then(m, s, norm + attention, mlp);
    lemma_run_then(m, s, norm + attention + seq![mlp], Glm52LayerOp::Finish { odd: false });
}

} // verus!
