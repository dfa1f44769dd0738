//! What the launches of a draft round compute: the requests of a round share
//! their scratch buffers, and yet each drafts as if it were alone.
use vstd::prelude::*;

use crate::dspark::Glm52DraftRequest;
use crate::dspark_model::DsparkOp;

verus! {

/// The functions that the drafter's kernels compute. A request's rows in a
/// buffer stand as one number, whatever they are; a kernel over a whole batch
/// computes each request's rows from that request's rows.
pub ghost struct DraftKernels {
    pub embed: spec_fn(int) -> int,
    pub context: spec_fn(int, int) -> int,
    pub input_norm: spec_fn(int, int) -> int,
    pub query: spec_fn(int, int) -> int,
    pub key: spec_fn(int, int, int) -> int,
    pub value: spec_fn(int, int, int) -> int,
    pub rope_query: spec_fn(int, int, int) -> int,
    pub rope_key: spec_fn(int, int, int) -> int,
    pub put: spec_fn(int, int, int, int) -> int,
    pub attend: spec_fn(int, int, int, int, int) -> int,
    pub output: spec_fn(int, int) -> int,
    pub post_norm: spec_fn(int, int) -> int,
    pub gate: spec_fn(int, int) -> int,
    pub up: spec_fn(int, int) -> int,
    pub act: spec_fn(int, int) -> int,
    pub down: spec_fn(int, int) -> int,
    pub plus: spec_fn(int, int) -> int,
    pub final_norm: spec_fn(int) -> int,
    pub head: spec_fn(int) -> int,
    pub sample: spec_fn(int, int, int) -> int,
}

/// What the requests bring: the anchor tokens and the pending context rows.
pub ghost struct DraftInputs {
    pub anchors: Seq<int>,
    pub pending: Seq<int>,
}

/// The buffers of a round. Those of the tail hold one request at a time; the
/// caches belong to a layer and a request.
pub ghost struct DraftBuffers {
    pub hidden: Seq<int>,
    pub normed: Seq<int>,
    pub query: Seq<int>,
    pub attn: Seq<int>,
    pub out: Seq<int>,
    pub gate: Seq<int>,
    pub up: Seq<int>,
    pub act: Seq<int>,
    pub context: Seq<int>,
    pub logits: Seq<int>,
    pub drafts: Seq<Seq<int>>,
    pub tail_context: int,
    pub tail_block: int,
    pub key_tail: int,
    pub value_tail: int,
    pub keys: Map<(int, int), int>,
    pub values: Map<(int, int), int>,
}

/// The token that a sampling step goes on from: the last draft, or the anchor
/// before there is one.
pub open spec fn previous(anchor: int, drafts: Seq<int>) -> int {
    if drafts.len() == 0 {
        anchor
    } else {
        drafts.last()
    }
}

/// What one launch does to the buffers.
pub open spec fn launch(k: DraftKernels, x: DraftInputs, s: DraftBuffers, op: DsparkOp) -> DraftBuffers {
    let n = x.anchors.len();
    match op {
        DsparkOp::Embed { .. } => DraftBuffers {
            hidden: Seq::new(n, |i: int| (k.embed)(x.anchors[i])),
            ..s
        },
        DsparkOp::ProjectContext { request, rows } => DraftBuffers {
            context: s.context.update(
                request as int,
                (k.context)(x.pending[request as int], rows as int),
            ),
            ..s
        },
        DsparkOp::InputNorm { layer } => DraftBuffers {
            normed: Seq::new(n, |i: int| (k.input_norm)(layer as int, s.hidden[i])),
            ..s
        },
        DsparkOp::Query { layer, .. } => DraftBuffers {
            query: Seq::new(n, |i: int| (k.query)(layer as int, s.normed[i])),
            ..s
        },
        DsparkOp::TailContext { request, .. } => DraftBuffers {
            tail_context: s.context[request as int],
            ..s
        },
        DsparkOp::TailBlock { from, .. } => DraftBuffers {
            tail_block: s.normed[from as int / 8],
            ..s
        },
        DsparkOp::Key { layer, .. } => DraftBuffers {
            key_tail: (k.key)(layer as int, s.tail_context, s.tail_block),
            ..s
        },
        DsparkOp::Value { layer, .. } => DraftBuffers {
            value_tail: (k.value)(layer as int, s.tail_context, s.tail_block),
            ..s
        },
        DsparkOp::NormRope { layer, row_offset, query_start, key_start, .. } => {
            let at = row_offset as int / 8;
            DraftBuffers {
                query: s.query.update(
                    at,
                    (k.rope_query)(layer as int, s.query[at], query_start as int),
                ),
                key_tail: (k.rope_key)(layer as int, s.key_tail, key_start as int),
                ..s
            }
        },
        DsparkOp::CacheKeys { layer, request, at, rows } => {
            let place = (layer as int, request as int);
            DraftBuffers {
                keys: s.keys.insert(
                    place,
                    (k.put)(s.keys[place], s.key_tail, at as int, rows as int),
                ),
                ..s
            }
        },
        DsparkOp::CacheValues { layer, request, at, rows } => {
            let place = (layer as int, request as int);
            DraftBuffers {
                values: s.values.insert(
                    place,
                    (k.put)(s.values[place], s.value_tail, at as int, rows as int),
                ),
                ..s
            }
        },
        DsparkOp::Attend { layer, request, row_offset, kv_len, .. } => {
            let at = row_offset as int / 8;
            let place = (layer as int, request as int);
            DraftBuffers {
                attn: s.attn.update(
                    at,
                    (k.attend)(
                        layer as int,
                        s.query[at],
                        s.keys[place],
                        s.values[place],
                        kv_len as int,
                    ),
                ),
                ..s
            }
        },
        DsparkOp::Output { layer } => DraftBuffers {
            out: Seq::new(n, |i: int| (k.output)(layer as int, s.attn[i])),
            ..s
        },
        DsparkOp::PostNorm { layer } => {
            let sums = Seq::new(n, |i: int| (k.plus)(s.hidden[i], s.out[i]));
            DraftBuffers {
                hidden: sums,
                normed: Seq::new(n, |i: int| (k.post_norm)(layer as int, sums[i])),
                ..s
            }
        },
        DsparkOp::Gate { layer, .. } => DraftBuffers {
            gate: Seq::new(n, |i: int| (k.gate)(layer as int, s.normed[i])),
            ..s
        },
        DsparkOp::Up { layer, .. } => DraftBuffers {
            up: Seq::new(n, |i: int| (k.up)(layer as int, s.normed[i])),
            ..s
        },
        DsparkOp::SwiGlu => DraftBuffers {
            act: Seq::new(n, |i: int| (k.act)(s.gate[i], s.up[i])),
            ..s
        },
        DsparkOp::Down { layer } => DraftBuffers {
            out: Seq::new(n, |i: int| (k.down)(layer as int, s.act[i])),
            ..s
        },
        DsparkOp::Add => DraftBuffers {
            hidden: Seq::new(n, |i: int| (k.plus)(s.hidden[i], s.out[i])),
            ..s
        },
        DsparkOp::FinalNorm => DraftBuffers {
            normed: Seq::new(n, |i: int| (k.final_norm)(s.hidden[i])),
            ..s
        },
        DsparkOp::Head => DraftBuffers {
            logits: Seq::new(n, |i: int| (k.head)(s.normed[i])),
            ..s
        },
        DsparkOp::Sample { position, .. } => DraftBuffers {
            drafts: Seq::new(
                n,
                |i: int|
                    s.drafts[i].push(
                        (k.sample)(
                            s.logits[i],
                            position as int,
                            previous(x.anchors[i], s.drafts[i]),
                        ),
                    ),
            ),
            ..s
        },
    }
}

/// What a list of launches does to the buffers.
pub open spec fn run(k: DraftKernels, x: DraftInputs, s: DraftBuffers, ops: Seq<DsparkOp>) -> DraftBuffers
    decreases ops.len(),
{
    if ops.len() == 0 {
        s
    } else {
        launch(k, x, run(k, x, s, ops.drop_last()), ops.last())
    }
}

/// A request's rotated new keys in one layer.
pub open spec fn own_keys(
    k: DraftKernels,
    layer: int,
    q: Glm52DraftRequest,
    context: int,
    normed: int,
) -> int {
    (k.rope_key)(layer, (k.key)(layer, context, normed), q.key_start as int)
}

/// A request's key cache behind one layer.
pub open spec fn own_key_cache(
    k: DraftKernels,
    layer: int,
    q: Glm52DraftRequest,
    context: int,
    normed: int,
    before: int,
) -> int {
    (k.put)(before, own_keys(k, layer, q, context, normed), q.key_start as int, q.tail_len as int)
}

/// A request's value cache behind one layer.
pub open spec fn own_value_cache(
    k: DraftKernels,
    layer: int,
    q: Glm52DraftRequest,
    context: int,
    normed: int,
    before: int,
) -> int {
    (k.put)(
        before,
        (k.value)(layer, context, normed),
        q.key_start as int,
        q.tail_len as int,
    )
}

/// A request's attention output in one layer.
pub open spec fn own_attention(
    k: DraftKernels,
    layer: int,
    q: Glm52DraftRequest,
    context: int,
    normed: int,
    keys: int,
    values: int,
) -> int {
    (k.attend)(
        layer,
        (k.rope_query)(layer, (k.query)(layer, normed), q.query_start as int),
        own_key_cache(k, layer, q, context, normed, keys),
        own_value_cache(k, layer, q, context, normed, values),
        q.attend_len as int,
    )
}

/// A request's rows behind one layer, computed from nothing but its own rows,
/// context and caches.
pub open spec fn own_layer(
    k: DraftKernels,
    layer: int,
    q: Glm52DraftRequest,
    context: int,
    hidden: int,
    keys: int,
    values: int,
) -> int {
    let attn = own_attention(k, layer, q, context, (k.input_norm)(layer, hidden), keys, values);
    let sum = (k.plus)(hidden, (k.output)(layer, attn));
    let normed = (k.post_norm)(layer, sum);
    (k.plus)(
        sum,
        (k.down)(layer, (k.act)((k.gate)(layer, normed), (k.up)(layer, normed))),
    )
}

/// A request's rows behind the first `layers` layers; its caches are given
/// layer by layer.
pub open spec fn own_rows(
    k: DraftKernels,
    layers: int,
    q: Glm52DraftRequest,
    anchor: int,
    pending: int,
    keys: Seq<int>,
    values: Seq<int>,
) -> int
    decreases layers,
{
    if layers <= 0 {
        (k.embed)(anchor)
    } else {
        own_layer(
            k,
            layers - 1,
            q,
            (k.context)(pending, q.context_len as int),
            own_rows(k, layers - 1, q, anchor, pending, keys, values),
            keys[layers - 1],
            values[layers - 1],
        )
    }
}

/// The first `count` drafts of a request, sampled from its own logits.
pub open spec fn own_drafts(k: DraftKernels, logits: int, anchor: int, count: int) -> Seq<int>
    decreases count,
{
    if count <= 0 {
        Seq::empty()
    } else {
        let before = own_drafts(k, logits, anchor, count - 1);
        before.push((k.sample)(logits, count, previous(anchor, before)))
    }
}

proof fn lemma_run_concat(
    k: DraftKernels,
    x: DraftInputs,
    s: DraftBuffers,
    a: Seq<DsparkOp>,
    b: Seq<DsparkOp>,
)
    ensures
        run(k, x, s, a + b) == run(k, x, run(k, x, s, a), b),
    decreases b.len(),
{
    if b.len() == 0 {
        assert(a + b =~= a);
    } else {
        lemma_run_concat(k, x, s, a, b.drop_last());
        assert((a + b).drop_last() =~= a + b.drop_last());
    }
}

/// Whether the buffers have a place for each of `n` requests.
pub open spec fn shaped(s: DraftBuffers, n: nat) -> bool {
    &&& s.hidden.len() == n
    &&& s.normed.len() == n
    &&& s.query.len() == n
    &&& s.attn.len() == n
    &&& s.context.len() == n
    &&& s.drafts.len() == n
}

/// What the launches of one request in one layer do.
proof fn lemma_request(
    k: DraftKernels,
    x: DraftInputs,
    s: DraftBuffers,
    layer: usize,
    i: usize,
    q: Glm52DraftRequest,
)
    requires
        shaped(s, x.anchors.len()),
        i < x.anchors.len(),
        q.row_offset == 8 * i,
        s.query[i as int] == (k.query)(layer as int, s.normed[i as int]),
    ensures
        ({
            let r = run(k, x, s, crate::dspark_model::request_ops(layer, i, q));
            let c = s.context[i as int];
            let m = s.normed[i as int];
            let place = (layer as int, i as int);
            &&& shaped(r, x.anchors.len())
            &&& r.hidden == s.hidden
            &&& r.normed == s.normed
            &&& r.context == s.context
            &&& r.drafts == s.drafts
            &&& r.query.len() == s.query.len()
            &&& forall|j: int| 0 <= j < s.query.len() && j != i ==> r.query[j] == s.query[j]
            &&& r.attn == s.attn.update(
                i as int,
                own_attention(k, layer as int, q, c, m, s.keys[place], s.values[place]),
            )
            &&& r.keys == s.keys.insert(
                place,
                own_key_cache(k, layer as int, q, c, m, s.keys[place]),
            )
            &&& r.values == s.values.insert(
                place,
                own_value_cache(k, layer as int, q, c, m, s.values[place]),
            )
        }),
{
    let ops = crate::dspark_model::request_ops(layer, i, q);
    reveal_with_fuel(run, 9);
    assert(ops.len() == 8);
    let d1 = ops.drop_last();
    let d2 = d1.drop_last();
    let d3 = d2.drop_last();
    let d4 = d3.drop_last();
    let d5 = d4.drop_last();
    let d6 = d5.drop_last();
    let d7 = d6.drop_last();
    assert(d7.drop_last().len() == 0);
    assert(d1.last() == ops[6] && d2.last() == ops[5] && d3.last() == ops[4] && d4.last() == ops[3]
        && d5.last() == ops[2] && d6.last() == ops[1] && d7.last() == ops[0]);
    assert(q.row_offset as int / 8 == i as int);
}

/// Whether the requests stand in the batch one behind the other.
pub open spec fn stacked(requests: Seq<Glm52DraftRequest>) -> bool {
    forall|i: int| 0 <= i < requests.len() ==> (#[trigger] requests[i]).row_offset == 8 * i
}

/// What the launches of the first `c` requests in one layer do.
proof fn lemma_requests(
    k: DraftKernels,
    x: DraftInputs,
    s: DraftBuffers,
    layer: usize,
    requests: Seq<Glm52DraftRequest>,
    c: int,
)
    requires
        shaped(s, x.anchors.len()),
        requests.len() == x.anchors.len(),
        requests.len() <= 8,
        stacked(requests),
        0 <= c <= requests.len(),
        forall|i: int|
            0 <= i < requests.len() ==> s.query[i] == (k.query)(
                layer as int,
                #[trigger] s.normed[i],
            ),
    ensures
        ({
            let r = run(k, x, s, crate::dspark_model::requests_ops(layer, requests, c));
            &&& shaped(r, x.anchors.len())
            &&& r.hidden == s.hidden
            &&& r.normed == s.normed
            &&& r.context == s.context
            &&& r.drafts == s.drafts
            &&& forall|i: int|
                c <= i < requests.len() ==> r.query[i] == (k.query)(
                    layer as int,
                    #[trigger] s.normed[i],
                )
            &&& forall|i: int|
                0 <= i < c ==> #[trigger] r.attn[i] == own_attention(
                    k,
                    layer as int,
                    requests[i],
                    s.context[i],
                    s.normed[i],
                    s.keys[(layer as int, i)],
                    s.values[(layer as int, i)],
                )
            &&& forall|l: int, i: int|
                l != layer || c <= i ==> #[trigger] r.keys[(l, i)] == s.keys[(l, i)]
            &&& forall|l: int, i: int|
                l != layer || c <= i ==> #[trigger] r.values[(l, i)] == s.values[(l, i)]
        }),
    decreases c,
{
    if c > 0 {
        lemma_requests(k, x, s, layer, requests, c - 1);
        let before = crate::dspark_model::requests_ops(layer, requests, c - 1);
        let mid = run(k, x, s, before);
        let i = (c - 1) as usize;
        let q = requests[c - 1];
        assert(mid.query[c - 1] == (k.query)(layer as int, s.normed[c - 1]));
        lemma_request(k, x, mid, layer, i, q);
        lemma_run_concat(k, x, s, before, crate::dspark_model::request_ops(layer, i, q));
        let r = run(k, x, s, crate::dspark_model::requests_ops(layer, requests, c));
        assert(r == run(k, x, mid, crate::dspark_model::request_ops(layer, i, q)));
        assert forall|j: int| c <= j < requests.len() implies r.query[j] == (k.query)(
            layer as int,
            #[trigger] s.normed[j],
        ) by {
            assert(r.query[j] == mid.query[j]);
        }
        assert forall|j: int| 0 <= j < c implies #[trigger] r.attn[j] == own_attention(
            k,
            layer as int,
            requests[j],
            s.context[j],
            s.normed[j],
            s.keys[(layer as int, j)],
            s.values[(layer as int, j)],
        ) by {
            if j < c - 1 {
                assert(r.attn[j] == mid.attn[j]);
            } else {
                assert(mid.keys[(layer as int, j)] == s.keys[(layer as int, j)]);
                assert(mid.values[(layer as int, j)] == s.values[(layer as int, j)]);
            }
        }
        assert forall|l: int, j: int| l != layer || c <= j implies #[trigger] r.keys[(l, j)]
            == s.keys[(l, j)] by {
            assert((l, j) != (layer as int, c - 1));
            assert(mid.keys[(l, j)] == s.keys[(l, j)]);
        }
        assert forall|l: int, j: int| l != layer || c <= j implies #[trigger] r.values[(l, j)]
            == s.values[(l, j)] by {
            assert((l, j) != (layer as int, c - 1));
            assert(mid.values[(l, j)] == s.values[(l, j)]);
        }
    }
}

/// What the launches that open a layer do.
proof fn lemma_layer_head(k: DraftKernels, x: DraftInputs, s: DraftBuffers, layer: usize)
    requires
        shaped(s, x.anchors.len()),
    ensures
        ({
            let r = run(k, x, s, crate::dspark_model::layer_head(layer));
            &&& shaped(r, x.anchors.len())
            &&& r.hidden == s.hidden
            &&& r.context == s.context
            &&& r.drafts == s.drafts
            &&& r.keys == s.keys
            &&& r.values == s.values
            &&& forall|i: int|
                0 <= i < x.anchors.len() ==> #[trigger] r.normed[i] == (k.input_norm)(
                    layer as int,
                    s.hidden[i],
                ) && r.query[i] == (k.query)(layer as int, r.normed[i])
        }),
{
    let ops = crate::dspark_model::layer_head(layer);
    reveal_with_fuel(run, 3);
    assert(ops.len() == 2);
    let d1 = ops.drop_last();
    assert(d1.drop_last().len() == 0);
    assert(d1.last() == ops[0]);
}

/// What the launches that close a layer do.
proof fn lemma_layer_tail(k: DraftKernels, x: DraftInputs, s: DraftBuffers, layer: usize)
    requires
        shaped(s, x.anchors.len()),
    ensures
        ({
            let r = run(k, x, s, crate::dspark_model::layer_tail(layer));
            &&& shaped(r, x.anchors.len())
            &&& r.context == s.context
            &&& r.drafts == s.drafts
            &&& r.keys == s.keys
            &&& r.values == s.values
            &&& forall|i: int|
                0 <= i < x.anchors.len() ==> #[trigger] r.hidden[i] == ({
                    let sum = (k.plus)(s.hidden[i], (k.output)(layer as int, s.attn[i]));
                    let normed = (k.post_norm)(layer as int, sum);
                    (k.plus)(
                        sum,
                        (k.down)(
                            layer as int,
                            (k.act)((k.gate)(layer as int, normed), (k.up)(layer as int, normed)),
                        ),
                    )
                })
        }),
{
    let ops = crate::dspark_model::layer_tail(layer);
    reveal_with_fuel(run, 8);
    assert(ops.len() == 7);
    let d1 = ops.drop_last();
    let d2 = d1.drop_last();
    let d3 = d2.drop_last();
    let d4 = d3.drop_last();
    let d5 = d4.drop_last();
    let d6 = d5.drop_last();
    assert(d6.drop_last().len() == 0);
    assert(d1.last() == ops[5] && d2.last() == ops[4] && d3.last() == ops[3] && d4.last() == ops[2]
        && d5.last() == ops[1] && d6.last() == ops[0]);
}

/// What the launches of one layer do.
proof fn lemma_layer(
    k: DraftKernels,
    x: DraftInputs,
    s: DraftBuffers,
    layer: usize,
    requests: Seq<Glm52DraftRequest>,
)
    requires
        shaped(s, x.anchors.len()),
        requests.len() == x.anchors.len(),
        requests.len() <= 8,
        stacked(requests),
    ensures
        ({
            let n = requests.len() as int;
            let ops = crate::dspark_model::layer_head(layer) + crate::dspark_model::requests_ops(
                layer,
                requests,
                n,
            ) + crate::dspark_model::layer_tail(layer);
            let r = run(k, x, s, ops);
            &&& shaped(r, x.anchors.len())
            &&& r.context == s.context
            &&& r.drafts == s.drafts
            &&& forall|i: int|
                0 <= i < n ==> #[trigger] r.hidden[i] == own_layer(
                    k,
                    layer as int,
                    requests[i],
                    s.context[i],
                    s.hidden[i],
                    s.keys[(layer as int, i)],
                    s.values[(layer as int, i)],
                )
            &&& forall|l: int, i: int|
                l != layer ==> #[trigger] r.keys[(l, i)] == s.keys[(l, i)]
            &&& forall|l: int, i: int|
                l != layer ==> #[trigger] r.values[(l, i)] == s.values[(l, i)]
        }),
{
    let n = requests.len() as int;
    let head = crate::dspark_model::layer_head(layer);
    let body = crate::dspark_model::requests_ops(layer, requests, n);
    let tail = crate::dspark_model::layer_tail(layer);
    lemma_layer_head(k, x, s, layer);
    let a = run(k, x, s, head);
    lemma_requests(k, x, a, layer, requests, n);
    let b = run(k, x, a, body);
    lemma_layer_tail(k, x, b, layer);
    lemma_run_concat(k, x, s, head, body);
    lemma_run_concat(k, x, s, head + body, tail);
    let r = run(k, x, b, tail);
    assert forall|i: int| 0 <= i < n implies #[trigger] r.hidden[i] == own_layer(
        k,
        layer as int,
        requests[i],
        s.context[i],
        s.hidden[i],
        s.keys[(layer as int, i)],
        s.values[(layer as int, i)],
    ) by {
        assert(a.normed[i] == (k.input_norm)(layer as int, s.hidden[i]));
        assert(b.attn[i] == own_attention(
            k,
            layer as int,
            requests[i],
            a.context[i],
            a.normed[i],
            a.keys[(layer as int, i)],
            a.values[(layer as int, i)],
        ));
    }
}

/// The caches of a request, layer by layer.
pub open spec fn own_cache(caches: Map<(int, int), int>, request: int) -> Seq<int> {
    Seq::new(5, |l: int| caches[(l, request)])
}

/// What the launches of the first `layers` layers do.
proof fn lemma_layers(
    k: DraftKernels,
    x: DraftInputs,
    s: DraftBuffers,
    requests: Seq<Glm52DraftRequest>,
    layers: int,
)
    requires
        shaped(s, x.anchors.len()),
        requests.len() == x.anchors.len(),
        requests.len() <= 8,
        stacked(requests),
        0 <= layers <= 5,
        forall|i: int|
            0 <= i < requests.len() ==> #[trigger] s.hidden[i] == (k.embed)(x.anchors[i])
                && s.context[i] == (k.context)(x.pending[i], requests[i].context_len as int),
    ensures
        ({
            let r = run(k, x, s, crate::dspark_model::layers_ops(requests, layers));
            &&& shaped(r, x.anchors.len())
            &&& r.context == s.context
            &&& r.drafts == s.drafts
            &&& forall|i: int|
                0 <= i < requests.len() ==> #[trigger] r.hidden[i] == own_rows(
                    k,
                    layers,
                    requests[i],
                    x.anchors[i],
                    x.pending[i],
                    own_cache(s.keys, i),
                    own_cache(s.values, i),
                )
            &&& forall|l: int, i: int|
                l >= layers ==> #[trigger] r.keys[(l, i)] == s.keys[(l, i)]
            &&& forall|l: int, i: int|
                l >= layers ==> #[trigger] r.values[(l, i)] == s.values[(l, i)]
        }),
    decreases layers,
{
    if layers > 0 {
        lemma_layers(k, x, s, requests, layers - 1);
        let before = crate::dspark_model::layers_ops(requests, layers - 1);
        let mid = run(k, x, s, before);
        let layer = (layers - 1) as usize;
        let this = crate::dspark_model::layer_head(layer) + crate::dspark_model::requests_ops(
            layer,
            requests,
            requests.len() as int,
        ) + crate::dspark_model::layer_tail(layer);
        lemma_layer(k, x, mid, layer, requests);
        lemma_run_concat(k, x, s, before, this);
        let r = run(k, x, mid, this);
        assert(run(k, x, s, crate::dspark_model::layers_ops(requests, layers)) == r);
        assert forall|i: int| 0 <= i < requests.len() implies #[trigger] r.hidden[i] == own_rows(
            k,
            layers,
            requests[i],
            x.anchors[i],
            x.pending[i],
            own_cache(s.keys, i),
            own_cache(s.values, i),
        ) by {
            assert(s.hidden[i] == (k.embed)(x.anchors[i]));
            assert(mid.hidden[i] == own_rows(
                k,
                layers - 1,
                requests[i],
                x.anchors[i],
                x.pending[i],
                own_cache(s.keys, i),
                own_cache(s.values, i),
            ));
            assert(mid.keys[(layers - 1, i)] == s.keys[(layers - 1, i)]);
            assert(mid.values[(layers - 1, i)] == s.values[(layers - 1, i)]);
            assert(own_cache(s.keys, i)[layers - 1] == s.keys[(layers - 1, i)]);
            assert(own_cache(s.values, i)[layers - 1] == s.values[(layers - 1, i)]);
        }
        assert forall|l: int, i: int| l >= layers implies #[trigger] r.keys[(l, i)]
            == s.keys[(l, i)] by {
            assert(mid.keys[(l, i)] == s.keys[(l, i)]);
        }
        assert forall|l: int, i: int| l >= layers implies #[trigger] r.values[(l, i)]
            == s.values[(l, i)] by {
            assert(mid.values[(l, i)] == s.values[(l, i)]);
        }
    }
}

/// What the launches that open a round do.
proof fn lemma_opening(
    k: DraftKernels,
    x: DraftInputs,
    s: DraftBuffers,
    requests: Seq<Glm52DraftRequest>,
    c: int,
)
    requires
        shaped(s, x.anchors.len()),
        requests.len() == x.anchors.len(),
        requests.len() <= 8,
        0 <= c <= requests.len(),
    ensures
        ({
            let r = run(k, x, s, crate::dspark_model::opening_ops(requests, c));
            &&& shaped(r, x.anchors.len())
            &&& r.keys == s.keys
            &&& r.values == s.values
            &&& r.drafts == s.drafts
            &&& forall|i: int|
                0 <= i < requests.len() ==> #[trigger] r.hidden[i] == (k.embed)(x.anchors[i])
            &&& forall|i: int|
                0 <= i < c ==> #[trigger] r.context[i] == (k.context)(
                    x.pending[i],
                    requests[i].context_len as int,
                )
        }),
    decreases c,
{
    let ops = crate::dspark_model::opening_ops(requests, c);
    if c > 0 {
        lemma_opening(k, x, s, requests, c - 1);
        assert(ops.drop_last() =~= crate::dspark_model::opening_ops(requests, c - 1));
    } else {
        reveal_with_fuel(run, 2);
        assert(ops.drop_last().len() == 0);
    }
}

/// What the sampling chain does.
proof fn lemma_closing(k: DraftKernels, x: DraftInputs, s: DraftBuffers, rows: usize)
    requires
        shaped(s, x.anchors.len()),
        forall|i: int| 0 <= i < x.anchors.len() ==> #[trigger] s.drafts[i] == Seq::<int>::empty(),
    ensures
        ({
            let r = run(k, x, s, crate::dspark_model::closing_ops(rows));
            forall|i: int|
                0 <= i < x.anchors.len() ==> #[trigger] r.drafts[i] == own_drafts(
                    k,
                    (k.head)((k.final_norm)(s.hidden[i])),
                    x.anchors[i],
                    7,
                )
        }),
{
    let ops = crate::dspark_model::closing_ops(rows);
    let d1 = ops.drop_last();
    let d2 = d1.drop_last();
    let d3 = d2.drop_last();
    let d4 = d3.drop_last();
    let d5 = d4.drop_last();
    let d6 = d5.drop_last();
    let d7 = d6.drop_last();
    let d8 = d7.drop_last();
    reveal_with_fuel(run, 10);
    reveal_with_fuel(own_drafts, 8);
    assert(ops.len() == 9);
    assert(d8.drop_last().len() == 0);
    assert(d1.last() == ops[7] && d2.last() == ops[6] && d3.last() == ops[5] && d4.last() == ops[4]
        && d5.last() == ops[3] && d6.last() == ops[2] && d7.last() == ops[1] && d8.last()
        == ops[0]);
    let r = run(k, x, s, ops);
    assert forall|i: int| 0 <= i < x.anchors.len() implies #[trigger] r.drafts[i] == own_drafts(
        k,
        (k.head)((k.final_norm)(s.hidden[i])),
        x.anchors[i],
        7,
    ) by {
        assert(s.drafts[i] == Seq::<int>::empty());
    }
}

/// Each request of a round drafts what it would draft alone: its seven tokens
/// are computed from its own anchor, context and caches, although the round's
/// requests pass through the same tail buffers. Whatever the other requests
/// hold, none of it reaches them.
pub proof fn a_request_drafts_as_if_alone(
    k: DraftKernels,
    x: DraftInputs,
    s: DraftBuffers,
    requests: Seq<Glm52DraftRequest>,
    i: int,
)
    requires
        shaped(s, x.anchors.len()),
        requests.len() == x.anchors.len(),
        requests.len() <= 8,
        stacked(requests),
        forall|j: int| 0 <= j < x.anchors.len() ==> #[trigger] s.drafts[j] == Seq::<int>::empty(),
        0 <= i < requests.len(),
    ensures
        run(k, x, s, crate::dspark_model::round_ops(requests)).drafts[i] == own_drafts(
            k,
            (k.head)(
                (k.final_norm)(
                    own_rows(
                        k,
                        5,
                        requests[i],
                        x.anchors[i],
                        x.pending[i],
                        own_cache(s.keys, i),
                        own_cache(s.values, i),
                    ),
                ),
            ),
            x.anchors[i],
            7,
        ),
{
    let n = requests.len() as int;
    let opening = crate::dspark_model::opening_ops(requests, n);
    let layers = crate::dspark_model::layers_ops(requests, 5);
    let closing = crate::dspark_model::closing_ops(requests.len() as usize);
    lemma_opening(k, x, s, requests, n);
    let a = run(k, x, s, opening);
    assert forall|j: int| 0 <= j < n implies #[trigger] a.hidden[j] == (k.embed)(x.anchors[j])
        && a.context[j] == (k.context)(x.pending[j], requests[j].context_len as int) by {
        assert(a.context[j] == (k.context)(x.pending[j], requests[j].context_len as int));
    }
    lemma_layers(k, x, a, requests, 5);
    let b = run(k, x, a, layers);
    lemma_closing(k, x, b, requests.len() as usize);
    lemma_run_concat(k, x, s, opening, layers);
    lemma_run_concat(k, x, s, opening + layers, closing);
    assert(b.hidden[i] == own_rows(
        k,
        5,
        requests[i],
        x.anchors[i],
        x.pending[i],
        own_cache(s.keys, i),
        own_cache(s.values, i),
    ));
    assert(run(k, x, b, closing).drafts[i] == own_drafts(
        k,
        (k.head)((k.final_norm)(b.hidden[i])),
        x.anchors[i],
        7,
    ));
}

/// What a launch covers in a round: block kernels run over eight rows of
/// every request; a request's launches over its own rows, context and tail;
/// and the stacked projections are read in their places, the queries before
/// the keys before the values, 4096 rows each, and a layer's gating rows
/// before its up rows, 12288 each.
pub open spec fn covers(op: DsparkOp, requests: Seq<Glm52DraftRequest>) -> bool {
    match op {
        DsparkOp::Embed { rows } => rows == 8 * requests.len(),
        DsparkOp::ProjectContext { request, rows } => request < requests.len() && rows
            == requests[request as int].context_len,
        DsparkOp::InputNorm { layer } | DsparkOp::Output { layer } | DsparkOp::PostNorm { layer }
        | DsparkOp::Down { layer } => layer < 5,
        DsparkOp::Query { layer, first_row, rows } => layer < 5 && first_row == 0 && rows == 4096,
        DsparkOp::Key { layer, first_row, rows } => layer < 5 && first_row == 4096 && rows == 4096,
        DsparkOp::Value { layer, first_row, rows } => layer < 5 && first_row == 8192 && rows
            == 4096,
        DsparkOp::TailContext { request, rows } => request < requests.len() && rows
            == requests[request as int].context_len,
        DsparkOp::TailBlock { request, from, at, rows } => {
            &&& request < requests.len()
            &&& from == requests[request as int].row_offset
            &&& at == requests[request as int].context_len
            &&& rows == 8
        },
        DsparkOp::NormRope { layer, row_offset, rows, query_start, key_start } => layer < 5 && rows
            == 8,
        DsparkOp::CacheKeys { layer, request, at, rows }
        | DsparkOp::CacheValues { layer, request, at, rows } => {
            &&& layer < 5
            &&& request < requests.len()
            &&& at == requests[request as int].key_start
            &&& rows == requests[request as int].tail_len
        },
        DsparkOp::Attend { layer, request, row_offset, rows, kv_len } => {
            &&& layer < 5
            &&& request < requests.len()
            &&& row_offset == requests[request as int].row_offset
            &&& rows == 8
            &&& kv_len == requests[request as int].attend_len
        },
        DsparkOp::Gate { layer, first_row, rows } => layer < 5 && first_row == 0 && rows == 12_288,
        DsparkOp::Up { layer, first_row, rows } => layer < 5 && first_row == 12_288 && rows
            == 12_288,
        DsparkOp::SwiGlu | DsparkOp::Add | DsparkOp::FinalNorm | DsparkOp::Head => true,
        DsparkOp::Sample { position, rows } => 1 <= position < 8 && rows == requests.len(),
    }
}

proof fn lemma_requests_cover(
    layer: usize,
    requests: Seq<Glm52DraftRequest>,
    k: int,
    j: int,
)
    requires
        layer < 5,
        requests.len() <= 8,
        0 <= k <= requests.len(),
        0 <= j < crate::dspark_model::requests_ops(layer, requests, k).len(),
    ensures
        covers(crate::dspark_model::requests_ops(layer, requests, k)[j], requests),
    decreases k,
{
    if k > 0 && j < crate::dspark_model::requests_ops(layer, requests, k - 1).len() {
        lemma_requests_cover(layer, requests, k - 1, j);
    }
}

proof fn lemma_layers_cover(requests: Seq<Glm52DraftRequest>, layers: int, j: int)
    requires
        requests.len() <= 8,
        0 <= layers <= 5,
        0 <= j < crate::dspark_model::layers_ops(requests, layers).len(),
    ensures
        covers(crate::dspark_model::layers_ops(requests, layers)[j], requests),
    decreases layers,
{
    if layers > 0 {
        let before = crate::dspark_model::layers_ops(requests, layers - 1).len() as int;
        let layer = (layers - 1) as usize;
        let head = crate::dspark_model::layer_head(layer).len() as int;
        let n = requests.len() as int;
        let middle = crate::dspark_model::requests_ops(layer, requests, n).len() as int;
        if j < before {
            lemma_layers_cover(requests, layers - 1, j);
        } else if head <= j - before < head + middle {
            lemma_requests_cover(layer, requests, n, j - before - head);
        }
    }
}

proof fn lemma_opening_covers(requests: Seq<Glm52DraftRequest>, k: int, j: int)
    requires
        requests.len() <= 8,
        0 <= k <= requests.len(),
        0 <= j < crate::dspark_model::opening_ops(requests, k).len(),
    ensures
        covers(crate::dspark_model::opening_ops(requests, k)[j], requests),
    decreases k,
{
    if k > 0 && j < crate::dspark_model::opening_ops(requests, k - 1).len() {
        lemma_opening_covers(requests, k - 1, j);
    }
}

/// Every launch of a round covers what it is for, and nothing else.
pub proof fn launches_cover_their_rows(requests: Seq<Glm52DraftRequest>, j: int)
    requires
        requests.len() <= 8,
        0 <= j < crate::dspark_model::round_ops(requests).len(),
    ensures
        covers(crate::dspark_model::round_ops(requests)[j], requests),
{
    let n = requests.len() as int;
    let opening = crate::dspark_model::opening_ops(requests, n).len() as int;
    let body = crate::dspark_model::body_ops(requests).len() as int;
    if j < opening {
        lemma_opening_covers(requests, n, j);
    } else if j < body {
        lemma_layers_cover(requests, 5, j - opening);
    }
}

} // verus!
