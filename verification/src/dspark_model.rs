//! The draft model: its checkpoint tensors, how they are stacked, and the
//! launches of one draft round.
use vstd::prelude::*;
use vstd::string::*;

use crate::dspark::{
    Glm52DraftRequest, DSPARK_INTER, DSPARK_LAYERS, DSPARK_MARKOV_RANK, DSPARK_QKV_DIM,
    GLM52_DSPARK_BLOCK, GLM52_DSPARK_CONTEXT_DIM,
};
use crate::config::{GLM52_HIDDEN, GLM52_VOCAB};
use crate::text::decimal_text;

verus! {

/// A tensor of one draft layer, in the order in which they are read.
#[derive(Clone, Copy, Debug, PartialEq, Eq, Structural)]
pub enum DsparkLayerTensor {
    Query,
    Key,
    Value,
    Gate,
    Up,
    Output,
    Down,
    InputNorm,
    QueryNorm,
    KeyNorm,
    PostNorm,
}

/// A tensor around the draft layers, in the order in which they are read.
#[derive(Clone, Copy, Debug, PartialEq, Eq, Structural)]
pub enum DsparkHeadTensor {
    Fc,
    MarkovW1,
    MarkovW2,
    Norm,
    HiddenNorm,
}

/// A matrix of the draft checkpoint.
#[derive(Clone, Copy, Debug, PartialEq, Eq, Structural)]
pub enum DsparkMatrix {
    Layer { layer: usize, tensor: DsparkLayerTensor },
    Head(DsparkHeadTensor),
}

/// Rows and columns.
#[derive(Clone, Copy, Debug, PartialEq, Eq, Structural)]
pub struct MatrixShape {
    pub rows: usize,
    pub cols: usize,
}

/// A matrix of the draft checkpoint that has another shape.
#[derive(Clone, Copy, Debug, PartialEq, Eq, Structural)]
pub struct DsparkShapeError {
    pub matrix: DsparkMatrix,
    pub got: MatrixShape,
    pub want: MatrixShape,
}

impl DsparkLayerTensor {
    /// The tensor's name below its layer.
    pub open spec fn stem(self) -> Seq<char> {
        match self {
            DsparkLayerTensor::Query => ".self_attn.q_proj.weight"@,
            DsparkLayerTensor::Key => ".self_attn.k_proj.weight"@,
            DsparkLayerTensor::Value => ".self_attn.v_proj.weight"@,
            DsparkLayerTensor::Gate => ".mlp.gate_proj.weight"@,
            DsparkLayerTensor::Up => ".mlp.up_proj.weight"@,
            DsparkLayerTensor::Output => ".self_attn.o_proj.weight"@,
            DsparkLayerTensor::Down => ".mlp.down_proj.weight"@,
            DsparkLayerTensor::InputNorm => ".input_layernorm.weight"@,
            DsparkLayerTensor::QueryNorm => ".self_attn.q_norm.weight"@,
            DsparkLayerTensor::KeyNorm => ".self_attn.k_norm.weight"@,
            DsparkLayerTensor::PostNorm => ".post_attention_layernorm.weight"@,
        }
    }

    /// The tensor's name below its layer.
    pub fn stem_text(self) -> (r: &'static str)
        ensures
            r@ == self.stem(),
            match self {
                DsparkLayerTensor::Query => r@ == ".self_attn.q_proj.weight"@,
                DsparkLayerTensor::Key => r@ == ".self_attn.k_proj.weight"@,
                DsparkLayerTensor::Value => r@ == ".self_attn.v_proj.weight"@,
                DsparkLayerTensor::Gate => r@ == ".mlp.gate_proj.weight"@,
                DsparkLayerTensor::Up => r@ == ".mlp.up_proj.weight"@,
                DsparkLayerTensor::Output => r@ == ".self_attn.o_proj.weight"@,
                DsparkLayerTensor::Down => r@ == ".mlp.down_proj.weight"@,
                DsparkLayerTensor::InputNorm => r@ == ".input_layernorm.weight"@,
                DsparkLayerTensor::QueryNorm => r@ == ".self_attn.q_norm.weight"@,
                DsparkLayerTensor::KeyNorm => r@ == ".self_attn.k_norm.weight"@,
                DsparkLayerTensor::PostNorm => r@ == ".post_attention_layernorm.weight"@,
            },
    {
        match self {
            DsparkLayerTensor::Query => ".self_attn.q_proj.weight",
            DsparkLayerTensor::Key => ".self_attn.k_proj.weight",
            DsparkLayerTensor::Value => ".self_attn.v_proj.weight",
            DsparkLayerTensor::Gate => ".mlp.gate_proj.weight",
            DsparkLayerTensor::Up => ".mlp.up_proj.weight",
            DsparkLayerTensor::Output => ".self_attn.o_proj.weight",
            DsparkLayerTensor::Down => ".mlp.down_proj.weight",
            DsparkLayerTensor::InputNorm => ".input_layernorm.weight",
            DsparkLayerTensor::QueryNorm => ".self_attn.q_norm.weight",
            DsparkLayerTensor::KeyNorm => ".self_attn.k_norm.weight",
            DsparkLayerTensor::PostNorm => ".post_attention_layernorm.weight",
        }
    }

    /// The tensor's shape, where it is a matrix.
    pub open spec fn shape(self) -> Option<MatrixShape> {
        match self {
            DsparkLayerTensor::Query | DsparkLayerTensor::Key | DsparkLayerTensor::Value => Some(
                MatrixShape { rows: 4096, cols: 6144 },
            ),
            DsparkLayerTensor::Gate | DsparkLayerTensor::Up => Some(
                MatrixShape { rows: 12_288, cols: 6144 },
            ),
            DsparkLayerTensor::Output => Some(MatrixShape { rows: 6144, cols: 4096 }),
            DsparkLayerTensor::Down => Some(MatrixShape { rows: 6144, cols: 12_288 }),
            DsparkLayerTensor::InputNorm | DsparkLayerTensor::QueryNorm
            | DsparkLayerTensor::KeyNorm | DsparkLayerTensor::PostNorm => None,
        }
    }
}

impl DsparkHeadTensor {
    /// The tensor's name.
    pub open spec fn name(self) -> Seq<char> {
        match self {
            DsparkHeadTensor::Fc => "fc.weight"@,
            DsparkHeadTensor::MarkovW1 => "markov_head.markov_w1.weight"@,
            DsparkHeadTensor::MarkovW2 => "markov_head.markov_w2.weight"@,
            DsparkHeadTensor::Norm => "norm.weight"@,
            DsparkHeadTensor::HiddenNorm => "hidden_norm.weight"@,
        }
    }

    /// The tensor's name.
    pub fn name_text(self) -> (r: &'static str)
        ensures
            r@ == self.name(),
            match self {
                DsparkHeadTensor::Fc => r@ == "fc.weight"@,
                DsparkHeadTensor::MarkovW1 => r@ == "markov_head.markov_w1.weight"@,
                DsparkHeadTensor::MarkovW2 => r@ == "markov_head.markov_w2.weight"@,
                DsparkHeadTensor::Norm => r@ == "norm.weight"@,
                DsparkHeadTensor::HiddenNorm => r@ == "hidden_norm.weight"@,
            },
    {
        match self {
            DsparkHeadTensor::Fc => "fc.weight",
            DsparkHeadTensor::MarkovW1 => "markov_head.markov_w1.weight",
            DsparkHeadTensor::MarkovW2 => "markov_head.markov_w2.weight",
            DsparkHeadTensor::Norm => "norm.weight",
            DsparkHeadTensor::HiddenNorm => "hidden_norm.weight",
        }
    }

    /// The tensor's shape, where it is a matrix.
    pub open spec fn shape(self) -> Option<MatrixShape> {
        match self {
            DsparkHeadTensor::Fc => Some(MatrixShape { rows: 6144, cols: 30_720 }),
            DsparkHeadTensor::MarkovW1 | DsparkHeadTensor::MarkovW2 => Some(
                MatrixShape { rows: 154_880, cols: 256 },
            ),
            DsparkHeadTensor::Norm | DsparkHeadTensor::HiddenNorm => None,
        }
    }
}

/// The name of a draft layer's tensor.
pub fn layer_tensor_name(layer: usize, tensor: DsparkLayerTensor) -> (r: String)
    ensures
        r@ == "layers."@ + crate::text::decimal(layer as nat) + tensor.stem(),
{
    let digits: String = decimal_text(layer as u64);
    let mut name: String = String::from_str("layers.");
    name.append(digits.as_str());
    name.append(tensor.stem_text());
    name
}

/// The matrices of one draft layer.
#[derive(Clone, Copy, Debug, PartialEq, Eq, Structural)]
pub struct DsparkLayerShapes {
    pub query: MatrixShape,
    pub key: MatrixShape,
    pub value: MatrixShape,
    pub gate: MatrixShape,
    pub up: MatrixShape,
    pub output: MatrixShape,
    pub down: MatrixShape,
}

impl DsparkLayerShapes {
    /// The matrix of a tensor.
    pub open spec fn of(self, tensor: DsparkLayerTensor) -> MatrixShape {
        match tensor {
            DsparkLayerTensor::Query => self.query,
            DsparkLayerTensor::Key => self.key,
            DsparkLayerTensor::Value => self.value,
            DsparkLayerTensor::Gate => self.gate,
            DsparkLayerTensor::Up => self.up,
            DsparkLayerTensor::Output => self.output,
            _ => self.down,
        }
    }
}

/// The matrices of a draft layer in the order in which they are checked.
pub open spec fn matrix_order() -> Seq<DsparkLayerTensor> {
    seq![
        DsparkLayerTensor::Query,
        DsparkLayerTensor::Key,
        DsparkLayerTensor::Value,
        DsparkLayerTensor::Gate,
        DsparkLayerTensor::Up,
        DsparkLayerTensor::Output,
        DsparkLayerTensor::Down,
    ]
}

/// Whether a matrix of a draft layer has its shape.
pub open spec fn matrix_sound(shapes: DsparkLayerShapes, i: int) -> bool {
    Some(shapes.of(matrix_order()[i])) == matrix_order()[i].shape()
}

/// Checks that a matrix has its shape.
pub fn ensure_matrix(matrix: DsparkMatrix, got: MatrixShape, want: MatrixShape) -> (r: Result<
    (),
    DsparkShapeError,
>)
    ensures
        r == (if got == want {
            Ok::<(), DsparkShapeError>(())
        } else {
            Err(DsparkShapeError { matrix, got, want })
        }),
{
    if got != want {
        return Err(DsparkShapeError { matrix, got, want });
    }
    Ok(())
}

/// Checks the matrices of a draft layer in order.
pub fn check_layer(layer: usize, shapes: DsparkLayerShapes) -> (r: Result<(), DsparkShapeError>)
    ensures
        match r {
            Ok(()) => forall|i: int| 0 <= i < 7 ==> #[trigger] matrix_sound(shapes, i),
            Err(e) => exists|i: int|
                {
                    &&& 0 <= i < 7
                    &&& !(#[trigger] matrix_sound(shapes, i))
                    &&& forall|j: int| 0 <= j < i ==> #[trigger] matrix_sound(shapes, j)
                    &&& e.matrix == (DsparkMatrix::Layer { layer, tensor: matrix_order()[i] })
                    &&& e.got == shapes.of(matrix_order()[i])
                    &&& Some(e.want) == matrix_order()[i].shape()
                },
        },
        r is Ok <==> {
            let qkv = MatrixShape { rows: 4096, cols: 6144 };
            let wide = MatrixShape { rows: 12_288, cols: 6144 };
            &&& shapes.query == qkv && shapes.key == qkv && shapes.value == qkv
            &&& shapes.gate == wide && shapes.up == wide
            &&& shapes.output == (MatrixShape { rows: 6144, cols: 4096 })
            &&& shapes.down == (MatrixShape { rows: 6144, cols: 12_288 })
        },
{
    let qkv = MatrixShape { rows: DSPARK_QKV_DIM, cols: GLM52_HIDDEN };
    let wide = MatrixShape { rows: DSPARK_INTER, cols: GLM52_HIDDEN };
    let output = MatrixShape { rows: GLM52_HIDDEN, cols: DSPARK_QKV_DIM };
    let down = MatrixShape { rows: GLM52_HIDDEN, cols: DSPARK_INTER };
    let tensors: [DsparkLayerTensor; 7] = [
        DsparkLayerTensor::Query,
        DsparkLayerTensor::Key,
        DsparkLayerTensor::Value,
        DsparkLayerTensor::Gate,
        DsparkLayerTensor::Up,
        DsparkLayerTensor::Output,
        DsparkLayerTensor::Down,
    ];
    let got: [MatrixShape; 7] = [
        shapes.query,
        shapes.key,
        shapes.value,
        shapes.gate,
        shapes.up,
        shapes.output,
        shapes.down,
    ];
    let want: [MatrixShape; 7] = [qkv, qkv, qkv, wide, wide, output, down];
    assert(tensors@ =~= matrix_order());
    let mut i: usize = 0;
    while i < 7
        invariant
            i <= 7,
            tensors@ == matrix_order(),
            forall|j: int| 0 <= j < 7 ==> #[trigger] got@[j] == shapes.of(matrix_order()[j]),
            forall|j: int|
                0 <= j < 7 ==> Some(#[trigger] want@[j]) == matrix_order()[j].shape(),
            forall|j: int| 0 <= j < i ==> #[trigger] matrix_sound(shapes, j),
        decreases 7 - i,
    {
        let matrix = DsparkMatrix::Layer { layer, tensor: tensors[i] };
        match ensure_matrix(matrix, got[i], want[i]) {
            Ok(()) => {
                assert(matrix_sound(shapes, i as int));
            },
            Err(e) => {
                assert(!matrix_sound(shapes, i as int));
                return Err(e);
            },
        }
        i = i + 1;
    }
    assert(matrix_sound(shapes, 0) && matrix_sound(shapes, 1) && matrix_sound(shapes, 2)
        && matrix_sound(shapes, 3) && matrix_sound(shapes, 4) && matrix_sound(shapes, 5)
        && matrix_sound(shapes, 6));
    Ok(())
}

/// Checks the matrices around the draft layers in order.
pub fn check_head(fc: MatrixShape, w1: MatrixShape, w2: MatrixShape) -> (r: Result<
    (),
    DsparkShapeError,
>)
    ensures
        r == (if Some(fc) != DsparkHeadTensor::Fc.shape() {
            Err::<(), _>(
                DsparkShapeError {
                    matrix: DsparkMatrix::Head(DsparkHeadTensor::Fc),
                    got: fc,
                    want: DsparkHeadTensor::Fc.shape()->0,
                },
            )
        } else if Some(w1) != DsparkHeadTensor::MarkovW1.shape() {
            Err(
                DsparkShapeError {
                    matrix: DsparkMatrix::Head(DsparkHeadTensor::MarkovW1),
                    got: w1,
                    want: DsparkHeadTensor::MarkovW1.shape()->0,
                },
            )
        } else if Some(w2) != DsparkHeadTensor::MarkovW2.shape() {
            Err(
                DsparkShapeError {
                    matrix: DsparkMatrix::Head(DsparkHeadTensor::MarkovW2),
                    got: w2,
                    want: DsparkHeadTensor::MarkovW2.shape()->0,
                },
            )
        } else {
            Ok(())
        }),
        r is Ok <==> {
            &&& fc.rows == 6144 && fc.cols == 30_720
            &&& w1.rows == 154_880 && w1.cols == 256
            &&& w2.rows == 154_880 && w2.cols == 256
        },
{
    let fc_want = MatrixShape { rows: GLM52_HIDDEN, cols: GLM52_DSPARK_CONTEXT_DIM };
    let markov = MatrixShape { rows: GLM52_VOCAB, cols: DSPARK_MARKOV_RANK };
    match ensure_matrix(DsparkMatrix::Head(DsparkHeadTensor::Fc), fc, fc_want) {
        Ok(()) => {},
        Err(e) => {
            return Err(e);
        },
    }
    match ensure_matrix(DsparkMatrix::Head(DsparkHeadTensor::MarkovW1), w1, markov) {
        Ok(()) => {},
        Err(e) => {
            return Err(e);
        },
    }
    ensure_matrix(DsparkMatrix::Head(DsparkHeadTensor::MarkovW2), w2, markov)
}

/// One launch of a draft round. Stacked projections are addressed by their
/// first row.
#[derive(Clone, Copy, Debug, PartialEq, Eq, Structural)]
pub enum DsparkOp {
    Embed { rows: usize },
    /// A request's pending context, projected and normed.
    ProjectContext { request: usize, rows: usize },
    InputNorm { layer: usize },
    /// Rows of the stacked query, key and value projection.
    Query { layer: usize, first_row: usize, rows: usize },
    /// The request's context rows into its tail.
    TailContext { request: usize, rows: usize },
    /// The request's block rows behind them.
    TailBlock { request: usize, from: usize, at: usize, rows: usize },
    Key { layer: usize, first_row: usize, rows: usize },
    Value { layer: usize, first_row: usize, rows: usize },
    NormRope { layer: usize, row_offset: usize, rows: usize, query_start: usize, key_start: usize },
    CacheKeys { layer: usize, request: usize, at: usize, rows: usize },
    CacheValues { layer: usize, request: usize, at: usize, rows: usize },
    Attend { layer: usize, request: usize, row_offset: usize, rows: usize, kv_len: usize },
    Output { layer: usize },
    PostNorm { layer: usize },
    Gate { layer: usize, first_row: usize, rows: usize },
    Up { layer: usize, first_row: usize, rows: usize },
    SwiGlu,
    Down { layer: usize },
    Add,
    FinalNorm,
    Head,
    /// One step of the sampling chain: the bias of the previous token, and the
    /// argmax at a block position.
    Sample { position: usize, rows: usize },
}

/// The launches of one request in one layer.
pub open spec fn request_ops(layer: usize, i: usize, q: Glm52DraftRequest) -> Seq<DsparkOp> {
    seq![
        DsparkOp::TailContext { request: i, rows: q.context_len },
        DsparkOp::TailBlock { request: i, from: q.row_offset, at: q.context_len, rows: 8 },
        DsparkOp::Key { layer, first_row: 4096, rows: 4096 },
        DsparkOp::Value { layer, first_row: 8192, rows: 4096 },
        DsparkOp::NormRope {
            layer,
            row_offset: q.row_offset,
            rows: 8,
            query_start: q.query_start,
            key_start: q.key_start,
        },
        DsparkOp::CacheKeys { layer, request: i, at: q.key_start, rows: q.tail_len },
        DsparkOp::CacheValues { layer, request: i, at: q.key_start, rows: q.tail_len },
        DsparkOp::Attend {
            layer,
            request: i,
            row_offset: q.row_offset,
            rows: 8,
            kv_len: q.attend_len,
        },
    ]
}

/// The launches of the first `k` requests in one layer.
pub open spec fn requests_ops(layer: usize, requests: Seq<Glm52DraftRequest>, k: int) -> Seq<
    DsparkOp,
>
    decreases k,
{
    if k <= 0 {
        Seq::empty()
    } else {
        requests_ops(layer, requests, k - 1) + request_ops(
            layer,
            (k - 1) as usize,
            requests[k - 1],
        )
    }
}

/// The launches that open a layer.
pub open spec fn layer_head(layer: usize) -> Seq<DsparkOp> {
    seq![
        DsparkOp::InputNorm { layer },
        DsparkOp::Query { layer, first_row: 0, rows: 4096 },
    ]
}

/// The launches that close a layer.
pub open spec fn layer_tail(layer: usize) -> Seq<DsparkOp> {
    seq![
        DsparkOp::Output { layer },
        DsparkOp::PostNorm { layer },
        DsparkOp::Gate { layer, first_row: 0, rows: 12_288 },
        DsparkOp::Up { layer, first_row: 12_288, rows: 12_288 },
        DsparkOp::SwiGlu,
        DsparkOp::Down { layer },
        DsparkOp::Add,
    ]
}

/// The launches of the first `layers` layers.
pub open spec fn layers_ops(requests: Seq<Glm52DraftRequest>, layers: int) -> Seq<DsparkOp>
    decreases layers,
{
    if layers <= 0 {
        Seq::empty()
    } else {
        let layer = (layers - 1) as usize;
        layers_ops(requests, layers - 1) + (layer_head(layer) + requests_ops(
            layer,
            requests,
            requests.len() as int,
        ) + layer_tail(layer))
    }
}

/// The launches that open a round.
pub open spec fn opening_ops(requests: Seq<Glm52DraftRequest>, k: int) -> Seq<DsparkOp>
    decreases k,
{
    if k <= 0 {
        seq![DsparkOp::Embed { rows: (8 * requests.len()) as usize }]
    } else {
        opening_ops(requests, k - 1).push(
            DsparkOp::ProjectContext {
                request: (k - 1) as usize,
                rows: requests[k - 1].context_len,
            },
        )
    }
}

/// The launches that close a round: the logits, and a sampling chain over the
/// block positions behind the anchor.
pub open spec fn closing_ops(rows: usize) -> Seq<DsparkOp> {
    seq![
        DsparkOp::FinalNorm,
        DsparkOp::Head,
        DsparkOp::Sample { position: 1, rows },
        DsparkOp::Sample { position: 2, rows },
        DsparkOp::Sample { position: 3, rows },
        DsparkOp::Sample { position: 4, rows },
        DsparkOp::Sample { position: 5, rows },
        DsparkOp::Sample { position: 6, rows },
        DsparkOp::Sample { position: 7, rows },
    ]
}

/// The launches of a draft round up to the last layer, after which the slots'
/// caches hold the round's context.
pub open spec fn body_ops(requests: Seq<Glm52DraftRequest>) -> Seq<DsparkOp> {
    opening_ops(requests, requests.len() as int) + layers_ops(requests, 5)
}

/// The launches of a draft round.
pub open spec fn round_ops(requests: Seq<Glm52DraftRequest>) -> Seq<DsparkOp> {
    body_ops(requests) + closing_ops(requests.len() as usize)
}

fn plan_request(layer: usize, i: usize, q: Glm52DraftRequest) -> (r: Vec<DsparkOp>)
    ensures
        r@ == request_ops(layer, i, q),
{
    let ops: Vec<DsparkOp> = vec![
        DsparkOp::TailContext { request: i, rows: q.context_len },
        DsparkOp::TailBlock {
            request: i,
            from: q.row_offset,
            at: q.context_len,
            rows: GLM52_DSPARK_BLOCK,
        },
        DsparkOp::Key { layer, first_row: DSPARK_QKV_DIM, rows: DSPARK_QKV_DIM },
        DsparkOp::Value { layer, first_row: 2 * DSPARK_QKV_DIM, rows: DSPARK_QKV_DIM },
        DsparkOp::NormRope {
            layer,
            row_offset: q.row_offset,
            rows: GLM52_DSPARK_BLOCK,
            query_start: q.query_start,
            key_start: q.key_start,
        },
        DsparkOp::CacheKeys { layer, request: i, at: q.key_start, rows: q.tail_len },
        DsparkOp::CacheValues { layer, request: i, at: q.key_start, rows: q.tail_len },
        DsparkOp::Attend {
            layer,
            request: i,
            row_offset: q.row_offset,
            rows: GLM52_DSPARK_BLOCK,
            kv_len: q.attend_len,
        },
    ];
    assert(ops@ =~= request_ops(layer, i, q));
    ops
}

fn plan_layer(layer: usize, requests: &Vec<Glm52DraftRequest>) -> (r: Vec<DsparkOp>)
    ensures
        r@ == layer_head(layer) + requests_ops(layer, requests@, requests.len() as int)
            + layer_tail(layer),
{
    let mut ops: Vec<DsparkOp> = vec![
        DsparkOp::InputNorm { layer },
        DsparkOp::Query { layer, first_row: 0, rows: DSPARK_QKV_DIM },
    ];
    assert(ops@ =~= layer_head(layer) + requests_ops(layer, requests@, 0));
    let mut i: usize = 0;
    while i < requests.len()
        invariant
            i <= requests.len(),
            ops@ == layer_head(layer) + requests_ops(layer, requests@, i as int),
        decreases requests.len() - i,
    {
        let mut more: Vec<DsparkOp> = plan_request(layer, i, requests[i]);
        let ghost before = requests_ops(layer, requests@, i as int);
        let ghost this = more@;
        ops.append(&mut more);
        assert((layer_head(layer) + before) + this =~= layer_head(layer) + (before + this));
        i = i + 1;
    }
    let mut tail: Vec<DsparkOp> = vec![
        DsparkOp::Output { layer },
        DsparkOp::PostNorm { layer },
        DsparkOp::Gate { layer, first_row: 0, rows: DSPARK_INTER },
        DsparkOp::Up { layer, first_row: DSPARK_INTER, rows: DSPARK_INTER },
        DsparkOp::SwiGlu,
        DsparkOp::Down { layer },
        DsparkOp::Add,
    ];
    assert(tail@ =~= layer_tail(layer));
    ops.append(&mut tail);
    ops
}

/// Plans the launches of a draft round up to its last layer.
pub fn plan_draft_body(requests: &Vec<Glm52DraftRequest>) -> (r: Vec<DsparkOp>)
    requires
        requests.len() <= 8,
    ensures
        r@ == body_ops(requests@),
{
    let mut ops: Vec<DsparkOp> = vec![
        DsparkOp::Embed { rows: requests.len() * GLM52_DSPARK_BLOCK },
    ];
    assert(ops@ =~= opening_ops(requests@, 0));
    let mut i: usize = 0;
    while i < requests.len()
        invariant
            i <= requests.len(),
            ops@ == opening_ops(requests@, i as int),
        decreases requests.len() - i,
    {
        ops.push(DsparkOp::ProjectContext { request: i, rows: requests[i].context_len });
        i = i + 1;
    }
    let ghost opening = ops@;
    assert(opening =~= opening + layers_ops(requests@, 0));
    let mut layer: usize = 0;
    while layer < DSPARK_LAYERS
        invariant
            layer <= 5,
            ops@ == opening + layers_ops(requests@, layer as int),
        decreases 5 - layer,
    {
        let mut more: Vec<DsparkOp> = plan_layer(layer, requests);
        let ghost before = layers_ops(requests@, layer as int);
        let ghost this = more@;
        ops.append(&mut more);
        assert((opening + before) + this =~= opening + (before + this));
        layer = layer + 1;
    }
    ops
}

/// Plans the launches of a draft round behind its last layer.
pub fn plan_draft_closing(rows: usize) -> (r: Vec<DsparkOp>)
    ensures
        r@ == closing_ops(rows),
{
    let ops: Vec<DsparkOp> = vec![
        DsparkOp::FinalNorm,
        DsparkOp::Head,
        DsparkOp::Sample { position: 1, rows },
        DsparkOp::Sample { position: 2, rows },
        DsparkOp::Sample { position: 3, rows },
        DsparkOp::Sample { position: 4, rows },
        DsparkOp::Sample { position: 5, rows },
        DsparkOp::Sample { position: 6, rows },
        DsparkOp::Sample { position: 7, rows },
    ];
    assert(ops@ =~= closing_ops(rows));
    ops
}

/// Plans the launches of a draft round over its requests.
pub fn plan_draft_round(requests: &Vec<Glm52DraftRequest>) -> (r: Vec<DsparkOp>)
    requires
        requests.len() <= 8,
    ensures
        r@ == round_ops(requests@),
{
    let mut ops: Vec<DsparkOp> = plan_draft_body(requests);
    let mut closing: Vec<DsparkOp> = plan_draft_closing(requests.len());
    ops.append(&mut closing);
    ops
}

/// In every layer a request's new keys are cached directly behind its
/// committed ones, its queries start behind its context, and it attends over
/// everything up to the end of its block.
pub proof fn a_round_extends_the_cache(
    state: crate::dspark::Glm52DsparkSlotState,
    index: int,
)
    requires
        state.wf(),
        state.committed_len + state.pending_len + 8 <= usize::MAX,
    ensures
        ({
            let q = crate::dspark::draft_request(state, index);
            &&& q.key_start == state.committed_len
            &&& q.key_start + q.context_len == q.query_start
            &&& q.key_start + q.tail_len == q.attend_len
            &&& q.attend_len == q.query_start + 8
            &&& crate::dspark::drained(state).committed_len == q.query_start
        }),
{
}

} // verus!
