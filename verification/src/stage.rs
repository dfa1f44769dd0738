//! One pipeline stage of the decoder, one token at a time: what a stage
//! checks, what it launches, and what the launches compute.
use vstd::prelude::*;
use vstd::string::*;

use crate::bench::attended_list;
use crate::config::{
    GLM52_HIDDEN, GLM52_MLA_BYTES_PER_TOKEN, GLM52_PAGE_SIZE, GLM52_ROPE_HALF,
};
use crate::text::decimal_text;

verus! {

/// The longest context of a stage, prompt and generated tokens together.
pub const GLM52_DECODE_MAX_CTX: usize = 2048;

/// The pages of a layer's cache.
pub const STAGE_NUM_BLOCKS: usize = 32;

/// The parts of the model that a stage holds.
#[derive(Clone, Copy, Debug, PartialEq, Eq, Structural)]
pub struct Glm52StageParts {
    pub embed: bool,
    pub final_norm: bool,
    pub lm_head: bool,
}

/// A stage: its number, its parts and, for each of its layers, whether the
/// MLP is the dense one.
#[derive(Clone, Debug)]
pub struct Glm52StageDecode {
    pub index: usize,
    pub parts: Glm52StageParts,
    pub dense: Vec<bool>,
}

/// Why a stage refuses to run.
#[derive(Clone, Copy, Debug, PartialEq, Eq, Structural)]
pub enum Glm52StageError {
    NoEmbedding { stage: usize },
    NoFinalNorm { stage: usize },
    NoHead { stage: usize },
    HiddenLen { stage: usize, len: usize },
    Position { position: usize },
    OutsideCache { position: usize, blocks: usize },
}

impl Glm52StageError {
    /// The refusal in words.
    pub open spec fn wording(self) -> Seq<char> {
        match self {
            Glm52StageError::NoEmbedding { stage } => "GLM5.2 stage "@ + crate::text::decimal(
                stage as nat,
            ) + " has no embedding table"@,
            Glm52StageError::NoFinalNorm { stage } => "GLM5.2 stage "@ + crate::text::decimal(
                stage as nat,
            ) + " has no final norm"@,
            Glm52StageError::NoHead { stage } => "GLM5.2 stage "@ + crate::text::decimal(
                stage as nat,
            ) + " has no lm_head"@,
            Glm52StageError::HiddenLen { stage, len } => "GLM5.2 stage "@ + crate::text::decimal(
                stage as nat,
            ) + " hidden input len "@ + crate::text::decimal(len as nat) + " != 6144"@,
            Glm52StageError::Position { position } => "GLM5.2 decode position "@
                + crate::text::decimal(position as nat) + " exceeds MAX_CTX 2048"@,
            Glm52StageError::OutsideCache { position, blocks } => "GLM5.2 MLA position "@
                + crate::text::decimal(position as nat) + " outside paged cache ("@
                + crate::text::decimal(blocks as nat) + " blocks x 64)"@,
        }
    }

    /// The refusal in words.
    pub fn message(&self) -> (t: String)
        ensures
            t@ == self.wording(),
    {
        match *self {
            Glm52StageError::NoEmbedding { stage } => {
                let mut t = String::from_str("GLM5.2 stage ");
                t.append(decimal_text(stage as u64).as_str());
                t.append(" has no embedding table");
                t
            },
            Glm52StageError::NoFinalNorm { stage } => {
                let mut t = String::from_str("GLM5.2 stage ");
                t.append(decimal_text(stage as u64).as_str());
                t.append(" has no final norm");
                t
            },
            Glm52StageError::NoHead { stage } => {
                let mut t = String::from_str("GLM5.2 stage ");
                t.append(decimal_text(stage as u64).as_str());
                t.append(" has no lm_head");
                t
            },
            Glm52StageError::HiddenLen { stage, len } => {
                let mut t = String::from_str("GLM5.2 stage ");
                t.append(decimal_text(stage as u64).as_str());
                t.append(" hidden input len ");
                t.append(decimal_text(len as u64).as_str());
                t.append(" != 6144");
                t
            },
            Glm52StageError::Position { position } => {
                let mut t = String::from_str("GLM5.2 decode position ");
                t.append(decimal_text(position as u64).as_str());
                t.append(" exceeds MAX_CTX 2048");
                t
            },
            Glm52StageError::OutsideCache { position, blocks } => {
                let mut t = String::from_str("GLM5.2 MLA position ");
                t.append(decimal_text(position as u64).as_str());
                t.append(" outside paged cache (");
                t.append(decimal_text(blocks as u64).as_str());
                t.append(" blocks x 64)");
                t
            },
        }
    }
}

/// One launch of a stage.
#[derive(Clone, Copy, Debug, PartialEq, Eq, Structural)]
pub enum Glm52StageOp {
    InputNorm { layer: usize },
    Attention { layer: usize, position: usize },
    AddAttention,
    PostNorm { layer: usize },
    DenseMlp { layer: usize },
    MoeMlp { layer: usize },
    AddMlp,
    FinalNorm,
    Head,
}

/// The launches of one layer: a pre-norm residual block around the attention
/// and one around the MLP.
pub open spec fn layer_ops(layer: usize, dense: bool, position: usize) -> Seq<Glm52StageOp> {
    seq![
        Glm52StageOp::InputNorm { layer },
        Glm52StageOp::Attention { layer, position },
        Glm52StageOp::AddAttention,
        Glm52StageOp::PostNorm { layer },
        if dense {
            Glm52StageOp::DenseMlp { layer }
        } else {
            Glm52StageOp::MoeMlp { layer }
        },
        Glm52StageOp::AddMlp,
    ]
}

/// The launches of the first `k` layers.
pub open spec fn stage_ops(dense: Seq<bool>, position: usize, k: int) -> Seq<Glm52StageOp>
    decreases k,
{
    if k <= 0 {
        Seq::empty()
    } else {
        stage_ops(dense, position, k - 1) + layer_ops((k - 1) as usize, dense[k - 1], position)
    }
}

/// What is wrong with the input of a stage's layers.
pub open spec fn input_fault(stage: usize, hidden_len: usize, position: usize) -> Option<
    Glm52StageError,
> {
    if hidden_len != 6144 {
        Some(Glm52StageError::HiddenLen { stage, len: hidden_len })
    } else if position >= 2048 {
        Some(Glm52StageError::Position { position })
    } else {
        None
    }
}

impl Glm52StageDecode {
    /// The number of the stage.
    pub fn stage(&self) -> (r: usize)
        ensures
            r == self.index,
    {
        self.index
    }

    /// Whether the stage ends in the logits.
    pub fn owns_head(&self) -> (r: bool)
        ensures
            r == self.parts.lm_head,
    {
        self.parts.lm_head
    }

    /// The bytes of the cache of each layer.
    pub fn cache_bytes(&self) -> (r: Vec<usize>)
        ensures
            r@ == Seq::new(self.dense@.len(), |i: int| 1_343_488usize),
    {
        let bytes: usize = STAGE_NUM_BLOCKS * GLM52_PAGE_SIZE * GLM52_MLA_BYTES_PER_TOKEN;
        let r: Vec<usize> = vec![bytes; self.dense.len()];
        assert(r@ =~= Seq::new(self.dense@.len(), |i: int| 1_343_488usize));
        r
    }

    /// Whether the stage can look a token up.
    pub fn check_embed(&self) -> (r: Result<(), Glm52StageError>)
        ensures
            r == (if self.parts.embed {
                Ok(())
            } else {
                Err(Glm52StageError::NoEmbedding { stage: self.index })
            }),
    {
        if self.parts.embed {
            Ok(())
        } else {
            Err(Glm52StageError::NoEmbedding { stage: self.index })
        }
    }

    /// Plans the stage's layers over one token's hidden row.
    pub fn run_layers(&self, hidden_len: usize, position: usize) -> (r: Result<
        Vec<Glm52StageOp>,
        Glm52StageError,
    >)
        ensures
            match r {
                Ok(ops) => {
                    &&& input_fault(self.index, hidden_len, position) is None
                    &&& ops@ == stage_ops(self.dense@, position, self.dense.len() as int)
                },
                Err(e) => input_fault(self.index, hidden_len, position) == Some(e),
            },
            r is Ok <==> hidden_len == 6144 && position < 2048,
    {
        if hidden_len != GLM52_HIDDEN {
            return Err(Glm52StageError::HiddenLen { stage: self.index, len: hidden_len });
        }
        if position >= GLM52_DECODE_MAX_CTX {
            return Err(Glm52StageError::Position { position });
        }
        let mut ops: Vec<Glm52StageOp> = Vec::new();
        let mut layer: usize = 0;
        while layer < self.dense.len()
            invariant
                layer <= self.dense.len(),
                ops@ == stage_ops(self.dense@, position, layer as int),
            decreases self.dense.len() - layer,
        {
            let mut more: Vec<Glm52StageOp> = layer_forward(layer, self.dense[layer], position);
            ops.append(&mut more);
            layer = layer + 1;
        }
        Ok(ops)
    }

    /// Plans the stage's layers and the logits behind them.
    pub fn run_layers_and_head(&self, hidden_len: usize, position: usize) -> (r: Result<
        Vec<Glm52StageOp>,
        Glm52StageError,
    >)
        ensures
            match r {
                Ok(ops) => {
                    &&& input_fault(self.index, hidden_len, position) is None
                    &&& self.parts.final_norm
                    &&& self.parts.lm_head
                    &&& ops@ == stage_ops(self.dense@, position, self.dense.len() as int) + seq![
                        Glm52StageOp::FinalNorm,
                        Glm52StageOp::Head,
                    ]
                },
                Err(e) => Some(e) == (match input_fault(self.index, hidden_len, position) {
                    Some(fault) => Some(fault),
                    None => if !self.parts.final_norm {
                        Some(Glm52StageError::NoFinalNorm { stage: self.index })
                    } else if !self.parts.lm_head {
                        Some(Glm52StageError::NoHead { stage: self.index })
                    } else {
                        None
                    },
                }),
            },
            r is Ok <==> hidden_len == 6144 && position < 2048 && self.parts.final_norm
                && self.parts.lm_head,
    {
        let mut ops: Vec<Glm52StageOp> = match self.run_layers(hidden_len, position) {
            Ok(ops) => ops,
            Err(e) => {
                return Err(e);
            },
        };
        if !self.parts.final_norm {
            return Err(Glm52StageError::NoFinalNorm { stage: self.index });
        }
        if !self.parts.lm_head {
            return Err(Glm52StageError::NoHead { stage: self.index });
        }
        let ghost layers = ops@;
        ops.push(Glm52StageOp::FinalNorm);
        ops.push(Glm52StageOp::Head);
        assert(ops@ =~= layers + seq![Glm52StageOp::FinalNorm, Glm52StageOp::Head]);
        Ok(ops)
    }
}

/// Plans one layer.
fn layer_forward(layer: usize, dense: bool, position: usize) -> (r: Vec<Glm52StageOp>)
    ensures
        r@ == layer_ops(layer, dense, position),
{
    let ops: Vec<Glm52StageOp> = vec![
        Glm52StageOp::InputNorm { layer },
        Glm52StageOp::Attention { layer, position },
        Glm52StageOp::AddAttention,
        Glm52StageOp::PostNorm { layer },
        if dense {
            Glm52StageOp::DenseMlp { layer }
        } else {
            Glm52StageOp::MoeMlp { layer }
        },
        Glm52StageOp::AddMlp,
    ];
    assert(ops@ =~= layer_ops(layer, dense, position));
    ops
}

/// The slots that the token at a position attends to: every token up to and
/// with itself.
pub fn write_topk(position: usize) -> (r: Vec<i32>)
    requires
        position < 2048,
    ensures
        r@ == crate::bench::attended_slots(position + 1),
        r.len() == 2048,
        forall|i: int|
            0 <= i < 2048 ==> #[trigger] r@[i] as int == (if i <= position {
                i
            } else {
                -1
            }),
{
    attended_list(position + 1)
}

/// The cache slot and the sequence length of one token decoded alone.
pub fn single_token(position: usize, num_blocks: usize) -> (r: Result<
    (i64, i32),
    Glm52StageError,
>)
    requires
        64 * num_blocks <= i32::MAX,
    ensures
        r == (if position < 64 * num_blocks {
            Ok((position as i64, (position + 1) as i32))
        } else {
            Err(Glm52StageError::OutsideCache { position, blocks: num_blocks })
        }),
{
    if position < num_blocks * GLM52_PAGE_SIZE {
        Ok((position as i64, (position + 1) as i32))
    } else {
        Err(Glm52StageError::OutsideCache { position, blocks: num_blocks })
    }
}

/// The elements of a rotary table that belong to a position.
pub fn rope_row(position: usize) -> (r: (usize, usize))
    requires
        position < 2048,
    ensures
        r == ((32 * position) as usize, (32 * position + 32) as usize),
{
    (position * GLM52_ROPE_HALF, (position + 1) * GLM52_ROPE_HALF)
}

/// What the kernels of a stage compute, on whatever a hidden row is.
pub ghost struct StageKernels {
    pub input_norm: spec_fn(usize, int) -> int,
    pub attention: spec_fn(usize, usize, int) -> int,
    pub post_norm: spec_fn(usize, int) -> int,
    pub mlp: spec_fn(usize, bool, int) -> int,
    pub plus: spec_fn(int, int) -> int,
    pub final_norm: spec_fn(int) -> int,
    pub head: spec_fn(int) -> int,
}

/// The rows that a stage works on: the residual stream, the normed row and
/// what a block gave back.
pub ghost struct StageRows {
    pub hidden: int,
    pub normed: int,
    pub block: int,
}

/// What one launch does to the rows.
pub open spec fn launched(k: StageKernels, rows: StageRows, op: Glm52StageOp) -> StageRows {
    match op {
        Glm52StageOp::InputNorm { layer } => StageRows {
            normed: (k.input_norm)(layer, rows.hidden),
            ..rows
        },
        Glm52StageOp::Attention { layer, position } => StageRows {
            block: (k.attention)(layer, position, rows.normed),
            ..rows
        },
        Glm52StageOp::AddAttention => StageRows {
            hidden: (k.plus)(rows.hidden, rows.block),
            ..rows
        },
        Glm52StageOp::PostNorm { layer } => StageRows {
            normed: (k.post_norm)(layer, rows.hidden),
            ..rows
        },
        Glm52StageOp::DenseMlp { layer } => StageRows {
            block: (k.mlp)(layer, true, rows.normed),
            ..rows
        },
        Glm52StageOp::MoeMlp { layer } => StageRows {
            block: (k.mlp)(layer, false, rows.normed),
            ..rows
        },
        Glm52StageOp::AddMlp => StageRows { hidden: (k.plus)(rows.hidden, rows.block), ..rows },
        Glm52StageOp::FinalNorm => StageRows { normed: (k.final_norm)(rows.hidden), ..rows },
        Glm52StageOp::Head => StageRows { block: (k.head)(rows.normed), ..rows },
    }
}

/// What a list of launches does to the rows.
pub open spec fn ran(k: StageKernels, rows: StageRows, ops: Seq<Glm52StageOp>) -> StageRows
    decreases ops.len(),
{
    if ops.len() == 0 {
        rows
    } else {
        launched(k, ran(k, rows, ops.drop_last()), ops.last())
    }
}

/// The residual stream behind a layer: `r + MLP(post_ln(r))` with
/// `r = h + MLA(input_ln(h))`.
pub open spec fn residual_layer(
    k: StageKernels,
    layer: usize,
    dense: bool,
    position: usize,
    h: int,
) -> int {
    let r = (k.plus)(h, (k.attention)(layer, position, (k.input_norm)(layer, h)));
    (k.plus)(r, (k.mlp)(layer, dense, (k.post_norm)(layer, r)))
}

/// The residual stream behind the first `n` layers.
pub open spec fn residual_network(
    k: StageKernels,
    dense: Seq<bool>,
    position: usize,
    n: int,
    h: int,
) -> int
    decreases n,
{
    if n <= 0 {
        h
    } else {
        residual_layer(
            k,
            (n - 1) as usize,
            dense[n - 1],
            position,
            residual_network(k, dense, position, n - 1, h),
        )
    }
}

proof fn lemma_ran_concat(
    k: StageKernels,
    rows: StageRows,
    a: Seq<Glm52StageOp>,
    b: Seq<Glm52StageOp>,
)
    ensures
        ran(k, rows, a + b) == ran(k, ran(k, rows, a), b),
    decreases b.len(),
{
    if b.len() == 0 {
        assert(a + b =~= a);
    } else {
        lemma_ran_concat(k, rows, a, b.drop_last());
        assert((a + b).drop_last() =~= a + b.drop_last());
    }
}

proof fn lemma_layer(
    k: StageKernels,
    rows: StageRows,
    layer: usize,
    dense: bool,
    position: usize,
)
    ensures
        ran(k, rows, layer_ops(layer, dense, position)).hidden == residual_layer(
            k,
            layer,
            dense,
            position,
            rows.hidden,
        ),
{
    let ops = layer_ops(layer, dense, position);
    reveal_with_fuel(ran, 7);
    assert(ops.len() == 6);
    let d1 = ops.drop_last();
    let d2 = d1.drop_last();
    let d3 = d2.drop_last();
    let d4 = d3.drop_last();
    let d5 = d4.drop_last();
    assert(d5.drop_last().len() == 0);
    assert(d1.last() == ops[4] && d2.last() == ops[3] && d3.last() == ops[2] && d4.last() == ops[1]
        && d5.last() == ops[0]);
}

/// Whatever the kernels compute, the launches of a stage leave the residual
/// network's output in the residual stream, each layer with its own weights
/// and cache.
pub proof fn a_stage_is_the_residual_network(
    k: StageKernels,
    rows: StageRows,
    dense: Seq<bool>,
    position: usize,
    n: int,
)
    requires
        0 <= n <= dense.len(),
    ensures
        ran(k, rows, stage_ops(dense, position, n)).hidden == residual_network(
            k,
            dense,
            position,
            n,
            rows.hidden,
        ),
    decreases n,
{
    if n > 0 {
        a_stage_is_the_residual_network(k, rows, dense, position, n - 1);
        let before = stage_ops(dense, position, n - 1);
        let this = layer_ops((n - 1) as usize, dense[n - 1], position);
        lemma_ran_concat(k, rows, before, this);
        lemma_layer(k, ran(k, rows, before), (n - 1) as usize, dense[n - 1], position);
    }
}

} // verus!
