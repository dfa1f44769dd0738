//! Block-scaled FP8 projections: the byte lengths they must have, how two of
//! them are packed into one, and the shapes that may follow each other.
use vstd::prelude::*;

use crate::arith::div_ceil;
use crate::config::{
    FP8_BLOCK, GLM52_DENSE_INTERMEDIATE, GLM52_EXPERT_INTERMEDIATE, GLM52_HIDDEN,
};

verus! {

/// A projection weight: `n` output rows of `k` input columns.
#[derive(Clone, Copy, Debug, PartialEq, Eq, Structural)]
pub struct Glm52Proj {
    pub n: usize,
    pub k: usize,
}

/// Why a projection or a chain of projections is refused.
#[derive(Clone, Copy, Debug, PartialEq, Eq, Structural)]
pub enum Glm52ProjError {
    WeightBytes { got: usize, n: usize, k: usize },
    ScaleBytes { got: usize, n: usize, k: usize },
    PackInputs { first: usize, second: usize },
    PackAlignment { n: usize },
    InputTooShort { got: usize, rows: usize, k: usize },
    OddGateUp { n: usize },
    MlpShapes { gate_up: Glm52Proj, down: Glm52Proj },
    ScratchIntermediate { scratch: usize, weights: usize },
    IntermediateAlignment { intermediate: usize },
    NoRows,
    Shape { which: Glm52MlpPart, got: Glm52Proj, want: Glm52Proj },
    NotRankTwo,
    RowsOutOfRange { rows: usize, capacity: usize },
    MissingIndexer,
    LinearArena { which: Glm52LinearProj },
    UnexpectedWorkspace { which: Glm52LinearProj, bytes: usize },
    SmokeFailed { which: Glm52LinearProj, quant_valid: bool, output_nonzero: bool },
}

/// A part of a SwiGLU feed-forward block.
#[derive(Clone, Copy, Debug, PartialEq, Eq, Structural)]
pub enum Glm52MlpPart {
    Gate,
    Up,
    Down,
}

impl Glm52Proj {
    /// Bytes of the weight.
    pub open spec fn weight_bytes(self) -> int {
        self.n * self.k
    }

    /// Bytes of the block scales.
    pub open spec fn scale_bytes(self) -> int {
        crate::arith::ceil_div(self.n as int, 128) * crate::arith::ceil_div(self.k as int, 128) * 4
    }

    /// Whether the byte counts fit a machine word.
    pub open spec fn addressable(self) -> bool {
        self.weight_bytes() <= usize::MAX && self.scale_bytes() <= usize::MAX
    }

    /// Bytes of the block scales.
    pub fn scale_len(self) -> (r: usize)
        requires
            self.addressable(),
        ensures
            r == self.scale_bytes(),
            r == (self.n + 127) / 128 * ((self.k + 127) / 128) * 4,
    {
        let rows: usize = div_ceil(self.n, FP8_BLOCK);
        let cols: usize = div_ceil(self.k, FP8_BLOCK);
        assert(rows * cols <= rows * cols * 4) by (nonlinear_arith)
            requires
                rows >= 0,
                cols >= 0,
        ;
        rows * cols * 4
    }

    /// Checks that a weight and its scales have the bytes of the shape.
    pub fn check_bytes(self, weight_len: usize, scale_len: usize) -> (r: Result<
        (),
        Glm52ProjError,
    >)
        requires
            self.addressable(),
        ensures
            r == (if weight_len != self.weight_bytes() {
                Err::<(), _>(
                    Glm52ProjError::WeightBytes { got: weight_len, n: self.n, k: self.k },
                )
            } else if scale_len != self.scale_bytes() {
                Err(Glm52ProjError::ScaleBytes { got: scale_len, n: self.n, k: self.k })
            } else {
                Ok(())
            }),
    {
        if weight_len != self.n * self.k {
            return Err(Glm52ProjError::WeightBytes { got: weight_len, n: self.n, k: self.k });
        }
        if scale_len != self.scale_len() {
            return Err(Glm52ProjError::ScaleBytes { got: scale_len, n: self.n, k: self.k });
        }
        Ok(())
    }

    /// Checks that an activation buffer holds the rows of a projection.
    pub fn check_input(self, rows: usize, input_len: usize) -> (r: Result<(), Glm52ProjError>)
        requires
            rows * self.k <= usize::MAX,
        ensures
            r == (if input_len < rows * self.k {
                Err::<(), _>(Glm52ProjError::InputTooShort { got: input_len, rows, k: self.k })
            } else {
                Ok(())
            }),
    {
        if input_len < rows * self.k {
            return Err(Glm52ProjError::InputTooShort { got: input_len, rows, k: self.k });
        }
        Ok(())
    }
}

/// Two projections of one input as one: the second's rows and scale rows
/// follow the first's.
#[derive(Clone, Copy, Debug, PartialEq, Eq, Structural)]
pub struct Glm52PackedPair {
    pub proj: Glm52Proj,
    /// Where the second weight starts, and the bytes of both.
    pub weight_split: usize,
    pub weight_len: usize,
    /// Where the second scales start, and the bytes of both.
    pub scale_split: usize,
    pub scale_len: usize,
}

/// Packs two projections that read the same input. The first must fill whole
/// scale blocks, so that the second's scale rows stay on the packed grid.
pub fn pack_proj_pair(a: Glm52Proj, b: Glm52Proj) -> (r: Result<Glm52PackedPair, Glm52ProjError>)
    requires
        a.addressable(),
        b.addressable(),
        a.n + b.n <= usize::MAX,
        a.weight_bytes() + b.weight_bytes() <= usize::MAX,
        a.scale_bytes() + b.scale_bytes() <= usize::MAX,
    ensures
        match r {
            Ok(p) => {
                &&& a.k == b.k && a.n % 128 == 0
                &&& p.proj == (Glm52Proj { n: (a.n + b.n) as usize, k: a.k })
                &&& p.weight_split == a.weight_bytes()
                &&& p.weight_len == p.proj.weight_bytes()
                &&& p.weight_len == a.weight_bytes() + b.weight_bytes()
                &&& p.scale_split == a.scale_bytes()
                &&& p.scale_len == p.proj.scale_bytes()
                &&& p.scale_len == a.scale_bytes() + b.scale_bytes()
            },
            Err(e) => e == (if a.k != b.k {
                Glm52ProjError::PackInputs { first: a.k, second: b.k }
            } else {
                Glm52ProjError::PackAlignment { n: a.n }
            }) && (a.k != b.k || a.n % 128 != 0),
        },
{
    if a.k != b.k {
        return Err(Glm52ProjError::PackInputs { first: a.k, second: b.k });
    }
    if a.n % FP8_BLOCK != 0 {
        return Err(Glm52ProjError::PackAlignment { n: a.n });
    }
    let n: usize = a.n + b.n;
    let a_weight: usize = a.n * a.k;
    let b_weight: usize = b.n * b.k;
    let a_scale: usize = a.scale_len();
    let b_scale: usize = b.scale_len();
    proof {
        assert(n * a.k == a_weight + b_weight) by (nonlinear_arith)
            requires
                n == a.n + b.n,
                a_weight == a.n * a.k,
                b_weight == b.n * b.k,
                a.k == b.k,
        ;
        let ra = crate::arith::ceil_div(a.n as int, 128);
        let rb = crate::arith::ceil_div(b.n as int, 128);
        let rn = crate::arith::ceil_div(n as int, 128);
        let c = crate::arith::ceil_div(a.k as int, 128);
        assert(rn == ra + rb);
        assert(rn * c * 4 == ra * c * 4 + rb * c * 4) by (nonlinear_arith)
            requires
                rn == ra + rb,
        ;
    }
    Ok(
        Glm52PackedPair {
            proj: Glm52Proj { n, k: a.k },
            weight_split: a_weight,
            weight_len: a_weight + b_weight,
            scale_split: a_scale,
            scale_len: a_scale + b_scale,
        },
    )
}

/// A row of the packed weight finds its own projection's scale row: the
/// packed scale grid is the two grids one behind the other.
pub proof fn packed_rows_keep_their_scales(a: Glm52Proj, b: Glm52Proj, row: int)
    requires
        a.n % 128 == 0,
        0 <= row < a.n + b.n,
    ensures
        row < a.n ==> row / 128 < crate::arith::ceil_div(a.n as int, 128),
        row >= a.n ==> row / 128 == crate::arith::ceil_div(a.n as int, 128) + (row - a.n) / 128,
{
}

/// The buffers of a SwiGLU feed-forward block.
#[derive(Clone, Copy, Debug, PartialEq, Eq, Structural)]
pub struct Glm52MlpScratch {
    pub intermediate: usize,
    pub rows: usize,
    pub gate_up_len: usize,
    pub silu_len: usize,
}

impl Glm52MlpScratch {
    /// Buffers for an exact intermediate width.
    pub fn new(intermediate: usize, rows: usize) -> (r: Result<Self, Glm52ProjError>)
        requires
            rows * (2 * intermediate) <= usize::MAX,
        ensures
            match r {
                Ok(s) => {
                    &&& intermediate % 128 == 0 && rows > 0
                    &&& s.intermediate == intermediate
                    &&& s.rows == rows
                    &&& s.gate_up_len == rows * (2 * intermediate)
                    &&& s.silu_len == rows * intermediate
                },
                Err(e) => e == (if intermediate % 128 != 0 {
                    Glm52ProjError::IntermediateAlignment { intermediate }
                } else {
                    Glm52ProjError::NoRows
                }) && (intermediate % 128 != 0 || rows == 0),
            },
    {
        if intermediate % FP8_BLOCK != 0 {
            return Err(Glm52ProjError::IntermediateAlignment { intermediate });
        }
        if rows == 0 {
            return Err(Glm52ProjError::NoRows);
        }
        assert(rows * intermediate <= rows * (2 * intermediate) && 2 * intermediate <= rows * (2
            * intermediate)) by (nonlinear_arith)
            requires
                rows > 0,
        ;
        Ok(
            Glm52MlpScratch {
                intermediate,
                rows,
                gate_up_len: rows * (2 * intermediate),
                silu_len: rows * intermediate,
            },
        )
    }
}

/// Checks that a packed gate and up projection, a down projection and the
/// scratch buffers belong together, and returns the intermediate width.
pub fn check_mlp(gate_up: Glm52Proj, down: Glm52Proj, scratch: Glm52MlpScratch) -> (r: Result<
    usize,
    Glm52ProjError,
>)
    ensures
        r == (if gate_up.n % 2 != 0 {
            Err::<usize, _>(Glm52ProjError::OddGateUp { n: gate_up.n })
        } else if down.k != gate_up.n / 2 || gate_up.k != down.n {
            Err(Glm52ProjError::MlpShapes { gate_up, down })
        } else if scratch.intermediate != gate_up.n / 2 {
            Err(
                Glm52ProjError::ScratchIntermediate {
                    scratch: scratch.intermediate,
                    weights: (gate_up.n / 2) as usize,
                },
            )
        } else {
            Ok((gate_up.n / 2) as usize)
        }),
{
    if gate_up.n % 2 != 0 {
        return Err(Glm52ProjError::OddGateUp { n: gate_up.n });
    }
    let intermediate: usize = gate_up.n / 2;
    if down.k != intermediate || gate_up.k != down.n {
        return Err(Glm52ProjError::MlpShapes { gate_up, down });
    }
    if scratch.intermediate != intermediate {
        return Err(
            Glm52ProjError::ScratchIntermediate {
                scratch: scratch.intermediate,
                weights: intermediate,
            },
        );
    }
    Ok(intermediate)
}

/// The shape that a part of a feed-forward block must have.
pub open spec fn mlp_part_shape(which: Glm52MlpPart, intermediate: usize) -> Glm52Proj {
    match which {
        Glm52MlpPart::Gate | Glm52MlpPart::Up => Glm52Proj { n: intermediate, k: GLM52_HIDDEN },
        Glm52MlpPart::Down => Glm52Proj { n: GLM52_HIDDEN, k: intermediate },
    }
}

/// The first part of a feed-forward block that has not its shape, in the
/// order gate, up, down.
pub open spec fn mlp_shape_fault(
    intermediate: usize,
    gate: Glm52Proj,
    up: Glm52Proj,
    down: Glm52Proj,
) -> Option<Glm52ProjError> {
    if gate != mlp_part_shape(Glm52MlpPart::Gate, intermediate) {
        Some(
            Glm52ProjError::Shape {
                which: Glm52MlpPart::Gate,
                got: gate,
                want: mlp_part_shape(Glm52MlpPart::Gate, intermediate),
            },
        )
    } else if up != mlp_part_shape(Glm52MlpPart::Up, intermediate) {
        Some(
            Glm52ProjError::Shape {
                which: Glm52MlpPart::Up,
                got: up,
                want: mlp_part_shape(Glm52MlpPart::Up, intermediate),
            },
        )
    } else if down != mlp_part_shape(Glm52MlpPart::Down, intermediate) {
        Some(
            Glm52ProjError::Shape {
                which: Glm52MlpPart::Down,
                got: down,
                want: mlp_part_shape(Glm52MlpPart::Down, intermediate),
            },
        )
    } else {
        None
    }
}

/// Whether a packed pair is gate and up, one behind the other: weights and
/// scales split where those of the first end.
pub open spec fn packs_gate_and_up(
    p: Glm52PackedPair,
    intermediate: usize,
    gate: Glm52Proj,
    up: Glm52Proj,
) -> bool {
    &&& p.proj == (Glm52Proj { n: (2 * intermediate) as usize, k: GLM52_HIDDEN })
    &&& p.weight_split == gate.weight_bytes()
    &&& p.weight_len == gate.weight_bytes() + up.weight_bytes()
    &&& p.scale_split == gate.scale_bytes()
    &&& p.scale_len == gate.scale_bytes() + up.scale_bytes()
}

/// Checks the three projections of a feed-forward block.
pub fn check_mlp_shapes(
    intermediate: usize,
    gate: Glm52Proj,
    up: Glm52Proj,
    down: Glm52Proj,
) -> (r: Result<(), Glm52ProjError>)
    ensures
        r == (match mlp_shape_fault(intermediate, gate, up, down) {
            Some(fault) => Err::<(), _>(fault),
            None => Ok(()),
        }),
        r is Ok <==> gate == (Glm52Proj { n: intermediate, k: 6144 }) && up == (Glm52Proj {
            n: intermediate,
            k: 6144,
        }) && down == (Glm52Proj { n: 6144, k: intermediate }),
{
    let wide = Glm52Proj { n: intermediate, k: GLM52_HIDDEN };
    let narrow = Glm52Proj { n: GLM52_HIDDEN, k: intermediate };
    if gate != wide {
        return Err(Glm52ProjError::Shape { which: Glm52MlpPart::Gate, got: gate, want: wide });
    }
    if up != wide {
        return Err(Glm52ProjError::Shape { which: Glm52MlpPart::Up, got: up, want: wide });
    }
    if down != narrow {
        return Err(Glm52ProjError::Shape { which: Glm52MlpPart::Down, got: down, want: narrow });
    }
    Ok(())
}

/// The bytes of a projection that reads the hidden width.
pub(crate) proof fn lemma_hidden_proj_bytes(p: Glm52Proj)
    requires
        p.n <= 24_576,
        p.k == 6144,
    ensures
        p.weight_bytes() == 6144 * p.n,
        p.scale_bytes() == 192 * crate::arith::ceil_div(p.n as int, 128),
        p.addressable(),
{
    assert(p.n * p.k == 6144 * p.n) by (nonlinear_arith)
        requires
            p.k == 6144,
    ;
    let rows = crate::arith::ceil_div(p.n as int, 128);
    let cols = crate::arith::ceil_div(p.k as int, 128);
    assert(cols == 48);
    assert(rows * cols * 4 == 192 * rows) by (nonlinear_arith)
        requires
            cols == 48,
    ;
}

/// The packed gate and up projection of a dense layer.
pub fn dense_mlp_weights(gate: Glm52Proj, up: Glm52Proj, down: Glm52Proj) -> (r: Result<
    Glm52PackedPair,
    Glm52ProjError,
>)
    ensures
        match mlp_shape_fault(GLM52_DENSE_INTERMEDIATE, gate, up, down) {
            None => r matches Ok(p) && packs_gate_and_up(p, GLM52_DENSE_INTERMEDIATE, gate, up),
            Some(fault) => r == Err::<Glm52PackedPair, _>(fault),
        },
        r is Ok <==> gate == (Glm52Proj { n: 12_288, k: 6144 }) && up == (Glm52Proj {
            n: 12_288,
            k: 6144,
        }) && down == (Glm52Proj { n: 6144, k: 12_288 }),
        r matches Ok(p) ==> p.proj == (Glm52Proj { n: 24_576, k: 6144 }) && p.weight_split
            == 75_497_472 && p.weight_len == 150_994_944 && p.scale_split == 18_432 && p.scale_len
            == 36_864,
{
    match check_mlp_shapes(GLM52_DENSE_INTERMEDIATE, gate, up, down) {
        Ok(()) => {},
        Err(e) => {
            return Err(e);
        },
    }
    proof {
        lemma_hidden_proj_bytes(gate);
        lemma_hidden_proj_bytes(up);
    }
    pack_proj_pair(gate, up)
}

/// The packed gate and up projection of a MoE layer's shared expert.
pub fn shared_expert_weights(gate: Glm52Proj, up: Glm52Proj, down: Glm52Proj) -> (r: Result<
    Glm52PackedPair,
    Glm52ProjError,
>)
    ensures
        match mlp_shape_fault(GLM52_EXPERT_INTERMEDIATE, gate, up, down) {
            None => r matches Ok(p) && packs_gate_and_up(p, GLM52_EXPERT_INTERMEDIATE, gate, up),
            Some(fault) => r == Err::<Glm52PackedPair, _>(fault),
        },
        r is Ok <==> gate == (Glm52Proj { n: 2048, k: 6144 }) && up == (Glm52Proj {
            n: 2048,
            k: 6144,
        }) && down == (Glm52Proj { n: 6144, k: 2048 }),
        r matches Ok(p) ==> p.proj == (Glm52Proj { n: 4096, k: 6144 }) && p.weight_split
            == 12_582_912 && p.weight_len == 25_165_824 && p.scale_split == 3072 && p.scale_len
            == 6144,
{
    match check_mlp_shapes(GLM52_EXPERT_INTERMEDIATE, gate, up, down) {
        Ok(()) => {},
        Err(e) => {
            return Err(e);
        },
    }
    proof {
        lemma_hidden_proj_bytes(gate);
        lemma_hidden_proj_bytes(up);
    }
    pack_proj_pair(gate, up)
}

/// A projection of the attention block, as the linear smoke test runs it.
#[derive(Clone, Copy, Debug, PartialEq, Eq, Structural)]
pub enum Glm52LinearProj {
    QA,
    QB,
    KvA,
    KvB,
    OProj,
    IndexerWk,
    IndexerWqB,
}

/// A buffer of the decode arena that a projection reads.
#[derive(Clone, Copy, Debug, PartialEq, Eq, Structural)]
pub enum Glm52LinearInput {
    Normed,
    QANormed,
    KvANormed,
    AttentionOut,
}

/// The buffer that each projection reads.
pub open spec fn linear_input(which: Glm52LinearProj) -> Glm52LinearInput {
    match which {
        Glm52LinearProj::QA | Glm52LinearProj::KvA | Glm52LinearProj::IndexerWk =>
            Glm52LinearInput::Normed,
        Glm52LinearProj::QB | Glm52LinearProj::IndexerWqB => Glm52LinearInput::QANormed,
        Glm52LinearProj::KvB => Glm52LinearInput::KvANormed,
        Glm52LinearProj::OProj => Glm52LinearInput::AttentionOut,
    }
}

/// The projections of the linear smoke test, in the order they run.
pub open spec fn linear_smoke_order() -> Seq<Glm52LinearProj> {
    seq![
        Glm52LinearProj::QA,
        Glm52LinearProj::QB,
        Glm52LinearProj::KvA,
        Glm52LinearProj::KvB,
        Glm52LinearProj::OProj,
        Glm52LinearProj::IndexerWk,
        Glm52LinearProj::IndexerWqB,
    ]
}

/// The buffer that a projection reads.
pub fn linear_smoke_input(which: Glm52LinearProj) -> (r: Glm52LinearInput)
    ensures
        r == linear_input(which),
        match r {
            Glm52LinearInput::Normed => which is QA || which is KvA || which is IndexerWk,
            Glm52LinearInput::QANormed => which is QB || which is IndexerWqB,
            Glm52LinearInput::KvANormed => which is KvB,
            Glm52LinearInput::AttentionOut => which is OProj,
        },
{
    match which {
        Glm52LinearProj::QA | Glm52LinearProj::KvA | Glm52LinearProj::IndexerWk => {
            Glm52LinearInput::Normed
        },
        Glm52LinearProj::QB | Glm52LinearProj::IndexerWqB => Glm52LinearInput::QANormed,
        Glm52LinearProj::KvB => Glm52LinearInput::KvANormed,
        Glm52LinearProj::OProj => Glm52LinearInput::AttentionOut,
    }
}

/// Plans the linear smoke test of an attention block: the row count must fit
/// the arena, and the layer must own an indexer.
pub fn plan_linear_smoke(rows: usize, batch_capacity: usize, has_indexer: bool) -> (r: Result<
    Vec<Glm52LinearProj>,
    Glm52ProjError,
>)
    ensures
        match r {
            Ok(order) => {
                &&& 1 <= rows <= batch_capacity
                &&& has_indexer
                &&& order@ == linear_smoke_order()
            },
            Err(e) => e == (if !(1 <= rows <= batch_capacity) {
                Glm52ProjError::RowsOutOfRange { rows, capacity: batch_capacity }
            } else {
                Glm52ProjError::MissingIndexer
            }) && (!(1 <= rows <= batch_capacity) || !has_indexer),
        },
        r matches Ok(order) ==> order@.no_duplicates() && order.len() == 7,
{
    if rows == 0 || rows > batch_capacity {
        return Err(Glm52ProjError::RowsOutOfRange { rows, capacity: batch_capacity });
    }
    if !has_indexer {
        return Err(Glm52ProjError::MissingIndexer);
    }
    let order: Vec<Glm52LinearProj> = vec![
        Glm52LinearProj::QA,
        Glm52LinearProj::QB,
        Glm52LinearProj::KvA,
        Glm52LinearProj::KvB,
        Glm52LinearProj::OProj,
        Glm52LinearProj::IndexerWk,
        Glm52LinearProj::IndexerWqB,
    ];
    assert(order@ =~= linear_smoke_order());
    Ok(order)
}

/// The launch contract of one FP8 linear.
#[derive(Clone, Copy, Debug, PartialEq, Eq, Structural)]
pub struct Glm52LinearContract {
    pub m: usize,
    pub n: usize,
    pub k: usize,
    pub weight_scale_rows: usize,
    pub weight_scale_cols: usize,
    pub activation_scale_cols: usize,
}

/// The contract of a projection whose weight and scales are matrices.
pub fn projection_contract(
    rows: usize,
    weight_shape: &Vec<usize>,
    scale_shape: &Vec<usize>,
) -> (r: Result<Glm52LinearContract, Glm52ProjError>)
    ensures
        r is Ok <==> weight_shape.len() == 2 && scale_shape.len() == 2,
        match r {
            Ok(c) => {
                &&& c.m == rows
                &&& c.n == weight_shape@[0]
                &&& c.k == weight_shape@[1]
                &&& c.weight_scale_rows == scale_shape@[0]
                &&& c.weight_scale_cols == scale_shape@[1]
                &&& c.activation_scale_cols == crate::arith::ceil_div(c.k as int, 128)
            },
            Err(e) => e == Glm52ProjError::NotRankTwo,
        },
{
    if weight_shape.len() != 2 || scale_shape.len() != 2 {
        return Err(Glm52ProjError::NotRankTwo);
    }
    let k: usize = weight_shape[1];
    Ok(
        Glm52LinearContract {
            m: rows,
            n: weight_shape[0],
            k,
            weight_scale_rows: scale_shape[0],
            weight_scale_cols: scale_shape[1],
            activation_scale_cols: div_ceil(k, FP8_BLOCK),
        },
    )
}

/// What is left to check of one projection of the smoke test: its input must
/// fit the arena, the launch must need no workspace, and the outputs must be
/// sound.
pub fn judge_linear_smoke(
    which: Glm52LinearProj,
    contract: Glm52LinearContract,
    input_len: usize,
    scale_len: usize,
    workspace_bytes: usize,
    quant_valid: bool,
    output_nonzero: bool,
) -> (r: Result<(), Glm52ProjError>)
    requires
        contract.m * contract.k <= usize::MAX,
        contract.m * contract.activation_scale_cols <= usize::MAX,
    ensures
        r == (if input_len < contract.m * contract.k || scale_len < contract.m
            * contract.activation_scale_cols {
            Err::<(), _>(Glm52ProjError::LinearArena { which })
        } else if workspace_bytes != 0 {
            Err(Glm52ProjError::UnexpectedWorkspace { which, bytes: workspace_bytes })
        } else if !(quant_valid && output_nonzero) {
            Err(Glm52ProjError::SmokeFailed { which, quant_valid, output_nonzero })
        } else {
            Ok(())
        }),
{
    if input_len < contract.m * contract.k || scale_len < contract.m
        * contract.activation_scale_cols {
        return Err(Glm52ProjError::LinearArena { which });
    }
    if workspace_bytes != 0 {
        return Err(Glm52ProjError::UnexpectedWorkspace { which, bytes: workspace_bytes });
    }
    if !(quant_valid && output_nonzero) {
        return Err(Glm52ProjError::SmokeFailed { which, quant_valid, output_nonzero });
    }
    Ok(())
}

/// Constant-fill weight bytes of a projection: `0x38` is 1.0 in E4M3.
fn synth_weight(proj: Glm52Proj) -> (r: Vec<u8>)
    requires
        proj.addressable(),
    ensures
        r@ == Seq::new(proj.weight_bytes() as nat, |i: int| 0x38u8),
{
    let r: Vec<u8> = vec![0x38u8; proj.n * proj.k];
    assert(r@ =~= Seq::new(proj.weight_bytes() as nat, |i: int| 0x38u8));
    r
}

/// Unit block scales of a projection: the little-endian bytes of 1.0 in
/// single precision, one per block.
fn synth_scale(proj: Glm52Proj) -> (r: Vec<u8>)
    requires
        proj.addressable(),
    ensures
        r.len() == proj.scale_bytes(),
        forall|i: int|
            0 <= i < r.len() ==> #[trigger] r@[i] == (if i % 4 == 2 {
                0x80u8
            } else if i % 4 == 3 {
                0x3fu8
            } else {
                0u8
            }),
{
    let len: usize = proj.scale_len();
    let mut bytes: Vec<u8> = Vec::new();
    let mut i: usize = 0;
    while i < len
        invariant
            i <= len,
            bytes.len() == i,
            forall|j: int|
                0 <= j < i ==> #[trigger] bytes@[j] == (if j % 4 == 2 {
                    0x80u8
                } else if j % 4 == 3 {
                    0x3fu8
                } else {
                    0u8
                }),
        decreases len - i,
    {
        bytes.push(
            match i % 4 {
                2 => 0x80u8,
                3 => 0x3fu8,
                _ => 0u8,
            },
        );
        i = i + 1;
    }
    bytes
}

/// The bytes of a synthetic `[n, k]` projection: every weight and every block
/// scale is one.
pub fn synth_proj(n: usize, k: usize) -> (r: (Vec<u8>, Vec<u8>))
    requires
        (Glm52Proj { n, k }).addressable(),
    ensures
        r.0@ == Seq::new((Glm52Proj { n, k }).weight_bytes() as nat, |i: int| 0x38u8),
        r.1.len() == (Glm52Proj { n, k }).scale_bytes(),
        forall|i: int|
            0 <= i < r.1.len() ==> #[trigger] r.1@[i] == (if i % 4 == 2 {
                0x80u8
            } else if i % 4 == 3 {
                0x3fu8
            } else {
                0u8
            }),
{
    let proj = Glm52Proj { n, k };
    (synth_weight(proj), synth_scale(proj))
}

} // verus!
