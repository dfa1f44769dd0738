//! What the launches of a draft pass compute: the draft layer, as one
//! composition of its kernels.
use vstd::prelude::*;

use crate::mtp::Glm52MtpOp;

verus! {

/// The functions that the draft layer's kernels compute. A buffer's contents
/// stand as one number, whatever they are.
pub ghost struct Glm52MtpKernels {
    pub embed: spec_fn(int) -> int,
    /// The norms of the token embedding and of the previous hidden state.
    pub embedding_norm: spec_fn(int) -> int,
    pub hidden_norm: spec_fn(int) -> int,
    /// The projection of the pair of them.
    pub project: spec_fn(int, int) -> int,
    pub input_norm: spec_fn(int) -> int,
    pub select: spec_fn(int) -> int,
    pub attend: spec_fn(int, int) -> int,
    pub post_norm: spec_fn(int) -> int,
    /// The experts, over this many rows of this many on all ranks.
    pub experts: spec_fn(int, int, int) -> int,
    pub plus: spec_fn(int, int) -> int,
    pub shared_norm: spec_fn(int) -> int,
    pub head: spec_fn(int) -> int,
    pub argmax: spec_fn(int) -> int,
}

/// The buffers that the launches read and write.
pub ghost struct Glm52MtpBuffers {
    pub tokens: int,
    pub previous: int,
    pub embeds: int,
    pub decoder_input: int,
    pub hidden: int,
    pub normed: int,
    pub selection: int,
    pub attn: int,
    pub normed2: int,
    pub mlp_out: int,
    pub final_normed: int,
    pub logits: int,
    pub token: int,
}

/// What one launch does to the buffers.
pub open spec fn mtp_launch(m: Glm52MtpKernels, s: Glm52MtpBuffers, op: Glm52MtpOp) -> Glm52MtpBuffers {
    match op {
        Glm52MtpOp::Embed => Glm52MtpBuffers { embeds: (m.embed)(s.tokens), ..s },
        Glm52MtpOp::Prepare => Glm52MtpBuffers {
            decoder_input: (m.project)(
                (m.embedding_norm)(s.embeds),
                (m.hidden_norm)(s.previous),
            ),
            ..s
        },
        Glm52MtpOp::TakeInput => Glm52MtpBuffers { hidden: s.decoder_input, ..s },
        Glm52MtpOp::InputNorm => Glm52MtpBuffers { normed: (m.input_norm)(s.hidden), ..s },
        Glm52MtpOp::Attention { selects } => {
            let selection = if selects {
                (m.select)(s.normed)
            } else {
                s.selection
            };
            let attn = (m.plus)((m.attend)(s.normed, selection), s.hidden);
            Glm52MtpBuffers { selection, attn, normed2: (m.post_norm)(attn), ..s }
        },
        Glm52MtpOp::Moe { rows, global_rows } => Glm52MtpBuffers {
            mlp_out: (m.experts)(rows as int, global_rows as int, s.normed2),
            ..s
        },
        Glm52MtpOp::Finish => Glm52MtpBuffers { hidden: (m.plus)(s.attn, s.mlp_out), ..s },
        Glm52MtpOp::Recycle => Glm52MtpBuffers { final_normed: (m.shared_norm)(s.hidden), ..s },
        Glm52MtpOp::Head => Glm52MtpBuffers { logits: (m.head)(s.final_normed), ..s },
        Glm52MtpOp::Argmax => Glm52MtpBuffers { token: (m.argmax)(s.logits), ..s },
    }
}

/// The buffers after the first `k` launches of a list.
pub open spec fn mtp_after(
    m: Glm52MtpKernels,
    s: Glm52MtpBuffers,
    ops: Seq<Glm52MtpOp>,
    k: int,
) -> Glm52MtpBuffers
    decreases k,
{
    if k <= 0 {
        s
    } else {
        mtp_launch(m, mtp_after(m, s, ops, k - 1), ops[k - 1])
    }
}

/// A draft pass computes the draft layer, whatever its kernels compute: the
/// token's embedding and the previous hidden state, normed and projected, go
/// through attention and then through the experts, each on the norm of what
/// it is added to; the token is the argmax of the head over the normed
/// result, which is also what the next pass recycles. The experts run over
/// the pass's rows, eight ranks of them. A pass that selects attends by its
/// own selection and leaves it behind; any other attends by the one it finds.
pub proof fn a_draft_pass_is_the_draft_layer(
    m: Glm52MtpKernels,
    s: Glm52MtpBuffers,
    rows: usize,
    selects: bool,
)
    requires
        rows <= 8,
    ensures
        ({
            let ops = crate::mtp::mtp_ops(rows, selects);
            let r = mtp_after(m, s, ops, ops.len() as int);
            let x = (m.project)(
                (m.embedding_norm)((m.embed)(s.tokens)),
                (m.hidden_norm)(s.previous),
            );
            let selection = if selects {
                (m.select)((m.input_norm)(x))
            } else {
                s.selection
            };
            let y = (m.plus)((m.attend)((m.input_norm)(x), selection), x);
            let z = (m.plus)(y, (m.experts)(rows as int, 8 * rows, (m.post_norm)(y)));
            &&& r.token == (m.argmax)((m.head)((m.shared_norm)(z)))
            &&& r.final_normed == (m.shared_norm)(z)
            &&& r.selection == selection
        }),
{
    reveal_with_fuel(mtp_after, 12);
}

/// A draft pass attends once and runs the experts once, behind the attention:
/// before it they would read what an earlier pass left behind.
pub proof fn the_experts_follow_the_attention(rows: usize, selects: bool, i: int, j: int)
    requires
        0 <= i < crate::mtp::mtp_ops(rows, selects).len(),
        0 <= j < crate::mtp::mtp_ops(rows, selects).len(),
    ensures
        crate::mtp::mtp_ops(rows, selects)[i] is Attention && crate::mtp::mtp_ops(
            rows,
            selects,
        )[j] is Moe ==> i < j,
        crate::mtp::mtp_ops(rows, selects)[i] is Moe && crate::mtp::mtp_ops(
            rows,
            selects,
        )[j] is Moe ==> i == j,
        crate::mtp::mtp_ops(rows, selects)[i] is Attention && crate::mtp::mtp_ops(
            rows,
            selects,
        )[j] is Attention ==> i == j,
{
}

} // verus!
