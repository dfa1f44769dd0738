//! The routed experts of one MoE layer: the expert bank's layout, the checks
//! that a collective step passes, and the launches of its two kernel chains.
use vstd::prelude::*;

use crate::config::{GLM52_HIDDEN, GLM52_MAX_BATCH_PER_RANK};
use crate::moe_smoke::Glm52MoeOperand;
use crate::proj::Glm52Proj;

verus! {

/// Rows that an expert's segment is padded to.
pub const GLM52_GROUPED_EXPERT_ALIGNMENT: usize = 64;

/// The dimensions that the dispatch library was built with.
#[derive(Clone, Copy, Debug, PartialEq, Eq, Structural)]
pub struct Glm52EpInfo {
    pub num_ranks: usize,
    pub num_experts: usize,
    pub num_local_experts: usize,
    pub num_topk: usize,
    pub hidden: usize,
    pub expert_alignment: usize,
    pub decode_max_tokens_per_rank: usize,
    pub decode_worst_recv_tokens: usize,
    pub decode_worst_expanded_tokens: usize,
}

/// Why the routed experts cannot be set up or a step is refused.
#[derive(Clone, Copy, Debug, PartialEq, Eq, Structural)]
pub enum Glm52MoeRoutedError {
    LibraryShape { info: Glm52EpInfo },
    Ranks { num_ranks: usize, want: usize },
    MaskedGroups { local_experts: usize },
    Partition { info: Glm52EpInfo },
    Bank { experts: usize, want: usize },
    NoTokens,
    GlobalTokens { global: usize, local: usize },
    TokenCap { global: usize, cap: usize },
    BankLength { which: Glm52BankPart, got: u64, want: u64 },
    ExpertShape { expert: usize, part: Glm52ExpertPart },
    ExpertScale { expert: usize, part: Glm52ExpertPart },
    RouterBytes { gate: usize, bias: usize },
    RouterRows,
}

/// A buffer of an expert bank.
#[derive(Clone, Copy, Debug, PartialEq, Eq, Structural)]
pub enum Glm52BankPart {
    W13Weight,
    W13Scale,
    W2Weight,
    W2Scale,
}

/// A projection of one routed expert.
#[derive(Clone, Copy, Debug, PartialEq, Eq, Structural)]
pub enum Glm52ExpertPart {
    Gate,
    Up,
    Down,
}

/// Checks the router's bytes: two per gate element, four per expert's bias.
pub fn check_router_weights(gate_bytes: usize, bias_bytes: usize) -> (r: Result<
    (),
    Glm52MoeRoutedError,
>)
    ensures
        r == (if gate_bytes == 3_145_728 && bias_bytes == 1024 {
            Ok::<(), Glm52MoeRoutedError>(())
        } else {
            Err(Glm52MoeRoutedError::RouterBytes { gate: gate_bytes, bias: bias_bytes })
        }),
{
    if !(gate_bytes == 256 * 6144 * 2 && bias_bytes == 256 * 4) {
        return Err(Glm52MoeRoutedError::RouterBytes { gate: gate_bytes, bias: bias_bytes });
    }
    Ok(())
}

/// The lengths of the router's buffers: the scores and the chosen experts.
pub fn router_lens(tokens: usize) -> (r: Result<(usize, usize), Glm52MoeRoutedError>)
    requires
        256 * tokens <= usize::MAX,
    ensures
        match r {
            Ok((logits, routes)) => tokens > 0 && logits == 256 * tokens && routes == 8 * tokens,
            Err(e) => tokens == 0 && e == Glm52MoeRoutedError::RouterRows,
        },
{
    if tokens == 0 {
        return Err(Glm52MoeRoutedError::RouterRows);
    }
    Ok((tokens * 256, tokens * 8))
}

/// Elements of an expert bank's buffers.
pub open spec fn bank_len(which: Glm52BankPart, experts: int) -> int {
    match which {
        Glm52BankPart::W13Weight => 25_165_824 * experts,
        Glm52BankPart::W13Scale => 1536 * experts,
        Glm52BankPart::W2Weight => 12_582_912 * experts,
        Glm52BankPart::W2Scale => 768 * experts,
    }
}

/// Checks the lengths of an expert bank.
pub fn check_bank(experts: usize, w13: u64, w13_scale: u64, w2: u64, w2_scale: u64) -> (r: Result<
    (),
    Glm52MoeRoutedError,
>)
    requires
        experts <= 0xffff_ffff,
    ensures
        match r {
            Ok(()) => {
                &&& w13 == bank_len(Glm52BankPart::W13Weight, experts as int)
                &&& w13_scale == bank_len(Glm52BankPart::W13Scale, experts as int)
                &&& w2 == bank_len(Glm52BankPart::W2Weight, experts as int)
                &&& w2_scale == bank_len(Glm52BankPart::W2Scale, experts as int)
            },
            Err(Glm52MoeRoutedError::BankLength { which, got, want }) => {
                &&& want == bank_len(which, experts as int) && got != want
                &&& match which {
                    Glm52BankPart::W13Weight => got == w13,
                    Glm52BankPart::W13Scale => got == w13_scale && w13 == bank_len(
                        Glm52BankPart::W13Weight,
                        experts as int,
                    ),
                    Glm52BankPart::W2Weight => got == w2 && w13 == bank_len(
                        Glm52BankPart::W13Weight,
                        experts as int,
                    ) && w13_scale == bank_len(Glm52BankPart::W13Scale, experts as int),
                    Glm52BankPart::W2Scale => got == w2_scale && w13 == bank_len(
                        Glm52BankPart::W13Weight,
                        experts as int,
                    ) && w13_scale == bank_len(Glm52BankPart::W13Scale, experts as int) && w2
                        == bank_len(Glm52BankPart::W2Weight, experts as int),
                }
            },
            Err(_) => false,
        },
        r is Ok <==> w13 == 25_165_824 * experts && w13_scale == 1536 * experts && w2 == 12_582_912
            * experts && w2_scale == 768 * experts,
{
    let n: u64 = experts as u64;
    let want: u64 = n * 25_165_824;
    if w13 != want {
        return Err(
            Glm52MoeRoutedError::BankLength { which: Glm52BankPart::W13Weight, got: w13, want },
        );
    }
    let want: u64 = n * 1536;
    if w13_scale != want {
        return Err(
            Glm52MoeRoutedError::BankLength { which: Glm52BankPart::W13Scale, got: w13_scale, want },
        );
    }
    let want: u64 = n * 12_582_912;
    if w2 != want {
        return Err(
            Glm52MoeRoutedError::BankLength { which: Glm52BankPart::W2Weight, got: w2, want },
        );
    }
    let want: u64 = n * 768;
    if w2_scale != want {
        return Err(
            Glm52MoeRoutedError::BankLength { which: Glm52BankPart::W2Scale, got: w2_scale, want },
        );
    }
    Ok(())
}

/// The checkpoint bytes of one projection.
#[derive(Debug)]
pub struct Glm52ProjBytes {
    pub shape: Glm52Proj,
    pub weight: Vec<u8>,
    pub scale: Vec<u8>,
}

/// The checkpoint bytes of one routed expert.
#[derive(Debug)]
pub struct Glm52MoeRoutedExpertBytes {
    pub gate: Glm52ProjBytes,
    pub up: Glm52ProjBytes,
    pub down: Glm52ProjBytes,
}

/// A rank's experts one behind the other. The scales are still bytes.
#[derive(Debug)]
pub struct Glm52PackedExperts {
    pub w13_weight: Vec<u8>,
    pub w13_scale: Vec<u8>,
    pub w2_weight: Vec<u8>,
    pub w2_scale: Vec<u8>,
}

/// The shape of an expert's projection.
pub open spec fn expert_shape(part: Glm52ExpertPart) -> Glm52Proj {
    match part {
        Glm52ExpertPart::Gate | Glm52ExpertPart::Up => Glm52Proj { n: 2048, k: 6144 },
        Glm52ExpertPart::Down => Glm52Proj { n: 6144, k: 2048 },
    }
}

/// Whether a projection of an expert has its shape and weight bytes.
pub open spec fn part_shaped(p: Glm52ProjBytes, part: Glm52ExpertPart) -> bool {
    p.shape == expert_shape(part) && p.weight.len() == 12_582_912
}

/// Whether a projection of an expert is complete.
pub open spec fn part_sound(p: Glm52ProjBytes, part: Glm52ExpertPart) -> bool {
    part_shaped(p, part) && p.scale.len() == 3072
}

/// Whether an expert is complete.
pub open spec fn expert_sound(e: Glm52MoeRoutedExpertBytes) -> bool {
    &&& part_sound(e.gate, Glm52ExpertPart::Gate)
    &&& part_sound(e.up, Glm52ExpertPart::Up)
    &&& part_sound(e.down, Glm52ExpertPart::Down)
}

/// What is wrong with an expert: its first projection that is not complete.
pub open spec fn expert_fault(e: Glm52MoeRoutedExpertBytes, expert: usize) -> Glm52MoeRoutedError {
    let (p, part) = if !part_sound(e.gate, Glm52ExpertPart::Gate) {
        (e.gate, Glm52ExpertPart::Gate)
    } else if !part_sound(e.up, Glm52ExpertPart::Up) {
        (e.up, Glm52ExpertPart::Up)
    } else {
        (e.down, Glm52ExpertPart::Down)
    };
    if !part_shaped(p, part) {
        Glm52MoeRoutedError::ExpertShape { expert, part }
    } else {
        Glm52MoeRoutedError::ExpertScale { expert, part }
    }
}

/// The first `k` experts' gate and up weights, one behind the other.
pub open spec fn packed_w13(experts: Seq<Glm52MoeRoutedExpertBytes>, k: int) -> Seq<u8>
    decreases k,
{
    if k <= 0 {
        Seq::empty()
    } else {
        packed_w13(experts, k - 1) + experts[k - 1].gate.weight@ + experts[k - 1].up.weight@
    }
}

/// The first `k` experts' gate and up scales.
pub open spec fn packed_w13_scale(experts: Seq<Glm52MoeRoutedExpertBytes>, k: int) -> Seq<u8>
    decreases k,
{
    if k <= 0 {
        Seq::empty()
    } else {
        packed_w13_scale(experts, k - 1) + experts[k - 1].gate.scale@ + experts[k - 1].up.scale@
    }
}

/// The first `k` experts' down weights.
pub open spec fn packed_w2(experts: Seq<Glm52MoeRoutedExpertBytes>, k: int) -> Seq<u8>
    decreases k,
{
    if k <= 0 {
        Seq::empty()
    } else {
        packed_w2(experts, k - 1) + experts[k - 1].down.weight@
    }
}

/// The first `k` experts' down scales.
pub open spec fn packed_w2_scale(experts: Seq<Glm52MoeRoutedExpertBytes>, k: int) -> Seq<u8>
    decreases k,
{
    if k <= 0 {
        Seq::empty()
    } else {
        packed_w2_scale(experts, k - 1) + experts[k - 1].down.scale@
    }
}

/// Checks one projection of an expert.
fn check_part(p: &Glm52ProjBytes, expert: usize, part: Glm52ExpertPart) -> (r: Result<
    (),
    Glm52MoeRoutedError,
>)
    ensures
        match r {
            Ok(()) => part_sound(*p, part),
            Err(e) => !part_sound(*p, part) && e == (if !part_shaped(*p, part) {
                Glm52MoeRoutedError::ExpertShape { expert, part }
            } else {
                Glm52MoeRoutedError::ExpertScale { expert, part }
            }),
        },
{
    let want = match part {
        Glm52ExpertPart::Gate | Glm52ExpertPart::Up => Glm52Proj { n: 2048, k: GLM52_HIDDEN },
        Glm52ExpertPart::Down => Glm52Proj { n: GLM52_HIDDEN, k: 2048 },
    };
    if !(p.shape == want && p.weight.len() == 2048 * 6144) {
        return Err(Glm52MoeRoutedError::ExpertShape { expert, part });
    }
    if p.scale.len() != 16 * 48 * 4 {
        return Err(Glm52MoeRoutedError::ExpertScale { expert, part });
    }
    Ok(())
}

/// Appends bytes.
fn append_bytes(to: &mut Vec<u8>, from: &Vec<u8>)
    ensures
        final(to)@ == old(to)@ + from@,
{
    to.extend_from_slice(from.as_slice());
}

/// Packs a rank's experts, each one's gate before its up projection. The
/// first expert that is not complete refuses the bank.
pub fn pack_experts(experts: &Vec<Glm52MoeRoutedExpertBytes>) -> (r: Result<
    Glm52PackedExperts,
    Glm52MoeRoutedError,
>)
    ensures
        match r {
            Ok(p) => {
                &&& forall|i: int| 0 <= i < experts.len() ==> expert_sound(#[trigger] experts@[i])
                &&& p.w13_weight@ == packed_w13(experts@, experts.len() as int)
                &&& p.w13_scale@ == packed_w13_scale(experts@, experts.len() as int)
                &&& p.w2_weight@ == packed_w2(experts@, experts.len() as int)
                &&& p.w2_scale@ == packed_w2_scale(experts@, experts.len() as int)
            },
            Err(e) => exists|k: int|
                {
                    &&& 0 <= k < experts.len()
                    &&& !expert_sound(#[trigger] experts@[k])
                    &&& e == expert_fault(experts@[k], k as usize)
                    &&& forall|i: int| 0 <= i < k ==> expert_sound(#[trigger] experts@[i])
                },
        },
        r is Ok <==> forall|i: int|
            0 <= i < experts.len() ==> {
                let e = #[trigger] experts@[i];
                &&& e.gate.shape == (Glm52Proj { n: 2048, k: 6144 })
                &&& e.up.shape == (Glm52Proj { n: 2048, k: 6144 })
                &&& e.down.shape == (Glm52Proj { n: 6144, k: 2048 })
                &&& e.gate.weight.len() == 12_582_912 && e.up.weight.len() == 12_582_912
                &&& e.down.weight.len() == 12_582_912 && e.gate.scale.len() == 3072
                &&& e.up.scale.len() == 3072 && e.down.scale.len() == 3072
            },
{
    let mut w13_weight: Vec<u8> = Vec::new();
    let mut w13_scale: Vec<u8> = Vec::new();
    let mut w2_weight: Vec<u8> = Vec::new();
    let mut w2_scale: Vec<u8> = Vec::new();
    let mut i: usize = 0;
    while i < experts.len()
        invariant
            i <= experts.len(),
            forall|k: int| 0 <= k < i ==> expert_sound(#[trigger] experts@[k]),
            w13_weight@ == packed_w13(experts@, i as int),
            w13_scale@ == packed_w13_scale(experts@, i as int),
            w2_weight@ == packed_w2(experts@, i as int),
            w2_scale@ == packed_w2_scale(experts@, i as int),
        decreases experts.len() - i,
    {
        let e: &Glm52MoeRoutedExpertBytes = &experts[i];
        assert(*e == experts@[i as int]);
        match check_part(&e.gate, i, Glm52ExpertPart::Gate) {
            Ok(()) => {},
            Err(fault) => {
                return Err(fault);
            },
        }
        match check_part(&e.up, i, Glm52ExpertPart::Up) {
            Ok(()) => {},
            Err(fault) => {
                return Err(fault);
            },
        }
        match check_part(&e.down, i, Glm52ExpertPart::Down) {
            Ok(()) => {},
            Err(fault) => {
                return Err(fault);
            },
        }
        append_bytes(&mut w13_weight, &e.gate.weight);
        append_bytes(&mut w13_weight, &e.up.weight);
        append_bytes(&mut w13_scale, &e.gate.scale);
        append_bytes(&mut w13_scale, &e.up.scale);
        append_bytes(&mut w2_weight, &e.down.weight);
        append_bytes(&mut w2_scale, &e.down.scale);
        i = i + 1;
    }
    Ok(Glm52PackedExperts { w13_weight, w13_scale, w2_weight, w2_scale })
}

/// A packed bank has the lengths that the expert bank is checked for; its
/// scales take four bytes an element.
pub proof fn packed_experts_fill_a_bank(experts: Seq<Glm52MoeRoutedExpertBytes>, k: int)
    requires
        0 <= k <= experts.len(),
        forall|i: int| 0 <= i < experts.len() ==> expert_sound(#[trigger] experts[i]),
    ensures
        packed_w13(experts, k).len() == bank_len(Glm52BankPart::W13Weight, k),
        packed_w13_scale(experts, k).len() == 4 * bank_len(Glm52BankPart::W13Scale, k),
        packed_w2(experts, k).len() == bank_len(Glm52BankPart::W2Weight, k),
        packed_w2_scale(experts, k).len() == 4 * bank_len(Glm52BankPart::W2Scale, k),
    decreases k,
{
    if k > 0 {
        packed_experts_fill_a_bank(experts, k - 1);
        assert(expert_sound(experts[k - 1]));
    }
}

/// In a packed bank every expert's bytes stand at its own place: its gating
/// projection in front of its up projection, its down projection by itself,
/// and the scales likewise.
pub proof fn an_expert_stands_at_its_place(
    experts: Seq<Glm52MoeRoutedExpertBytes>,
    k: int,
    e: int,
    b: int,
    s: int,
)
    requires
        0 <= e < k <= experts.len(),
        forall|i: int| 0 <= i < experts.len() ==> expert_sound(#[trigger] experts[i]),
        0 <= b < 12_582_912,
        0 <= s < 3072,
    ensures
        packed_w13(experts, k)[25_165_824 * e + b] == experts[e].gate.weight@[b],
        packed_w13(experts, k)[25_165_824 * e + 12_582_912 + b] == experts[e].up.weight@[b],
        packed_w2(experts, k)[12_582_912 * e + b] == experts[e].down.weight@[b],
        packed_w13_scale(experts, k)[6144 * e + s] == experts[e].gate.scale@[s],
        packed_w13_scale(experts, k)[6144 * e + 3072 + s] == experts[e].up.scale@[s],
        packed_w2_scale(experts, k)[3072 * e + s] == experts[e].down.scale@[s],
    decreases k,
{
    packed_experts_fill_a_bank(experts, k - 1);
    assert(expert_sound(experts[k - 1]));
    if e < k - 1 {
        an_expert_stands_at_its_place(experts, k - 1, e, b, s);
    }
}

/// The kernel chain of the routed experts.
#[derive(Clone, Copy, Debug, PartialEq, Eq, Structural)]
pub enum Glm52MoeChain {
    /// Quantised activations over fixed per-expert slabs.
    MaskedFp8,
    /// Half-precision activations over a tile list.
    WeightOnly,
}

/// What is wrong with a dispatch library for a chain.
pub open spec fn chain_fault(
    chain: Glm52MoeChain,
    info: Glm52EpInfo,
    num_ranks: usize,
    masked_groups: usize,
) -> Option<Glm52MoeRoutedError> {
    if !(info.num_experts == 256 && info.num_topk == 8 && info.hidden == 6144
        && info.expert_alignment == 64 && (chain == Glm52MoeChain::MaskedFp8
        ==> info.num_local_experts == 32)) {
        Some(Glm52MoeRoutedError::LibraryShape { info })
    } else if num_ranks != info.num_ranks {
        Some(Glm52MoeRoutedError::Ranks { num_ranks, want: info.num_ranks })
    } else if chain == Glm52MoeChain::MaskedFp8 && info.num_local_experts != masked_groups {
        Some(Glm52MoeRoutedError::MaskedGroups { local_experts: info.num_local_experts })
    } else if chain == Glm52MoeChain::WeightOnly && info.num_local_experts * info.num_ranks != 256 {
        Some(Glm52MoeRoutedError::Partition { info })
    } else {
        None
    }
}

/// Checks the dispatch library against a chain.
pub fn check_chain(
    chain: Glm52MoeChain,
    info: Glm52EpInfo,
    num_ranks: usize,
    masked_groups: usize,
) -> (r: Result<(), Glm52MoeRoutedError>)
    requires
        info.num_local_experts * info.num_ranks <= usize::MAX,
    ensures
        match r {
            Ok(()) => chain_fault(chain, info, num_ranks, masked_groups) is None,
            Err(e) => chain_fault(chain, info, num_ranks, masked_groups) == Some(e),
        },
        r is Ok <==> {
            &&& info.num_experts == 256 && info.num_topk == 8 && info.hidden == 6144
            &&& info.expert_alignment == 64 && num_ranks == info.num_ranks
            &&& chain == Glm52MoeChain::MaskedFp8 ==> info.num_local_experts == 32
                && masked_groups == 32
            &&& chain == Glm52MoeChain::WeightOnly ==> info.num_local_experts * info.num_ranks
                == 256
        },
        r matches Err(Glm52MoeRoutedError::Ranks { num_ranks: got, want }) ==> got == num_ranks
            && want == info.num_ranks && got != want,
{
    let masked: bool = match chain {
        Glm52MoeChain::MaskedFp8 => true,
        Glm52MoeChain::WeightOnly => false,
    };
    if !(info.num_experts == 256 && info.num_topk == 8 && info.hidden == GLM52_HIDDEN
        && info.expert_alignment == GLM52_GROUPED_EXPERT_ALIGNMENT && (!masked
        || info.num_local_experts == 32)) {
        return Err(Glm52MoeRoutedError::LibraryShape { info });
    }
    if num_ranks != info.num_ranks {
        return Err(Glm52MoeRoutedError::Ranks { num_ranks, want: info.num_ranks });
    }
    if masked {
        if info.num_local_experts != masked_groups {
            return Err(
                Glm52MoeRoutedError::MaskedGroups { local_experts: info.num_local_experts },
            );
        }
    } else if info.num_local_experts * info.num_ranks != 256 {
        return Err(Glm52MoeRoutedError::Partition { info });
    }
    Ok(())
}

/// The lengths of the buffers that both chains share, in elements.
#[derive(Clone, Copy, Debug, PartialEq, Eq, Structural)]
pub struct Glm52MoeRecvLens {
    pub recv_x: u64,
    pub recv_topk_weight: u64,
    pub recv_src_metadata: u64,
    pub expert_out: u64,
    pub combined: u64,
}

/// Sizes the buffers that both chains share.
pub fn recv_lens(info: Glm52EpInfo) -> (r: Glm52MoeRecvLens)
    requires
        info.decode_worst_expanded_tokens <= 0xffff_ffff,
        info.decode_worst_recv_tokens <= 0xffff_ffff,
        info.decode_max_tokens_per_rank <= 0xffff_ffff,
    ensures
        r.recv_x == 6144 * info.decode_worst_expanded_tokens,
        r.recv_topk_weight == info.decode_worst_expanded_tokens,
        r.recv_src_metadata == 10 * info.decode_worst_recv_tokens,
        r.expert_out == 6144 * info.decode_worst_expanded_tokens,
        r.combined == 6144 * info.decode_max_tokens_per_rank,
{
    Glm52MoeRecvLens {
        recv_x: info.decode_worst_expanded_tokens as u64 * 6144,
        recv_topk_weight: info.decode_worst_expanded_tokens as u64,
        recv_src_metadata: info.decode_worst_recv_tokens as u64 * 10,
        expert_out: info.decode_worst_expanded_tokens as u64 * 6144,
        combined: info.decode_max_tokens_per_rank as u64 * 6144,
    }
}

/// The lengths of the masked chain's slabs, in elements.
#[derive(Clone, Copy, Debug, PartialEq, Eq, Structural)]
pub struct Glm52MaskedLens {
    pub act: u64,
    pub act_scale: u64,
    pub w13_out: u64,
    pub w2_act: u64,
    pub w2_act_scale: u64,
    pub expert_out: u64,
}

/// Sizes the masked chain's slabs: one slab of `cap` rows for each group.
pub fn masked_lens(groups: usize, cap: usize) -> (r: Glm52MaskedLens)
    requires
        groups * cap <= 0xffff_ffff,
    ensures
        r.act == 6144 * (groups * cap),
        r.act_scale == 48 * (groups * cap),
        r.w13_out == 4096 * (groups * cap),
        r.w2_act == 2048 * (groups * cap),
        r.w2_act_scale == 16 * (groups * cap),
        r.expert_out == 6144 * (groups * cap),
{
    let rows: u64 = (groups * cap) as u64;
    Glm52MaskedLens {
        act: rows * 6144,
        act_scale: rows * 48,
        w13_out: rows * 4096,
        w2_act: rows * 2048,
        w2_act_scale: rows * 16,
        expert_out: rows * 6144,
    }
}

/// One launch of the routed experts.
#[derive(Clone, Copy, Debug, PartialEq, Eq, Structural)]
pub enum Glm52RoutedLaunch {
    /// The collective dispatch, of this rank's rows or of none.
    Dispatch { rows: usize },
    MaskedMetadata { experts: usize, bound: usize },
    MaskedQuant { rows: usize, width: usize, group: usize },
    MaskedGemm { operand: Glm52MoeOperand },
    MaskedSwigluQuant { rows: usize, width: usize, group: usize },
    MaskedToAligned { width: usize },
    Tiles { experts: usize, bound: usize, global_rows: usize, max_tiles: usize },
    TileGemm { operand: Glm52MoeOperand, experts: usize, max_tiles: usize, weighted: bool },
    TileSwiglu { width: usize, max_tiles: usize },
    /// The collective combine of this rank's rows.
    Combine { rows: usize },
}

/// The rows that a step's received segments can reach: every token takes at
/// most eight rows on a rank, and every expert that has rows pads them.
pub open spec fn bound_rows(expanded: int, local_experts: int, global_tokens: int) -> int {
    let rows = 8 * global_tokens;
    crate::arith::least(expanded, rows + 63 * crate::arith::least(rows, local_experts))
}

/// The launches of a chain.
pub open spec fn routed_launches(
    chain: Glm52MoeChain,
    info: Glm52EpInfo,
    rows: usize,
    global_tokens: usize,
    max_tiles: usize,
) -> Seq<Glm52RoutedLaunch> {
    let experts = info.num_local_experts;
    let bound = bound_rows(
        info.decode_worst_expanded_tokens as int,
        experts as int,
        global_tokens as int,
    ) as usize;
    match chain {
        Glm52MoeChain::MaskedFp8 => seq![
            Glm52RoutedLaunch::Dispatch { rows },
            Glm52RoutedLaunch::MaskedMetadata { experts, bound },
            Glm52RoutedLaunch::MaskedQuant { rows: bound, width: 6144, group: 128 },
            Glm52RoutedLaunch::MaskedGemm { operand: Glm52MoeOperand::W13 },
            Glm52RoutedLaunch::MaskedSwigluQuant { rows: bound, width: 2048, group: 128 },
            Glm52RoutedLaunch::MaskedGemm { operand: Glm52MoeOperand::W2 },
            Glm52RoutedLaunch::MaskedToAligned { width: 6144 },
            Glm52RoutedLaunch::Combine { rows },
        ],
        Glm52MoeChain::WeightOnly => seq![
            Glm52RoutedLaunch::Dispatch { rows },
            Glm52RoutedLaunch::Tiles { experts, bound, global_rows: global_tokens, max_tiles },
            Glm52RoutedLaunch::TileGemm {
                operand: Glm52MoeOperand::W13,
                experts,
                max_tiles,
                weighted: false,
            },
            Glm52RoutedLaunch::TileSwiglu { width: 2048, max_tiles },
            Glm52RoutedLaunch::TileGemm {
                operand: Glm52MoeOperand::W2,
                experts,
                max_tiles,
                weighted: true,
            },
            Glm52RoutedLaunch::Combine { rows },
        ],
    }
}

/// The launches of one collective step, and whether this rank gets rows back.
#[derive(Debug)]
pub struct Glm52RoutedPlan {
    pub launches: Vec<Glm52RoutedLaunch>,
    pub dispatched: bool,
}

/// What is wrong with a collective step.
pub open spec fn routed_fault(
    info: Glm52EpInfo,
    bank_experts: usize,
    local: Option<usize>,
    global_tokens: usize,
    cap: usize,
) -> Option<Glm52MoeRoutedError> {
    let rows = match local {
        Some(rows) => rows,
        None => 0,
    };
    if bank_experts != info.num_local_experts {
        Some(Glm52MoeRoutedError::Bank { experts: bank_experts, want: info.num_local_experts })
    } else if local == Some(0usize) {
        Some(Glm52MoeRoutedError::NoTokens)
    } else if global_tokens < rows || global_tokens == 0 {
        Some(Glm52MoeRoutedError::GlobalTokens { global: global_tokens, local: rows })
    } else if global_tokens > cap {
        Some(Glm52MoeRoutedError::TokenCap { global: global_tokens, cap })
    } else {
        None
    }
}

/// The most tokens that all ranks together dispatch in one step.
pub fn protocol_cap(num_ranks: usize) -> (r: usize)
    requires
        8 * num_ranks <= usize::MAX,
    ensures
        r == 8 * num_ranks,
{
    num_ranks * GLM52_MAX_BATCH_PER_RANK
}

/// Plans one collective step of the routed experts. Every rank enters it with
/// the same global token count; a rank without tokens takes part and gets
/// nothing back.
pub fn plan_routed(
    chain: Glm52MoeChain,
    info: Glm52EpInfo,
    bank_experts: usize,
    local: Option<usize>,
    global_tokens: usize,
    cap: usize,
    max_tiles: usize,
) -> (r: Result<Glm52RoutedPlan, Glm52MoeRoutedError>)
    requires
        512 * cap <= usize::MAX,
    ensures
        match r {
            Ok(p) => {
                &&& routed_fault(info, bank_experts, local, global_tokens, cap) is None
                &&& p.dispatched == (local is Some)
                &&& p.launches@ == routed_launches(
                    chain,
                    info,
                    match local {
                        Some(rows) => rows,
                        None => 0,
                    },
                    global_tokens,
                    max_tiles,
                )
            },
            Err(e) => routed_fault(info, bank_experts, local, global_tokens, cap) == Some(e),
        },
        r is Ok <==> bank_experts == info.num_local_experts && 0 < global_tokens <= cap && (
        local matches Some(rows) ==> 0 < rows <= global_tokens),
        match r {
            Ok(_) => true,
            Err(Glm52MoeRoutedError::Bank { experts, want }) => experts == bank_experts && want
                == info.num_local_experts && experts != want,
            Err(Glm52MoeRoutedError::NoTokens) => local == Some(0usize),
            Err(Glm52MoeRoutedError::GlobalTokens { global, local: rows }) => {
                &&& global == global_tokens && (global == 0 || global < rows)
                &&& rows == (match local {
                    Some(own) => own,
                    None => 0,
                })
            },
            Err(Glm52MoeRoutedError::TokenCap { global, cap: limit }) => global == global_tokens
                && limit == cap && global > limit,
            Err(_) => false,
        },
{
    let experts: usize = info.num_local_experts;
    if bank_experts != experts {
        return Err(Glm52MoeRoutedError::Bank { experts: bank_experts, want: experts });
    }
    let rows: usize = match local {
        Some(rows) => rows,
        None => 0,
    };
    if local.is_some() && rows == 0 {
        return Err(Glm52MoeRoutedError::NoTokens);
    }
    if !(global_tokens >= rows && global_tokens > 0) {
        return Err(Glm52MoeRoutedError::GlobalTokens { global: global_tokens, local: rows });
    }
    if global_tokens > cap {
        return Err(Glm52MoeRoutedError::TokenCap { global: global_tokens, cap });
    }
    let expanded_rows: usize = global_tokens * 8;
    let padded: usize = if expanded_rows <= experts {
        expanded_rows
    } else {
        experts
    };
    let reach: usize = expanded_rows + (GLM52_GROUPED_EXPERT_ALIGNMENT - 1) * padded;
    let bound: usize = if info.decode_worst_expanded_tokens <= reach {
        info.decode_worst_expanded_tokens
    } else {
        reach
    };
    let mut launches: Vec<Glm52RoutedLaunch> = Vec::new();
    launches.push(Glm52RoutedLaunch::Dispatch { rows });
    match chain {
        Glm52MoeChain::MaskedFp8 => {
            launches.push(Glm52RoutedLaunch::MaskedMetadata { experts, bound });
            launches.push(Glm52RoutedLaunch::MaskedQuant { rows: bound, width: 6144, group: 128 });
            launches.push(Glm52RoutedLaunch::MaskedGemm { operand: Glm52MoeOperand::W13 });
            launches.push(
                Glm52RoutedLaunch::MaskedSwigluQuant { rows: bound, width: 2048, group: 128 },
            );
            launches.push(Glm52RoutedLaunch::MaskedGemm { operand: Glm52MoeOperand::W2 });
            launches.push(Glm52RoutedLaunch::MaskedToAligned { width: 6144 });
        },
        Glm52MoeChain::WeightOnly => {
            launches.push(
                Glm52RoutedLaunch::Tiles { experts, bound, global_rows: global_tokens, max_tiles },
            );
            launches.push(
                Glm52RoutedLaunch::TileGemm {
                    operand: Glm52MoeOperand::W13,
                    experts,
                    max_tiles,
                    weighted: false,
                },
            );
            launches.push(Glm52RoutedLaunch::TileSwiglu { width: 2048, max_tiles });
            launches.push(
                Glm52RoutedLaunch::TileGemm {
                    operand: Glm52MoeOperand::W2,
                    experts,
                    max_tiles,
                    weighted: true,
                },
            );
        },
    }
    launches.push(Glm52RoutedLaunch::Combine { rows });
    assert(launches@ =~= routed_launches(chain, info, rows, global_tokens, max_tiles));
    Ok(Glm52RoutedPlan { launches, dispatched: local.is_some() })
}

/// How many experts have rows.
pub open spec fn with_rows(counts: Seq<int>) -> int
    decreases counts.len(),
{
    if counts.len() == 0 {
        0
    } else {
        with_rows(counts.drop_last()) + (if counts.last() > 0 {
            1int
        } else {
            0
        })
    }
}

proof fn lemma_only_used_segments_pad(counts: Seq<int>)
    requires
        forall|i: int| 0 <= i < counts.len() ==> #[trigger] counts[i] >= 0,
    ensures
        crate::deepep::padded(counts, 64) <= crate::deepep::total(counts) + 63 * with_rows(counts),
        0 <= with_rows(counts) <= counts.len(),
        with_rows(counts) <= crate::deepep::total(counts),
    decreases counts.len(),
{
    if counts.len() > 0 {
        let rest = counts.drop_last();
        assert forall|i: int| 0 <= i < rest.len() implies #[trigger] rest[i] >= 0 by {
            assert(rest[i] == counts[i]);
        }
        lemma_only_used_segments_pad(rest);
        assert(counts.last() == counts[counts.len() - 1]);
    }
}

/// The rows that the kernels cover hold every step: however the global tokens
/// fall on the local experts, each on at most eight, the padded segments end
/// within the bound, as long as they fit the receive buffers at all.
pub proof fn covered_rows_hold_every_step(
    expanded: int,
    local_experts: int,
    global_tokens: int,
    counts: Seq<int>,
)
    requires
        global_tokens >= 0,
        counts.len() == local_experts,
        forall|i: int| 0 <= i < counts.len() ==> #[trigger] counts[i] >= 0,
        crate::deepep::total(counts) <= 8 * global_tokens,
        crate::deepep::padded(counts, 64) <= expanded,
    ensures
        crate::deepep::padded(counts, 64) <= bound_rows(expanded, local_experts, global_tokens),
{
    lemma_only_used_segments_pad(counts);
}

} // verus!
