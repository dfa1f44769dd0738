//! The shape of the expert-parallel dispatch and the worst case that its
//! buffers must hold.
use vstd::prelude::*;

use crate::arith::align_up;
use crate::config::{GLM52_HIDDEN, GLM52_LOCAL_EXPERTS, GLM52_ROUTED_EXPERTS, GLM52_TOPK};

verus! {

/// Ranks of the dispatch.
pub const GLM52_EP_WORLD: usize = 8;

/// Rows that an expert's segment is padded to.
pub const GLM52_DEEPEP_EXPERT_ALIGNMENT: usize = 64;

/// Multiprocessors of the device.
pub const GLM52_DEEPEP_DEVICE_SMS: usize = 132;

/// Tokens that a rank dispatches at most in one decode step.
pub const GLM52_DEEPEP_DECODE_BATCH_CAP: usize = 128;

/// The shape of the expert-parallel dispatch.
#[derive(Clone, Copy, Debug, PartialEq, Eq, Structural)]
pub struct Glm52DeepEpShape {
    pub ep_world: usize,
    pub routed_experts: usize,
    pub local_experts: usize,
    pub topk: usize,
    pub hidden: usize,
    pub expert_alignment: usize,
    pub device_sms: usize,
    pub decode_max_tokens_per_rank: usize,
}

/// Why a dispatch shape is refused.
#[derive(Clone, Copy, Debug, PartialEq, Eq, Structural)]
pub enum Glm52DeepEpError {
    ModelConstants,
    ExpertSplit,
    Capacities,
}

/// What the dispatch's buffers must hold in the worst case.
#[derive(Clone, Copy, Debug, PartialEq, Eq, Structural)]
pub struct Glm52DeepEpDecodeCapacity {
    pub shape: Glm52DeepEpShape,
    pub worst_recv_tokens: usize,
    pub worst_expanded_tokens: usize,
    pub src_metadata_len: usize,
    pub rank_count_len: usize,
}

impl Glm52DeepEpShape {
    /// The shape of eight data-parallel ranks.
    pub fn tp1_dp8_h200() -> (r: Self)
        ensures
            r == (Glm52DeepEpShape {
                ep_world: 8,
                routed_experts: 256,
                local_experts: 32,
                topk: 8,
                hidden: 6144,
                expert_alignment: 64,
                device_sms: 132,
                decode_max_tokens_per_rank: 128,
            }),
            r.fault() is None,
    {
        Glm52DeepEpShape {
            ep_world: GLM52_EP_WORLD,
            routed_experts: GLM52_ROUTED_EXPERTS,
            local_experts: GLM52_LOCAL_EXPERTS,
            topk: GLM52_TOPK,
            hidden: GLM52_HIDDEN,
            expert_alignment: GLM52_DEEPEP_EXPERT_ALIGNMENT,
            device_sms: GLM52_DEEPEP_DEVICE_SMS,
            decode_max_tokens_per_rank: GLM52_DEEPEP_DECODE_BATCH_CAP,
        }
    }

    /// What is wrong with a shape. The experts always split evenly once the
    /// model's constants hold.
    pub open spec fn fault(self) -> Option<Glm52DeepEpError> {
        if !(self.ep_world == 8 && self.routed_experts == 256 && self.local_experts == 32
            && self.topk == 8 && self.hidden == 6144) {
            Some(Glm52DeepEpError::ModelConstants)
        } else if self.expert_alignment == 0 || self.decode_max_tokens_per_rank == 0 {
            Some(Glm52DeepEpError::Capacities)
        } else {
            None
        }
    }

    /// Checks a shape against the model's constants.
    pub fn validate(self) -> (r: Result<(), Glm52DeepEpError>)
        ensures
            match r {
                Ok(()) => self.fault() is None,
                Err(e) => self.fault() == Some(e),
            },
            r is Ok <==> self.ep_world == 8 && self.routed_experts == 256 && self.local_experts
                == 32 && self.topk == 8 && self.hidden == 6144 && self.expert_alignment > 0
                && self.decode_max_tokens_per_rank > 0,
    {
        if !(self.ep_world == GLM52_EP_WORLD && self.routed_experts == GLM52_ROUTED_EXPERTS
            && self.local_experts == GLM52_LOCAL_EXPERTS && self.topk == GLM52_TOPK && self.hidden
            == GLM52_HIDDEN) {
            return Err(Glm52DeepEpError::ModelConstants);
        }
        if !(self.routed_experts % self.ep_world == 0 && self.local_experts == self.routed_experts
            / self.ep_world) {
            return Err(Glm52DeepEpError::ExpertSplit);
        }
        if !(self.expert_alignment > 0 && self.decode_max_tokens_per_rank > 0) {
            return Err(Glm52DeepEpError::Capacities);
        }
        Ok(())
    }

    /// Rows that the expert segments of `recv_tokens` received tokens can
    /// take.
    pub open spec fn expanded_rows(self, recv_tokens: int) -> int {
        crate::arith::round_up(
            recv_tokens * crate::arith::least(self.topk as int, self.local_experts as int) + (
            self.expert_alignment - 1) * self.local_experts,
            self.expert_alignment as int,
        )
    }

    /// Rows that the expert segments of `recv_tokens` received tokens can
    /// take: every token reaches at most as many local experts as it has
    /// routes, and every segment is padded.
    pub fn expanded_rows_for_recv_tokens(self, recv_tokens: usize) -> (r: usize)
        requires
            self.expert_alignment > 0,
            self.expanded_rows(recv_tokens as int) <= usize::MAX,
        ensures
            r == self.expanded_rows(recv_tokens as int),
            r as int % self.expert_alignment as int == 0,
            ({
                let needed = recv_tokens * (if self.topk <= self.local_experts {
                    self.topk
                } else {
                    self.local_experts
                }) + (self.expert_alignment - 1) * self.local_experts;
                needed <= r < needed + self.expert_alignment
            }),
    {
        let routes: usize = if self.topk <= self.local_experts {
            self.topk
        } else {
            self.local_experts
        };
        proof {
            let sum = recv_tokens * routes + (self.expert_alignment - 1) * self.local_experts;
            assert(recv_tokens * routes >= 0 && (self.expert_alignment - 1) * self.local_experts
                >= 0) by (nonlinear_arith)
                requires
                    self.expert_alignment > 0,
                    recv_tokens >= 0,
                    routes >= 0,
                    self.local_experts >= 0,
            ;
            crate::arith::round_up_is_least_multiple(sum, self.expert_alignment as int);
        }
        align_up(
            recv_tokens * routes + (self.expert_alignment - 1) * self.local_experts,
            self.expert_alignment,
        )
    }

    /// What the buffers of a decode step must hold in the worst case.
    pub fn decode_capacity(self) -> (r: Result<Glm52DeepEpDecodeCapacity, Glm52DeepEpError>)
        requires
            80 * self.decode_max_tokens_per_rank <= usize::MAX,
            8 * self.device_sms <= usize::MAX,
            self.fault() is None ==> self.expanded_rows(8 * self.decode_max_tokens_per_rank)
                <= usize::MAX,
        ensures
            match r {
                Ok(c) => {
                    &&& self.fault() is None
                    &&& c.shape == self
                    &&& c.worst_recv_tokens == 8 * self.decode_max_tokens_per_rank
                    &&& c.worst_expanded_tokens == self.expanded_rows(c.worst_recv_tokens as int)
                    &&& c.src_metadata_len == 10 * c.worst_recv_tokens
                    &&& c.rank_count_len == 8 * self.device_sms
                },
                Err(e) => self.fault() == Some(e),
            },
    {
        match self.validate() {
            Ok(()) => {},
            Err(e) => {
                return Err(e);
            },
        }
        assert(self.ep_world * self.decode_max_tokens_per_rank == 8
            * self.decode_max_tokens_per_rank && self.device_sms * self.ep_world == 8
            * self.device_sms) by (nonlinear_arith)
            requires
                self.ep_world == 8,
        ;
        let worst_recv_tokens: usize = self.ep_world * self.decode_max_tokens_per_rank;
        assert(worst_recv_tokens * (self.topk + 2) == 10 * worst_recv_tokens) by (nonlinear_arith)
            requires
                self.topk == 8,
        ;
        Ok(
            Glm52DeepEpDecodeCapacity {
                shape: self,
                worst_recv_tokens,
                worst_expanded_tokens: self.expanded_rows_for_recv_tokens(worst_recv_tokens),
                src_metadata_len: worst_recv_tokens * (self.topk + 2),
                rank_count_len: self.device_sms * self.ep_world,
            },
        )
    }
}

/// The sum of a list of counts.
pub open spec fn total(counts: Seq<int>) -> int
    decreases counts.len(),
{
    if counts.len() == 0 {
        0
    } else {
        total(counts.drop_last()) + counts.last()
    }
}

/// The rows of padded segments.
pub open spec fn padded(counts: Seq<int>, alignment: int) -> int
    decreases counts.len(),
{
    if counts.len() == 0 {
        0
    } else {
        padded(counts.drop_last(), alignment) + crate::arith::round_up(counts.last(), alignment)
    }
}

proof fn lemma_padding_costs_less_than_a_block_each(counts: Seq<int>, alignment: int)
    requires
        alignment > 0,
        forall|i: int| 0 <= i < counts.len() ==> #[trigger] counts[i] >= 0,
    ensures
        0 <= padded(counts, alignment) <= total(counts) + (alignment - 1) * counts.len(),
        padded(counts, alignment) % alignment == 0,
    decreases counts.len(),
{
    if counts.len() > 0 {
        let rest = counts.drop_last();
        assert forall|i: int| 0 <= i < rest.len() implies #[trigger] rest[i] >= 0 by {
            assert(rest[i] == counts[i]);
        }
        lemma_padding_costs_less_than_a_block_each(rest, alignment);
        assert(counts.last() == counts[counts.len() - 1]);
        crate::arith::round_up_is_least_multiple(counts.last(), alignment);
        assert((alignment - 1) * counts.len() == (alignment - 1) * rest.len() + (alignment - 1))
            by (nonlinear_arith)
            requires
                counts.len() == rest.len() + 1,
        ;
        let a = padded(rest, alignment);
        let b = crate::arith::round_up(counts.last(), alignment);
        vstd::arithmetic::div_mod::lemma_add_mod_noop(a, b, alignment);
        assert((a % alignment + b % alignment) % alignment == 0) by {
            assert(a % alignment == 0 && b % alignment == 0);
            vstd::arithmetic::div_mod::lemma_small_mod(0, alignment as nat);
        }
    } else {
        vstd::arithmetic::div_mod::lemma_small_mod(0, alignment as nat);
    }
}

/// The expanded rows hold every routing: however the received tokens fall on
/// the local experts, each on no more of them than it has routes, the padded
/// expert segments fit.
pub proof fn expanded_rows_hold_every_routing(
    shape: Glm52DeepEpShape,
    recv_tokens: int,
    counts: Seq<int>,
)
    requires
        shape.expert_alignment > 0,
        recv_tokens >= 0,
        counts.len() == shape.local_experts,
        forall|i: int| 0 <= i < counts.len() ==> #[trigger] counts[i] >= 0,
        total(counts) <= recv_tokens * crate::arith::least(
            shape.topk as int,
            shape.local_experts as int,
        ),
    ensures
        padded(counts, shape.expert_alignment as int) <= shape.expanded_rows(recv_tokens),
{
    let alignment = shape.expert_alignment as int;
    lemma_padding_costs_less_than_a_block_each(counts, alignment);
    let routes = crate::arith::least(shape.topk as int, shape.local_experts as int);
    let worst = recv_tokens * routes + (alignment - 1) * shape.local_experts;
    assert(worst >= 0) by (nonlinear_arith)
        requires
            worst == recv_tokens * routes + (alignment - 1) * shape.local_experts,
            recv_tokens >= 0,
            routes >= 0,
            alignment > 0,
            shape.local_experts >= 0,
    ;
    crate::arith::round_up_is_least_multiple(worst, alignment);
}

} // verus!
