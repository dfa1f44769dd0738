//! What the launches of the routed experts compute: both products of the
//! gated experts, in order, over the rows that the dispatch delivered, with
//! each row's route weight applied once.
use vstd::prelude::*;

use crate::arena::Glm52DecodeArenaPlan;
use crate::moe_routed::{Glm52EpInfo, Glm52MoeChain, Glm52RoutedLaunch};
use crate::moe_smoke::{Glm52MoeLaunch, Glm52MoeOperand};

verus! {

/// The functions that the kernels of the routed experts compute, with the
/// extents that they are launched over. A buffer's contents stand as one
/// number, whatever they are.
pub ghost struct Glm52RoutedKernels {
    /// The rows that a rank receives for the rows that it sends.
    pub dispatch: spec_fn(int, int) -> int,
    /// The route weight of every received row.
    pub delivered: spec_fn(int, int) -> int,
    /// The experts' segments, of so many experts within so many rows.
    pub segments: spec_fn(int, int, int) -> int,
    /// The tile list of the segments: experts, rows, tokens, tiles.
    pub tiles: spec_fn(int, int, int, int, int) -> int,
    /// Rows, width, group; what is quantised, and the segments.
    pub quant: spec_fn(int, int, int, int, int) -> int,
    pub gate_up: spec_fn(int, int) -> int,
    pub down: spec_fn(int, int) -> int,
    /// Rows and width of the gated activation.
    pub swiglu: spec_fn(int, int) -> int,
    /// Rows times their route weights.
    pub weigh: spec_fn(int, int) -> int,
    /// The rows back in the slots that the combine reads.
    pub align: spec_fn(int, int, int) -> int,
    /// The sums of the expert rows of each of so many tokens.
    pub combine: spec_fn(int, int, int) -> int,
}

/// What the buffers of the routed experts hold.
pub ghost struct Glm52RoutedBuffers {
    pub x: int,
    pub route: int,
    pub received: int,
    pub weights: int,
    pub segments: int,
    pub act: int,
    pub w13_out: int,
    pub w2_act: int,
    pub masked_out: int,
    pub expert_out: int,
    pub combined: int,
}

/// What one launch does to the buffers. The product of an operand reads and
/// writes the operand's own buffers.
pub open spec fn routed_launch(
    m: Glm52RoutedKernels,
    s: Glm52RoutedBuffers,
    l: Glm52RoutedLaunch,
) -> Glm52RoutedBuffers {
    match l {
        Glm52RoutedLaunch::Dispatch { rows } => Glm52RoutedBuffers {
            received: (m.dispatch)(rows as int, s.x),
            weights: (m.delivered)(rows as int, s.route),
            ..s
        },
        Glm52RoutedLaunch::MaskedMetadata { experts, bound } => Glm52RoutedBuffers {
            segments: (m.segments)(experts as int, bound as int, s.route),
            ..s
        },
        Glm52RoutedLaunch::Tiles { experts, bound, global_rows, max_tiles } => Glm52RoutedBuffers {
            segments: (m.tiles)(
                experts as int,
                bound as int,
                global_rows as int,
                max_tiles as int,
                s.route,
            ),
            ..s
        },
        Glm52RoutedLaunch::MaskedQuant { rows, width, group } => Glm52RoutedBuffers {
            act: (m.quant)(rows as int, width as int, group as int, s.received, s.segments),
            ..s
        },
        Glm52RoutedLaunch::MaskedGemm { operand } => match operand {
            Glm52MoeOperand::W13 => Glm52RoutedBuffers {
                w13_out: (m.gate_up)(s.act, s.segments),
                ..s
            },
            Glm52MoeOperand::W2 => Glm52RoutedBuffers {
                masked_out: (m.down)(s.w2_act, s.segments),
                ..s
            },
        },
        Glm52RoutedLaunch::MaskedSwigluQuant { rows, width, group } => Glm52RoutedBuffers {
            w2_act: (m.quant)(
                rows as int,
                width as int,
                group as int,
                (m.weigh)((m.swiglu)(width as int, s.w13_out), s.weights),
                s.segments,
            ),
            ..s
        },
        Glm52RoutedLaunch::MaskedToAligned { width } => Glm52RoutedBuffers {
            expert_out: (m.align)(width as int, s.masked_out, s.segments),
            ..s
        },
        Glm52RoutedLaunch::TileGemm { operand, experts, max_tiles, weighted } => {
            let product = match operand {
                Glm52MoeOperand::W13 => (m.gate_up)(s.received, s.segments),
                Glm52MoeOperand::W2 => (m.down)(s.w2_act, s.segments),
            };
            let out = if weighted {
                (m.weigh)(product, s.weights)
            } else {
                product
            };
            match operand {
                Glm52MoeOperand::W13 => Glm52RoutedBuffers { w13_out: out, ..s },
                Glm52MoeOperand::W2 => Glm52RoutedBuffers { expert_out: out, ..s },
            }
        },
        Glm52RoutedLaunch::TileSwiglu { width, max_tiles } => Glm52RoutedBuffers {
            w2_act: (m.swiglu)(width as int, s.w13_out),
            ..s
        },
        Glm52RoutedLaunch::Combine { rows } => Glm52RoutedBuffers {
            combined: (m.combine)(rows as int, s.expert_out, s.route),
            ..s
        },
    }
}

/// The buffers after the first `k` launches of a list.
pub open spec fn routed_after(
    m: Glm52RoutedKernels,
    s: Glm52RoutedBuffers,
    launches: Seq<Glm52RoutedLaunch>,
    k: int,
) -> Glm52RoutedBuffers
    decreases k,
{
    if k <= 0 {
        s
    } else {
        routed_launch(m, routed_after(m, s, launches, k - 1), launches[k - 1])
    }
}

/// Both chains compute the routed experts, whatever their kernels compute:
/// the combined rows are the down product of the gated activation of the
/// first product of the rows that the dispatch delivered. The route weight
/// goes on once, in the masked chain before the down product and in the
/// other behind it. What is quantised is 6144 wide before the first product
/// and 2048 wide before the second, and the row extent is the least of what
/// the buffers hold and what the step's tokens can reach.
pub proof fn the_chains_compute_the_gated_experts(
    m: Glm52RoutedKernels,
    s: Glm52RoutedBuffers,
    info: Glm52EpInfo,
    rows: usize,
    global_tokens: usize,
    max_tiles: usize,
    bound: int,
)
    requires
        512 * global_tokens <= usize::MAX,
        bound <= info.decode_worst_expanded_tokens,
        bound <= 512 * global_tokens,
        bound <= 8 * global_tokens + 63 * info.num_local_experts,
        bound == info.decode_worst_expanded_tokens || bound == 512 * global_tokens || bound == 8
            * global_tokens + 63 * info.num_local_experts,
    ensures
        ({
            let masked = crate::moe_routed::routed_launches(
                Glm52MoeChain::MaskedFp8,
                info,
                rows,
                global_tokens,
                max_tiles,
            );
            let experts = info.num_local_experts as int;
            let received = (m.dispatch)(rows as int, s.x);
            let weights = (m.delivered)(rows as int, s.route);
            let segments = (m.segments)(experts, bound, s.route);
            let hidden = (m.gate_up)((m.quant)(bound, 6144, 128, received, segments), segments);
            let active = (m.weigh)((m.swiglu)(2048, hidden), weights);
            let out = (m.down)((m.quant)(bound, 2048, 128, active, segments), segments);
            routed_after(m, s, masked, masked.len() as int).combined == (m.combine)(
                rows as int,
                (m.align)(6144, out, segments),
                s.route,
            )
        }),
        ({
            let tiled = crate::moe_routed::routed_launches(
                Glm52MoeChain::WeightOnly,
                info,
                rows,
                global_tokens,
                max_tiles,
            );
            let experts = info.num_local_experts as int;
            let received = (m.dispatch)(rows as int, s.x);
            let weights = (m.delivered)(rows as int, s.route);
            let segments = (m.tiles)(
                experts,
                bound,
                global_tokens as int,
                max_tiles as int,
                s.route,
            );
            let active = (m.swiglu)(2048, (m.gate_up)(received, segments));
            routed_after(m, s, tiled, tiled.len() as int).combined == (m.combine)(
                rows as int,
                (m.weigh)((m.down)(active, segments), weights),
                s.route,
            )
        }),
{
    reveal_with_fuel(routed_after, 10);
}

/// Every tile launch of the weight-only chain walks the same experts and
/// tiles.
pub proof fn the_tiles_are_walked_alike(
    info: Glm52EpInfo,
    rows: usize,
    global_tokens: usize,
    max_tiles: usize,
    i: int,
)
    requires
        0 <= i < crate::moe_routed::routed_launches(
            Glm52MoeChain::WeightOnly,
            info,
            rows,
            global_tokens,
            max_tiles,
        ).len(),
    ensures
        match crate::moe_routed::routed_launches(
            Glm52MoeChain::WeightOnly,
            info,
            rows,
            global_tokens,
            max_tiles,
        )[i] {
            Glm52RoutedLaunch::TileGemm { experts, max_tiles: tiles, .. } => experts
                == info.num_local_experts && tiles == max_tiles,
            Glm52RoutedLaunch::TileSwiglu { max_tiles: tiles, .. } => tiles == max_tiles,
            _ => true,
        },
{
}

/// The functions that the kernels of a self-tested layer compute.
pub ghost struct Glm52SmokeKernels {
    pub router: spec_fn(int, int) -> int,
    pub dispatch: spec_fn(int, int, int) -> int,
    pub delivered: spec_fn(int, int) -> int,
    pub metadata: spec_fn(int) -> int,
    /// Rows, width, group, and what is quantised.
    pub quant: spec_fn(int, int, int, int) -> int,
    pub scale: spec_fn(int, int, int, int) -> int,
    /// Rows, columns, experts, the scales, and the segments.
    pub offset: spec_fn(int, int, int, int, int) -> int,
    pub gate_up: spec_fn(int, int, int) -> int,
    pub down: spec_fn(int, int, int) -> int,
    pub swiglu: spec_fn(int, int) -> int,
    pub weigh: spec_fn(int, int) -> int,
    pub combine: spec_fn(int, int, int) -> int,
}

/// What the buffers of a self-tested layer hold.
pub ghost struct Glm52SmokeBuffers {
    pub x: int,
    pub route: int,
    pub received: int,
    pub weights: int,
    pub metadata: int,
    pub w13_act: int,
    pub w13_scale: int,
    pub w13_offset: int,
    pub w13_out: int,
    pub w2_act: int,
    pub w2_scale: int,
    pub w2_offset: int,
    pub w2_out: int,
    pub combined: int,
}

/// What one launch does to the buffers. The plain scale layouts are only
/// looked at; the products read the offset layouts.
pub open spec fn smoke_launch(
    m: Glm52SmokeKernels,
    s: Glm52SmokeBuffers,
    l: Glm52MoeLaunch,
) -> Glm52SmokeBuffers {
    match l {
        Glm52MoeLaunch::Router { tokens } => Glm52SmokeBuffers {
            route: (m.router)(tokens as int, s.x),
            ..s
        },
        Glm52MoeLaunch::Dispatch { tokens } => Glm52SmokeBuffers {
            received: (m.dispatch)(tokens as int, s.x, s.route),
            weights: (m.delivered)(tokens as int, s.route),
            ..s
        },
        Glm52MoeLaunch::GemmMetadata => Glm52SmokeBuffers {
            metadata: (m.metadata)(s.route),
            ..s
        },
        Glm52MoeLaunch::HiddenQuant { rows, width, group } => Glm52SmokeBuffers {
            w13_act: (m.quant)(rows as int, width as int, group as int, s.received),
            w13_scale: (m.scale)(rows as int, width as int, group as int, s.received),
            ..s
        },
        Glm52MoeLaunch::SwigluQuant { rows, width, group, weighted } => {
            let active = (m.swiglu)(width as int, s.w13_out);
            let rows_in = if weighted {
                (m.weigh)(active, s.weights)
            } else {
                active
            };
            Glm52SmokeBuffers {
                w2_act: (m.quant)(rows as int, width as int, group as int, rows_in),
                w2_scale: (m.scale)(rows as int, width as int, group as int, rows_in),
                ..s
            }
        },
        Glm52MoeLaunch::ScaleLayout { .. } => s,
        Glm52MoeLaunch::OffsetLayout { operand, rows, cols, experts } => match operand {
            Glm52MoeOperand::W13 => Glm52SmokeBuffers {
                w13_offset: (m.offset)(
                    rows as int,
                    cols as int,
                    experts as int,
                    s.w13_scale,
                    s.metadata,
                ),
                ..s
            },
            Glm52MoeOperand::W2 => Glm52SmokeBuffers {
                w2_offset: (m.offset)(
                    rows as int,
                    cols as int,
                    experts as int,
                    s.w2_scale,
                    s.metadata,
                ),
                ..s
            },
        },
        Glm52MoeLaunch::GroupedGemm { operand } => match operand {
            Glm52MoeOperand::W13 => Glm52SmokeBuffers {
                w13_out: (m.gate_up)(s.w13_act, s.w13_offset, s.metadata),
                ..s
            },
            Glm52MoeOperand::W2 => Glm52SmokeBuffers {
                w2_out: (m.down)(s.w2_act, s.w2_offset, s.metadata),
                ..s
            },
        },
        Glm52MoeLaunch::Combine { tokens } => Glm52SmokeBuffers {
            combined: (m.combine)(tokens as int, s.w2_out, s.route),
            ..s
        },
    }
}

/// The buffers after the first `k` launches of a list.
pub open spec fn smoke_after(
    m: Glm52SmokeKernels,
    s: Glm52SmokeBuffers,
    launches: Seq<Glm52MoeLaunch>,
    k: int,
) -> Glm52SmokeBuffers
    decreases k,
{
    if k <= 0 {
        s
    } else {
        smoke_launch(m, smoke_after(m, s, launches, k - 1), launches[k - 1])
    }
}

/// A self-tested layer computes the routed experts over all expanded rows:
/// route, dispatch, gate and up product, weighted gated activation, down
/// product, combine, each product on the scales of its own input.
pub proof fn a_tested_layer_computes_the_gated_experts(
    m: Glm52SmokeKernels,
    s: Glm52SmokeBuffers,
    plan: Glm52DecodeArenaPlan,
    tokens: usize,
)
    ensures
        ({
            let launches = crate::moe_smoke::layer_launches(plan, tokens);
            let rows = plan.deepep_worst_expanded_tokens as int;
            let experts = plan.local_experts as int;
            let t = tokens as int;
            let route = (m.router)(t, s.x);
            let received = (m.dispatch)(t, s.x, route);
            let meta = (m.metadata)(route);
            let wide = plan.hidden as int;
            let narrow = plan.moe_intermediate as int;
            let hidden = (m.gate_up)(
                (m.quant)(rows, wide, 128, received),
                (m.offset)(
                    rows,
                    plan.moe_w13_scale_cols as int,
                    experts,
                    (m.scale)(rows, wide, 128, received),
                    meta,
                ),
                meta,
            );
            let active = (m.weigh)((m.swiglu)(narrow, hidden), (m.delivered)(t, route));
            let out = (m.down)(
                (m.quant)(rows, narrow, 128, active),
                (m.offset)(
                    rows,
                    plan.moe_w2_scale_cols as int,
                    experts,
                    (m.scale)(rows, narrow, 128, active),
                    meta,
                ),
                meta,
            );
            smoke_after(m, s, launches, launches.len() as int).combined == (m.combine)(
                t,
                out,
                route,
            )
        }),
{
    reveal_with_fuel(smoke_after, 13);
}

/// The preparation of a product quantises rows as they are and lays out the
/// scales of that operand, over the rows that are asked for; the second
/// operand's rows are weighed exactly where that is asked for.
pub proof fn a_preparation_is_of_its_operand(
    m: Glm52SmokeKernels,
    s: Glm52SmokeBuffers,
    plan: Glm52DecodeArenaPlan,
    rows: usize,
    weighted: bool,
    offset: bool,
)
    ensures
        ({
            let first = crate::moe_smoke::w13_quant_launches(plan, rows, offset);
            let second = crate::moe_smoke::w2_quant_launches(plan, rows, weighted, offset);
            let a = smoke_after(m, s, first, first.len() as int);
            let b = smoke_after(m, s, second, second.len() as int);
            let n = rows as int;
            let narrow = plan.moe_intermediate as int;
            let active = (m.swiglu)(narrow, s.w13_out);
            let rows_in = if weighted {
                (m.weigh)(active, s.weights)
            } else {
                active
            };
            let reach = plan.deepep_worst_expanded_tokens as int;
            let experts = plan.local_experts as int;
            &&& a.w13_act == (m.quant)(n, plan.hidden as int, 128, s.received)
            &&& a.w13_offset == (if offset {
                (m.offset)(
                    reach,
                    plan.moe_w13_scale_cols as int,
                    experts,
                    (m.scale)(n, plan.hidden as int, 128, s.received),
                    s.metadata,
                )
            } else {
                s.w13_offset
            })
            &&& a.w2_act == s.w2_act
            &&& b.w2_act == (m.quant)(n, narrow, 128, rows_in)
            &&& b.w2_offset == (if offset {
                (m.offset)(
                    reach,
                    plan.moe_w2_scale_cols as int,
                    experts,
                    (m.scale)(n, narrow, 128, rows_in),
                    s.metadata,
                )
            } else {
                s.w2_offset
            })
            &&& b.w13_act == s.w13_act
        }),
        forall|i: int|
            0 <= i < crate::moe_smoke::w13_quant_launches(plan, rows, offset).len() ==> (
            #[trigger] crate::moe_smoke::w13_quant_launches(
                plan,
                rows,
                offset,
            )[i] matches Glm52MoeLaunch::ScaleLayout { operand, rows: laid, cols } ==> operand
                == Glm52MoeOperand::W13 && laid == rows && cols == plan.moe_w13_scale_cols),
        forall|i: int|
            0 <= i < crate::moe_smoke::w2_quant_launches(plan, rows, weighted, offset).len() ==> (
            #[trigger] crate::moe_smoke::w2_quant_launches(
                plan,
                rows,
                weighted,
                offset,
            )[i] matches Glm52MoeLaunch::ScaleLayout { operand, rows: laid, cols } ==> operand
                == Glm52MoeOperand::W2 && laid == rows && cols == plan.moe_w2_scale_cols),
{
    reveal_with_fuel(smoke_after, 5);
}

} // verus!
