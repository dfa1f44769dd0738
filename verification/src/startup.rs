//! From a checked launch to a running engine: rank placement, load reports,
//! and the order in which the startup stages run and are torn down.
use vstd::prelude::*;

use crate::budget::{glm52_pool_blocks, min_free_vram};
use crate::config::GLM52_MODEL_LEN_ALIGN;
use crate::launch::{remote_rank_count, Glm52LoadOptions, Glm52RankHostSpec};
use crate::mla::glm52_qa_kva_twin_bytes;
use crate::text::{decimal_text, usize_list_text};
use crate::topology::Glm52MoeTopo;

verus! {

/// Why a load is refused.
#[derive(Clone, Copy, Debug, PartialEq, Eq, Structural)]
pub enum Glm52StartupError {
    ConfigUnparsable,
    RankCount { expected: usize, local: usize, remote: usize },
    ParallelShape { tp_size: usize, dp_size: usize, ep_size: usize },
    RepeatedOrdinal { ordinal: usize },
    LoadReport { rank: usize },
}

impl Glm52StartupError {
    /// The message for the operator, about a load under a topology.
    pub open spec fn text(self, options: Glm52LoadOptions, topo: Glm52MoeTopo) -> Seq<char> {
        let ordinals = crate::text::number_list(
            crate::text::widened(options.device_ordinals@),
        );
        match self {
            Glm52StartupError::ConfigUnparsable => "config.json is not a JSON document"@,
            Glm52StartupError::RankCount { expected, local, remote } => "GLM5.2 "@ + topo.label()
                + " load requires "@ + crate::text::decimal(expected as nat) + " ranks, got "@
                + crate::text::decimal(local as nat) + " local ("@ + ordinals + ") + "@
                + crate::text::decimal(remote as nat) + " remote"@,
            Glm52StartupError::ParallelShape { tp_size, dp_size, ep_size } => "GLM5.2 "@
                + topo.label() + " requires TP"@ + crate::text::decimal(topo.tp() as nat) + "/DP"@
                + crate::text::decimal(topo.dp() as nat) + "/EP"@ + crate::text::decimal(
                topo.ep() as nat,
            ) + ", got TP"@ + crate::text::decimal(tp_size as nat) + " DP"@
                + crate::text::decimal(dp_size as nat) + " EP"@ + crate::text::decimal(
                ep_size as nat,
            ),
            Glm52StartupError::RepeatedOrdinal { .. } =>
                "GLM5.2 device ordinals must be unique, got "@ + ordinals,
            Glm52StartupError::LoadReport { rank } => "GLM5.2 rank "@ + crate::text::decimal(
                rank as nat,
            ) + " invalid weight-load report"@,
        }
    }

    /// The message for the operator, about a load under a topology.
    pub fn message(&self, options: &Glm52LoadOptions, topo: Glm52MoeTopo) -> (m: String)
        ensures
            m@ == self.text(*options, topo),
    {
        match *self {
            Glm52StartupError::ConfigUnparsable => String::from_str(
                "config.json is not a JSON document",
            ),
            Glm52StartupError::RankCount { expected, local, remote } => {
                let mut m = String::from_str("GLM5.2 ");
                m.append(topo.label_text());
                m.append(" load requires ");
                m.append(decimal_text(expected as u64).as_str());
                m.append(" ranks, got ");
                m.append(decimal_text(local as u64).as_str());
                m.append(" local (");
                m.append(usize_list_text(&options.device_ordinals).as_str());
                m.append(") + ");
                m.append(decimal_text(remote as u64).as_str());
                m.append(" remote");
                m
            },
            Glm52StartupError::ParallelShape { tp_size, dp_size, ep_size } => {
                let mut m = String::from_str("GLM5.2 ");
                m.append(topo.label_text());
                m.append(" requires TP");
                m.append(decimal_text(topo.expected_tp_size() as u64).as_str());
                m.append("/DP");
                m.append(decimal_text(topo.default_dp_size() as u64).as_str());
                m.append("/EP");
                m.append(decimal_text(topo.expected_ep_size() as u64).as_str());
                m.append(", got TP");
                m.append(decimal_text(tp_size as u64).as_str());
                m.append(" DP");
                m.append(decimal_text(dp_size as u64).as_str());
                m.append(" EP");
                m.append(decimal_text(ep_size as u64).as_str());
                m
            },
            Glm52StartupError::RepeatedOrdinal { .. } => {
                let mut m = String::from_str("GLM5.2 device ordinals must be unique, got ");
                m.append(usize_list_text(&options.device_ordinals).as_str());
                m
            },
            Glm52StartupError::LoadReport { rank } => {
                let mut m = String::from_str("GLM5.2 rank ");
                m.append(decimal_text(rank as u64).as_str());
                m.append(" invalid weight-load report");
                m
            },
        }
    }
}

/// Reads the model's `config.json`.
pub fn read_model_config(content: &str) -> (r: Result<serde_json::Value, Glm52StartupError>)
    ensures
        match crate::json::json_of(content@) {
            Some(tree) => r matches Ok(v) && crate::json::json_tree(v) == tree,
            None => r == Err::<serde_json::Value, _>(Glm52StartupError::ConfigUnparsable),
        },
{
    match crate::json::parse_json(content) {
        Ok(value) => Ok(value),
        Err(_) => Err(Glm52StartupError::ConfigUnparsable),
    }
}

/// Whether no ordinal occurs twice.
pub open spec fn ordinals_unique(ordinals: Seq<usize>) -> bool {
    forall|i: int, j: int|
        0 <= i < j < ordinals.len() ==> #[trigger] ordinals[i] != #[trigger] ordinals[j]
}

/// Whether the parallel widths are those of the topology.
pub open spec fn shape_matches(options: Glm52LoadOptions, topo: Glm52MoeTopo) -> bool {
    &&& options.tp_size == topo.tp()
    &&& options.dp_size == topo.dp()
    &&& options.ep_size == topo.ep()
}

/// Checks that the ranks fill the topology, that the widths are its own and
/// that no device is used twice.
pub fn validate_startup(options: &Glm52LoadOptions, topo: Glm52MoeTopo) -> (r: Result<
    (),
    Glm52StartupError,
>)
    requires
        crate::launch::remote_ranks(options.rank_hosts@, options.rank_hosts.len() as int)
            <= usize::MAX,
    ensures
        ({
            let local = options.device_ordinals.len();
            let remote = crate::launch::remote_ranks(
                options.rank_hosts@,
                options.rank_hosts.len() as int,
            );
            if local + remote != topo.devices() {
                r == Err::<(), _>(
                    Glm52StartupError::RankCount {
                        expected: topo.devices() as usize,
                        local,
                        remote: remote as usize,
                    },
                )
            } else if !shape_matches(*options, topo) {
                r == Err::<(), _>(
                    Glm52StartupError::ParallelShape {
                        tp_size: options.tp_size,
                        dp_size: options.dp_size,
                        ep_size: options.ep_size,
                    },
                )
            } else {
                &&& r is Ok <==> ordinals_unique(options.device_ordinals@)
                &&& r matches Err(e) ==> e matches Glm52StartupError::RepeatedOrdinal {
                    ordinal,
                } && exists|i: int, j: int|
                    0 <= i < j < local && ordinal == #[trigger] options.device_ordinals@[i]
                        && ordinal == #[trigger] options.device_ordinals@[j]
            }
        }),
{
    let expected: usize = topo.device_count();
    let remote: usize = remote_rank_count(&options.rank_hosts);
    let local: usize = options.device_ordinals.len();
    if remote > expected || local != expected - remote {
        return Err(Glm52StartupError::RankCount { expected, local, remote });
    }
    if options.tp_size != topo.expected_tp_size() || options.dp_size != topo.default_dp_size()
        || options.ep_size != topo.expected_ep_size() {
        return Err(
            Glm52StartupError::ParallelShape {
                tp_size: options.tp_size,
                dp_size: options.dp_size,
                ep_size: options.ep_size,
            },
        );
    }
    let ordinals = &options.device_ordinals;
    let mut j: usize = 0;
    while j < ordinals.len()
        invariant
            ordinals@ == options.device_ordinals@,
            j <= ordinals.len() == local,
            local + crate::launch::remote_ranks(
                options.rank_hosts@,
                options.rank_hosts.len() as int,
            ) == topo.devices(),
            shape_matches(*options, topo),
            forall|a: int, b: int|
                0 <= a < b < j ==> #[trigger] ordinals@[a] != #[trigger] ordinals@[b],
        decreases ordinals.len() - j,
    {
        let ordinal: usize = ordinals[j];
        let mut i: usize = 0;
        while i < j
            invariant
                ordinals@ == options.device_ordinals@,
                i <= j < ordinals.len() == local,
                ordinal == ordinals@[j as int],
                local + crate::launch::remote_ranks(
                    options.rank_hosts@,
                    options.rank_hosts.len() as int,
                ) == topo.devices(),
                shape_matches(*options, topo),
                forall|a: int| 0 <= a < i ==> #[trigger] ordinals@[a] != ordinal,
            decreases j - i,
        {
            if ordinals[i] == ordinal {
                assert(!ordinals_unique(options.device_ordinals@)) by {
                    assert(ordinals@[i as int] == ordinals@[j as int]);
                }
                return Err(Glm52StartupError::RepeatedOrdinal { ordinal });
            }
            i = i + 1;
        }
        j = j + 1;
    }
    Ok(())
}

/// A launch that passed its checks passes the startup checks.
pub proof fn a_checked_launch_starts(
    options: crate::launch::Glm52LaunchOptions,
    remote_fetch_deadline: u128,
    plan: crate::launch::Glm52LaunchPlan,
)
    requires
        crate::launch::launch_refusal(options, remote_fetch_deadline) is None,
        crate::launch::remote_ranks(options.rank_hosts@, options.rank_hosts.len() as int) >= 0,
        plan.load.device_ordinals@ == Seq::new(
            (options.moe_topo.devices() - crate::launch::remote_ranks(
                options.rank_hosts@,
                options.rank_hosts.len() as int,
            )) as nat,
            |i: int| i as usize,
        ),
        plan.load.tp_size == options.tp_size,
        plan.load.dp_size == options.dp_size,
        plan.load.ep_size == options.moe_topo.ep(),
        plan.load.rank_hosts == options.rank_hosts,
    ensures
        plan.load.device_ordinals@.len() + crate::launch::remote_ranks(
            plan.load.rank_hosts@,
            plan.load.rank_hosts.len() as int,
        ) == options.moe_topo.devices(),
        plan.load.device_ordinals@.len() >= 1,
        shape_matches(plan.load, options.moe_topo),
        ordinals_unique(plan.load.device_ordinals@),
{
    let ordinals = plan.load.device_ordinals@;
    assert forall|i: int, j: int| 0 <= i < j < ordinals.len() implies #[trigger] ordinals[i]
        != #[trigger] ordinals[j] by {
        assert(ordinals[i] == i as usize);
        assert(ordinals[j] == j as usize);
    }
}

/// Where a rank lives.
#[derive(Clone, Copy, Debug, PartialEq, Eq, Structural)]
pub enum Glm52RankHome {
    Local { device_ordinal: usize },
    Remote { host: usize, index: usize },
}

/// A rank and where it lives.
#[derive(Clone, Copy, Debug, PartialEq, Eq, Structural)]
pub struct Glm52RankPlacement {
    pub rank: usize,
    pub home: Glm52RankHome,
}

/// The first rank of a remote node.
pub open spec fn first_rank(hosts: Seq<Glm52RankHostSpec>, local: int, host: int) -> int {
    local + crate::launch::remote_ranks(hosts, host)
}

/// Whether a placement is that of its rank: the local ranks first, then the
/// remote nodes' ranks in list order.
pub open spec fn placed(
    ordinals: Seq<usize>,
    hosts: Seq<Glm52RankHostSpec>,
    placement: Glm52RankPlacement,
) -> bool {
    match placement.home {
        Glm52RankHome::Local { device_ordinal } => {
            &&& placement.rank < ordinals.len()
            &&& device_ordinal == ordinals[placement.rank as int]
        },
        Glm52RankHome::Remote { host, index } => {
            &&& host < hosts.len()
            &&& index < hosts[host as int].ranks
            &&& placement.rank == first_rank(hosts, ordinals.len() as int, host as int) + index
        },
    }
}

/// Places every rank of the fleet.
pub fn place_ranks(ordinals: &Vec<usize>, hosts: &Vec<Glm52RankHostSpec>) -> (r: Vec<
    Glm52RankPlacement,
>)
    requires
        ordinals.len() + crate::launch::remote_ranks(hosts@, hosts.len() as int) <= usize::MAX,
    ensures
        r.len() == ordinals.len() + crate::launch::remote_ranks(hosts@, hosts.len() as int),
        forall|k: int| 0 <= k < r.len() ==> (#[trigger] r@[k]).rank == k,
        forall|k: int| 0 <= k < r.len() ==> placed(ordinals@, hosts@, #[trigger] r@[k]),
        forall|k: int|
            0 <= k < ordinals.len() ==> (#[trigger] r@[k]).home == (Glm52RankHome::Local {
                device_ordinal: ordinals@[k],
            }),
        forall|k: int| ordinals.len() <= k < r.len() ==> (#[trigger] r@[k]).home is Remote,
{
    let mut placements: Vec<Glm52RankPlacement> = Vec::new();
    let mut rank: usize = 0;
    while rank < ordinals.len()
        invariant
            rank <= ordinals.len(),
            placements.len() == rank,
            forall|k: int| 0 <= k < rank ==> (#[trigger] placements@[k]).rank == k,
            forall|k: int| 0 <= k < rank ==> placed(ordinals@, hosts@, #[trigger] placements@[k]),
            forall|k: int|
                0 <= k < rank ==> (#[trigger] placements@[k]).home == (Glm52RankHome::Local {
                    device_ordinal: ordinals@[k],
                }),
        decreases ordinals.len() - rank,
    {
        placements.push(
            Glm52RankPlacement {
                rank,
                home: Glm52RankHome::Local { device_ordinal: ordinals[rank] },
            },
        );
        rank = rank + 1;
    }
    let mut next_rank: usize = ordinals.len();
    let mut host: usize = 0;
    while host < hosts.len()
        invariant
            host <= hosts.len(),
            ordinals.len() + crate::launch::remote_ranks(hosts@, hosts.len() as int) <= usize::MAX,
            next_rank == first_rank(hosts@, ordinals.len() as int, host as int),
            placements.len() == next_rank,
            forall|k: int| 0 <= k < next_rank ==> (#[trigger] placements@[k]).rank == k,
            forall|k: int|
                0 <= k < next_rank ==> placed(ordinals@, hosts@, #[trigger] placements@[k]),
            ordinals.len() <= next_rank,
            forall|k: int|
                0 <= k < ordinals.len() ==> (#[trigger] placements@[k]).home
                    == (Glm52RankHome::Local { device_ordinal: ordinals@[k] }),
            forall|k: int|
                ordinals.len() <= k < next_rank ==> (#[trigger] placements@[k]).home is Remote,
        decreases hosts.len() - host,
    {
        let ranks: usize = hosts[host].ranks;
        proof {
            crate::launch::remote_ranks_grow(hosts@, host + 1, hosts.len() as int);
        }
        let mut index: usize = 0;
        while index < ranks
            invariant
                host < hosts.len(),
                ranks == hosts@[host as int].ranks,
                index <= ranks,
                next_rank == first_rank(hosts@, ordinals.len() as int, host as int),
                next_rank + ranks <= usize::MAX,
                placements.len() == next_rank + index,
                forall|k: int|
                    0 <= k < placements.len() ==> (#[trigger] placements@[k]).rank == k,
                forall|k: int|
                    0 <= k < placements.len() ==> placed(
                        ordinals@,
                        hosts@,
                        #[trigger] placements@[k],
                    ),
                ordinals.len() <= next_rank,
                forall|k: int|
                    0 <= k < ordinals.len() ==> (#[trigger] placements@[k]).home
                        == (Glm52RankHome::Local { device_ordinal: ordinals@[k] }),
                forall|k: int|
                    ordinals.len() <= k < placements.len() ==> (
                    #[trigger] placements@[k]).home is Remote,
            decreases ranks - index,
        {
            placements.push(
                Glm52RankPlacement {
                    rank: next_rank + index,
                    home: Glm52RankHome::Remote { host, index },
                },
            );
            index = index + 1;
        }
        next_rank = next_rank + ranks;
        host = host + 1;
    }
    placements
}

/// What a rank reports once its weights are loaded.
#[derive(Clone, Copy, Debug, PartialEq, Eq, Structural)]
pub struct Glm52RankLoadReport {
    pub rank: usize,
    pub loaded_to_gpu: bool,
    pub loaded_tensor_count: usize,
    pub loaded_total_bytes: u64,
    pub free_vram_bytes: u64,
}

/// What the fleet loaded, by rank.
#[derive(Clone, Debug)]
pub struct GpuWeightLoadReport {
    pub tensor_counts: Vec<usize>,
    pub bytes: Vec<u64>,
    pub free_vram_bytes: Vec<u64>,
}

/// Whether a rank's report is its own and says that it loaded.
pub open spec fn report_valid(reports: Seq<Glm52RankLoadReport>, rank: int) -> bool {
    reports[rank].rank == rank && reports[rank].loaded_to_gpu
}

/// Collects the ranks' load reports, given in rank order.
pub fn collect_load_reports(reports: &Vec<Glm52RankLoadReport>) -> (r: Result<
    GpuWeightLoadReport,
    Glm52StartupError,
>)
    ensures
        match r {
            Ok(report) => {
                &&& forall|i: int|
                    0 <= i < reports.len() ==> #[trigger] report_valid(reports@, i)
                &&& report.tensor_counts@ == Seq::new(
                    reports@.len(),
                    |i: int| reports@[i].loaded_tensor_count,
                )
                &&& report.bytes@ == Seq::new(
                    reports@.len(),
                    |i: int| reports@[i].loaded_total_bytes,
                )
                &&& report.free_vram_bytes@ == Seq::new(
                    reports@.len(),
                    |i: int| reports@[i].free_vram_bytes,
                )
            },
            Err(e) => {
                &&& e matches Glm52StartupError::LoadReport { rank }
                &&& rank < reports.len()
                &&& !report_valid(reports@, rank as int)
                &&& forall|i: int| 0 <= i < rank ==> #[trigger] report_valid(reports@, i)
            },
        },
        r is Ok <==> forall|i: int|
            0 <= i < reports.len() ==> (#[trigger] reports@[i]).rank == i
                && reports@[i].loaded_to_gpu,
{
    let mut tensor_counts: Vec<usize> = Vec::new();
    let mut bytes: Vec<u64> = Vec::new();
    let mut free_vram_bytes: Vec<u64> = Vec::new();
    let mut rank: usize = 0;
    while rank < reports.len()
        invariant
            rank <= reports.len(),
            forall|i: int| 0 <= i < rank ==> #[trigger] report_valid(reports@, i),
            tensor_counts@ == Seq::new(rank as nat, |i: int| reports@[i].loaded_tensor_count),
            bytes@ == Seq::new(rank as nat, |i: int| reports@[i].loaded_total_bytes),
            free_vram_bytes@ == Seq::new(rank as nat, |i: int| reports@[i].free_vram_bytes),
        decreases reports.len() - rank,
    {
        let report: Glm52RankLoadReport = reports[rank];
        if report.rank != rank || !report.loaded_to_gpu {
            assert(!report_valid(reports@, rank as int));
            return Err(Glm52StartupError::LoadReport { rank });
        }
        assert(report_valid(reports@, rank as int));
        tensor_counts.push(report.loaded_tensor_count);
        bytes.push(report.loaded_total_bytes);
        free_vram_bytes.push(report.free_vram_bytes);
        rank = rank + 1;
        assert(tensor_counts@ =~= Seq::new(
            rank as nat,
            |i: int| reports@[i].loaded_tensor_count,
        ));
        assert(bytes@ =~= Seq::new(rank as nat, |i: int| reports@[i].loaded_total_bytes));
        assert(free_vram_bytes@ =~= Seq::new(rank as nat, |i: int| reports@[i].free_vram_bytes));
    }
    assert forall|i: int| 0 <= i < reports.len() implies (#[trigger] reports@[i]).rank == i
        && reports@[i].loaded_to_gpu by {
        assert(report_valid(reports@, i));
    }
    Ok(GpuWeightLoadReport { tensor_counts, bytes, free_vram_bytes })
}

/// Whether a number is the smallest of a list.
pub open spec fn is_least(list: Seq<u64>, m: u64) -> bool {
    list.contains(m) && forall|i: int| 0 <= i < list.len() ==> m <= #[trigger] list[i]
}

/// The VRAM that the caches of every rank can count on: what the poorest rank
/// has left after its weights, less what its packed projection twins will take
/// while the model is built.
pub fn cache_vram(free_vram_bytes: &Vec<u64>, routed: bool) -> (r: u64)
    requires
        free_vram_bytes.len() > 0,
    ensures
        exists|m: u64|
            #[trigger] is_least(free_vram_bytes@, m) && r == (if m
                >= crate::mla::qa_kva_twin_bytes(routed) {
                m - crate::mla::qa_kva_twin_bytes(routed)
            } else {
                0
            }),
        !routed ==> free_vram_bytes@.contains(r),
        forall|i: int|
            0 <= i < free_vram_bytes.len() ==> #[trigger] free_vram_bytes@[i] >= r && (routed && r
                > 0 ==> free_vram_bytes@[i] - r >= 1_257_819_264),
{
    let least: u64 = min_free_vram(free_vram_bytes);
    let twins: u64 = glm52_qa_kva_twin_bytes(routed) as u64;
    assert(is_least(free_vram_bytes@, least));
    if least >= twins {
        least - twins
    } else {
        0
    }
}

/// A phase of bringing the models up. Every rank finishes a phase before any
/// rank enters the next one.
#[derive(Clone, Copy, Debug, PartialEq, Eq, Structural)]
pub enum Glm52ModelPhase {
    /// Each rank builds its model, on its own.
    Build,
    /// The ranks create their collective contexts together.
    SetupComm,
}

/// The phases of bringing a topology's models up: a failed build strands no
/// rank in a collective, since none is entered before all ranks have built.
/// The four-way replicated topology stops after the build.
pub fn model_phases(topo: Glm52MoeTopo) -> (r: Vec<Glm52ModelPhase>)
    ensures
        r@ == (if topo == Glm52MoeTopo::Tp4 {
            seq![Glm52ModelPhase::Build]
        } else {
            seq![Glm52ModelPhase::Build, Glm52ModelPhase::SetupComm]
        }),
{
    let mut phases: Vec<Glm52ModelPhase> = vec![Glm52ModelPhase::Build];
    if topo != Glm52MoeTopo::Tp4 {
        phases.push(Glm52ModelPhase::SetupComm);
    }
    phases
}

/// The width that the collective id is generated for: the topology's own for
/// expert bundles, the eight-way generator for the eight-way replicated
/// topology, and none where no collective is set up.
pub fn comm_id_width(topo: Glm52MoeTopo) -> (r: Option<usize>)
    ensures
        r == (if topo == Glm52MoeTopo::Tp4 {
            None
        } else if topo.is_replicated() {
            Some(8usize)
        } else {
            Some(topo.ep() as usize)
        }),
{
    if topo == Glm52MoeTopo::Tp4 {
        None
    } else if topo.uses_ep_expert_bundles() {
        Some(topo.expected_ep_size())
    } else {
        Some(8)
    }
}

/// What the engine publishes about itself.
#[derive(Clone, Copy, Debug, PartialEq, Eq, Structural)]
pub struct Glm52EngineFacts {
    pub servable_len: u32,
    pub kv_total_blocks: usize,
    pub kv_block_size: usize,
    pub logical_ranks: usize,
}

/// The facts of an engine that serves a cap.
pub fn engine_facts(max_model_len: usize, topo: Glm52MoeTopo) -> (r: Glm52EngineFacts)
    requires
        max_model_len <= crate::config::GLM52_MAX_CONTEXT,
    ensures
        r.servable_len == max_model_len,
        r.kv_total_blocks == crate::budget::pool_blocks(max_model_len as int) - 1,
        r.kv_block_size == 64,
        r.logical_ranks == topo.logical_ranks(),
{
    Glm52EngineFacts {
        servable_len: max_model_len as u32,
        kv_total_blocks: glm52_pool_blocks(max_model_len) - 1,
        kv_block_size: GLM52_MODEL_LEN_ALIGN,
        logical_ranks: topo.logical_rank_count(),
    }
}

/// What the startup is doing.
#[derive(Clone, Copy, Debug, PartialEq, Eq, Structural)]
pub enum Glm52StartStage {
    Validating,
    LoadingWeights,
    SizingContext,
    ReadingEos,
    BuildingModels,
    LoadingDrafters,
    ProbingHeadroom,
    RegisteringOffload,
    SpawningCoordinator,
    ExportingGraph,
    Serving,
    Failed,
}

/// What has to be done before a failed startup reports its error.
#[derive(Clone, Copy, Debug, PartialEq, Eq, Structural)]
pub enum Glm52StartCleanup {
    /// Nothing.
    Nothing,
    /// Every rank is told to shut down before the first worker is dropped:
    /// the ranks leave their collective contexts together.
    ShutdownRanks,
    /// The submit side is closed and the coordinator is joined.
    JoinCoordinator,
}

/// The startup of an engine.
#[derive(Clone, Copy, Debug, PartialEq, Eq, Structural)]
pub struct Glm52StartMachine {
    pub dspark: bool,
    pub offload: bool,
    pub export_graph: bool,
    pub stage: Glm52StartStage,
}

/// How far a stage is.
pub open spec fn stage_order(stage: Glm52StartStage) -> int {
    match stage {
        Glm52StartStage::Validating => 0,
        Glm52StartStage::LoadingWeights => 1,
        Glm52StartStage::SizingContext => 2,
        Glm52StartStage::ReadingEos => 3,
        Glm52StartStage::BuildingModels => 4,
        Glm52StartStage::LoadingDrafters => 5,
        Glm52StartStage::ProbingHeadroom => 6,
        Glm52StartStage::RegisteringOffload => 7,
        Glm52StartStage::SpawningCoordinator => 8,
        Glm52StartStage::ExportingGraph => 9,
        Glm52StartStage::Serving => 10,
        Glm52StartStage::Failed => 11,
    }
}

/// Whether a stage may leave collective contexts behind that no coordinator
/// owns yet.
pub open spec fn holds_collectives(stage: Glm52StartStage) -> bool {
    4 <= stage_order(stage) <= 8
}

/// Whether nothing follows a stage.
pub open spec fn is_final(stage: Glm52StartStage) -> bool {
    stage == Glm52StartStage::Serving || stage == Glm52StartStage::Failed
}

impl Glm52StartMachine {
    /// Whether a stage is part of this startup.
    pub open spec fn runs(&self, stage: Glm52StartStage) -> bool {
        match stage {
            Glm52StartStage::LoadingDrafters => self.dspark,
            Glm52StartStage::RegisteringOffload => self.offload,
            Glm52StartStage::ExportingGraph => self.export_graph,
            _ => true,
        }
    }

    /// A startup that has done nothing yet.
    pub fn new(dspark: bool, offload: bool, export_graph: bool) -> (r: Self)
        ensures
            r == (Glm52StartMachine {
                dspark,
                offload,
                export_graph,
                stage: Glm52StartStage::Validating,
            }),
    {
        Glm52StartMachine { dspark, offload, export_graph, stage: Glm52StartStage::Validating }
    }

    /// The current stage succeeded: the next stage of this startup is the
    /// first later one that is part of it.
    pub fn succeed(&mut self) -> (r: Glm52StartStage)
        requires
            !is_final(old(self).stage),
        ensures
            *final(self) == (Glm52StartMachine { stage: r, ..*old(self) }),
            stage_order(old(self).stage) < stage_order(r) <= 10,
            old(self).runs(r),
            forall|s: Glm52StartStage|
                stage_order(old(self).stage) < stage_order(s) < stage_order(r) ==> !(
                #[trigger] old(self).runs(s)),
            r == (match old(self).stage {
                Glm52StartStage::Validating => Glm52StartStage::LoadingWeights,
                Glm52StartStage::LoadingWeights => Glm52StartStage::SizingContext,
                Glm52StartStage::SizingContext => Glm52StartStage::ReadingEos,
                Glm52StartStage::ReadingEos => Glm52StartStage::BuildingModels,
                Glm52StartStage::BuildingModels => if old(self).dspark {
                    Glm52StartStage::LoadingDrafters
                } else {
                    Glm52StartStage::ProbingHeadroom
                },
                Glm52StartStage::LoadingDrafters => Glm52StartStage::ProbingHeadroom,
                Glm52StartStage::ProbingHeadroom => if old(self).offload {
                    Glm52StartStage::RegisteringOffload
                } else {
                    Glm52StartStage::SpawningCoordinator
                },
                Glm52StartStage::RegisteringOffload => Glm52StartStage::SpawningCoordinator,
                Glm52StartStage::SpawningCoordinator => if old(self).export_graph {
                    Glm52StartStage::ExportingGraph
                } else {
                    Glm52StartStage::Serving
                },
                _ => Glm52StartStage::Serving,
            }),
    {
        let next: Glm52StartStage = match self.stage {
            Glm52StartStage::Validating => Glm52StartStage::LoadingWeights,
            Glm52StartStage::LoadingWeights => Glm52StartStage::SizingContext,
            Glm52StartStage::SizingContext => Glm52StartStage::ReadingEos,
            Glm52StartStage::ReadingEos => Glm52StartStage::BuildingModels,
            Glm52StartStage::BuildingModels => {
                if self.dspark {
                    Glm52StartStage::LoadingDrafters
                } else {
                    Glm52StartStage::ProbingHeadroom
                }
            },
            Glm52StartStage::LoadingDrafters => Glm52StartStage::ProbingHeadroom,
            Glm52StartStage::ProbingHeadroom => {
                if self.offload {
                    Glm52StartStage::RegisteringOffload
                } else {
                    Glm52StartStage::SpawningCoordinator
                }
            },
            Glm52StartStage::RegisteringOffload => Glm52StartStage::SpawningCoordinator,
            Glm52StartStage::SpawningCoordinator => {
                if self.export_graph {
                    Glm52StartStage::ExportingGraph
                } else {
                    Glm52StartStage::Serving
                }
            },
            _ => Glm52StartStage::Serving,
        };
        self.stage = next;
        next
    }

    /// The current stage failed: what has to be done before the error is
    /// reported.
    pub fn fail(&mut self) -> (r: Glm52StartCleanup)
        requires
            !is_final(old(self).stage),
        ensures
            *final(self) == (Glm52StartMachine { stage: Glm52StartStage::Failed, ..*old(self) }),
            r == (if holds_collectives(old(self).stage) {
                Glm52StartCleanup::ShutdownRanks
            } else if old(self).stage == Glm52StartStage::ExportingGraph {
                Glm52StartCleanup::JoinCoordinator
            } else {
                Glm52StartCleanup::Nothing
            }),
            r == Glm52StartCleanup::ShutdownRanks <==> old(self).stage is BuildingModels
                || old(self).stage is LoadingDrafters || old(self).stage is ProbingHeadroom
                || old(self).stage is RegisteringOffload || old(self).stage is SpawningCoordinator,
            r == Glm52StartCleanup::JoinCoordinator <==> old(self).stage is ExportingGraph,
    {
        let cleanup: Glm52StartCleanup = match self.stage {
            Glm52StartStage::BuildingModels
            | Glm52StartStage::LoadingDrafters
            | Glm52StartStage::ProbingHeadroom
            | Glm52StartStage::RegisteringOffload
            | Glm52StartStage::SpawningCoordinator => Glm52StartCleanup::ShutdownRanks,
            Glm52StartStage::ExportingGraph => Glm52StartCleanup::JoinCoordinator,
            _ => Glm52StartCleanup::Nothing,
        };
        self.stage = Glm52StartStage::Failed;
        cleanup
    }
}

/// Whether some placement is that of a rank.
pub open spec fn is_placed(placements: Seq<Glm52RankPlacement>, rank: int) -> bool {
    exists|k: int| 0 <= k < placements.len() && (#[trigger] placements[k]).rank == rank
}

/// The placements of a validated startup are one per rank of the topology,
/// so no rank is placed twice and none is left out.
pub proof fn placements_cover_the_topology(
    options: Glm52LoadOptions,
    topo: Glm52MoeTopo,
    placements: Seq<Glm52RankPlacement>,
)
    requires
        options.device_ordinals.len() + crate::launch::remote_ranks(
            options.rank_hosts@,
            options.rank_hosts.len() as int,
        ) == topo.devices(),
        placements.len() == options.device_ordinals.len() + crate::launch::remote_ranks(
            options.rank_hosts@,
            options.rank_hosts.len() as int,
        ),
        forall|k: int| 0 <= k < placements.len() ==> (#[trigger] placements[k]).rank == k,
    ensures
        forall|rank: int| 0 <= rank < topo.devices() ==> #[trigger] is_placed(placements, rank),
        forall|a: int, b: int|
            0 <= a < placements.len() && 0 <= b < placements.len() && (
            #[trigger] placements[a]).rank == (#[trigger] placements[b]).rank ==> a == b,
{
    assert forall|rank: int| 0 <= rank < topo.devices() implies #[trigger] is_placed(
        placements,
        rank,
    ) by {
        assert(placements[rank].rank == rank);
    }
}

} // verus!
