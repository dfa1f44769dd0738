//! Launch options and the checks that a launch passes before anything is
//! loaded.
use vstd::prelude::*;
use vstd::string::*;

use crate::text::{decimal_text, last_position, parse_usize};
use crate::topology::Glm52MoeTopo;

verus! {

/// How the engine is launched.
#[derive(Clone, Debug)]
pub struct Glm52LaunchOptions {
    pub tp_size: usize,
    pub dp_size: usize,
    /// Directory of the DSpark drafter; enables speculative decoding.
    pub dspark_draft_model_path: Option<String>,
    /// Per-request context cap; sized from the free VRAM where none is given.
    pub max_model_len: Option<usize>,
    /// Disables prefix matching.
    pub no_prefix_cache: bool,
    /// Adds the host tier under the prefix cache.
    pub kv_offload: Option<Glm52KvOffloadOptions>,
    /// Launch-time MoE sharding topology.
    pub moe_topo: Glm52MoeTopo,
    /// Where the decode graph is exported to.
    pub dump_graph_png: Option<String>,
    /// Remote nodes, whose ranks follow the local ones in list order.
    pub rank_hosts: Vec<Glm52RankHostSpec>,
}

/// One remote node: `host:port=ranks`.
#[derive(Clone, Debug)]
pub struct Glm52RankHostSpec {
    pub addr: String,
    pub ranks: usize,
}

/// Host-tier KV offload: one pinned pool backs all ranks under one namespace.
#[derive(Clone, Debug)]
pub struct Glm52KvOffloadOptions {
    /// Size of the pinned pool.
    pub pinned_pool_bytes: usize,
    /// Backs the pool with hugepages.
    pub use_hugepages: bool,
    /// Joins the cross-instance mesh.
    pub p2p: Option<Glm52P2pOptions>,
    /// Set where the prefill peer is vLLM.
    pub vllm_compat: Option<Glm52VllmCompatOptions>,
}

/// Cross-instance KV sharing.
#[derive(Clone, Debug)]
pub struct Glm52P2pOptions {
    pub metaserver_addr: String,
    pub advertise_addr: String,
    pub rdma_nics: Vec<String>,
}

/// Settings of a decode node whose prefill node is vLLM.
#[derive(Clone, Debug)]
pub struct Glm52VllmCompatOptions {
    /// The `PYTHONHASHSEED` of the prefill processes.
    pub python_hash_seed: String,
    /// The prefill side's namespace.
    pub namespace: String,
    /// How long a cold request keeps asking again, in nanoseconds.
    pub miss_wait: u128,
    /// Admits with local prompt compute where the remote KV never comes.
    pub allow_local_prefill: bool,
}

/// What is wrong with a remote node's spec.
#[derive(Clone, Copy, Debug, PartialEq, Eq, Structural)]
pub enum Glm52RankHostFault {
    NoRankCount,
    RankCountNotNumeric,
    EmptyAddressOrNoRanks,
}

/// A remote node's spec that is refused.
#[derive(Clone, Debug)]
pub struct Glm52RankHostError {
    pub spec: String,
    pub fault: Glm52RankHostFault,
}

impl Glm52RankHostError {
    /// The message of the refusal.
    pub fn message(&self) -> (m: String)
        ensures
            m@ == "rank-host spec `"@ + self.spec@ + (match self.fault {
                Glm52RankHostFault::NoRankCount => "` must be host:port=ranks"@,
                Glm52RankHostFault::RankCountNotNumeric => "` has a non-numeric rank count"@,
                Glm52RankHostFault::EmptyAddressOrNoRanks =>
                    "` must be host:port=ranks with ranks > 0"@,
            }),
    {
        let mut m = String::from_str("rank-host spec `");
        m.append(self.spec.as_str());
        m.append(
            match self.fault {
                Glm52RankHostFault::NoRankCount => "` must be host:port=ranks",
                Glm52RankHostFault::RankCountNotNumeric => "` has a non-numeric rank count",
                Glm52RankHostFault::EmptyAddressOrNoRanks => {
                    "` must be host:port=ranks with ranks > 0"
                },
            },
        );
        m
    }
}

/// Whether a text names a node: what stands before its last `=` is the
/// address, what stands behind it the number of ranks.
pub open spec fn names_host(s: Seq<char>, at: int, addr: Seq<char>, ranks: int) -> bool {
    &&& crate::text::is_last_position(s, '=', at)
    &&& addr == s.subrange(0, at)
    &&& crate::text::unsigned_value(crate::text::rest_from(s, at + 1), usize::MAX as nat) == Some(
        ranks as nat,
    )
}

/// Whether a text is the spec of a node.
pub open spec fn reads_host(s: Seq<char>, host: Glm52RankHostSpec) -> bool {
    &&& host.wf()
    &&& exists|at: int| #[trigger] names_host(s, at, host.addr@, host.ranks as int)
}

/// Whether a text is no spec of a node, for this reason.
pub open spec fn refuses_spec(s: Seq<char>, fault: Glm52RankHostFault) -> bool {
    match fault {
        Glm52RankHostFault::NoRankCount => forall|i: int|
            0 <= i < s.len() ==> #[trigger] s[i] != '=',
        Glm52RankHostFault::RankCountNotNumeric => exists|at: int|
            {
                &&& #[trigger] crate::text::is_last_position(s, '=', at)
                &&& crate::text::unsigned_value(
                    crate::text::rest_from(s, at + 1),
                    usize::MAX as nat,
                ) is None
            },
        Glm52RankHostFault::EmptyAddressOrNoRanks => exists|at: int, ranks: int|
            {
                &&& #[trigger] names_host(s, at, s.subrange(0, at), ranks)
                &&& at == 0 || ranks == 0
            },
    }
}

impl Glm52RankHostSpec {
    /// A node as a spec names it: an address and at least one rank.
    pub open spec fn wf(&self) -> bool {
        self.addr@.len() > 0 && self.ranks > 0
    }

    /// Reads one `host:port=ranks` entry.
    pub fn parse(s: &str) -> (r: Result<Glm52RankHostSpec, Glm52RankHostFault>)
        ensures
            match r {
                Ok(host) => reads_host(s@, host),
                Err(fault) => refuses_spec(s@, fault),
            },
            r matches Ok(host) ==> {
                let at = host.addr@.len() as int;
                &&& at > 0 && host.ranks > 0
                &&& at < s@.len() && s@[at] == '='
                &&& host.addr@ == s@.subrange(0, at)
                &&& forall|i: int| at < i < s@.len() ==> #[trigger] s@[i] != '='
                &&& crate::text::unsigned_value(
                    s@.subrange(at + 1, s@.len() as int),
                    usize::MAX as nat,
                ) == Some(host.ranks as nat)
            },
    {
        let at: usize = match last_position(s, '=') {
            Some(at) => at,
            None => {
                return Err(Glm52RankHostFault::NoRankCount);
            },
        };
        let n: usize = s.unicode_len();
        let addr = s.substring_char(0, at);
        let ranks: usize = match parse_usize(s.substring_char(at + 1, n)) {
            Some(ranks) => ranks,
            None => {
                return Err(Glm52RankHostFault::RankCountNotNumeric);
            },
        };
        assert(names_host(s@, at as int, s@.subrange(0, at as int), ranks as int));
        if at == 0 || ranks == 0 {
            return Err(Glm52RankHostFault::EmptyAddressOrNoRanks);
        }
        let host = Glm52RankHostSpec { addr: addr.to_owned(), ranks };
        assert(names_host(s@, at as int, host.addr@, host.ranks as int));
        Ok(host)
    }
}

impl std::str::FromStr for Glm52RankHostSpec {
    type Err = Glm52RankHostError;

    /// Reads one `host:port=ranks` entry; a refusal keeps the entry.
    fn from_str(s: &str) -> (r: Result<Self, Glm52RankHostError>)
        ensures
            match r {
                Ok(host) => reads_host(s@, host),
                Err(e) => e.spec@ == s@ && refuses_spec(s@, e.fault),
            },
    {
        match Glm52RankHostSpec::parse(s) {
            Ok(host) => Ok(host),
            Err(fault) => Err(Glm52RankHostError { spec: s.to_owned(), fault }),
        }
    }
}

/// A text names at most one node.
pub proof fn a_spec_names_one_host(
    s: Seq<char>,
    at: int,
    addr: Seq<char>,
    ranks: int,
    other_at: int,
    other_addr: Seq<char>,
    other_ranks: int,
)
    requires
        names_host(s, at, addr, ranks),
        names_host(s, other_at, other_addr, other_ranks),
        0 <= ranks,
        0 <= other_ranks,
    ensures
        at == other_at,
        addr == other_addr,
        ranks == other_ranks,
{
    if at < other_at {
        assert(s[other_at] != '=');
    } else if other_at < at {
        assert(s[at] != '=');
    }
}

/// Ranks that the first `n` remote nodes contribute.
pub open spec fn remote_ranks(hosts: Seq<Glm52RankHostSpec>, n: int) -> int
    decreases n,
{
    if n <= 0 {
        0
    } else {
        remote_ranks(hosts, n - 1) + hosts[n - 1].ranks
    }
}

/// More nodes contribute at least as many ranks.
pub proof fn remote_ranks_grow(hosts: Seq<Glm52RankHostSpec>, n: int, m: int)
    requires
        0 <= n <= m <= hosts.len(),
    ensures
        0 <= remote_ranks(hosts, n) <= remote_ranks(hosts, m),
    decreases m,
{
    if m > n {
        remote_ranks_grow(hosts, n, m - 1);
    } else if n > 0 {
        remote_ranks_grow(hosts, n - 1, m - 1);
    }
}

/// The remote ranks are the sum of what each host contributes.
pub proof fn the_ranks_of_all_hosts_are_added(hosts: Seq<Glm52RankHostSpec>, n: int)
    requires
        0 <= n <= hosts.len(),
    ensures
        remote_ranks(hosts, n) == hosts.subrange(0, n).fold_left(
            0int,
            |sum: int, host: Glm52RankHostSpec| sum + host.ranks,
        ),
    decreases n,
{
    let add_host = |sum: int, host: Glm52RankHostSpec| sum + host.ranks;
    if n > 0 {
        the_ranks_of_all_hosts_are_added(hosts, n - 1);
        assert(hosts.subrange(0, n).drop_last() =~= hosts.subrange(0, n - 1));
    }
}

/// Ranks that all remote nodes contribute.
pub fn remote_rank_count(hosts: &Vec<Glm52RankHostSpec>) -> (r: usize)
    requires
        remote_ranks(hosts@, hosts.len() as int) <= usize::MAX,
    ensures
        r == remote_ranks(hosts@, hosts.len() as int),
        r == hosts@.fold_left(0int, |sum: int, host: Glm52RankHostSpec| sum + host.ranks),
{
    proof {
        the_ranks_of_all_hosts_are_added(hosts@, hosts.len() as int);
        assert(hosts@.subrange(0, hosts.len() as int) =~= hosts@);
    }
    let mut total: usize = 0;
    let mut i: usize = 0;
    while i < hosts.len()
        invariant
            i <= hosts.len(),
            remote_ranks(hosts@, hosts.len() as int) <= usize::MAX,
            total == remote_ranks(hosts@, i as int),
        decreases hosts.len() - i,
    {
        proof {
            remote_ranks_grow(hosts@, i + 1, hosts.len() as int);
        }
        total = total + hosts[i].ranks;
        i = i + 1;
    }
    total
}

/// Why a launch is refused.
#[derive(Clone, Copy, Debug, PartialEq, Eq, Structural)]
pub enum Glm52LaunchError {
    TpSize { topo: Glm52MoeTopo, got: usize },
    DpSize { topo: Glm52MoeTopo, expected: usize, got: usize },
    OffloadNeedsPrefixCache,
    OffloadNeedsEp8,
    VllmCompatNeedsP2p,
    MissWaitBeyondDeadline { deadline_secs: u64 },
    RankHostsNeedEp,
    TooManyRemoteRanks { remote: usize, topo: Glm52MoeTopo },
    OffloadWithRankHosts,
}

impl Glm52LaunchError {
    /// The message for the operator.
    pub open spec fn text(self) -> Seq<char> {
        match self {
            Glm52LaunchError::TpSize { topo, got } => if topo == Glm52MoeTopo::Tp4 {
                "GLM5.2 TP4 requires --tp-size=4, got "@ + crate::text::decimal(got as nat)
            } else {
                "GLM5.2 "@ + topo.label() + " requires --tp-size=1, got "@ + crate::text::decimal(
                    got as nat,
                )
            },
            Glm52LaunchError::DpSize { topo, expected, got } => "GLM5.2 "@ + (if topo
                == Glm52MoeTopo::Tp4 {
                "TP4"@
            } else {
                topo.label()
            }) + " requires --dp-size="@ + crate::text::decimal(expected as nat)
                + " (or omitted), got "@ + crate::text::decimal(got as nat),
            Glm52LaunchError::OffloadNeedsPrefixCache =>
                "GLM5.2 --kv-offload requires the prefix cache: drop --no-prefix-cache and the DSpark drafter (speculative decoding and prefix caching are mutually exclusive)"@,
            Glm52LaunchError::OffloadNeedsEp8 =>
                "GLM5.2 --kv-offload requires the EP8 topology (tp8 replicates KV on all ranks; a host-tier restore would land on one)"@,
            Glm52LaunchError::VllmCompatNeedsP2p =>
                "GLM5.2 --kv-pd-vllm-seed requires the KV P2P mesh (--kv-p2p-metaserver-addr, --kv-p2p-advertise-addr, --kv-p2p-nics)"@,
            Glm52LaunchError::MissWaitBeyondDeadline { deadline_secs } =>
                "GLM5.2 --kv-pd-miss-wait-ms must stay below the "@ + crate::text::decimal(
                deadline_secs as nat,
            ) + "s remote-fetch deadline"@,
            Glm52LaunchError::RankHostsNeedEp =>
                "GLM5.2 --rank-hosts requires an EP topology (tensor-replicated MoE rendezvouses device pointers in-process)"@,
            Glm52LaunchError::TooManyRemoteRanks { remote, topo } =>
                "GLM5.2 --rank-hosts claims "@ + crate::text::decimal(remote as nat)
                + " ranks but "@ + topo.label() + " has only "@ + crate::text::decimal(
                topo.devices() as nat,
            ) + " (the coordinator keeps at least rank 0 local)"@,
            Glm52LaunchError::OffloadWithRankHosts =>
                "GLM5.2 --kv-offload is not supported with --rank-hosts yet"@,
        }
    }

    /// The message for the operator.
    pub fn message(&self) -> (m: String)
        ensures
            m@ == self.text(),
    {
        match *self {
            Glm52LaunchError::TpSize { topo, got } => {
                if topo == Glm52MoeTopo::Tp4 {
                    let mut m = String::from_str("GLM5.2 TP4 requires --tp-size=4, got ");
                    m.append(decimal_text(got as u64).as_str());
                    m
                } else {
                    let mut m = String::from_str("GLM5.2 ");
                    m.append(topo.label_text());
                    m.append(" requires --tp-size=1, got ");
                    m.append(decimal_text(got as u64).as_str());
                    m
                }
            },
            Glm52LaunchError::DpSize { topo, expected, got } => {
                let mut m = String::from_str("GLM5.2 ");
                if topo == Glm52MoeTopo::Tp4 {
                    m.append("TP4");
                } else {
                    m.append(topo.label_text());
                }
                m.append(" requires --dp-size=");
                m.append(decimal_text(expected as u64).as_str());
                m.append(" (or omitted), got ");
                m.append(decimal_text(got as u64).as_str());
                m
            },
            Glm52LaunchError::OffloadNeedsPrefixCache => String::from_str(
                "GLM5.2 --kv-offload requires the prefix cache: drop --no-prefix-cache and the DSpark drafter (speculative decoding and prefix caching are mutually exclusive)",
            ),
            Glm52LaunchError::OffloadNeedsEp8 => String::from_str(
                "GLM5.2 --kv-offload requires the EP8 topology (tp8 replicates KV on all ranks; a host-tier restore would land on one)",
            ),
            Glm52LaunchError::VllmCompatNeedsP2p => String::from_str(
                "GLM5.2 --kv-pd-vllm-seed requires the KV P2P mesh (--kv-p2p-metaserver-addr, --kv-p2p-advertise-addr, --kv-p2p-nics)",
            ),
            Glm52LaunchError::MissWaitBeyondDeadline { deadline_secs } => {
                let mut m = String::from_str("GLM5.2 --kv-pd-miss-wait-ms must stay below the ");
                m.append(decimal_text(deadline_secs).as_str());
                m.append("s remote-fetch deadline");
                m
            },
            Glm52LaunchError::RankHostsNeedEp => String::from_str(
                "GLM5.2 --rank-hosts requires an EP topology (tensor-replicated MoE rendezvouses device pointers in-process)",
            ),
            Glm52LaunchError::TooManyRemoteRanks { remote, topo } => {
                let mut m = String::from_str("GLM5.2 --rank-hosts claims ");
                m.append(decimal_text(remote as u64).as_str());
                m.append(" ranks but ");
                m.append(topo.label_text());
                m.append(" has only ");
                m.append(decimal_text(topo.device_count() as u64).as_str());
                m.append(" (the coordinator keeps at least rank 0 local)");
                m
            },
            Glm52LaunchError::OffloadWithRankHosts => String::from_str(
                "GLM5.2 --kv-offload is not supported with --rank-hosts yet",
            ),
        }
    }
}

/// How the weights are loaded.
#[derive(Clone, Debug)]
pub struct Glm52LoadOptions {
    /// Ordinals of the local ranks.
    pub device_ordinals: Vec<usize>,
    pub tp_size: usize,
    pub dp_size: usize,
    pub ep_size: usize,
    pub rank_hosts: Vec<Glm52RankHostSpec>,
}

/// A launch that passed its checks.
#[derive(Clone, Debug)]
pub struct Glm52LaunchPlan {
    pub load: Glm52LoadOptions,
    pub dspark_draft_model_path: Option<String>,
    pub max_model_len: Option<usize>,
    pub no_prefix_cache: bool,
    pub kv_offload: Option<Glm52KvOffloadOptions>,
    pub moe_topo: Glm52MoeTopo,
    pub dump_graph_png: Option<String>,
}

/// Whether the offload options ask for a vLLM prefill peer without the mesh.
pub open spec fn compat_without_mesh(options: Glm52LaunchOptions) -> bool {
    options.kv_offload matches Some(kv) && kv.vllm_compat is Some && kv.p2p is None
}

/// Whether a vLLM prefill peer is waited for until or past the deadline.
pub open spec fn waits_past(options: Glm52LaunchOptions, deadline: u128) -> bool {
    &&& options.kv_offload matches Some(kv)
    &&& kv.vllm_compat matches Some(compat)
    &&& compat.miss_wait >= deadline
}

/// What a launch has against it: the first check that fails.
pub open spec fn launch_refusal(
    options: Glm52LaunchOptions,
    remote_fetch_deadline: u128,
) -> Option<Glm52LaunchError> {
    let topo = options.moe_topo;
    let remote = remote_ranks(options.rank_hosts@, options.rank_hosts.len() as int);
    if options.tp_size != topo.tp() {
        Some(Glm52LaunchError::TpSize { topo, got: options.tp_size })
    } else if options.dp_size != topo.dp() {
        Some(
            Glm52LaunchError::DpSize { topo, expected: topo.dp() as usize, got: options.dp_size },
        )
    } else if options.kv_offload is Some && (options.dspark_draft_model_path is Some
        || options.no_prefix_cache) {
        Some(Glm52LaunchError::OffloadNeedsPrefixCache)
    } else if options.kv_offload is Some && topo != Glm52MoeTopo::Ep8 {
        Some(Glm52LaunchError::OffloadNeedsEp8)
    } else if compat_without_mesh(options) {
        Some(Glm52LaunchError::VllmCompatNeedsP2p)
    } else if waits_past(options, remote_fetch_deadline) {
        Some(
            Glm52LaunchError::MissWaitBeyondDeadline {
                deadline_secs: (remote_fetch_deadline / 1_000_000_000) as u64,
            },
        )
    } else if remote > 0 && topo.is_replicated() {
        Some(Glm52LaunchError::RankHostsNeedEp)
    } else if remote > 0 && remote >= topo.devices() {
        Some(Glm52LaunchError::TooManyRemoteRanks { remote: remote as usize, topo })
    } else if remote > 0 && options.kv_offload is Some {
        Some(Glm52LaunchError::OffloadWithRankHosts)
    } else {
        None
    }
}

/// The ordinals of the local ranks.
fn local_ordinals(count: usize) -> (r: Vec<usize>)
    ensures
        r@ == Seq::new(count as nat, |i: int| i as usize),
{
    let mut ordinals: Vec<usize> = Vec::new();
    let mut i: usize = 0;
    while i < count
        invariant
            i <= count,
            ordinals.len() == i,
            forall|k: int| 0 <= k < i ==> #[trigger] ordinals@[k] == k,
        decreases count - i,
    {
        ordinals.push(i);
        i = i + 1;
    }
    assert(ordinals@ =~= Seq::new(count as nat, |k: int| k as usize));
    ordinals
}

/// Checks the launch options and lays out what is loaded where. The deadline
/// of a remote fetch is given in nanoseconds.
pub fn launch(options: Glm52LaunchOptions, remote_fetch_deadline: u128) -> (r: Result<
    Glm52LaunchPlan,
    Glm52LaunchError,
>)
    requires
        remote_ranks(options.rank_hosts@, options.rank_hosts.len() as int) <= usize::MAX,
        remote_fetch_deadline / 1_000_000_000 <= u64::MAX,
    ensures
        match launch_refusal(options, remote_fetch_deadline) {
            Some(e) => r == Err::<Glm52LaunchPlan, _>(e),
            None => {
                &&& r matches Ok(plan)
                &&& plan.load.device_ordinals@ == Seq::new(
                    (options.moe_topo.devices() - remote_ranks(
                        options.rank_hosts@,
                        options.rank_hosts.len() as int,
                    )) as nat,
                    |i: int| i as usize,
                )
                &&& plan.load.tp_size == options.tp_size
                &&& plan.load.dp_size == options.dp_size
                &&& plan.load.ep_size == options.moe_topo.ep()
                &&& plan.load.rank_hosts == options.rank_hosts
                &&& plan.dspark_draft_model_path == options.dspark_draft_model_path
                &&& plan.max_model_len == options.max_model_len
                &&& plan.no_prefix_cache == options.no_prefix_cache
                &&& plan.kv_offload == options.kv_offload
                &&& plan.moe_topo == options.moe_topo
                &&& plan.dump_graph_png == options.dump_graph_png
            },
        },
        r is Ok <==> {
            let remote = remote_ranks(options.rank_hosts@, options.rank_hosts.len() as int);
            &&& options.tp_size == options.moe_topo.tp() && options.dp_size == options.moe_topo.dp()
            &&& remote > 0 ==> !options.moe_topo.is_replicated() && remote
                < options.moe_topo.devices() && options.kv_offload is None
            &&& options.kv_offload matches Some(kv) ==> {
                &&& options.dspark_draft_model_path is None && !options.no_prefix_cache
                &&& options.moe_topo == Glm52MoeTopo::Ep8
                &&& kv.vllm_compat matches Some(compat) ==> kv.p2p is Some && compat.miss_wait
                    < remote_fetch_deadline
            }
        },
        r matches Err(Glm52LaunchError::MissWaitBeyondDeadline { deadline_secs })
            ==> deadline_secs == remote_fetch_deadline / 1_000_000_000,
        r matches Err(Glm52LaunchError::TpSize { topo, got }) ==> topo == options.moe_topo && got
            == options.tp_size,
        r matches Err(Glm52LaunchError::DpSize { topo, expected, got }) ==> topo
            == options.moe_topo && expected == topo.dp() && got == options.dp_size,
        r matches Err(Glm52LaunchError::TooManyRemoteRanks { remote, topo }) ==> topo
            == options.moe_topo && remote == remote_ranks(
            options.rank_hosts@,
            options.rank_hosts.len() as int,
        ),
{
    let topo: Glm52MoeTopo = options.moe_topo;
    if options.tp_size != topo.expected_tp_size() {
        return Err(Glm52LaunchError::TpSize { topo, got: options.tp_size });
    }
    let expected_dp: usize = topo.default_dp_size();
    if options.dp_size != expected_dp {
        return Err(
            Glm52LaunchError::DpSize { topo, expected: expected_dp, got: options.dp_size },
        );
    }
    let offload: bool = options.kv_offload.is_some();
    if offload && (options.dspark_draft_model_path.is_some() || options.no_prefix_cache) {
        return Err(Glm52LaunchError::OffloadNeedsPrefixCache);
    }
    if offload && topo != Glm52MoeTopo::Ep8 {
        return Err(Glm52LaunchError::OffloadNeedsEp8);
    }
    match &options.kv_offload {
        Some(kv) => {
            if kv.vllm_compat.is_some() && kv.p2p.is_none() {
                return Err(Glm52LaunchError::VllmCompatNeedsP2p);
            }
            match &kv.vllm_compat {
                Some(compat) => {
                    if compat.miss_wait >= remote_fetch_deadline {
                        return Err(
                            Glm52LaunchError::MissWaitBeyondDeadline {
                                deadline_secs: (remote_fetch_deadline / 1_000_000_000) as u64,
                            },
                        );
                    }
                },
                None => {},
            }
        },
        None => {},
    }
    proof {
        remote_ranks_grow(options.rank_hosts@, 0, options.rank_hosts.len() as int);
    }
    let remote: usize = remote_rank_count(&options.rank_hosts);
    if remote > 0 {
        if !topo.uses_ep_expert_bundles() {
            return Err(Glm52LaunchError::RankHostsNeedEp);
        }
        if remote >= topo.device_count() {
            return Err(Glm52LaunchError::TooManyRemoteRanks { remote, topo });
        }
        if offload {
            return Err(Glm52LaunchError::OffloadWithRankHosts);
        }
    }
    Ok(
        Glm52LaunchPlan {
            load: Glm52LoadOptions {
                device_ordinals: local_ordinals(topo.device_count() - remote),
                tp_size: options.tp_size,
                dp_size: options.dp_size,
                ep_size: topo.expected_ep_size(),
                rank_hosts: options.rank_hosts,
            },
            dspark_draft_model_path: options.dspark_draft_model_path,
            max_model_len: options.max_model_len,
            no_prefix_cache: options.no_prefix_cache,
            kv_offload: options.kv_offload,
            moe_topo: topo,
            dump_graph_png: options.dump_graph_png,
        },
    )
}

} // verus!
