//! The cache arenas of a rank as the KV offload tier sees them.
use vstd::prelude::*;
use vstd::string::*;

use crate::config::GLM52_PAGE_SIZE;
use crate::text::{
    after_prefix, decimal_text, first_position, last_position, parse_usize, same_text,
};

verus! {

/// One contiguous cache arena: pages of equal size, addressed by pool page
/// ids.
#[derive(Clone, Debug)]
pub struct Glm52KvArena {
    pub name: String,
    pub num_blocks: usize,
    pub bytes_per_block: usize,
}

/// What an arena holds.
#[derive(Clone, Copy, Debug, PartialEq, Eq, Structural)]
pub enum Glm52ArenaKind {
    /// The packed KV pages of a layer.
    Mla,
    /// The index keys of a layer.
    IndexK,
}

impl Glm52ArenaKind {
    /// How the kind is written in a native arena name.
    pub open spec fn native_suffix(self) -> Seq<char> {
        match self {
            Glm52ArenaKind::Mla => "mla"@,
            Glm52ArenaKind::IndexK => "idxk"@,
        }
    }

    /// How the kind is written in the name that vLLM registers.
    pub open spec fn vllm_suffix(self) -> Seq<char> {
        match self {
            Glm52ArenaKind::Mla => ".self_attn.attn"@,
            Glm52ArenaKind::IndexK => ".self_attn.indexer.k_cache"@,
        }
    }
}

/// The native name of a layer's arena.
pub open spec fn native_name(layer: nat, kind: Glm52ArenaKind) -> Seq<char> {
    "glm52.L"@ + crate::text::decimal(layer) + "."@ + kind.native_suffix()
}

/// The name that vLLM registers a layer's arena under.
pub open spec fn vllm_name(layer: nat, kind: Glm52ArenaKind) -> Seq<char> {
    "model.layers."@ + crate::text::decimal(layer) + kind.vllm_suffix()
}

/// Whether a name is that of an arena of this layer and kind: the prefix, a
/// number up to the first dot, and the kind behind it.
pub open spec fn names_arena(name: Seq<char>, at: int, layer: nat, kind: Glm52ArenaKind) -> bool {
    let rest = crate::text::rest_from(name, "glm52.L"@.len() as int);
    &&& crate::text::starts_with(name, "glm52.L"@)
    &&& crate::text::is_first_position(rest, '.', at)
    &&& crate::text::unsigned_value(rest.subrange(0, at), usize::MAX as nat) == Some(layer)
    &&& crate::text::rest_from(rest, at + 1) == kind.native_suffix()
}

/// Whether a text ends with another.
pub open spec fn ends_with(s: Seq<char>, suffix: Seq<char>) -> bool {
    suffix.len() <= s.len() && crate::text::rest_from(s, s.len() - suffix.len()) == suffix
}

/// The native name of a layer's arena.
pub fn arena_name(layer: usize, kind: Glm52ArenaKind) -> (r: String)
    ensures
        r@ == native_name(layer as nat, kind),
        r@ == "glm52.L"@ + crate::text::decimal(layer as nat) + "."@ + (match kind {
            Glm52ArenaKind::Mla => "mla"@,
            Glm52ArenaKind::IndexK => "idxk"@,
        }),
{
    let mut name = String::from_str("glm52.L");
    name.append(decimal_text(layer as u64).as_str());
    name.append(".");
    match kind {
        Glm52ArenaKind::Mla => name.append("mla"),
        Glm52ArenaKind::IndexK => name.append("idxk"),
    }
    name
}

/// Whether an arena holds packed KV pages: what stands behind the last dot of
/// its name is `mla`.
pub fn is_mla_arena_name(name: &str) -> (r: bool)
    ensures
        r == ends_with(name@, ".mla"@),
        r ==> name@.len() >= 4 && name@[name@.len() - 4] == '.' && name@[name@.len() - 3] == 'm'
            && name@[name@.len() - 2] == 'l' && name@[name@.len() - 1] == 'a',
{
    proof {
        reveal_strlit(".mla");
        reveal_strlit("mla");
    }
    let n: usize = name.unicode_len();
    match last_position(name, '.') {
        Some(at) => {
            let kind = name.substring_char(at + 1, n);
            let r: bool = same_text(kind, "mla");
            proof {
                let tail = crate::text::rest_from(name@, n - 4);
                assert("mla"@.len() == 3 && ".mla"@.len() == 4);
                assert(kind@.len() == n - at - 1);
                if r {
                    assert(n == at + 4);
                    assert(tail[1] == kind@[0] && tail[2] == kind@[1] && tail[3] == kind@[2]);
                    assert(tail =~= ".mla"@);
                } else if ends_with(name@, ".mla"@) {
                    assert(tail[0] == '.' && tail[1] == 'm' && tail[2] == 'l' && tail[3] == 'a');
                    assert(name@[n - 4] == '.');
                    assert(name@[n - 3] == 'm' && name@[n - 2] == 'l' && name@[n - 1] == 'a');
                    assert(at == n - 4);
                    assert(kind@ =~= "mla"@);
                }
            }
            r
        },
        None => {
            proof {
                if ends_with(name@, ".mla"@) {
                    let tail = crate::text::rest_from(name@, n - 4);
                    assert(tail[0] == '.');
                    assert(name@[n - 4] == '.');
                }
            }
            false
        },
    }
}

/// Maps a native arena name to the name that vLLM registers the same cache
/// under, or nothing where there is none.
pub fn vllm_arena_name(name: &str) -> (r: Option<String>)
    ensures
        match r {
            Some(mapped) => exists|at: int, layer: nat, kind: Glm52ArenaKind|
                {
                    &&& #[trigger] names_arena(name@, at, layer, kind)
                    &&& mapped@ == vllm_name(layer, kind)
                },
            None => forall|at: int, layer: nat, kind: Glm52ArenaKind|
                !(#[trigger] names_arena(name@, at, layer, kind)),
        },
        r matches Some(mapped) ==> exists|at: int, layer: nat, kind: Glm52ArenaKind| #[trigger]
            names_arena(name@, at, layer, kind) && mapped@ == "model.layers."@
                + crate::text::decimal(layer) + (match kind {
                Glm52ArenaKind::Mla => ".self_attn.attn"@,
                Glm52ArenaKind::IndexK => ".self_attn.indexer.k_cache"@,
            }),
{
    let rest = match after_prefix(name, "glm52.L") {
        Some(rest) => rest,
        None => {
            return None;
        },
    };
    let n: usize = rest.unicode_len();
    let at: usize = match first_position(rest, '.') {
        Some(at) => at,
        None => {
            return None;
        },
    };
    let ghost rest_view = rest@;
    assert(rest_view == crate::text::rest_from(name@, "glm52.L"@.len() as int));
    assert forall|other: int, layer: nat, kind: Glm52ArenaKind| #[trigger]
        names_arena(name@, other, layer, kind) implies other == at by {
        if other < at {
            assert(rest_view[other] != '.');
        } else if at < other {
            assert(rest_view[at as int] != '.');
        }
    }
    let layer: usize = match parse_usize(rest.substring_char(0, at)) {
        Some(layer) => layer,
        None => {
            return None;
        },
    };
    let kind_text = rest.substring_char(at + 1, n);
    let kind: Glm52ArenaKind = if same_text(kind_text, "mla") {
        Glm52ArenaKind::Mla
    } else if same_text(kind_text, "idxk") {
        Glm52ArenaKind::IndexK
    } else {
        assert forall|other: int, l: nat, k: Glm52ArenaKind| !(#[trigger] names_arena(
            name@,
            other,
            l,
            k,
        )) by {
            if names_arena(name@, other, l, k) {
                assert(other == at);
                assert(kind_text@ == k.native_suffix());
            }
        }
        return None;
    };
    let mut mapped = String::from_str("model.layers.");
    mapped.append(decimal_text(layer as u64).as_str());
    match kind {
        Glm52ArenaKind::Mla => mapped.append(".self_attn.attn"),
        Glm52ArenaKind::IndexK => mapped.append(".self_attn.indexer.k_cache"),
    }
    assert(names_arena(name@, at as int, layer as nat, kind));
    Some(mapped)
}

/// Why the offload tier cannot be set up.
#[derive(Clone, Copy, Debug, PartialEq, Eq, Structural)]
pub enum Glm52OffloadError {
    NoMlaArena,
    LayoutsDisagree,
    NoVllmName { rank: usize, arena: usize },
}

impl Glm52OffloadError {
    /// Whether the error, where it names an arena, names one of these.
    pub open spec fn about(self, rank_arenas: Seq<Vec<Glm52KvArena>>) -> bool {
        self matches Glm52OffloadError::NoVllmName { rank, arena } ==> rank < rank_arenas.len()
            && arena < rank_arenas[rank as int].len()
    }

    /// The message for the operator, about the arenas of a fleet.
    pub open spec fn text(self, rank_arenas: Seq<Vec<Glm52KvArena>>) -> Seq<char> {
        match self {
            Glm52OffloadError::NoMlaArena => "GLM5.2 KV offload has no MLA arena"@,
            Glm52OffloadError::LayoutsDisagree =>
                "GLM5.2 KV offload ranks disagree on MLA cache layout"@,
            Glm52OffloadError::NoVllmName { rank, arena } => "GLM5.2 arena "@
                + rank_arenas[rank as int]@[arena as int].name@ + " has no vLLM-compat mapping"@,
        }
    }

    /// The message for the operator, about the arenas of a fleet.
    pub fn message(&self, rank_arenas: &Vec<Vec<Glm52KvArena>>) -> (m: String)
        requires
            self.about(rank_arenas@),
        ensures
            m@ == self.text(rank_arenas@),
    {
        match *self {
            Glm52OffloadError::NoMlaArena => String::from_str("GLM5.2 KV offload has no MLA arena"),
            Glm52OffloadError::LayoutsDisagree => String::from_str(
                "GLM5.2 KV offload ranks disagree on MLA cache layout",
            ),
            Glm52OffloadError::NoVllmName { rank, arena } => {
                let mut m = String::from_str("GLM5.2 arena ");
                m.append(rank_arenas[rank][arena].name.as_str());
                m.append(" has no vLLM-compat mapping");
                m
            },
        }
    }
}

/// Whether an arena's pages have the size of a token size.
pub open spec fn arena_agrees(arena: Glm52KvArena, bytes_per_token: int) -> bool {
    ends_with(arena.name@, ".mla"@) ==> arena.bytes_per_block == 64 * bytes_per_token
}

/// Whether all arenas of a rank agree with a token size.
pub open spec fn rank_agrees(arenas: Seq<Glm52KvArena>, bytes_per_token: int) -> bool {
    forall|a: int| 0 <= a < arenas.len() ==> #[trigger] arena_agrees(arenas[a], bytes_per_token)
}

/// Whether an arena is the first of its rank that holds packed KV pages.
pub open spec fn is_first_mla(arenas: Seq<Glm52KvArena>, at: int) -> bool {
    &&& 0 <= at < arenas.len()
    &&& ends_with(arenas[at].name@, ".mla"@)
    &&& forall|a: int| 0 <= a < at ==> !ends_with((#[trigger] arenas[a]).name@, ".mla"@)
}

/// Whether all arenas of a rank agree with a token size.
fn check_rank(arenas: &Vec<Glm52KvArena>, bytes_per_token: usize) -> (r: bool)
    requires
        64 * bytes_per_token <= usize::MAX,
    ensures
        r == rank_agrees(arenas@, bytes_per_token as int),
{
    let mut a: usize = 0;
    while a < arenas.len()
        invariant
            64 * bytes_per_token <= usize::MAX,
            a <= arenas.len(),
            forall|k: int|
                0 <= k < a ==> #[trigger] arena_agrees(arenas@[k], bytes_per_token as int),
        decreases arenas.len() - a,
    {
        if is_mla_arena_name(arenas[a].name.as_str()) && arenas[a].bytes_per_block
            != GLM52_PAGE_SIZE * bytes_per_token {
            assert(!arena_agrees(arenas@[a as int], bytes_per_token as int));
            return false;
        }
        assert(arena_agrees(arenas@[a as int], bytes_per_token as int));
        a = a + 1;
    }
    true
}

/// The token size of the packed KV pages: that of rank 0's first such arena,
/// and every rank must agree with it.
pub fn mla_bytes_per_token(rank_arenas: &Vec<Vec<Glm52KvArena>>) -> (r: Result<
    usize,
    Glm52OffloadError,
>)
    ensures
        match r {
            Ok(bytes) => {
                &&& rank_arenas.len() > 0
                &&& exists|at: int|
                    #[trigger] is_first_mla(rank_arenas@[0]@, at) && bytes
                        == rank_arenas@[0]@[at].bytes_per_block / 64
                &&& forall|i: int|
                    0 <= i < rank_arenas.len() ==> rank_agrees(
                        (#[trigger] rank_arenas@[i])@,
                        bytes as int,
                    )
            },
            Err(Glm52OffloadError::NoMlaArena) => rank_arenas.len() == 0 || forall|a: int|
                0 <= a < rank_arenas@[0].len() ==> !ends_with(
                    (#[trigger] rank_arenas@[0]@[a]).name@,
                    ".mla"@,
                ),
            Err(Glm52OffloadError::LayoutsDisagree) => exists|at: int, i: int|
                {
                    &&& #[trigger] is_first_mla(rank_arenas@[0]@, at)
                    &&& 0 <= i < rank_arenas.len()
                    &&& !rank_agrees(
                        (#[trigger] rank_arenas@[i])@,
                        (rank_arenas@[0]@[at].bytes_per_block / 64) as int,
                    )
                },
            Err(_) => false,
        },
        r matches Ok(bytes) ==> forall|i: int, a: int|
            #![trigger rank_arenas@[i]@[a]]
            0 <= i < rank_arenas.len() && 0 <= a < rank_arenas@[i]@.len() && ends_with(
                rank_arenas@[i]@[a].name@,
                ".mla"@,
            ) ==> rank_arenas@[i]@[a].bytes_per_block == 64 * bytes,
{
    if rank_arenas.len() == 0 {
        return Err(Glm52OffloadError::NoMlaArena);
    }
    let first = &rank_arenas[0];
    let mut at: usize = 0;
    while at < first.len() && !is_mla_arena_name(first[at].name.as_str())
        invariant
            first@ == rank_arenas@[0]@,
            at <= first.len(),
            forall|a: int| 0 <= a < at ==> !ends_with((#[trigger] first@[a]).name@, ".mla"@),
        decreases first.len() - at,
    {
        at = at + 1;
    }
    if at == first.len() {
        return Err(Glm52OffloadError::NoMlaArena);
    }
    let bytes: usize = first[at].bytes_per_block / GLM52_PAGE_SIZE;
    assert(is_first_mla(rank_arenas@[0]@, at as int));
    let mut i: usize = 0;
    while i < rank_arenas.len()
        invariant
            i <= rank_arenas.len(),
            64 * bytes <= usize::MAX,
            is_first_mla(rank_arenas@[0]@, at as int),
            bytes == rank_arenas@[0]@[at as int].bytes_per_block / 64,
            forall|k: int|
                0 <= k < i ==> rank_agrees((#[trigger] rank_arenas@[k])@, bytes as int),
        decreases rank_arenas.len() - i,
    {
        if !check_rank(&rank_arenas[i], bytes) {
            assert(!rank_agrees(rank_arenas@[i as int]@, bytes as int));
            return Err(Glm52OffloadError::LayoutsDisagree);
        }
        i = i + 1;
    }
    assert forall|i: int, a: int|
        #![trigger rank_arenas@[i]@[a]]
        0 <= i < rank_arenas.len() && 0 <= a < rank_arenas@[i]@.len() && ends_with(
            rank_arenas@[i]@[a].name@,
            ".mla"@,
        ) implies rank_arenas@[i]@[a].bytes_per_block == 64 * bytes by {
        assert(rank_agrees(rank_arenas@[i]@, bytes as int));
        assert(arena_agrees(rank_arenas@[i]@[a], bytes as int));
    }
    Ok(bytes)
}

/// The namespace under which pages are shared: the facts that make them
/// interchangeable, or the prefill side's own namespace.
pub open spec fn namespace_of(bytes_per_token: nat, compat: Option<Seq<char>>) -> Seq<char> {
    match compat {
        Some(namespace) => namespace,
        None => "openinfer-glm52-l78-p64-mla"@ + crate::text::decimal(bytes_per_token)
            + "-idxk132"@,
    }
}

/// The namespace under which pages are shared.
pub fn offload_namespace(bytes_per_token: usize, compat: Option<&str>) -> (r: String)
    ensures
        r@ == namespace_of(
            bytes_per_token as nat,
            match compat {
                Some(namespace) => Some(namespace@),
                None => None,
            },
        ),
        match compat {
            Some(namespace) => r@ == namespace@,
            None => r@ == "openinfer-glm52-l78-p64-mla"@ + crate::text::decimal(
                bytes_per_token as nat,
            ) + "-idxk132"@,
        },
{
    match compat {
        Some(namespace) => namespace.to_owned(),
        None => {
            let mut r = String::from_str("openinfer-glm52-l78-p64-mla");
            r.append(decimal_text(bytes_per_token as u64).as_str());
            r.append("-idxk132");
            r
        },
    }
}

/// One rank's registration with the offload host.
#[derive(Clone, Debug)]
pub struct Glm52OffloadInstance {
    pub name: String,
    pub device_ordinal: usize,
    pub arenas: Vec<Glm52KvArena>,
}

/// The registrations of a fleet.
#[derive(Clone, Debug)]
pub struct Glm52OffloadPlan {
    pub namespace: String,
    /// Whether pages are stored page-first under vLLM's layer names.
    pub page_first: bool,
    pub instances: Vec<Glm52OffloadInstance>,
}

/// Whether an arena can be registered: always under its own name, and under
/// vLLM's only where there is one.
pub open spec fn registrable(arena: Glm52KvArena, compat: bool) -> bool {
    !compat || exists|at: int, layer: nat, kind: Glm52ArenaKind|
        names_arena(arena.name@, at, layer, kind)
}

/// Whether every arena of a rank has a vLLM name.
pub open spec fn rank_registrable(arenas: Seq<Glm52KvArena>) -> bool {
    forall|a: int| 0 <= a < arenas.len() ==> #[trigger] registrable(arenas[a], true)
}

/// Whether an arena is registered as another: with the same pages, and under
/// the same name or vLLM's.
pub open spec fn registered_as(
    arena: Glm52KvArena,
    registered: Glm52KvArena,
    compat: bool,
) -> bool {
    &&& registered.num_blocks == arena.num_blocks
    &&& registered.bytes_per_block == arena.bytes_per_block
    &&& if compat {
        exists|at: int, layer: nat, kind: Glm52ArenaKind|
            #[trigger] names_arena(arena.name@, at, layer, kind) && registered.name@ == vllm_name(
                layer,
                kind,
            )
    } else {
        registered.name@ == arena.name@
    }
}

/// The registered arenas of one rank, or the first that has no vLLM name.
fn register_arenas(arenas: &Vec<Glm52KvArena>, compat: bool) -> (r: Result<
    Vec<Glm52KvArena>,
    usize,
>)
    ensures
        match r {
            Ok(registered) => {
                &&& registered.len() == arenas.len()
                &&& forall|a: int|
                    0 <= a < arenas.len() ==> registered_as(
                        arenas@[a],
                        #[trigger] registered@[a],
                        compat,
                    )
                &&& compat ==> rank_registrable(arenas@)
            },
            Err(arena) => {
                &&& arena < arenas.len()
                &&& !registrable(arenas@[arena as int], compat)
                &&& forall|a: int| 0 <= a < arena ==> #[trigger] registrable(arenas@[a], compat)
            },
        },
{
    let mut registered: Vec<Glm52KvArena> = Vec::new();
    let mut a: usize = 0;
    while a < arenas.len()
        invariant
            a <= arenas.len(),
            registered.len() == a,
            forall|k: int|
                0 <= k < a ==> registered_as(arenas@[k], #[trigger] registered@[k], compat),
            forall|k: int| 0 <= k < a ==> #[trigger] registrable(arenas@[k], compat),
        decreases arenas.len() - a,
    {
        let arena = &arenas[a];
        let name: String = if compat {
            match vllm_arena_name(arena.name.as_str()) {
                Some(name) => name,
                None => {
                    return Err(a);
                },
            }
        } else {
            arena.name.clone()
        };
        registered.push(
            Glm52KvArena {
                name,
                num_blocks: arena.num_blocks,
                bytes_per_block: arena.bytes_per_block,
            },
        );
        a = a + 1;
    }
    Ok(registered)
}

/// Lays out the registrations of a fleet: each rank's arenas under one
/// namespace, renamed where the prefill peer is vLLM.
pub fn plan_offload(
    rank_arenas: &Vec<Vec<Glm52KvArena>>,
    device_ordinals: &Vec<usize>,
    compat: Option<&str>,
) -> (r: Result<Glm52OffloadPlan, Glm52OffloadError>)
    ensures
        match r {
            Ok(plan) => {
                &&& rank_arenas.len() > 0
                &&& exists|at: int|
                    {
                        &&& #[trigger] is_first_mla(rank_arenas@[0]@, at)
                        &&& forall|i: int|
                            0 <= i < rank_arenas.len() ==> rank_agrees(
                                (#[trigger] rank_arenas@[i])@,
                                (rank_arenas@[0]@[at].bytes_per_block / 64) as int,
                            )
                        &&& plan.namespace@ == namespace_of(
                            (rank_arenas@[0]@[at].bytes_per_block / 64) as nat,
                            match compat {
                                Some(namespace) => Some(namespace@),
                                None => None,
                            },
                        )
                    }
                &&& plan.page_first == compat is Some
                &&& plan.instances.len() == crate::arith::least(
                    rank_arenas.len() as int,
                    device_ordinals.len() as int,
                )
                &&& forall|i: int|
                    0 <= i < plan.instances.len() ==> {
                        let instance = #[trigger] plan.instances@[i];
                        &&& instance.name@ == "glm52-rank"@ + crate::text::decimal(i as nat)
                        &&& instance.device_ordinal == device_ordinals@[i]
                        &&& instance.arenas.len() == rank_arenas@[i].len()
                        &&& forall|a: int|
                            0 <= a < instance.arenas.len() ==> registered_as(
                                rank_arenas@[i]@[a],
                                #[trigger] instance.arenas@[a],
                                compat is Some,
                            )
                    }
            },
            Err(Glm52OffloadError::NoVllmName { rank, arena }) => {
                &&& compat is Some
                &&& rank < rank_arenas.len() && rank < device_ordinals.len()
                &&& arena < rank_arenas@[rank as int].len()
                &&& !registrable(rank_arenas@[rank as int]@[arena as int], true)
                &&& forall|a: int|
                    0 <= a < arena ==> #[trigger] registrable(rank_arenas@[rank as int]@[a], true)
                &&& forall|i: int| 0 <= i < rank ==> rank_registrable((#[trigger] rank_arenas@[i])@)
                &&& exists|at: int|
                    {
                        &&& #[trigger] is_first_mla(rank_arenas@[0]@, at)
                        &&& forall|i: int|
                            0 <= i < rank_arenas.len() ==> rank_agrees(
                                (#[trigger] rank_arenas@[i])@,
                                (rank_arenas@[0]@[at].bytes_per_block / 64) as int,
                            )
                    }
            },
            Err(Glm52OffloadError::NoMlaArena) => rank_arenas.len() == 0 || forall|a: int|
                0 <= a < rank_arenas@[0].len() ==> !ends_with(
                    (#[trigger] rank_arenas@[0]@[a]).name@,
                    ".mla"@,
                ),
            Err(Glm52OffloadError::LayoutsDisagree) => exists|at: int, i: int|
                {
                    &&& #[trigger] is_first_mla(rank_arenas@[0]@, at)
                    &&& 0 <= i < rank_arenas.len()
                    &&& !rank_agrees(
                        (#[trigger] rank_arenas@[i])@,
                        (rank_arenas@[0]@[at].bytes_per_block / 64) as int,
                    )
                },
        },
{
    let bytes: usize = match mla_bytes_per_token(rank_arenas) {
        Ok(bytes) => bytes,
        Err(e) => {
            return Err(e);
        },
    };
    let page_first: bool = compat.is_some();
    let namespace: String = offload_namespace(bytes, compat);
    let mut instances: Vec<Glm52OffloadInstance> = Vec::new();
    let mut rank: usize = 0;
    while rank < rank_arenas.len() && rank < device_ordinals.len()
        invariant
            rank <= rank_arenas.len(),
            rank <= device_ordinals.len(),
            page_first == compat is Some,
            rank_arenas.len() > 0,
            exists|at: int|
                #[trigger] is_first_mla(rank_arenas@[0]@, at) && bytes
                    == rank_arenas@[0]@[at].bytes_per_block / 64,
            forall|i: int|
                0 <= i < rank_arenas.len() ==> rank_agrees(
                    (#[trigger] rank_arenas@[i])@,
                    bytes as int,
                ),
            instances.len() == rank,
            forall|i: int|
                0 <= i < rank ==> {
                    let instance = #[trigger] instances@[i];
                    &&& instance.name@ == "glm52-rank"@ + crate::text::decimal(i as nat)
                    &&& instance.device_ordinal == device_ordinals@[i]
                    &&& instance.arenas.len() == rank_arenas@[i].len()
                    &&& forall|a: int|
                        0 <= a < instance.arenas.len() ==> registered_as(
                            rank_arenas@[i]@[a],
                            #[trigger] instance.arenas@[a],
                            page_first,
                        )
                },
            page_first ==> forall|i: int|
                0 <= i < rank ==> rank_registrable((#[trigger] rank_arenas@[i])@),
        decreases rank_arenas.len() - rank,
    {
        let arenas: Vec<Glm52KvArena> = match register_arenas(&rank_arenas[rank], page_first) {
            Ok(arenas) => arenas,
            Err(arena) => {
                return Err(Glm52OffloadError::NoVllmName { rank, arena });
            },
        };
        let mut name = String::from_str("glm52-rank");
        name.append(decimal_text(rank as u64).as_str());
        instances.push(
            Glm52OffloadInstance { name, device_ordinal: device_ordinals[rank], arenas },
        );
        rank = rank + 1;
    }
    Ok(Glm52OffloadPlan { namespace, page_first, instances })
}

/// The native name of an arena names that arena, and no other.
pub proof fn native_names_are_read_back(layer: nat, kind: Glm52ArenaKind)
    requires
        layer <= usize::MAX,
    ensures
        names_arena(
            native_name(layer, kind),
            crate::text::decimal(layer).len() as int,
            layer,
            kind,
        ),
{
    reveal_strlit("glm52.L");
    reveal_strlit(".");
    reveal_strlit("mla");
    reveal_strlit("idxk");
    let name = native_name(layer, kind);
    let digits = crate::text::decimal(layer);
    crate::text::decimal_holds_digits(layer);
    crate::text::decimal_round_trip(layer, usize::MAX as nat);
    let rest = crate::text::rest_from(name, 7);
    assert(name.subrange(0, 7) =~= "glm52.L"@);
    assert(rest =~= digits + "."@ + kind.native_suffix());
    assert(rest.subrange(0, digits.len() as int) =~= digits);
    assert(crate::text::rest_from(rest, digits.len() as int + 1) =~= kind.native_suffix());
    assert forall|j: int| 0 <= j < digits.len() implies #[trigger] rest[j] != '.' by {
        assert(crate::text::is_digit(digits[j]));
        assert(rest[j] == digits[j]);
    }
    assert(rest[digits.len() as int] == '.');
}

pub(crate) proof fn lemma_digits_split(a: Seq<char>, x: Seq<char>, b: Seq<char>, y: Seq<char>)
    requires
        crate::text::all_digits(a),
        crate::text::all_digits(b),
        x.len() > 0,
        y.len() > 0,
        x[0] == '.',
        y[0] == '.',
        a + x == b + y,
    ensures
        a == b,
        x == y,
{
    let left = a + x;
    let right = b + y;
    if a.len() < b.len() {
        assert(left[a.len() as int] == '.');
        assert(right[a.len() as int] == b[a.len() as int]);
        assert(crate::text::is_digit(b[a.len() as int]));
    } else if b.len() < a.len() {
        assert(right[b.len() as int] == '.');
        assert(left[b.len() as int] == a[b.len() as int]);
        assert(crate::text::is_digit(a[b.len() as int]));
    } else {
        assert forall|i: int| 0 <= i < a.len() implies #[trigger] a[i] == b[i] by {
            assert(left[i] == right[i]);
        }
        assert(a =~= b);
        assert(left.len() == a.len() + x.len() && right.len() == b.len() + y.len());
        assert(x.len() == y.len());
        assert forall|i: int| 0 <= i < x.len() implies #[trigger] x[i] == y[i] by {
            assert(left[a.len() + i] == x[i]);
            assert(right[b.len() + i] == y[i]);
        }
        assert(x =~= y);
    }
}

/// Arenas keep apart when they are renamed: two arenas share a vLLM name only
/// if they are the same arena.
pub proof fn renamed_arenas_stay_distinct(
    layer: nat,
    kind: Glm52ArenaKind,
    other_layer: nat,
    other_kind: Glm52ArenaKind,
)
    requires
        vllm_name(layer, kind) == vllm_name(other_layer, other_kind),
    ensures
        layer == other_layer,
        kind == other_kind,
{
    reveal_strlit("model.layers.");
    reveal_strlit(".self_attn.attn");
    reveal_strlit(".self_attn.indexer.k_cache");
    let a = crate::text::decimal(layer);
    let b = crate::text::decimal(other_layer);
    crate::text::decimal_holds_digits(layer);
    crate::text::decimal_holds_digits(other_layer);
    let left = vllm_name(layer, kind);
    let right = vllm_name(other_layer, other_kind);
    let prefix = "model.layers."@.len() as int;
    assert(crate::text::rest_from(left, prefix) =~= a + kind.vllm_suffix());
    assert(crate::text::rest_from(right, prefix) =~= b + other_kind.vllm_suffix());
    lemma_digits_split(a, kind.vllm_suffix(), b, other_kind.vllm_suffix());
    crate::text::decimal_injective(layer, other_layer);
    assert(kind.vllm_suffix().len() == other_kind.vllm_suffix().len());
    assert(".self_attn.attn"@.len() == 15);
    assert(".self_attn.indexer.k_cache"@.len() == 26);
}

} // verus!
