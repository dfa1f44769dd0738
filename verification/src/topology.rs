//! The parallel topologies the engine can be launched with.
use vstd::prelude::*;
use vstd::string::*;

use crate::config::{GLM52_EP_RANKS, GLM52_ROUTED_EXPERTS};
use crate::text::same_text;

verus! {

/// Launch-time MoE sharding topology. The expert slab is repacked while the
/// weights are loaded, so this is a boot choice.
#[derive(Clone, Copy, Debug, PartialEq, Eq, Structural)]
pub enum Glm52MoeTopo {
    /// Eight devices, 32 whole experts on each.
    Ep8,
    /// Four devices, 64 whole experts on each.
    Ep4,
    /// Expert-parallel widths that span several trays.
    Ep16,
    Ep32,
    Ep64,
    /// Eight devices that mirror one logical rank, each with a slice of all
    /// experts.
    Tp8,
    /// Four devices that mirror one logical rank.
    Tp4,
}

impl Default for Glm52MoeTopo {
    fn default() -> (r: Self)
        ensures
            r == Glm52MoeTopo::Ep8,
    {
        Glm52MoeTopo::Ep8
    }
}

impl Glm52MoeTopo {
    /// Devices that the topology spans.
    pub open spec fn devices(self) -> int {
        match self {
            Glm52MoeTopo::Ep8 | Glm52MoeTopo::Tp8 => 8,
            Glm52MoeTopo::Ep4 | Glm52MoeTopo::Tp4 => 4,
            Glm52MoeTopo::Ep16 => 16,
            Glm52MoeTopo::Ep32 => 32,
            Glm52MoeTopo::Ep64 => 64,
        }
    }

    /// Whether all devices mirror one logical rank.
    pub open spec fn is_replicated(self) -> bool {
        self == Glm52MoeTopo::Tp8 || self == Glm52MoeTopo::Tp4
    }

    /// The data-parallel width the topology is launched with.
    pub open spec fn dp(self) -> int {
        if self == Glm52MoeTopo::Tp4 {
            1
        } else {
            self.devices()
        }
    }

    /// The tensor-parallel width the topology is launched with.
    pub open spec fn tp(self) -> int {
        if self == Glm52MoeTopo::Tp4 {
            4
        } else {
            1
        }
    }

    /// The expert-parallel width the topology is launched with.
    pub open spec fn ep(self) -> int {
        if self == Glm52MoeTopo::Tp4 {
            1
        } else {
            self.devices()
        }
    }

    /// Independently scheduled request partitions.
    pub open spec fn logical_ranks(self) -> int {
        if self.is_replicated() {
            1
        } else {
            self.devices()
        }
    }

    /// The data-parallel width to launch with where none is given.
    #[must_use]
    pub fn default_dp_size(self) -> (r: usize)
        ensures
            r == self.dp(),
            r == (match self {
                Glm52MoeTopo::Ep4 => 4int,
                Glm52MoeTopo::Ep8 | Glm52MoeTopo::Tp8 => 8,
                Glm52MoeTopo::Ep16 => 16,
                Glm52MoeTopo::Ep32 => 32,
                Glm52MoeTopo::Ep64 => 64,
                Glm52MoeTopo::Tp4 => 1,
            }),
    {
        match self {
            Glm52MoeTopo::Tp4 => 1,
            _ => self.device_count(),
        }
    }

    /// Devices that the topology spans.
    #[must_use]
    pub fn device_count(self) -> (r: usize)
        ensures
            r == self.devices(),
            r == (match self {
                Glm52MoeTopo::Ep4 | Glm52MoeTopo::Tp4 => 4int,
                Glm52MoeTopo::Ep8 | Glm52MoeTopo::Tp8 => 8,
                Glm52MoeTopo::Ep16 => 16,
                Glm52MoeTopo::Ep32 => 32,
                Glm52MoeTopo::Ep64 => 64,
            }),
    {
        match self {
            Glm52MoeTopo::Ep8 | Glm52MoeTopo::Tp8 => GLM52_EP_RANKS,
            Glm52MoeTopo::Ep4 | Glm52MoeTopo::Tp4 => 4,
            Glm52MoeTopo::Ep16 => 16,
            Glm52MoeTopo::Ep32 => 32,
            Glm52MoeTopo::Ep64 => 64,
        }
    }

    /// Independently scheduled request partitions. Tensor-replicated workers
    /// execute one mirrored partition in lock-step.
    #[must_use]
    pub fn logical_rank_count(self) -> (r: usize)
        ensures
            r == self.logical_ranks(),
            r == (match self {
                Glm52MoeTopo::Ep4 => 4int,
                Glm52MoeTopo::Ep8 => 8,
                Glm52MoeTopo::Ep16 => 16,
                Glm52MoeTopo::Ep32 => 32,
                Glm52MoeTopo::Ep64 => 64,
                Glm52MoeTopo::Tp8 | Glm52MoeTopo::Tp4 => 1,
            }),
    {
        if self.uses_tensor_replicated_moe() {
            1
        } else {
            self.device_count()
        }
    }

    /// The tensor-parallel width that the topology requires.
    #[must_use]
    pub fn expected_tp_size(self) -> (r: usize)
        ensures
            r == self.tp(),
            self is Tp4 ==> r == 4,
            !(self is Tp4) ==> r == 1,
    {
        match self {
            Glm52MoeTopo::Tp4 => 4,
            _ => 1,
        }
    }

    /// The expert-parallel width that the topology requires.
    #[must_use]
    pub fn expected_ep_size(self) -> (r: usize)
        ensures
            r == self.ep(),
            r == (match self {
                Glm52MoeTopo::Ep4 => 4int,
                Glm52MoeTopo::Ep8 | Glm52MoeTopo::Tp8 => 8,
                Glm52MoeTopo::Ep16 => 16,
                Glm52MoeTopo::Ep32 => 32,
                Glm52MoeTopo::Ep64 => 64,
                Glm52MoeTopo::Tp4 => 1,
            }),
    {
        match self {
            Glm52MoeTopo::Tp8 => GLM52_EP_RANKS,
            Glm52MoeTopo::Tp4 => 1,
            _ => self.device_count(),
        }
    }

    /// Whether every rank holds whole experts.
    #[must_use]
    pub fn uses_ep_expert_bundles(self) -> (r: bool)
        ensures
            r == !self.is_replicated(),
            r <==> !(self is Tp8) && !(self is Tp4),
    {
        !self.uses_tensor_replicated_moe()
    }

    /// Whole routed experts per rank of an expert-bundle topology.
    #[must_use]
    pub fn ep_local_experts(self) -> (r: usize)
        requires
            !self.is_replicated(),
        ensures
            r == 256int / self.ep(),
            r == (match self {
                Glm52MoeTopo::Ep4 => 64int,
                Glm52MoeTopo::Ep8 => 32,
                Glm52MoeTopo::Ep16 => 16,
                Glm52MoeTopo::Ep32 => 8,
                _ => 4,
            }),
    {
        GLM52_ROUTED_EXPERTS / self.expected_ep_size()
    }

    /// Whether all devices mirror one logical rank.
    #[must_use]
    pub fn uses_tensor_replicated_moe(self) -> (r: bool)
        ensures
            r == self.is_replicated(),
            r <==> self is Tp8 || self is Tp4,
    {
        matches!(self, Glm52MoeTopo::Tp8 | Glm52MoeTopo::Tp4)
    }

    /// The name by which the topology is asked for.
    pub open spec fn name(self) -> Seq<char> {
        match self {
            Glm52MoeTopo::Ep4 => "ep4"@,
            Glm52MoeTopo::Ep8 => "ep8"@,
            Glm52MoeTopo::Ep16 => "ep16"@,
            Glm52MoeTopo::Ep32 => "ep32"@,
            Glm52MoeTopo::Ep64 => "ep64"@,
            Glm52MoeTopo::Tp8 => "tp8"@,
            Glm52MoeTopo::Tp4 => "tp4"@,
        }
    }

    /// The topology of that name, or nothing where there is none.
    pub fn parse(s: &str) -> (r: Option<Glm52MoeTopo>)
        ensures
            match r {
                Some(topo) => s@ == topo.name(),
                None => forall|topo: Glm52MoeTopo| s@ != #[trigger] topo.name(),
            },
            match r {
                Some(Glm52MoeTopo::Ep4) => s@ == "ep4"@,
                Some(Glm52MoeTopo::Ep8) => s@ == "ep8"@,
                Some(Glm52MoeTopo::Ep16) => s@ == "ep16"@,
                Some(Glm52MoeTopo::Ep32) => s@ == "ep32"@,
                Some(Glm52MoeTopo::Ep64) => s@ == "ep64"@,
                Some(Glm52MoeTopo::Tp8) => s@ == "tp8"@,
                Some(Glm52MoeTopo::Tp4) => s@ == "tp4"@,
                None => s@ != "ep4"@ && s@ != "ep8"@ && s@ != "ep16"@ && s@ != "ep32"@ && s@
                    != "ep64"@ && s@ != "tp8"@ && s@ != "tp4"@,
            },
    {
        if same_text(s, "ep4") {
            Some(Glm52MoeTopo::Ep4)
        } else if same_text(s, "ep8") {
            Some(Glm52MoeTopo::Ep8)
        } else if same_text(s, "ep16") {
            Some(Glm52MoeTopo::Ep16)
        } else if same_text(s, "ep32") {
            Some(Glm52MoeTopo::Ep32)
        } else if same_text(s, "ep64") {
            Some(Glm52MoeTopo::Ep64)
        } else if same_text(s, "tp8") {
            Some(Glm52MoeTopo::Tp8)
        } else if same_text(s, "tp4") {
            Some(Glm52MoeTopo::Tp4)
        } else {
            None
        }
    }

    /// How the topology is written in messages.
    pub open spec fn label(self) -> Seq<char> {
        match self {
            Glm52MoeTopo::Ep4 => "Ep4"@,
            Glm52MoeTopo::Ep8 => "Ep8"@,
            Glm52MoeTopo::Ep16 => "Ep16"@,
            Glm52MoeTopo::Ep32 => "Ep32"@,
            Glm52MoeTopo::Ep64 => "Ep64"@,
            Glm52MoeTopo::Tp8 => "Tp8"@,
            Glm52MoeTopo::Tp4 => "Tp4"@,
        }
    }

    /// How the topology is written in messages.
    pub fn label_text(self) -> (r: &'static str)
        ensures
            r@ == self.label(),
            match self {
                Glm52MoeTopo::Ep4 => r@ == "Ep4"@,
                Glm52MoeTopo::Ep8 => r@ == "Ep8"@,
                Glm52MoeTopo::Ep16 => r@ == "Ep16"@,
                Glm52MoeTopo::Ep32 => r@ == "Ep32"@,
                Glm52MoeTopo::Ep64 => r@ == "Ep64"@,
                Glm52MoeTopo::Tp8 => r@ == "Tp8"@,
                Glm52MoeTopo::Tp4 => r@ == "Tp4"@,
            },
    {
        match self {
            Glm52MoeTopo::Ep4 => "Ep4",
            Glm52MoeTopo::Ep8 => "Ep8",
            Glm52MoeTopo::Ep16 => "Ep16",
            Glm52MoeTopo::Ep32 => "Ep32",
            Glm52MoeTopo::Ep64 => "Ep64",
            Glm52MoeTopo::Tp8 => "Tp8",
            Glm52MoeTopo::Tp4 => "Tp4",
        }
    }
}

/// A topology name that is none of the known ones.
#[derive(Clone, Debug)]
pub struct Glm52UnknownTopo {
    pub name: String,
}

impl Glm52UnknownTopo {
    /// The message for a name that no topology has.
    pub fn message(&self) -> (m: String)
        ensures
            m@
                == "GLM5.2 MoE topology must be ep4, ep8, ep16, ep32, ep64, tp8, or tp4, got "@
                + self.name@,
    {
        let mut m = String::from_str(
            "GLM5.2 MoE topology must be ep4, ep8, ep16, ep32, ep64, tp8, or tp4, got ",
        );
        m.append(self.name.as_str());
        m
    }
}

impl std::str::FromStr for Glm52MoeTopo {
    type Err = Glm52UnknownTopo;

    /// The topology of that name; a refusal keeps the name.
    fn from_str(s: &str) -> (r: Result<Self, Glm52UnknownTopo>)
        ensures
            match r {
                Ok(topo) => s@ == topo.name(),
                Err(e) => e.name@ == s@ && forall|topo: Glm52MoeTopo| s@ != #[trigger] topo.name(),
            },
    {
        match Glm52MoeTopo::parse(s) {
            Some(topo) => Ok(topo),
            None => Err(Glm52UnknownTopo { name: s.to_owned() }),
        }
    }
}

/// The ranks of an expert-bundle topology hold every routed expert once.
pub proof fn experts_are_partitioned(topo: Glm52MoeTopo)
    requires
        !topo.is_replicated(),
    ensures
        topo.devices() * (256int / topo.ep()) == 256,
        topo.logical_ranks() == topo.devices(),
{
    match topo {
        Glm52MoeTopo::Ep8 => {
            assert(256int / 8 == 32);
        },
        Glm52MoeTopo::Ep4 => {
            assert(256int / 4 == 64);
        },
        Glm52MoeTopo::Ep16 => {
            assert(256int / 16 == 16);
        },
        Glm52MoeTopo::Ep32 => {
            assert(256int / 32 == 8);
        },
        _ => {
            assert(256int / 64 == 4);
        },
    }
}

/// A topology's name says how many devices it spans, and by its first letter
/// whether they mirror one logical rank.
pub proof fn a_name_says_the_width(topo: Glm52MoeTopo)
    ensures
        topo.name() == (if topo.is_replicated() {
            "tp"@
        } else {
            "ep"@
        }) + crate::text::decimal(topo.devices() as nat),
        topo.logical_ranks() == (if topo.name()[0] == 't' {
            1
        } else {
            topo.devices()
        }),
        !topo.is_replicated() ==> topo.tp() == 1 && topo.dp() == topo.devices() && topo.ep()
            == topo.devices(),
        topo == Glm52MoeTopo::Tp8 ==> topo.tp() == 1 && topo.dp() == 8 && topo.ep() == 8,
        topo == Glm52MoeTopo::Tp4 ==> topo.tp() == 4 && topo.dp() == 1 && topo.ep() == 1,
{
    reveal_strlit("ep");
    reveal_strlit("tp");
    reveal_strlit("ep4");
    reveal_strlit("ep8");
    reveal_strlit("ep16");
    reveal_strlit("ep32");
    reveal_strlit("ep64");
    reveal_strlit("tp8");
    reveal_strlit("tp4");
    reveal_with_fuel(crate::text::decimal, 3);
    let n = topo.devices() as nat;
    assert(topo.name() =~= (if topo.is_replicated() {
        "tp"@
    } else {
        "ep"@
    }) + crate::text::decimal(n));
}

/// Different topologies have different names, so a name picks one topology.
pub proof fn names_are_distinct(a: Glm52MoeTopo, b: Glm52MoeTopo)
    requires
        a.name() == b.name(),
    ensures
        a == b,
{
    reveal_strlit("ep4");
    reveal_strlit("ep8");
    reveal_strlit("ep16");
    reveal_strlit("ep32");
    reveal_strlit("ep64");
    reveal_strlit("tp8");
    reveal_strlit("tp4");
    assert("ep4"@.len() == 3 && "ep4"@[0] == 'e' && "ep4"@[2] == '4');
    assert("ep8"@.len() == 3 && "ep8"@[0] == 'e' && "ep8"@[2] == '8');
    assert("ep16"@.len() == 4 && "ep16"@[0] == 'e' && "ep16"@[2] == '1');
    assert("ep32"@.len() == 4 && "ep32"@[0] == 'e' && "ep32"@[2] == '3');
    assert("ep64"@.len() == 4 && "ep64"@[0] == 'e' && "ep64"@[2] == '6');
    assert("tp8"@.len() == 3 && "tp8"@[0] == 't' && "tp8"@[2] == '8');
    assert("tp4"@.len() == 3 && "tp4"@[0] == 't' && "tp4"@[2] == '4');
}

} // verus!
