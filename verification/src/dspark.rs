//! The DSpark draft lane: a drafter that proposes seven tokens per round from
//! the hidden states captured after five target layers.
use vstd::prelude::*;
use vstd::string::*;

use crate::config::{GLM52_HIDDEN, GLM52_VOCAB};
use crate::json::{json_array, json_bool, json_member, json_text, json_u64, parse_json};
use crate::text::{decimal_text, same_text};

verus! {

/// Draft block width: the anchor and seven mask positions.
pub const GLM52_DSPARK_BLOCK: usize = 8;

/// Drafts proposed per round; block position 0 is the anchor.
pub const GLM52_DSPARK_DRAFTS: usize = 7;

/// Width of the concatenated hidden states of the five captured layers.
pub const GLM52_DSPARK_CONTEXT_DIM: usize = 30_720;

/// Layers of the drafter.
pub const DSPARK_LAYERS: usize = 5;

/// Heads of the drafter, for queries as for keys and values.
pub const DSPARK_HEADS: usize = 64;

/// Width of one drafter head.
pub const DSPARK_HEAD_DIM: usize = 64;

/// Width of the drafter's query, key and value projections.
pub const DSPARK_QKV_DIM: usize = 4096;

/// Intermediate width of the drafter's feed-forward blocks.
pub const DSPARK_INTER: usize = 12_288;

/// Rank of the Markov head.
pub const DSPARK_MARKOV_RANK: usize = 256;

/// The token of the mask positions.
pub const DSPARK_MASK_TOKEN: u32 = 154_856;

/// The target layer after which a feature of the draft context is captured.
pub open spec fn aux_layer(feature: int) -> int {
    if feature == 0 {
        7
    } else if feature == 1 {
        22
    } else if feature == 2 {
        38
    } else if feature == 3 {
        54
    } else {
        69
    }
}

/// Which feature of the draft context is captured after a target layer.
pub fn aux_feature(layer: usize) -> (r: Option<usize>)
    ensures
        match r {
            Some(feature) => feature < 5 && aux_layer(feature as int) == layer,
            None => forall|feature: int| 0 <= feature < 5 ==> #[trigger] aux_layer(feature) != layer,
        },
        r == (if layer == 7 {
            Some(0usize)
        } else if layer == 22 {
            Some(1)
        } else if layer == 38 {
            Some(2)
        } else if layer == 54 {
            Some(3)
        } else if layer == 69 {
            Some(4)
        } else {
            None
        }),
{
    match layer {
        7 => Some(0),
        22 => Some(1),
        38 => Some(2),
        54 => Some(3),
        69 => Some(4),
        _ => None,
    }
}

/// Positions of the draft caches for a context cap: the last anchor sits at
/// the end of the context, and a block of transient rows follows it.
pub fn dspark_cache_len(max_model_len: usize) -> (r: usize)
    requires
        max_model_len + 8 <= usize::MAX,
    ensures
        r == max_model_len + 8,
{
    max_model_len + GLM52_DSPARK_BLOCK
}

/// How many leading drafts the target confirms.
pub open spec fn is_accepted_len(proposed: Seq<u32>, target_tokens: Seq<u32>, n: int) -> bool {
    &&& 0 <= n <= proposed.len()
    &&& forall|i: int| 0 <= i < n ==> #[trigger] proposed[i] == target_tokens[i]
    &&& n < proposed.len() ==> proposed[n] != target_tokens[n]
}

/// Prefix-match acceptance: the longest confirmed prefix of the drafts,
/// followed by exactly one token of the target (the correction at the first
/// divergence, or the continuation where every draft is confirmed).
#[must_use]
pub fn accept_prefix_match(proposed: &[u32], target_tokens: &[u32]) -> (committed: Vec<u32>)
    requires
        target_tokens@.len() == proposed@.len() + 1,
    ensures
        1 <= committed.len() <= proposed@.len() + 1,
        is_accepted_len(proposed@, target_tokens@, committed.len() - 1),
        committed@ == proposed@.subrange(0, committed.len() - 1).push(
            target_tokens@[committed.len() - 1],
        ),
        forall|i: int|
            0 <= i < committed.len() ==> #[trigger] committed@[i] == target_tokens@[i],
        forall|i: int|
            0 <= i < committed.len() - 1 ==> #[trigger] proposed@[i] == target_tokens@[i],
        committed.len() <= proposed@.len() ==> proposed@[committed.len() - 1]
            != target_tokens@[committed.len() - 1],
{
    let mut committed: Vec<u32> = Vec::new();
    let mut n: usize = 0;
    while n < proposed.len() && proposed[n] == target_tokens[n]
        invariant
            n <= proposed@.len(),
            target_tokens@.len() == proposed@.len() + 1,
            committed@ == proposed@.subrange(0, n as int),
            forall|i: int| 0 <= i < n ==> #[trigger] proposed@[i] == target_tokens@[i],
        decreases proposed@.len() - n,
    {
        committed.push(proposed[n]);
        n = n + 1;
        assert(committed@ =~= proposed@.subrange(0, n as int));
    }
    committed.push(target_tokens[n]);
    assert(committed@.subrange(0, n as int) =~= proposed@.subrange(0, n as int));
    committed
}

/// What is committed is what the target itself would have committed: a prefix
/// of the target's own tokens, whatever the drafts were.
pub proof fn committed_tokens_are_the_targets(
    proposed: Seq<u32>,
    target_tokens: Seq<u32>,
    committed: Seq<u32>,
)
    requires
        target_tokens.len() == proposed.len() + 1,
        committed.len() >= 1,
        is_accepted_len(proposed, target_tokens, committed.len() - 1),
        committed == proposed.subrange(0, committed.len() - 1).push(
            target_tokens[committed.len() - 1],
        ),
    ensures
        committed == target_tokens.subrange(0, committed.len() as int),
{
    assert(committed =~= target_tokens.subrange(0, committed.len() as int));
}

/// The number of confirmed drafts is determined.
pub proof fn accepted_len_is_unique(proposed: Seq<u32>, target_tokens: Seq<u32>, a: int, b: int)
    requires
        is_accepted_len(proposed, target_tokens, a),
        is_accepted_len(proposed, target_tokens, b),
    ensures
        a == b,
{
    if a < b {
        assert(proposed[a] == target_tokens[a]);
    } else if b < a {
        assert(proposed[b] == target_tokens[b]);
    }
}

/// Why a draft slot or a draft round is refused.
#[derive(Clone, Copy, Debug, PartialEq, Eq, Structural)]
pub enum Glm52DsparkError {
    PendingOverflow { committed: usize, pending: usize },
    ContextBeyondCapacity { context_len: usize },
    TailBeyondCapacity { tail_len: usize },
    NoRequest,
    AnchorCount { states: usize, anchors: usize },
    NoContext { index: usize },
    AnchorPosition { index: usize, position: usize, committed: usize, pending: usize },
}

impl Glm52DsparkError {
    /// The message for the operator.
    pub open spec fn text(self) -> Seq<char> {
        match self {
            Glm52DsparkError::PendingOverflow { committed, pending } =>
                "dspark pending context would exceed the draft cache: committed="@
                + crate::text::decimal(committed as nat) + ", pending="@ + crate::text::decimal(
                pending as nat,
            ),
            Glm52DsparkError::ContextBeyondCapacity { context_len } => "dspark context length "@
                + crate::text::decimal(context_len as nat) + " exceeds the preallocated cap"@,
            Glm52DsparkError::TailBeyondCapacity { tail_len } => "dspark tail length "@
                + crate::text::decimal(tail_len as nat) + " exceeds the preallocated cap"@,
            Glm52DsparkError::NoRequest => "dspark propose needs at least one request"@,
            Glm52DsparkError::AnchorCount { states, anchors } => "dspark propose: "@
                + crate::text::decimal(states as nat) + " states vs "@ + crate::text::decimal(
                anchors as nat,
            ) + " anchors"@,
            Glm52DsparkError::NoContext { index } =>
                "dspark propose before any captured context (slot index "@ + crate::text::decimal(
                index as nat,
            ) + ")"@,
            Glm52DsparkError::AnchorPosition { index, position, committed, pending } =>
                "dspark anchor position "@ + crate::text::decimal(position as nat)
                + " != committed "@ + crate::text::decimal(committed as nat) + " + pending "@
                + crate::text::decimal(pending as nat) + " (slot index "@ + crate::text::decimal(
                index as nat,
            ) + ")"@,
        }
    }

    /// The message for the operator.
    pub fn message(&self) -> (m: String)
        ensures
            m@ == self.text(),
    {
        match *self {
            Glm52DsparkError::PendingOverflow { committed, pending } => {
                let mut m = String::from_str(
                    "dspark pending context would exceed the draft cache: committed=",
                );
                m.append(decimal_text(committed as u64).as_str());
                m.append(", pending=");
                m.append(decimal_text(pending as u64).as_str());
                m
            },
            Glm52DsparkError::ContextBeyondCapacity { context_len } => {
                let mut m = String::from_str("dspark context length ");
                m.append(decimal_text(context_len as u64).as_str());
                m.append(" exceeds the preallocated cap");
                m
            },
            Glm52DsparkError::TailBeyondCapacity { tail_len } => {
                let mut m = String::from_str("dspark tail length ");
                m.append(decimal_text(tail_len as u64).as_str());
                m.append(" exceeds the preallocated cap");
                m
            },
            Glm52DsparkError::NoRequest => String::from_str(
                "dspark propose needs at least one request",
            ),
            Glm52DsparkError::AnchorCount { states, anchors } => {
                let mut m = String::from_str("dspark propose: ");
                m.append(decimal_text(states as u64).as_str());
                m.append(" states vs ");
                m.append(decimal_text(anchors as u64).as_str());
                m.append(" anchors");
                m
            },
            Glm52DsparkError::NoContext { index } => {
                let mut m = String::from_str(
                    "dspark propose before any captured context (slot index ",
                );
                m.append(decimal_text(index as u64).as_str());
                m.append(")");
                m
            },
            Glm52DsparkError::AnchorPosition { index, position, committed, pending } => {
                let mut m = String::from_str("dspark anchor position ");
                m.append(decimal_text(position as u64).as_str());
                m.append(" != committed ");
                m.append(decimal_text(committed as u64).as_str());
                m.append(" + pending ");
                m.append(decimal_text(pending as u64).as_str());
                m.append(" (slot index ");
                m.append(decimal_text(index as u64).as_str());
                m.append(")");
                m
            },
        }
    }
}

/// The draft state of one batch lane: how far its draft cache is committed,
/// how many captured rows await projection, and the rows that the projected
/// context points at.
#[derive(Clone, Copy, Debug, PartialEq, Eq, Structural)]
pub struct Glm52DsparkSlotState {
    pub pending_len: usize,
    pub committed_len: usize,
    pub context_len: usize,
    pub cache_len: usize,
}

impl Glm52DsparkSlotState {
    /// The cache always has room for what is committed, what is pending and
    /// one block.
    pub open spec fn wf(&self) -> bool {
        &&& self.committed_len + self.pending_len + 8 <= self.cache_len
        &&& self.context_len <= self.cache_len
    }

    /// A slot for a fresh request.
    pub fn new(cache_len: usize) -> (r: Self)
        requires
            cache_len >= 8,
        ensures
            r.wf(),
            r == (Glm52DsparkSlotState {
                pending_len: 0,
                committed_len: 0,
                context_len: 0,
                cache_len,
            }),
    {
        Glm52DsparkSlotState { pending_len: 0, committed_len: 0, context_len: 0, cache_len }
    }

    /// Clears the slot for a new request.
    pub fn reset(&mut self)
        requires
            old(self).wf(),
        ensures
            final(self).wf(),
            *final(self) == (Glm52DsparkSlotState {
                pending_len: 0,
                committed_len: 0,
                ..*old(self)
            }),
    {
        self.committed_len = 0;
        self.pending_len = 0;
    }

    /// Takes one more captured row into the pending context and returns the
    /// row that it is copied to.
    pub fn append_captured_row(&mut self) -> (r: Result<usize, Glm52DsparkError>)
        requires
            old(self).wf(),
        ensures
            final(self).wf(),
            match r {
                Ok(row) => {
                    &&& old(self).committed_len + old(self).pending_len + 1 + 8 <= old(
                        self,
                    ).cache_len
                    &&& row == old(self).pending_len
                    &&& *final(self) == (Glm52DsparkSlotState {
                        pending_len: (old(self).pending_len + 1) as usize,
                        ..*old(self)
                    })
                },
                Err(e) => {
                    &&& old(self).committed_len + old(self).pending_len + 1 + 8 > old(
                        self,
                    ).cache_len
                    &&& e == (Glm52DsparkError::PendingOverflow {
                        committed: old(self).committed_len,
                        pending: (old(self).pending_len + 1) as usize,
                    })
                    &&& *final(self) == *old(self)
                },
            },
    {
        let row: usize = self.pending_len;
        let required: usize = row + 1;
        if required > self.cache_len - GLM52_DSPARK_BLOCK - self.committed_len {
            return Err(
                Glm52DsparkError::PendingOverflow {
                    committed: self.committed_len,
                    pending: required,
                },
            );
        }
        self.pending_len = required;
        Ok(row)
    }

    /// Points the projected context at this round's rows.
    pub fn set_context_len(&mut self, context_len: usize) -> (r: Result<(), Glm52DsparkError>)
        requires
            old(self).wf(),
        ensures
            final(self).wf(),
            match r {
                Ok(()) => {
                    &&& context_len <= old(self).cache_len
                    &&& *final(self) == (Glm52DsparkSlotState { context_len, ..*old(self) })
                },
                Err(e) => {
                    &&& context_len > old(self).cache_len
                    &&& e == (Glm52DsparkError::ContextBeyondCapacity { context_len })
                    &&& *final(self) == *old(self)
                },
            },
    {
        if context_len > self.cache_len {
            return Err(Glm52DsparkError::ContextBeyondCapacity { context_len });
        }
        self.context_len = context_len;
        Ok(())
    }
}

/// What the kernels of a draft round are given for one request.
#[derive(Clone, Copy, Debug, PartialEq, Eq, Structural)]
pub struct Glm52DraftRequest {
    /// Pending rows that the round projects.
    pub context_len: usize,
    /// Context rows and block rows together.
    pub tail_len: usize,
    /// First row of the request's block in the batched buffers.
    pub row_offset: usize,
    /// Position of the first query row.
    pub query_start: usize,
    /// Position of the first key row, and the cache row it is written to.
    pub key_start: usize,
    /// Cache rows that attention reads.
    pub attend_len: usize,
}

/// A draft round over the lanes of a rank.
#[derive(Clone, Debug)]
pub struct Glm52DraftRound {
    pub block_rows: usize,
    pub block_token_ids: Vec<u32>,
    pub requests: Vec<Glm52DraftRequest>,
}

/// Whether a slot can take part in a round with this anchor.
pub open spec fn slot_ready(state: Glm52DsparkSlotState, anchor: (u32, usize)) -> bool {
    state.pending_len > 0 && anchor.1 == state.committed_len + state.pending_len
}

/// What a slot's request gets in a round.
pub open spec fn draft_request(state: Glm52DsparkSlotState, index: int) -> Glm52DraftRequest {
    Glm52DraftRequest {
        context_len: state.pending_len,
        tail_len: (state.pending_len + 8) as usize,
        row_offset: (index * 8) as usize,
        query_start: (state.committed_len + state.pending_len) as usize,
        key_start: state.committed_len,
        attend_len: (state.committed_len + state.pending_len + 8) as usize,
    }
}

/// A slot in an open round: its pending context is taken, and committed only
/// once the round's layers have run.
pub open spec fn opened(state: Glm52DsparkSlotState) -> Glm52DsparkSlotState {
    Glm52DsparkSlotState { pending_len: 0, context_len: state.pending_len, ..state }
}

/// Whether a slot is the one that a request of an open round was made for.
pub open spec fn slot_open(state: Glm52DsparkSlotState, q: Glm52DraftRequest) -> bool {
    &&& state.wf()
    &&& state.pending_len == 0
    &&& state.context_len == q.context_len
    &&& state.committed_len == q.key_start
    &&& q.key_start + q.context_len + 8 <= state.cache_len
}

/// Whether a round is open over a list of slots.
pub open spec fn round_open(
    states: Seq<Glm52DsparkSlotState>,
    requests: Seq<Glm52DraftRequest>,
) -> bool {
    &&& states.len() == requests.len()
    &&& forall|i: int| 0 <= i < states.len() ==> slot_open(#[trigger] states[i], requests[i])
}

/// A slot after a round: its pending context is committed.
pub open spec fn drained(state: Glm52DsparkSlotState) -> Glm52DsparkSlotState {
    Glm52DsparkSlotState {
        pending_len: 0,
        committed_len: (state.committed_len + state.pending_len) as usize,
        context_len: state.pending_len,
        cache_len: state.cache_len,
    }
}

/// Opens a draft round: every slot must have captured context, and its anchor
/// must sit right behind it. The blocks are the anchor and seven masks. The
/// pending context of every slot is taken into the round; `commit_round`
/// commits it.
pub fn propose(
    states: &mut Vec<Glm52DsparkSlotState>,
    anchors: &Vec<(u32, usize)>,
) -> (r: Result<Glm52DraftRound, Glm52DsparkError>)
    requires
        old(states).len() <= 8,
        forall|i: int| 0 <= i < old(states).len() ==> (#[trigger] old(states)[i]).wf(),
    ensures
        forall|i: int| 0 <= i < final(states).len() ==> (#[trigger] final(states)[i]).wf(),
        r is Err ==> final(states)@ == old(states)@,
        r is Ok <==> old(states).len() > 0 && anchors.len() == old(states).len() && forall|i: int|
            0 <= i < old(states).len() ==> (#[trigger] old(states)@[i]).pending_len > 0
                && anchors@[i].1 == old(states)@[i].committed_len + old(states)@[i].pending_len,
        r matches Ok(round) ==> forall|i: int|
            0 <= i < old(states).len() ==> {
                let q = #[trigger] round.requests@[i];
                &&& q.context_len == old(states)@[i].pending_len
                &&& q.tail_len == old(states)@[i].pending_len + 8
                &&& q.row_offset == 8 * i
                &&& q.query_start == anchors@[i].1
                &&& q.key_start == old(states)@[i].committed_len
                &&& q.attend_len == anchors@[i].1 + 8
            },
        r is Ok ==> forall|i: int|
            0 <= i < old(states).len() ==> {
                let s = #[trigger] final(states)@[i];
                &&& s.pending_len == 0 && s.context_len == old(states)@[i].pending_len
                &&& s.committed_len == old(states)@[i].committed_len
                &&& s.cache_len == old(states)@[i].cache_len
            },
        match r {
            Ok(round) => {
                &&& old(states).len() > 0
                &&& anchors.len() == old(states).len()
                &&& forall|i: int|
                    0 <= i < old(states).len() ==> slot_ready(
                        #[trigger] old(states)@[i],
                        anchors@[i],
                    )
                &&& final(states).len() == old(states).len()
                &&& forall|i: int|
                    0 <= i < old(states).len() ==> #[trigger] final(states)@[i] == opened(
                        old(states)@[i],
                    )
                &&& round_open(final(states)@, round.requests@)
                &&& round.block_rows == old(states).len() * 8
                &&& round.block_token_ids.len() == round.block_rows
                &&& forall|p: int|
                    0 <= p < round.block_rows ==> #[trigger] round.block_token_ids@[p] == (if p % 8
                        == 0 {
                        anchors@[p / 8].0
                    } else {
                        DSPARK_MASK_TOKEN
                    })
                &&& round.requests.len() == old(states).len()
                &&& forall|i: int|
                    0 <= i < old(states).len() ==> #[trigger] round.requests@[i] == draft_request(
                        old(states)@[i],
                        i,
                    )
            },
            Err(Glm52DsparkError::NoRequest) => old(states).len() == 0,
            Err(Glm52DsparkError::AnchorCount { states: got, anchors: wanted }) => {
                &&& old(states).len() > 0
                &&& got == old(states).len()
                &&& wanted == anchors.len()
                &&& got != wanted
            },
            Err(Glm52DsparkError::NoContext { index }) => {
                &&& 0 <= index < old(states).len() == anchors.len()
                &&& old(states)@[index as int].pending_len == 0
                &&& forall|i: int|
                    0 <= i < index ==> slot_ready(#[trigger] old(states)@[i], anchors@[i])
            },
            Err(Glm52DsparkError::AnchorPosition { index, position, committed, pending }) => {
                &&& 0 <= index < old(states).len() == anchors.len()
                &&& committed == old(states)@[index as int].committed_len
                &&& pending == old(states)@[index as int].pending_len
                &&& pending > 0
                &&& position == anchors@[index as int].1
                &&& position != committed + pending
                &&& forall|i: int|
                    0 <= i < index ==> slot_ready(#[trigger] old(states)@[i], anchors@[i])
            },
            Err(_) => false,
        },
{
    let active: usize = states.len();
    if active == 0 {
        return Err(Glm52DsparkError::NoRequest);
    }
    if anchors.len() != active {
        return Err(Glm52DsparkError::AnchorCount { states: active, anchors: anchors.len() });
    }
    let mut requests: Vec<Glm52DraftRequest> = Vec::new();
    let mut i: usize = 0;
    while i < active
        invariant
            states@ == old(states)@,
            active == states.len() == anchors.len(),
            active <= 8,
            i <= active,
            forall|k: int| 0 <= k < states.len() ==> (#[trigger] states[k]).wf(),
            forall|k: int| 0 <= k < i ==> slot_ready(#[trigger] states@[k], anchors@[k]),
            requests.len() == i,
            forall|k: int|
                0 <= k < i ==> #[trigger] requests@[k] == draft_request(states@[k], k),
        decreases active - i,
    {
        let state: Glm52DsparkSlotState = states[i];
        assert(states@[i as int].wf());
        let context_len: usize = state.pending_len;
        if context_len == 0 {
            return Err(Glm52DsparkError::NoContext { index: i });
        }
        let anchor_position: usize = anchors[i].1;
        if anchor_position != state.committed_len + context_len {
            return Err(
                Glm52DsparkError::AnchorPosition {
                    index: i,
                    position: anchor_position,
                    committed: state.committed_len,
                    pending: context_len,
                },
            );
        }
        let tail_len: usize = context_len + GLM52_DSPARK_BLOCK;
        requests.push(
            Glm52DraftRequest {
                context_len,
                tail_len,
                row_offset: i * GLM52_DSPARK_BLOCK,
                query_start: state.committed_len + context_len,
                key_start: state.committed_len,
                attend_len: state.committed_len + tail_len,
            },
        );
        i = i + 1;
    }
    let block_rows: usize = active * GLM52_DSPARK_BLOCK;
    let mut block_token_ids: Vec<u32> = Vec::new();
    let mut p: usize = 0;
    while p < block_rows
        invariant
            block_rows == active * 8,
            active == anchors.len(),
            p <= block_rows,
            block_token_ids.len() == p,
            forall|q: int|
                0 <= q < p ==> #[trigger] block_token_ids@[q] == (if q % 8 == 0 {
                    anchors@[q / 8].0
                } else {
                    DSPARK_MASK_TOKEN
                }),
        decreases block_rows - p,
    {
        if p % GLM52_DSPARK_BLOCK == 0 {
            block_token_ids.push(anchors[p / GLM52_DSPARK_BLOCK].0);
        } else {
            block_token_ids.push(DSPARK_MASK_TOKEN);
        }
        p = p + 1;
    }
    let mut i: usize = 0;
    while i < active
        invariant
            active == states.len() == old(states).len(),
            i <= active,
            forall|k: int|
                0 <= k < active ==> #[trigger] states@[k] == (if k < i {
                    opened(old(states)@[k])
                } else {
                    old(states)@[k]
                }),
        decreases active - i,
    {
        let state: Glm52DsparkSlotState = states[i];
        states[i] = Glm52DsparkSlotState {
            pending_len: 0,
            context_len: state.pending_len,
            ..state
        };
        i = i + 1;
    }
    assert forall|k: int| 0 <= k < states.len() implies (#[trigger] states[k]).wf() && slot_open(
        states@[k],
        requests@[k],
    ) by {
        assert(old(states)@[k].wf());
        assert(requests@[k] == draft_request(old(states)@[k], k));
    }
    Ok(Glm52DraftRound { block_rows, block_token_ids, requests })
}

/// Commits the context of an open round, once the launches of its layers have
/// written the slots' caches.
pub fn commit_round(states: &mut Vec<Glm52DsparkSlotState>, requests: &Vec<Glm52DraftRequest>)
    requires
        round_open(old(states)@, requests@),
    ensures
        final(states).len() == old(states).len(),
        forall|i: int|
            0 <= i < final(states).len() ==> (#[trigger] final(states)@[i]).wf() && final(states)@[i]
                == (Glm52DsparkSlotState {
                committed_len: (old(states)@[i].committed_len + requests@[i].context_len) as usize,
                ..old(states)@[i]
            }),
{
    let mut i: usize = 0;
    while i < states.len()
        invariant
            i <= states.len() == old(states).len(),
            round_open(old(states)@, requests@),
            forall|k: int|
                0 <= k < states.len() ==> #[trigger] states@[k] == (if k < i {
                    Glm52DsparkSlotState {
                        committed_len: (old(states)@[k].committed_len
                            + requests@[k].context_len) as usize,
                        ..old(states)@[k]
                    }
                } else {
                    old(states)@[k]
                }),
        decreases states.len() - i,
    {
        let state: Glm52DsparkSlotState = states[i];
        assert(slot_open(old(states)@[i as int], requests@[i as int]));
        states[i] = Glm52DsparkSlotState {
            committed_len: state.committed_len + requests[i].context_len,
            ..state
        };
        i = i + 1;
    }
    assert forall|k: int| 0 <= k < states.len() implies (#[trigger] states@[k]).wf() by {
        assert(slot_open(old(states)@[k], requests@[k]));
    }
}

/// The drafts of a round: block positions 1 to 7 of every request.
pub fn read_drafts(sampled: &Vec<u32>, rows: usize) -> (r: Vec<[u32; 7]>)
    requires
        rows <= 8,
        sampled.len() == rows * 8,
    ensures
        r.len() == rows,
        forall|i: int, k: int|
            0 <= i < rows && 0 <= k < 7 ==> #[trigger] r@[i]@[k] == sampled@[i * 8 + 1 + k],
{
    let mut drafts: Vec<[u32; 7]> = Vec::new();
    let mut i: usize = 0;
    while i < rows
        invariant
            i <= rows <= 8,
            sampled.len() == rows * 8,
            drafts.len() == i,
            forall|j: int, k: int|
                0 <= j < i && 0 <= k < 7 ==> #[trigger] drafts@[j]@[k] == sampled@[j * 8 + 1 + k],
        decreases rows - i,
    {
        let base: usize = i * GLM52_DSPARK_BLOCK + 1;
        let block: [u32; 7] = [
            sampled[base],
            sampled[base + 1],
            sampled[base + 2],
            sampled[base + 3],
            sampled[base + 4],
            sampled[base + 5],
            sampled[base + 6],
        ];
        drafts.push(block);
        i = i + 1;
    }
    drafts
}

/// Points the variable-length tail buffers at a request's rows.
pub fn set_tail_len(tail_len: usize, capacity: usize) -> (r: Result<usize, Glm52DsparkError>)
    ensures
        r == (if tail_len <= capacity {
            Ok(tail_len)
        } else {
            Err::<usize, _>(Glm52DsparkError::TailBeyondCapacity { tail_len })
        }),
{
    if tail_len > capacity {
        return Err(Glm52DsparkError::TailBeyondCapacity { tail_len });
    }
    Ok(tail_len)
}

/// A round that is opened and committed drains its slots: what was pending is
/// committed, and nothing is pending.
pub proof fn a_committed_round_drains(state: Glm52DsparkSlotState, index: int)
    requires
        state.wf(),
    ensures
        slot_open(opened(state), draft_request(state, index)),
        (Glm52DsparkSlotState {
            committed_len: (opened(state).committed_len + draft_request(
                state,
                index,
            ).context_len) as usize,
            ..opened(state)
        }) == drained(state),
{
}

/// A round over well-formed slots never outgrows the tail buffers or the
/// draft cache.
pub proof fn round_fits_the_cache(state: Glm52DsparkSlotState, index: int)
    requires
        state.wf(),
        0 <= index < 8,
    ensures
        draft_request(state, index).tail_len <= state.cache_len,
        draft_request(state, index).attend_len <= state.cache_len,
        draft_request(state, index).query_start == draft_request(state, index).key_start
            + draft_request(state, index).context_len,
        opened(state).wf(),
        drained(state).wf(),
{
}

/// A slot that is drained has no room for an anchor to repeat: the next
/// anchor sits strictly later.
pub proof fn anchors_advance(
    state: Glm52DsparkSlotState,
    anchor: (u32, usize),
    next: Glm52DsparkSlotState,
    next_anchor: (u32, usize),
)
    requires
        state.wf(),
        slot_ready(state, anchor),
        next.committed_len == drained(state).committed_len,
        slot_ready(next, next_anchor),
    ensures
        anchor.1 < next_anchor.1,
{
}

/// Elements of the caches of one draft slot: keys and values of every layer,
/// the pending context and the projected context pair.
pub fn slot_elements(cache_len: usize) -> (r: u64)
    requires
        83_968 * cache_len <= u64::MAX,
    ensures
        r == (5 * 2 * 4096 + 30_720 + 2 * 6144) * cache_len,
{
    let kv_rows: u64 = DSPARK_LAYERS as u64 * 2;
    assert(kv_rows * DSPARK_QKV_DIM == 40_960) by (nonlinear_arith)
        requires
            kv_rows == 10,
            DSPARK_QKV_DIM == 4096,
    ;
    let row: u64 = kv_rows * DSPARK_QKV_DIM as u64 + GLM52_DSPARK_CONTEXT_DIM as u64 + 2
        * GLM52_HIDDEN as u64;
    assert(row * cache_len == 83_968 * cache_len) by (nonlinear_arith)
        requires
            row == 83_968,
    ;
    row * cache_len as u64
}

/// Elements of the rank-wide draft buffers that grow with the cap: the tail
/// rows and the rotary tables.
pub fn rank_elements(cache_len: usize) -> (r: u64)
    requires
        14_464 * cache_len <= u64::MAX,
    ensures
        r == (6144 + 2 * 4096 + 2 * 64) * cache_len,
{
    let row: u64 = GLM52_HIDDEN as u64 + 2 * DSPARK_QKV_DIM as u64 + 2 * DSPARK_HEAD_DIM as u64;
    assert(row * cache_len == 14_464 * cache_len) by (nonlinear_arith)
        requires
            row == 14_464,
    ;
    row * cache_len as u64
}

/// The VRAM ledger charges exactly the two-byte elements that the lane
/// allocates: those of eight slots and those of the rank.
pub proof fn ledger_is_the_allocation(max_model_len: int)
    requires
        max_model_len >= 0,
    ensures
        crate::budget::dspark_arena_bytes(max_model_len) == 2 * (8 * ((5 * 2 * 4096 + 30_720 + 2
            * 6144) * (max_model_len + 8)) + (6144 + 2 * 4096 + 2 * 64) * (max_model_len + 8)),
{
    let len = max_model_len + 8;
    assert((5 * 2 * 4096 + 30_720 + 2 * 6144) * len == 83_968 * len) by (nonlinear_arith);
    assert((6144 + 2 * 4096 + 2 * 64) * len == 14_464 * len) by (nonlinear_arith);
}

/// A field of the drafter's `config.json` that must have one value.
#[derive(Clone, Copy, Debug, PartialEq, Eq, Structural)]
pub enum DsparkField {
    ModelType,
    BlockSize,
    MaskTokenId,
    MarkovRank,
    MarkovHeadType,
    AuxLayerIds,
    LayerModelType,
    LayerCount,
    HiddenSize,
    AttentionHeads,
    KeyValueHeads,
    HeadDim,
    IntermediateSize,
    VocabSize,
    SlidingWindow,
}

/// The value that a field must have.
enum Wanted {
    Text(&'static str),
    Number(u64),
    Flag(bool),
    Layers,
}

impl DsparkField {
    /// The field's name.
    pub open spec fn name(self) -> Seq<char> {
        match self {
            DsparkField::ModelType => "speculators_model_type"@,
            DsparkField::BlockSize => "block_size"@,
            DsparkField::MaskTokenId => "mask_token_id"@,
            DsparkField::MarkovRank => "markov_rank"@,
            DsparkField::MarkovHeadType => "markov_head_type"@,
            DsparkField::AuxLayerIds => "aux_hidden_state_layer_ids"@,
            DsparkField::LayerModelType => "model_type"@,
            DsparkField::LayerCount => "num_hidden_layers"@,
            DsparkField::HiddenSize => "hidden_size"@,
            DsparkField::AttentionHeads => "num_attention_heads"@,
            DsparkField::KeyValueHeads => "num_key_value_heads"@,
            DsparkField::HeadDim => "head_dim"@,
            DsparkField::IntermediateSize => "intermediate_size"@,
            DsparkField::VocabSize => "vocab_size"@,
            DsparkField::SlidingWindow => "use_sliding_window"@,
        }
    }

    /// The value that the field must have.
    pub open spec fn expected(self) -> crate::json::JsonTree {
        match self {
            DsparkField::ModelType => crate::json::JsonTree::Text("dspark"@),
            DsparkField::BlockSize => crate::json::JsonTree::Unsigned(8),
            DsparkField::MaskTokenId => crate::json::JsonTree::Unsigned(154_856),
            DsparkField::MarkovRank => crate::json::JsonTree::Unsigned(256),
            DsparkField::MarkovHeadType => crate::json::JsonTree::Text("vanilla"@),
            DsparkField::AuxLayerIds => crate::json::JsonTree::Array(
                Seq::new(5, |i: int| crate::json::JsonTree::Unsigned((aux_layer(i) + 1) as u64)),
            ),
            DsparkField::LayerModelType => crate::json::JsonTree::Text("qwen3"@),
            DsparkField::LayerCount => crate::json::JsonTree::Unsigned(5),
            DsparkField::HiddenSize => crate::json::JsonTree::Unsigned(6144),
            DsparkField::AttentionHeads => crate::json::JsonTree::Unsigned(64),
            DsparkField::KeyValueHeads => crate::json::JsonTree::Unsigned(64),
            DsparkField::HeadDim => crate::json::JsonTree::Unsigned(64),
            DsparkField::IntermediateSize => crate::json::JsonTree::Unsigned(12_288),
            DsparkField::VocabSize => crate::json::JsonTree::Unsigned(154_880),
            DsparkField::SlidingWindow => crate::json::JsonTree::Bool(false),
        }
    }

    /// The field's name.
    pub fn name_text(self) -> (r: &'static str)
        ensures
            r@ == self.name(),
            match self {
                DsparkField::ModelType => r@ == "speculators_model_type"@,
                DsparkField::BlockSize => r@ == "block_size"@,
                DsparkField::MaskTokenId => r@ == "mask_token_id"@,
                DsparkField::MarkovRank => r@ == "markov_rank"@,
                DsparkField::MarkovHeadType => r@ == "markov_head_type"@,
                DsparkField::AuxLayerIds => r@ == "aux_hidden_state_layer_ids"@,
                DsparkField::LayerModelType => r@ == "model_type"@,
                DsparkField::LayerCount => r@ == "num_hidden_layers"@,
                DsparkField::HiddenSize => r@ == "hidden_size"@,
                DsparkField::AttentionHeads => r@ == "num_attention_heads"@,
                DsparkField::KeyValueHeads => r@ == "num_key_value_heads"@,
                DsparkField::HeadDim => r@ == "head_dim"@,
                DsparkField::IntermediateSize => r@ == "intermediate_size"@,
                DsparkField::VocabSize => r@ == "vocab_size"@,
                DsparkField::SlidingWindow => r@ == "use_sliding_window"@,
            },
    {
        match self {
            DsparkField::ModelType => "speculators_model_type",
            DsparkField::BlockSize => "block_size",
            DsparkField::MaskTokenId => "mask_token_id",
            DsparkField::MarkovRank => "markov_rank",
            DsparkField::MarkovHeadType => "markov_head_type",
            DsparkField::AuxLayerIds => "aux_hidden_state_layer_ids",
            DsparkField::LayerModelType => "model_type",
            DsparkField::LayerCount => "num_hidden_layers",
            DsparkField::HiddenSize => "hidden_size",
            DsparkField::AttentionHeads => "num_attention_heads",
            DsparkField::KeyValueHeads => "num_key_value_heads",
            DsparkField::HeadDim => "head_dim",
            DsparkField::IntermediateSize => "intermediate_size",
            DsparkField::VocabSize => "vocab_size",
            DsparkField::SlidingWindow => "use_sliding_window",
        }
    }

    /// The value that the field must have.
    fn wanted(self) -> (r: Wanted)
        ensures
            match r {
                Wanted::Text(t) => self.expected() == crate::json::JsonTree::Text(t@),
                Wanted::Number(n) => self.expected() == crate::json::JsonTree::Unsigned(n),
                Wanted::Flag(b) => self.expected() == crate::json::JsonTree::Bool(b),
                Wanted::Layers => self == DsparkField::AuxLayerIds,
            },
    {
        match self {
            DsparkField::ModelType => Wanted::Text("dspark"),
            DsparkField::BlockSize => Wanted::Number(8),
            DsparkField::MaskTokenId => Wanted::Number(DSPARK_MASK_TOKEN as u64),
            DsparkField::MarkovRank => Wanted::Number(DSPARK_MARKOV_RANK as u64),
            DsparkField::MarkovHeadType => Wanted::Text("vanilla"),
            DsparkField::AuxLayerIds => Wanted::Layers,
            DsparkField::LayerModelType => Wanted::Text("qwen3"),
            DsparkField::LayerCount => Wanted::Number(DSPARK_LAYERS as u64),
            DsparkField::HiddenSize => Wanted::Number(GLM52_HIDDEN as u64),
            DsparkField::AttentionHeads => Wanted::Number(DSPARK_HEADS as u64),
            DsparkField::KeyValueHeads => Wanted::Number(DSPARK_HEADS as u64),
            DsparkField::HeadDim => Wanted::Number(DSPARK_HEAD_DIM as u64),
            DsparkField::IntermediateSize => Wanted::Number(DSPARK_INTER as u64),
            DsparkField::VocabSize => Wanted::Number(GLM52_VOCAB as u64),
            DsparkField::SlidingWindow => Wanted::Flag(false),
        }
    }
}

/// Why a drafter checkpoint is refused.
#[derive(Clone, Copy, Debug, PartialEq, Eq, Structural)]
pub enum DsparkConfigError {
    Unparsable,
    Missing { field: DsparkField },
    Mismatch { field: DsparkField },
    AnchorFirst,
    LayerConfigMissing,
}

impl DsparkField {
    /// Whether the field belongs to the layer configuration.
    pub open spec fn in_layer(self) -> bool {
        !(self is ModelType || self is BlockSize || self is MaskTokenId || self is MarkovRank
            || self is MarkovHeadType || self is AuxLayerIds)
    }

    /// The document that the field belongs to, as messages name it.
    pub open spec fn document(self) -> Seq<char> {
        if self.in_layer() {
            "dspark transformer_layer_config"@
        } else {
            "dspark config"@
        }
    }

    /// The document that the field belongs to, as messages name it.
    fn document_text(self) -> (r: &'static str)
        ensures
            r@ == self.document(),
    {
        match self {
            DsparkField::ModelType
            | DsparkField::BlockSize
            | DsparkField::MaskTokenId
            | DsparkField::MarkovRank
            | DsparkField::MarkovHeadType
            | DsparkField::AuxLayerIds => "dspark config",
            _ => "dspark transformer_layer_config",
        }
    }

    /// The expected value, as messages write it.
    pub open spec fn expected_shown(self) -> Seq<char> {
        match self.expected() {
            crate::json::JsonTree::Text(t) => "\""@ + t + "\""@,
            crate::json::JsonTree::Unsigned(n) => crate::text::decimal(n as nat),
            crate::json::JsonTree::Bool(b) => if b {
                "true"@
            } else {
                "false"@
            },
            _ => "[8,23,39,55,70]"@,
        }
    }

    /// The expected value, as messages write it.
    fn expected_text(self) -> (t: String)
        ensures
            t@ == self.expected_shown(),
    {
        match self.wanted() {
            Wanted::Text(text) => {
                let mut t = String::from_str("\"");
                t.append(text);
                t.append("\"");
                t
            },
            Wanted::Number(n) => decimal_text(n),
            Wanted::Flag(flag) => if flag {
                String::from_str("true")
            } else {
                String::from_str("false")
            },
            Wanted::Layers => String::from_str("[8,23,39,55,70]"),
        }
    }
}

impl DsparkConfigError {
    /// The message for the operator.
    pub open spec fn text(self) -> Seq<char> {
        match self {
            DsparkConfigError::Unparsable => "config.json is not a JSON document"@,
            DsparkConfigError::Missing { field } => field.document() + " missing `"@ + field.name()
                + "`"@,
            DsparkConfigError::Mismatch { field } => field.document() + " `"@ + field.name()
                + "` differs, this build expects "@ + field.expected_shown(),
            DsparkConfigError::AnchorFirst =>
                "dspark config has `num_anchors` (a DeepSpec anchor-first marker); this module implements the speculators anchor-drop layout only"@,
            DsparkConfigError::LayerConfigMissing =>
                "dspark config missing transformer_layer_config"@,
        }
    }

    /// The message for the operator.
    pub fn message(&self) -> (m: String)
        ensures
            m@ == self.text(),
    {
        match *self {
            DsparkConfigError::Unparsable => String::from_str("config.json is not a JSON document"),
            DsparkConfigError::Missing { field } => {
                let mut m = String::from_str(field.document_text());
                m.append(" missing `");
                m.append(field.name_text());
                m.append("`");
                m
            },
            DsparkConfigError::Mismatch { field } => {
                let mut m = String::from_str(field.document_text());
                m.append(" `");
                m.append(field.name_text());
                m.append("` differs, this build expects ");
                m.append(field.expected_text().as_str());
                m
            },
            DsparkConfigError::AnchorFirst => String::from_str(
                "dspark config has `num_anchors` (a DeepSpec anchor-first marker); this module implements the speculators anchor-drop layout only",
            ),
            DsparkConfigError::LayerConfigMissing => String::from_str(
                "dspark config missing transformer_layer_config",
            ),
        }
    }
}

/// What one field of a document has against it.
pub open spec fn field_error(
    tree: crate::json::JsonTree,
    field: DsparkField,
) -> Option<DsparkConfigError> {
    match crate::json::member(tree, field.name()) {
        None => Some(DsparkConfigError::Missing { field }),
        Some(value) => if value == field.expected() {
            None
        } else {
            Some(DsparkConfigError::Mismatch { field })
        },
    }
}

/// What the first `n` of some fields have against them.
pub open spec fn fields_error(
    tree: crate::json::JsonTree,
    fields: Seq<DsparkField>,
    n: int,
) -> Option<DsparkConfigError>
    decreases n,
{
    if n <= 0 {
        None
    } else {
        match fields_error(tree, fields, n - 1) {
            Some(e) => Some(e),
            None => field_error(tree, fields[n - 1]),
        }
    }
}

/// The fields of the document itself, in the order they are checked.
pub open spec fn top_fields() -> Seq<DsparkField> {
    seq![
        DsparkField::ModelType,
        DsparkField::BlockSize,
        DsparkField::MaskTokenId,
        DsparkField::MarkovRank,
        DsparkField::MarkovHeadType,
        DsparkField::AuxLayerIds,
    ]
}

/// The fields of `transformer_layer_config`, in the order they are checked.
pub open spec fn layer_fields() -> Seq<DsparkField> {
    seq![
        DsparkField::LayerModelType,
        DsparkField::LayerCount,
        DsparkField::HiddenSize,
        DsparkField::AttentionHeads,
        DsparkField::KeyValueHeads,
        DsparkField::HeadDim,
        DsparkField::IntermediateSize,
        DsparkField::VocabSize,
        DsparkField::SlidingWindow,
    ]
}

/// What a parsed drafter configuration has against it.
pub open spec fn config_error(tree: crate::json::JsonTree) -> Option<DsparkConfigError> {
    match fields_error(tree, top_fields(), 6) {
        Some(e) => Some(e),
        None => if crate::json::member(tree, "num_anchors"@) is Some {
            Some(DsparkConfigError::AnchorFirst)
        } else {
            match crate::json::member(tree, "transformer_layer_config"@) {
                None => Some(DsparkConfigError::LayerConfigMissing),
                Some(layer) => fields_error(layer, layer_fields(), 9),
            }
        },
    }
}

/// A drafter is accepted exactly where its configuration names the one
/// geometry that the drafter is built for, layer for layer, and asks for no
/// anchors of its own.
pub proof fn an_accepted_drafter_is_the_known_one(tree: crate::json::JsonTree)
    ensures
        config_error(tree) is None <==> {
            &&& crate::json::member(tree, "speculators_model_type"@) == Some(crate::json::JsonTree::Text("dspark"@))
            &&& crate::json::member(tree, "block_size"@) == Some(crate::json::JsonTree::Unsigned(8))
            &&& crate::json::member(tree, "mask_token_id"@) == Some(crate::json::JsonTree::Unsigned(154_856))
            &&& crate::json::member(tree, "markov_rank"@) == Some(crate::json::JsonTree::Unsigned(256))
            &&& crate::json::member(tree, "markov_head_type"@) == Some(crate::json::JsonTree::Text("vanilla"@))
            &&& crate::json::member(tree, "aux_hidden_state_layer_ids"@) matches Some(
                crate::json::JsonTree::Array(ids),
            ) && ids =~= seq![
                crate::json::JsonTree::Unsigned(8),
                crate::json::JsonTree::Unsigned(23),
                crate::json::JsonTree::Unsigned(39),
                crate::json::JsonTree::Unsigned(55),
                crate::json::JsonTree::Unsigned(70),
            ]
            &&& crate::json::member(tree, "num_anchors"@) is None
            &&& crate::json::member(tree, "transformer_layer_config"@) matches Some(layer) && {
                &&& crate::json::member(layer, "model_type"@) == Some(crate::json::JsonTree::Text("qwen3"@))
                &&& crate::json::member(layer, "num_hidden_layers"@) == Some(crate::json::JsonTree::Unsigned(5))
                &&& crate::json::member(layer, "hidden_size"@) == Some(crate::json::JsonTree::Unsigned(6144))
                &&& crate::json::member(layer, "num_attention_heads"@) == Some(crate::json::JsonTree::Unsigned(64))
                &&& crate::json::member(layer, "num_key_value_heads"@) == Some(crate::json::JsonTree::Unsigned(64))
                &&& crate::json::member(layer, "head_dim"@) == Some(crate::json::JsonTree::Unsigned(64))
                &&& crate::json::member(layer, "intermediate_size"@) == Some(crate::json::JsonTree::Unsigned(12_288))
                &&& crate::json::member(layer, "vocab_size"@) == Some(crate::json::JsonTree::Unsigned(154_880))
                &&& crate::json::member(layer, "use_sliding_window"@) == Some(crate::json::JsonTree::Bool(false))
            }
        },
{
    reveal_with_fuel(fields_error, 10);
    let ids = Seq::new(5, |i: int| crate::json::JsonTree::Unsigned((aux_layer(i) + 1) as u64));
    assert(ids =~= seq![
        crate::json::JsonTree::Unsigned(8),
        crate::json::JsonTree::Unsigned(23),
        crate::json::JsonTree::Unsigned(39),
        crate::json::JsonTree::Unsigned(55),
        crate::json::JsonTree::Unsigned(70),
    ]);
    let top = top_fields();
    assert(top[0] == DsparkField::ModelType && top[1] == DsparkField::BlockSize && top[2]
        == DsparkField::MaskTokenId && top[3] == DsparkField::MarkovRank && top[4]
        == DsparkField::MarkovHeadType && top[5] == DsparkField::AuxLayerIds);
    let inner = layer_fields();
    assert(inner[0] == DsparkField::LayerModelType && inner[1] == DsparkField::LayerCount
        && inner[2] == DsparkField::HiddenSize && inner[3] == DsparkField::AttentionHeads
        && inner[4] == DsparkField::KeyValueHeads && inner[5] == DsparkField::HeadDim && inner[6]
        == DsparkField::IntermediateSize && inner[7] == DsparkField::VocabSize && inner[8]
        == DsparkField::SlidingWindow);
}

/// Whether a JSON value is what a field must hold.
fn holds_expected(value: &serde_json::Value, field: DsparkField) -> (r: bool)
    ensures
        r == (crate::json::json_tree(*value) == field.expected()),
{
    match field.wanted() {
        Wanted::Text(want) => match json_text(value) {
            Some(text) => same_text(text, want),
            None => false,
        },
        Wanted::Number(want) => match json_u64(value) {
            Some(n) => n == want,
            None => false,
        },
        Wanted::Flag(want) => match json_bool(value) {
            Some(b) => b == want,
            None => false,
        },
        Wanted::Layers => {
            let items = match json_array(value) {
                Some(items) => items,
                None => {
                    return false;
                },
            };
            let ghost got = Seq::new(items@.len(), |k: int| crate::json::json_tree(items@[k]));
            let ghost want = Seq::new(
                5,
                |k: int| crate::json::JsonTree::Unsigned((aux_layer(k) + 1) as u64),
            );
            if items.len() != 5 {
                assert(got.len() != want.len());
                return false;
            }
            let ids: [u64; 5] = [8, 23, 39, 55, 70];
            let mut i: usize = 0;
            while i < 5
                invariant
                    items@.len() == 5,
                    i <= 5,
                    ids@ == seq![8u64, 23u64, 39u64, 55u64, 70u64],
                    got == Seq::new(items@.len(), |k: int| crate::json::json_tree(items@[k])),
                    want == Seq::new(
                        5,
                        |k: int| crate::json::JsonTree::Unsigned((aux_layer(k) + 1) as u64),
                    ),
                    crate::json::json_tree(*value) == crate::json::JsonTree::Array(got),
                    field.expected() == crate::json::JsonTree::Array(want),
                    forall|k: int| 0 <= k < i ==> #[trigger] got[k] == want[k],
                decreases 5 - i,
            {
                assert(ids@[i as int] == aux_layer(i as int) + 1);
                match json_u64(&items[i]) {
                    Some(n) if n == ids[i] => {},
                    _ => {
                        assert(got[i as int] != want[i as int]);
                        return false;
                    },
                }
                i = i + 1;
            }
            assert(got =~= want);
            true
        },
    }
}

/// Checks some fields of a JSON object in order.
fn check_fields(json: &serde_json::Value, fields: &Vec<DsparkField>) -> (r: Result<
    (),
    DsparkConfigError,
>)
    ensures
        match fields_error(crate::json::json_tree(*json), fields@, fields.len() as int) {
            None => r is Ok,
            Some(e) => r == Err::<(), _>(e),
        },
{
    let mut i: usize = 0;
    while i < fields.len()
        invariant
            i <= fields.len(),
            fields_error(crate::json::json_tree(*json), fields@, i as int) is None,
        decreases fields.len() - i,
    {
        let field: DsparkField = fields[i];
        let ghost verdict = field_error(crate::json::json_tree(*json), field);
        let value = match json_member(json, field.name_text()) {
            Some(value) => value,
            None => {
                proof {
                    lemma_first_error_stays(
                        crate::json::json_tree(*json),
                        fields@,
                        i + 1,
                        fields.len() as int,
                    );
                }
                return Err(DsparkConfigError::Missing { field });
            },
        };
        if !holds_expected(value, field) {
            proof {
                lemma_first_error_stays(
                    crate::json::json_tree(*json),
                    fields@,
                    i + 1,
                    fields.len() as int,
                );
            }
            return Err(DsparkConfigError::Mismatch { field });
        }
        i = i + 1;
    }
    Ok(())
}

proof fn lemma_first_error_stays(
    tree: crate::json::JsonTree,
    fields: Seq<DsparkField>,
    n: int,
    m: int,
)
    requires
        0 <= n <= m,
        fields_error(tree, fields, n) is Some,
    ensures
        fields_error(tree, fields, m) == fields_error(tree, fields, n),
    decreases m - n,
{
    if n < m {
        lemma_first_error_stays(tree, fields, n, m - 1);
    }
}

/// Checks a parsed drafter configuration: this module hardcodes the drafter's
/// geometry, so any other checkpoint is refused.
pub fn check_config(json: &serde_json::Value) -> (r: Result<(), DsparkConfigError>)
    ensures
        match config_error(crate::json::json_tree(*json)) {
            None => r is Ok,
            Some(e) => r == Err::<(), _>(e),
        },
{
    let top: Vec<DsparkField> = vec![
        DsparkField::ModelType,
        DsparkField::BlockSize,
        DsparkField::MaskTokenId,
        DsparkField::MarkovRank,
        DsparkField::MarkovHeadType,
        DsparkField::AuxLayerIds,
    ];
    assert(top@ =~= top_fields());
    match check_fields(json, &top) {
        Ok(()) => {},
        Err(e) => {
            return Err(e);
        },
    }
    if json_member(json, "num_anchors").is_some() {
        return Err(DsparkConfigError::AnchorFirst);
    }
    let layer = match json_member(json, "transformer_layer_config") {
        Some(layer) => layer,
        None => {
            return Err(DsparkConfigError::LayerConfigMissing);
        },
    };
    let inner: Vec<DsparkField> = vec![
        DsparkField::LayerModelType,
        DsparkField::LayerCount,
        DsparkField::HiddenSize,
        DsparkField::AttentionHeads,
        DsparkField::KeyValueHeads,
        DsparkField::HeadDim,
        DsparkField::IntermediateSize,
        DsparkField::VocabSize,
        DsparkField::SlidingWindow,
    ];
    assert(inner@ =~= layer_fields());
    check_fields(layer, &inner)
}

/// Checks the text of a drafter's `config.json`.
pub fn validate_config(content: &str) -> (r: Result<(), DsparkConfigError>)
    ensures
        match crate::json::json_of(content@) {
            None => r == Err::<(), _>(DsparkConfigError::Unparsable),
            Some(tree) => match config_error(tree) {
                None => r is Ok,
                Some(e) => r == Err::<(), _>(e),
            },
        },
{
    match parse_json(content) {
        Ok(json) => check_config(&json),
        Err(_) => Err(DsparkConfigError::Unparsable),
    }
}

} // verus!
