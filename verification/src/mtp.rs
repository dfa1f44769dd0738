//! The native draft layer: its context of committed tokens, the rows that a
//! round feeds it, and the drafts that come back.
use vstd::prelude::*;

use crate::budget::{glm52_index_cache_layout, glm52_pool_blocks};
use crate::config::{bucket_index, GLM52_EP_RANKS, GLM52_MAX_BATCH_PER_RANK, GLM52_PAGE_SIZE};
use crate::rank_model::{plan_bucket, Glm52BucketPlan};
use crate::text::{decimal_text, signed_text};

verus! {

/// Tokens that a round drafts for each proposing slot.
pub const GLM52_MTP_DRAFTS: usize = 5;

/// One committed token that the draft context takes in.
#[derive(Clone, Copy, Debug, PartialEq, Eq, Structural)]
pub struct Glm52MtpAppend {
    pub slot: usize,
    /// The row of the target step whose hidden state goes in.
    pub target_row: usize,
    pub input_token: u32,
    pub position: usize,
}

/// A norm around the draft layer.
#[derive(Clone, Copy, Debug, PartialEq, Eq, Structural)]
pub enum Glm52MtpNorm {
    Embedding,
    Hidden,
    SharedHead,
}

impl Glm52MtpNorm {
    /// The name of the norm's tensor.
    pub open spec fn tensor(self) -> Seq<char> {
        match self {
            Glm52MtpNorm::Embedding => "model.layers.78.enorm.weight"@,
            Glm52MtpNorm::Hidden => "model.layers.78.hnorm.weight"@,
            Glm52MtpNorm::SharedHead => "model.layers.78.shared_head.norm.weight"@,
        }
    }

    /// The name of the norm's tensor.
    pub fn tensor_text(self) -> (r: &'static str)
        ensures
            r@ == self.tensor(),
            match self {
                Glm52MtpNorm::Embedding => r@ == "model.layers.78.enorm.weight"@,
                Glm52MtpNorm::Hidden => r@ == "model.layers.78.hnorm.weight"@,
                Glm52MtpNorm::SharedHead => r@ == "model.layers.78.shared_head.norm.weight"@,
            },
    {
        match self {
            Glm52MtpNorm::Embedding => "model.layers.78.enorm.weight",
            Glm52MtpNorm::Hidden => "model.layers.78.hnorm.weight",
            Glm52MtpNorm::SharedHead => "model.layers.78.shared_head.norm.weight",
        }
    }
}

/// Why a round is refused.
#[derive(Clone, Copy, Debug, PartialEq, Eq, Structural)]
pub enum Glm52MtpError {
    ResetSlot { slot: usize },
    ContextRows { rows: usize, bucket: usize },
    SlotsNotAscending,
    Bucket { rows: usize },
    AppendBounds { row: usize, target_row: usize, slot: usize, target_rows: usize },
    AppendPosition { slot: usize, position: usize, committed: usize },
    DraftRows { rows: usize, bucket: usize },
    NoAppend { slot: usize },
    Exhausted { slot: usize },
    Input { row: usize, rows: usize, slot: usize, position: usize, cap: usize },
    Argmax { row: usize, index: i32 },
    NotMoe,
    ProjBytes { got: usize },
    NormBytes { which: Glm52MtpNorm, got: usize },
}

impl Glm52MtpError {
    /// The message for the operator.
    pub open spec fn text(self) -> Seq<char> {
        match self {
            Glm52MtpError::ResetSlot { slot } => "GLM5.2 MTP reset slot "@
                + crate::text::decimal(slot as nat)
                + " is outside 0..8"@,
            Glm52MtpError::ContextRows { rows, bucket } => "GLM5.2 MTP context rows "@
                + crate::text::decimal(rows as nat)
                + " exceed collective bucket "@
                + crate::text::decimal(bucket as nat),
            Glm52MtpError::SlotsNotAscending => "GLM5.2 MTP proposal slots must be strictly ascending"@,
            Glm52MtpError::Bucket { rows } => "GLM5.2 MTP bucket "@
                + crate::text::decimal(rows as nat)
                + " is not in [1, 2, 4, 8]"@,
            Glm52MtpError::AppendBounds { target_row, slot, target_rows, .. } => "GLM5.2 MTP append target row "@
                + crate::text::decimal(target_row as nat)
                + " or slot "@
                + crate::text::decimal(slot as nat)
                + " is out of bounds (target rows "@
                + crate::text::decimal(target_rows as nat)
                + ", slots 8)"@,
            Glm52MtpError::AppendPosition { slot, position, committed } => "GLM5.2 MTP slot "@
                + crate::text::decimal(slot as nat)
                + " first-pass position "@
                + crate::text::decimal(position as nat)
                + " != committed "@
                + crate::text::decimal(committed as nat),
            Glm52MtpError::DraftRows { rows, bucket } => "GLM5.2 MTP proposal rows "@
                + crate::text::decimal(rows as nat)
                + " exceed collective bucket "@
                + crate::text::decimal(bucket as nat),
            Glm52MtpError::NoAppend { slot } => "GLM5.2 MTP proposal slot "@
                + crate::text::decimal(slot as nat)
                + " has no append"@,
            Glm52MtpError::Exhausted { slot } => "GLM5.2 MTP slot "@
                + crate::text::decimal(slot as nat)
                + " exhausted its context cap"@,
            Glm52MtpError::Input { row, rows, slot, position, cap } => "GLM5.2 MTP input row "@
                + crate::text::decimal(row as nat)
                + "/"@
                + crate::text::decimal(rows as nat)
                + ", slot "@
                + crate::text::decimal(slot as nat)
                + "/8, or position "@
                + crate::text::decimal(position as nat)
                + "/"@
                + crate::text::decimal(cap as nat)
                + " is out of bounds"@,
            Glm52MtpError::Argmax { row, index } => "GLM5.2 MTP row "@
                + crate::text::decimal(row as nat)
                + " produced invalid argmax value at index "@
                + crate::text::signed_decimal(index as int),
            Glm52MtpError::NotMoe => "GLM5.2 MTP layer 78 is not EP MoE"@,
            Glm52MtpError::ProjBytes { .. } => "GLM5.2 MTP eh_proj byte length drifted"@,
            Glm52MtpError::NormBytes { which, got } => "GLM5.2 tensor "@
                + which.tensor()
                + " bytes "@
                + crate::text::decimal(got as nat)
                + " != bf16 [6144]"@,
        }
    }

    /// The message for the operator.
    pub fn message(&self) -> (m: String)
        ensures
            m@ == self.text(),
    {
        match *self {
            Glm52MtpError::ResetSlot { slot } => {
                let mut m = String::from_str("GLM5.2 MTP reset slot ");
                m.append(decimal_text(slot as u64).as_str());
                m.append(" is outside 0..8");
                m
            },
            Glm52MtpError::ContextRows { rows, bucket } => {
                let mut m = String::from_str("GLM5.2 MTP context rows ");
                m.append(decimal_text(rows as u64).as_str());
                m.append(" exceed collective bucket ");
                m.append(decimal_text(bucket as u64).as_str());
                m
            },
            Glm52MtpError::SlotsNotAscending => String::from_str(
                "GLM5.2 MTP proposal slots must be strictly ascending",
            ),
            Glm52MtpError::Bucket { rows } => {
                let mut m = String::from_str("GLM5.2 MTP bucket ");
                m.append(decimal_text(rows as u64).as_str());
                m.append(" is not in [1, 2, 4, 8]");
                m
            },
            Glm52MtpError::AppendBounds { target_row, slot, target_rows, .. } => {
                let mut m = String::from_str("GLM5.2 MTP append target row ");
                m.append(decimal_text(target_row as u64).as_str());
                m.append(" or slot ");
                m.append(decimal_text(slot as u64).as_str());
                m.append(" is out of bounds (target rows ");
                m.append(decimal_text(target_rows as u64).as_str());
                m.append(", slots 8)");
                m
            },
            Glm52MtpError::AppendPosition { slot, position, committed } => {
                let mut m = String::from_str("GLM5.2 MTP slot ");
                m.append(decimal_text(slot as u64).as_str());
                m.append(" first-pass position ");
                m.append(decimal_text(position as u64).as_str());
                m.append(" != committed ");
                m.append(decimal_text(committed as u64).as_str());
                m
            },
            Glm52MtpError::DraftRows { rows, bucket } => {
                let mut m = String::from_str("GLM5.2 MTP proposal rows ");
                m.append(decimal_text(rows as u64).as_str());
                m.append(" exceed collective bucket ");
                m.append(decimal_text(bucket as u64).as_str());
                m
            },
            Glm52MtpError::NoAppend { slot } => {
                let mut m = String::from_str("GLM5.2 MTP proposal slot ");
                m.append(decimal_text(slot as u64).as_str());
                m.append(" has no append");
                m
            },
            Glm52MtpError::Exhausted { slot } => {
                let mut m = String::from_str("GLM5.2 MTP slot ");
                m.append(decimal_text(slot as u64).as_str());
                m.append(" exhausted its context cap");
                m
            },
            Glm52MtpError::Input { row, rows, slot, position, cap } => {
                let mut m = String::from_str("GLM5.2 MTP input row ");
                m.append(decimal_text(row as u64).as_str());
                m.append("/");
                m.append(decimal_text(rows as u64).as_str());
                m.append(", slot ");
                m.append(decimal_text(slot as u64).as_str());
                m.append("/8, or position ");
                m.append(decimal_text(position as u64).as_str());
                m.append("/");
                m.append(decimal_text(cap as u64).as_str());
                m.append(" is out of bounds");
                m
            },
            Glm52MtpError::Argmax { row, index } => {
                let mut m = String::from_str("GLM5.2 MTP row ");
                m.append(decimal_text(row as u64).as_str());
                m.append(" produced invalid argmax value at index ");
                m.append(signed_text(index as i64).as_str());
                m
            },
            Glm52MtpError::NotMoe => String::from_str(
                "GLM5.2 MTP layer 78 is not EP MoE",
            ),
            Glm52MtpError::ProjBytes { .. } => String::from_str(
                "GLM5.2 MTP eh_proj byte length drifted",
            ),
            Glm52MtpError::NormBytes { which, got } => {
                let mut m = String::from_str("GLM5.2 tensor ");
                m.append(which.tensor_text());
                m.append(" bytes ");
                m.append(decimal_text(got as u64).as_str());
                m.append(" != bf16 [6144]");
                m
            },
        }
    }
}


/// One row that the draft layer is fed.
#[derive(Clone, Copy, Debug, PartialEq, Eq, Structural)]
pub struct Glm52MtpInput {
    pub slot: usize,
    pub token: u32,
    pub position: usize,
}

/// The device inputs of one pass.
#[derive(Debug)]
pub struct Glm52MtpStaging {
    pub tokens: [u32; 8],
    pub positions: [u32; 8],
    pub seq_lens: [i32; 8],
    pub slot_mapping: [i64; 8],
    /// One page-table row per bucket row.
    pub pages: Vec<i32>,
}

/// What the context pass of a round runs on.
#[derive(Debug)]
pub struct Glm52MtpContext {
    pub bucket: usize,
    /// The target rows whose hidden states are copied in, row by row.
    pub target_rows: Vec<usize>,
    pub inputs: Vec<Glm52MtpInput>,
}

/// The draft layer's context: how many tokens each slot has committed, in
/// pages that every slot owns outright.
#[derive(Debug)]
pub struct Glm52NativeMtp {
    pub max_model_len: usize,
    pub table_width: usize,
    pub pages_per_slot: usize,
    pub committed_lens: [usize; 8],
}

/// The committed lengths after the first `k` tokens of a list went in.
pub open spec fn appended(lens: Seq<usize>, appends: Seq<Glm52MtpAppend>, k: int) -> Seq<usize>
    decreases k,
{
    if k <= 0 {
        lens
    } else {
        let before = appended(lens, appends, k - 1);
        let slot = appends[k - 1].slot as int;
        before.update(slot, (before[slot] + 1) as usize)
    }
}

/// Whether the `k`-th token of a list may go in.
pub open spec fn append_fits(
    lens: Seq<usize>,
    appends: Seq<Glm52MtpAppend>,
    k: int,
    target_rows: int,
) -> bool {
    let a = appends[k];
    &&& a.slot < 8
    &&& a.target_row < target_rows
    &&& a.position == appended(lens, appends, k)[a.slot as int]
}

/// What is wrong with the `k`-th token of a list.
pub open spec fn append_fault(
    lens: Seq<usize>,
    appends: Seq<Glm52MtpAppend>,
    k: int,
    target_rows: usize,
) -> Glm52MtpError {
    let a = appends[k];
    if a.slot >= 8 || a.target_row >= target_rows {
        Glm52MtpError::AppendBounds {
            row: k as usize,
            target_row: a.target_row,
            slot: a.slot,
            target_rows,
        }
    } else {
        Glm52MtpError::AppendPosition {
            slot: a.slot,
            position: a.position,
            committed: appended(lens, appends, k)[a.slot as int],
        }
    }
}

/// Whether slots are listed in ascending order without repeats.
pub open spec fn ascending(slots: Seq<usize>) -> bool {
    forall|i: int, j: int| 0 <= i < j < slots.len() ==> slots[i] < slots[j]
}

/// Whether each slot comes before the next one.
pub open spec fn steps_up(slots: Seq<usize>) -> bool {
    forall|i: int| 0 < i < slots.len() ==> slots[i - 1] < #[trigger] slots[i]
}

proof fn lemma_steps_up_is_ascending(slots: Seq<usize>)
    requires
        steps_up(slots),
    ensures
        ascending(slots),
{
    assert forall|i: int, j: int| 0 <= i < j < slots.len() implies slots[i] < slots[j] by {
        lemma_steps_up_between(slots, i, j);
    }
}

proof fn lemma_steps_up_between(slots: Seq<usize>, i: int, j: int)
    requires
        steps_up(slots),
        0 <= i < j < slots.len(),
    ensures
        slots[i] < slots[j],
    decreases j - i,
{
    assert(slots[j - 1] < slots[j]);
    if i < j - 1 {
        lemma_steps_up_between(slots, i, j - 1);
    }
}

/// Whether slots are listed in ascending order without repeats.
pub fn is_ascending(slots: &Vec<usize>) -> (r: bool)
    ensures
        r == ascending(slots@),
        r <==> forall|i: int, j: int| 0 <= i < j < slots.len() ==> slots@[i] < slots@[j],
{
    let mut i: usize = 1;
    while i < slots.len()
        invariant
            1 <= i,
            slots.len() > 0 ==> i <= slots.len(),
            forall|j: int| 0 < j < i && j < slots.len() ==> slots@[j - 1] < #[trigger] slots@[j],
        decreases slots.len() - i,
    {
        if slots[i - 1] >= slots[i] {
            assert(!(slots@[i - 1] < slots@[i as int]));
            return false;
        }
        i = i + 1;
    }
    proof {
        lemma_steps_up_is_ascending(slots@);
    }
    true
}

/// The page of the draft cache that holds a slot's position.
pub open spec fn draft_page(pages_per_slot: int, slot: int, position: int) -> int {
    1 + slot * pages_per_slot + position / 64
}

/// What a staged pass holds for the rows that were given.
pub open spec fn stages(
    m: Glm52NativeMtp,
    rows: int,
    inputs: Seq<Glm52MtpInput>,
    s: Glm52MtpStaging,
) -> bool {
    &&& s.pages.len() == rows * m.table_width
    &&& forall|r: int|
        0 <= r < inputs.len() ==> {
            let input = #[trigger] inputs[r];
            &&& s.tokens@[r] == input.token
            &&& s.positions@[r] == input.position
            &&& s.seq_lens@[r] == input.position + 1
            &&& s.slot_mapping@[r] == 64 * draft_page(
                m.pages_per_slot as int,
                input.slot as int,
                input.position as int,
            ) + input.position % 64
        }
    &&& forall|r: int|
        inputs.len() <= r < 8 ==> {
            &&& #[trigger] s.tokens@[r] == 0
            &&& s.positions@[r] == 0
            &&& s.seq_lens@[r] == 1
            &&& s.slot_mapping@[r] == 0
        }
    &&& forall|r: int, p: int|
        0 <= r < rows && 0 <= p < m.table_width ==> #[trigger] s.pages@[r * m.table_width + p] == (
        if r < inputs.len() && p <= inputs[r].position / 64 {
            1 + inputs[r].slot * m.pages_per_slot + p
        } else {
            0
        })
}

/// Whether a row may be fed to a pass.
pub open spec fn input_fits(m: Glm52NativeMtp, rows: int, r: int, input: Glm52MtpInput) -> bool {
    r < rows && input.slot < 8 && input.position < m.max_model_len
}

impl Glm52NativeMtp {
    /// Whether the page geometry is that of the context cap.
    pub open spec fn wf(self) -> bool {
        &&& self.max_model_len < 0x7fff_ffff
        &&& self.table_width == crate::budget::table_width(self.max_model_len as int)
        &&& self.pages_per_slot == crate::arith::ceil_div(self.max_model_len + 1, 64)
    }

    /// An empty draft context for a cap.
    pub fn new(max_model_len: usize) -> (r: Self)
        requires
            max_model_len < 0x7fff_ffff,
        ensures
            r.wf(),
            r.max_model_len == max_model_len,
            forall|slot: int| 0 <= slot < 8 ==> #[trigger] r.committed_lens@[slot] == 0,
    {
        Glm52NativeMtp {
            max_model_len,
            table_width: crate::arith::div_ceil(max_model_len, GLM52_PAGE_SIZE),
            pages_per_slot: crate::arith::div_ceil(max_model_len + 1, GLM52_PAGE_SIZE),
            committed_lens: [0; 8],
        }
    }

    /// Empties slots. A slot out of range ends the list.
    pub fn reset_slots(&mut self, resets: &Vec<usize>) -> (r: Result<(), Glm52MtpError>)
        ensures
            *final(self) == (Glm52NativeMtp {
                committed_lens: final(self).committed_lens,
                ..*old(self)
            }),
            match r {
                Ok(()) => {
                    &&& forall|i: int| 0 <= i < resets.len() ==> #[trigger] resets@[i] < 8
                    &&& forall|slot: int|
                        0 <= slot < 8 ==> #[trigger] final(self).committed_lens@[slot] == (
                        if resets@.contains(slot as usize) {
                            0
                        } else {
                            old(self).committed_lens@[slot]
                        })
                },
                Err(e) => exists|k: int|
                    {
                        &&& 0 <= k < resets.len()
                        &&& #[trigger] resets@[k] >= 8
                        &&& e == (Glm52MtpError::ResetSlot { slot: resets@[k] })
                        &&& forall|i: int| 0 <= i < k ==> #[trigger] resets@[i] < 8
                        &&& forall|slot: int|
                            0 <= slot < 8 ==> #[trigger] final(self).committed_lens@[slot] == (
                            if resets@.subrange(0, k).contains(slot as usize) {
                                0
                            } else {
                                old(self).committed_lens@[slot]
                            })
                    },
            },
    {
        let mut i: usize = 0;
        while i < resets.len()
            invariant
                i <= resets.len(),
                *self == (Glm52NativeMtp { committed_lens: self.committed_lens, ..*old(self) }),
                forall|j: int| 0 <= j < i ==> #[trigger] resets@[j] < 8,
                forall|slot: int|
                    0 <= slot < 8 ==> #[trigger] self.committed_lens@[slot] == (
                    if resets@.subrange(0, i as int).contains(slot as usize) {
                        0
                    } else {
                        old(self).committed_lens@[slot]
                    }),
            decreases resets.len() - i,
        {
            let slot: usize = resets[i];
            if slot >= GLM52_MAX_BATCH_PER_RANK {
                return Err(Glm52MtpError::ResetSlot { slot });
            }
            let ghost before = resets@.subrange(0, i as int);
            let ghost after = resets@.subrange(0, i + 1);
            proof {
                assert(after =~= before.push(slot));
                assert forall|s: usize| after.contains(s) == (before.contains(s) || s == slot) by {
                    if before.contains(s) {
                        let at = choose|at: int| 0 <= at < before.len() && before[at] == s;
                        assert(after[at] == s);
                    }
                    if s == slot {
                        assert(after[before.len() as int] == s);
                    }
                    if after.contains(s) {
                        let at = choose|at: int| 0 <= at < after.len() && after[at] == s;
                        if at < before.len() {
                            assert(before[at] == s);
                        }
                    }
                }
            }
            self.committed_lens[slot] = 0;
            i = i + 1;
        }
        assert(resets@.subrange(0, resets.len() as int) =~= resets@);
        Ok(())
    }

    /// What the opening of a context pass comes to: the tokens go in one by
    /// one, each at its slot's committed length, and those before a refused
    /// one stay in.
    pub open spec fn context_begins(
        before: Self,
        after: Self,
        context_bucket: usize,
        appends: Seq<Glm52MtpAppend>,
        proposal_slots: Seq<usize>,
        target_rows: usize,
        r: Result<Glm52MtpContext, Glm52MtpError>,
    ) -> bool {
        let lens = before.committed_lens@;
        &&& after == (Glm52NativeMtp { committed_lens: after.committed_lens, ..before })
        &&& match r {
            Ok(c) => {
                &&& appends.len() <= context_bucket
                &&& ascending(proposal_slots)
                &&& c.bucket < 4
                &&& seq![1usize, 2usize, 4usize, 8usize][c.bucket as int] == context_bucket
                &&& forall|k: int|
                    0 <= k < appends.len() ==> #[trigger] append_fits(
                        lens,
                        appends,
                        k,
                        target_rows as int,
                    )
                &&& after.committed_lens@ == appended(
                    lens,
                    appends,
                    appends.len() as int,
                )
                &&& c.target_rows.len() == appends.len()
                &&& c.inputs.len() == appends.len()
                &&& forall|k: int|
                    0 <= k < appends.len() ==> #[trigger] c.target_rows@[k]
                        == appends[k].target_row
                &&& forall|k: int|
                    0 <= k < appends.len() ==> #[trigger] c.inputs@[k] == (Glm52MtpInput {
                        slot: appends[k].slot,
                        token: appends[k].input_token,
                        position: appends[k].position,
                    })
            },
            Err(Glm52MtpError::ContextRows { rows, bucket }) => {
                &&& rows == appends.len() && bucket == context_bucket
                &&& appends.len() > context_bucket
                &&& after.committed_lens@ == lens
            },
            Err(Glm52MtpError::SlotsNotAscending) => {
                &&& appends.len() <= context_bucket
                &&& !ascending(proposal_slots)
                &&& after.committed_lens@ == lens
            },
            Err(Glm52MtpError::Bucket { rows }) => {
                &&& rows == context_bucket
                &&& appends.len() <= context_bucket
                &&& ascending(proposal_slots)
                &&& !crate::config::is_bucket(context_bucket as int)
                &&& after.committed_lens@ == lens
            },
            Err(e) => {
                &&& appends.len() <= context_bucket
                &&& ascending(proposal_slots)
                &&& crate::config::is_bucket(context_bucket as int)
                &&& exists|k: int|
                    {
                        &&& 0 <= k < appends.len()
                        &&& !(#[trigger] append_fits(
                            lens,
                            appends,
                            k,
                            target_rows as int,
                        ))
                        &&& forall|j: int|
                            0 <= j < k ==> #[trigger] append_fits(
                                lens,
                                appends,
                                j,
                                target_rows as int,
                            )
                        &&& e == append_fault(lens, appends, k, target_rows)
                        &&& after.committed_lens@ == appended(lens, appends, k)
                    }
            },
        }
    }

    /// Takes a round's committed tokens into the draft context and says what
    /// the context pass runs on. A token must sit at its slot's committed
    /// length, which then grows; the tokens before a refused one stay in.
    pub fn begin_context(
        &mut self,
        context_bucket: usize,
        appends: &Vec<Glm52MtpAppend>,
        proposal_slots: &Vec<usize>,
        target_rows: usize,
    ) -> (r: Result<Glm52MtpContext, Glm52MtpError>)
        requires
            forall|slot: int|
                0 <= slot < 8 ==> (#[trigger] old(self).committed_lens@[slot]) + 8 <= usize::MAX,
        ensures
            Self::context_begins(
                *old(self),
                *final(self),
                context_bucket,
                appends@,
                proposal_slots@,
                target_rows,
                r,
            ),
            r is Ok ==> forall|k: int|
                0 <= k < appends.len() ==> (#[trigger] appends@[k]).slot < 8
                    && appends@[k].target_row < target_rows && appends@[k].position == old(
                    self,
                ).committed_lens@[appends@[k].slot as int] + appends_of(
                    appends@,
                    appends@[k].slot as int,
                    k,
                ),
            r matches Err(Glm52MtpError::AppendBounds { row, target_row, slot, target_rows: all })
                ==> {
                &&& row < appends.len()
                &&& all == target_rows
                &&& slot == appends@[row as int].slot
                &&& target_row == appends@[row as int].target_row
                &&& slot >= 8 || target_row >= target_rows
            },
            r matches Err(Glm52MtpError::AppendPosition { slot, position, committed }) ==> {
                &&& slot < 8
                &&& position != committed
                &&& exists|k: int|
                    0 <= k < appends.len() && (#[trigger] appends@[k]).slot == slot
                        && appends@[k].position == position && committed == old(
                        self,
                    ).committed_lens@[slot as int] + appends_of(appends@, slot as int, k)
            },
    {
        if appends.len() > context_bucket {
            return Err(
                Glm52MtpError::ContextRows { rows: appends.len(), bucket: context_bucket },
            );
        }
        if !is_ascending(proposal_slots) {
            return Err(Glm52MtpError::SlotsNotAscending);
        }
        let bucket: usize = match bucket_index(context_bucket) {
            Some(i) => i,
            None => {
                return Err(Glm52MtpError::Bucket { rows: context_bucket });
            },
        };
        let ghost lens = self.committed_lens@;
        let mut target: Vec<usize> = Vec::new();
        let mut inputs: Vec<Glm52MtpInput> = Vec::new();
        let mut k: usize = 0;
        while k < appends.len()
            invariant
                k <= appends.len() <= 8,
                lens == old(self).committed_lens@,
                *self == (Glm52NativeMtp { committed_lens: self.committed_lens, ..*old(self) }),
                self.committed_lens@ == appended(lens, appends@, k as int),
                forall|slot: int|
                    0 <= slot < 8 ==> (#[trigger] lens[slot]) + 8 <= usize::MAX
                        && self.committed_lens@[slot] <= lens[slot] + k,
                forall|j: int|
                    0 <= j < k ==> #[trigger] append_fits(
                        lens,
                        appends@,
                        j,
                        target_rows as int,
                    ),
                target.len() == k,
                inputs.len() == k,
                forall|j: int| 0 <= j < k ==> #[trigger] target@[j] == appends@[j].target_row,
                forall|j: int|
                    0 <= j < k ==> #[trigger] inputs@[j] == (Glm52MtpInput {
                        slot: appends@[j].slot,
                        token: appends@[j].input_token,
                        position: appends@[j].position,
                    }),
                ascending(proposal_slots@),
                crate::config::is_bucket(context_bucket as int),
                appends.len() <= context_bucket,
            decreases appends.len() - k,
        {
            let a: Glm52MtpAppend = appends[k];
            if !(a.slot < GLM52_MAX_BATCH_PER_RANK && a.target_row < target_rows) {
                assert(!append_fits(lens, appends@, k as int, target_rows as int));
                return Err(
                    Glm52MtpError::AppendBounds {
                        row: k,
                        target_row: a.target_row,
                        slot: a.slot,
                        target_rows,
                    },
                );
            }
            let committed: usize = self.committed_lens[a.slot];
            proof {
                committed_lengths_count_the_tokens(
                    lens,
                    appends@,
                    a.slot as int,
                    k as int,
                    target_rows as int,
                );
                assert(appends@[k as int].slot == a.slot);
            }
            if a.position != committed {
                assert(!append_fits(lens, appends@, k as int, target_rows as int));
                return Err(
                    Glm52MtpError::AppendPosition {
                        slot: a.slot,
                        position: a.position,
                        committed,
                    },
                );
            }
            assert(append_fits(lens, appends@, k as int, target_rows as int));
            assert(lens[a.slot as int] + 8 <= usize::MAX);
            self.committed_lens[a.slot] = committed + 1;
            assert(self.committed_lens@ =~= appended(lens, appends@, k + 1));
            target.push(a.target_row);
            inputs.push(
                Glm52MtpInput { slot: a.slot, token: a.input_token, position: a.position },
            );
            k = k + 1;
        }
        assert forall|j: int| 0 <= j < appends.len() implies (#[trigger] appends@[j]).slot < 8
            && appends@[j].target_row < target_rows && appends@[j].position
            == lens[appends@[j].slot as int] + appends_of(
            appends@,
            appends@[j].slot as int,
            j,
        ) by {
            assert(append_fits(lens, appends@, j, target_rows as int));
            committed_lengths_count_the_tokens(
                lens,
                appends@,
                appends@[j].slot as int,
                j,
                target_rows as int,
            );
        }
        Ok(Glm52MtpContext { bucket, target_rows: target, inputs })
    }

    /// Stages the device inputs of one pass over a bucket's rows. A slot's
    /// page-table row covers its context up to the row's position; the rows
    /// behind the inputs stay padding.
    pub fn stage(&self, rows: usize, inputs: &Vec<Glm52MtpInput>) -> (r: Result<
        Glm52MtpStaging,
        Glm52MtpError,
    >)
        requires
            self.wf(),
            crate::config::is_bucket(rows as int),
        ensures
            match r {
                Ok(s) => {
                    &&& forall|k: int|
                        0 <= k < inputs.len() ==> input_fits(
                            *self,
                            rows as int,
                            k,
                            #[trigger] inputs@[k],
                        )
                    &&& stages(*self, rows as int, inputs@, s)
                },
                Err(e) => exists|k: int|
                    {
                        &&& 0 <= k < inputs.len()
                        &&& !input_fits(*self, rows as int, k, #[trigger] inputs@[k])
                        &&& forall|j: int|
                            0 <= j < k ==> input_fits(*self, rows as int, j, #[trigger] inputs@[j])
                        &&& e == (Glm52MtpError::Input {
                            row: k as usize,
                            rows,
                            slot: inputs@[k].slot,
                            position: inputs@[k].position,
                            cap: self.max_model_len,
                        })
                    },
            },
            r is Ok <==> inputs.len() <= rows && forall|k: int|
                0 <= k < inputs.len() ==> (#[trigger] inputs@[k]).slot < 8 && inputs@[k].position
                    < self.max_model_len,
            r matches Ok(s) ==> {
                &&& forall|k: int|
                    inputs.len() <= k < 8 ==> #[trigger] s.tokens@[k] == 0 && s.positions@[k] == 0
                        && s.seq_lens@[k] == 1 && s.slot_mapping@[k] == 0
                &&& forall|k: int, p: int|
                    inputs.len() <= k < rows && 0 <= p < self.table_width
                        ==> #[trigger] s.pages@[k * self.table_width + p] == 0
                &&& forall|k: int, p: int|
                    0 <= k < inputs.len() && inputs@[k].position / 64 < p < self.table_width
                        ==> #[trigger] s.pages@[k * self.table_width + p] == 0
            },
    {
        let width: usize = self.table_width;
        let pages_per_slot: usize = self.pages_per_slot;
        assert(rows * width <= 8 * width) by (nonlinear_arith)
            requires
                rows <= 8,
        ;
        let mut s = Glm52MtpStaging {
            tokens: [0; 8],
            positions: [0; 8],
            seq_lens: [1; 8],
            slot_mapping: [0; 8],
            pages: vec![0i32; rows * width],
        };
        assert(stages(*self, rows as int, inputs@.subrange(0, 0), s)) by {
            assert forall|r: int, p: int|
                0 <= r < rows && 0 <= p < width implies #[trigger] s.pages@[r * width + p] == 0 by {
                assert(0 <= r * width + p < rows * width) by (nonlinear_arith)
                    requires
                        0 <= r < rows,
                        0 <= p < width,
                ;
            }
        }
        let mut row: usize = 0;
        while row < inputs.len()
            invariant
                row <= inputs.len(),
                row <= rows <= 8,
                self.wf(),
                width == self.table_width,
                pages_per_slot == self.pages_per_slot,
                rows * width <= 8 * width,
                forall|k: int|
                    0 <= k < row ==> input_fits(*self, rows as int, k, #[trigger] inputs@[k]),
                stages(*self, rows as int, inputs@.subrange(0, row as int), s),
            decreases inputs.len() - row,
        {
            let input: Glm52MtpInput = inputs[row];
            if !(row < rows && input.slot < GLM52_MAX_BATCH_PER_RANK && input.position
                < self.max_model_len) {
                assert(!input_fits(*self, rows as int, row as int, inputs@[row as int]));
                return Err(
                    Glm52MtpError::Input {
                        row,
                        rows,
                        slot: input.slot,
                        position: input.position,
                        cap: self.max_model_len,
                    },
                );
            }
            let ghost before = inputs@.subrange(0, row as int);
            let ghost after = inputs@.subrange(0, row + 1);
            let ghost kept = s;
            proof {
                assert(after =~= before.push(input));
                assert(input.slot * pages_per_slot <= 7 * pages_per_slot) by (nonlinear_arith)
                    requires
                        input.slot <= 7,
                ;
                assert(row * width + width <= rows * width) by (nonlinear_arith)
                    requires
                        row < rows,
                ;
            }
            let page_offset: usize = input.position / GLM52_PAGE_SIZE;
            let first: usize = 1 + input.slot * pages_per_slot;
            s.tokens[row] = input.token;
            s.positions[row] = input.position as u32;
            s.seq_lens[row] = (input.position + 1) as i32;
            s.slot_mapping[row] = (first + page_offset) as i64 * 64 + (input.position % 64) as i64;
            let base: usize = row * width;
            let mut logical: usize = 0;
            while logical <= page_offset
                invariant
                    logical <= page_offset + 1,
                    page_offset < width,
                    width <= 0x200_0000,
                    row < rows <= 8,
                    base == row * width,
                    base + width <= rows * width,
                    rows * width <= 8 * width,
                    first + page_offset <= 0x7fff_ffff,
                    s.pages.len() == rows * width,
                    kept.pages.len() == rows * width,
                    forall|i: int|
                        0 <= i < s.pages.len() ==> #[trigger] s.pages@[i] == (if base <= i < base
                            + logical {
                            first + (i - base)
                        } else {
                            kept.pages@[i] as int
                        }),
                    s.tokens@ == kept.tokens@.update(row as int, input.token),
                    s.positions@ == kept.positions@.update(row as int, input.position as u32),
                    s.seq_lens@ == kept.seq_lens@.update(row as int, (input.position + 1) as i32),
                    s.slot_mapping@ == kept.slot_mapping@.update(
                        row as int,
                        ((first + page_offset) * 64 + input.position % 64) as i64,
                    ),
                decreases page_offset + 1 - logical,
            {
                s.pages.set(base + logical, (first + logical) as i32);
                logical = logical + 1;
            }
            proof {
                lemma_row_staged(*self, rows as int, before, after, input, row as int, kept, s);
            }
            row = row + 1;
        }
        assert(inputs@.subrange(0, inputs.len() as int) =~= inputs@);
        Ok(s)
    }
}

/// Whether a slot has a token in a round.
pub open spec fn has_append(appends: Seq<Glm52MtpAppend>, slot: usize) -> bool {
    exists|k: int| 0 <= k < appends.len() && (#[trigger] appends[k]).slot == slot
}

/// Whether a row is a slot's last token of a round.
pub open spec fn is_last_append(appends: Seq<Glm52MtpAppend>, slot: usize, row: int) -> bool {
    &&& 0 <= row < appends.len()
    &&& appends[row].slot == slot
    &&& forall|k: int| row < k < appends.len() ==> (#[trigger] appends[k]).slot != slot
}

/// What the search for the proposing slots' last rows comes to: each must have
/// a token in the round, and the first that has none is reported.
pub open spec fn finds_last_rows(
    draft_bucket: usize,
    slots: Seq<usize>,
    appends: Seq<Glm52MtpAppend>,
    r: Result<Vec<usize>, Glm52MtpError>,
) -> bool {
    &&& match r {
        Ok(rows) => {
            &&& slots.len() <= draft_bucket
            &&& rows.len() == slots.len()
            &&& forall|i: int|
                0 <= i < rows.len() ==> is_last_append(
                    appends,
                    slots[i],
                    #[trigger] rows@[i] as int,
                )
        },
        Err(Glm52MtpError::DraftRows { rows, bucket }) => {
            &&& rows == slots.len() && bucket == draft_bucket
            &&& slots.len() > draft_bucket
        },
        Err(Glm52MtpError::NoAppend { slot }) => {
            &&& slots.len() <= draft_bucket
            &&& exists|i: int|
                {
                    &&& 0 <= i < slots.len()
                    &&& #[trigger] slots[i] == slot
                    &&& !has_append(appends, slot)
                    &&& forall|j: int|
                        0 <= j < i ==> has_append(appends, #[trigger] slots[j])
                }
        },
        Err(_) => false,
    }
    &&& r is Ok <==> slots.len() <= draft_bucket && forall|i: int|
        0 <= i < slots.len() ==> has_append(
            appends,
            #[trigger] slots[i],
        )
}

/// Finds the context row whose hidden state and selection each proposing
/// slot drafts from: the slot's last token of the round.
pub fn last_rows(
    draft_bucket: usize,
    proposal_slots: &Vec<usize>,
    appends: &Vec<Glm52MtpAppend>,
) -> (r: Result<Vec<usize>, Glm52MtpError>)
    ensures
        finds_last_rows(draft_bucket, proposal_slots@, appends@, r),
        r matches Ok(rows) ==> rows.len() == proposal_slots.len() && forall|i: int|
            0 <= i < rows.len() ==> (#[trigger] rows@[i]) < appends.len()
                && appends@[rows@[i] as int].slot == proposal_slots@[i],
        r matches Ok(rows) ==> forall|i: int, k: int|
            0 <= i < rows.len() && rows@[i] < k < appends.len()
                ==> (#[trigger] appends@[k]).slot != #[trigger] proposal_slots@[i],
        r matches Err(Glm52MtpError::NoAppend { slot }) ==> proposal_slots@.contains(slot)
            && forall|k: int| 0 <= k < appends.len() ==> (#[trigger] appends@[k]).slot != slot,
{
    if proposal_slots.len() > draft_bucket {
        return Err(
            Glm52MtpError::DraftRows { rows: proposal_slots.len(), bucket: draft_bucket },
        );
    }
    let mut rows: Vec<usize> = Vec::new();
    let mut i: usize = 0;
    while i < proposal_slots.len()
        invariant
            i <= proposal_slots.len() <= draft_bucket,
            rows.len() == i,
            forall|j: int|
                0 <= j < i ==> is_last_append(
                    appends@,
                    proposal_slots@[j],
                    #[trigger] rows@[j] as int,
                ),
            forall|j: int|
                0 <= j < i ==> has_append(appends@, #[trigger] proposal_slots@[j]),
        decreases proposal_slots.len() - i,
    {
        let slot: usize = proposal_slots[i];
        let mut row: usize = appends.len();
        while row > 0 && appends[row - 1].slot != slot
            invariant
                row <= appends.len(),
                forall|k: int|
                    row <= k < appends.len() ==> (#[trigger] appends@[k]).slot != slot,
            decreases row,
        {
            row = row - 1;
        }
        if row == 0 {
            assert(!has_append(appends@, slot));
            return Err(Glm52MtpError::NoAppend { slot });
        }
        assert(is_last_append(appends@, slot, row - 1));
        rows.push(row - 1);
        i = i + 1;
    }
    Ok(rows)
}

proof fn lemma_row_staged(
    m: Glm52NativeMtp,
    rows: int,
    before: Seq<Glm52MtpInput>,
    after: Seq<Glm52MtpInput>,
    input: Glm52MtpInput,
    row: int,
    kept: Glm52MtpStaging,
    s: Glm52MtpStaging,
)
    requires
        m.wf(),
        stages(m, rows, before, kept),
        after == before.push(input),
        before.len() == row,
        0 <= row < rows <= 8,
        input.slot < 8,
        input.position < m.max_model_len,
        s.pages.len() == rows * m.table_width,
        forall|i: int|
            0 <= i < s.pages.len() ==> #[trigger] s.pages@[i] == (if row * m.table_width <= i < row
                * m.table_width + (input.position / 64 + 1) {
                1 + input.slot * m.pages_per_slot + (i - row * m.table_width)
            } else {
                kept.pages@[i] as int
            }),
        s.tokens@ == kept.tokens@.update(row, input.token),
        s.positions@ == kept.positions@.update(row, input.position as u32),
        s.seq_lens@ == kept.seq_lens@.update(row, (input.position + 1) as i32),
        s.slot_mapping@ == kept.slot_mapping@.update(
            row,
            ((1 + input.slot * m.pages_per_slot + input.position / 64) * 64 + input.position
                % 64) as i64,
        ),
        1 + input.slot * m.pages_per_slot + input.position / 64 <= 0x7fff_ffff,
    ensures
        stages(m, rows, after, s),
{
    let width = m.table_width as int;
    assert forall|r: int| 0 <= r < after.len() implies {
        let given = #[trigger] after[r];
        &&& s.tokens@[r] == given.token
        &&& s.positions@[r] == given.position
        &&& s.seq_lens@[r] == given.position + 1
        &&& s.slot_mapping@[r] == 64 * draft_page(
            m.pages_per_slot as int,
            given.slot as int,
            given.position as int,
        ) + given.position % 64
    } by {
        if r < row {
            assert(after[r] == before[r]);
        }
    }
    assert forall|r: int| after.len() <= r < 8 implies {
        &&& #[trigger] s.tokens@[r] == 0
        &&& s.positions@[r] == 0
        &&& s.seq_lens@[r] == 1
        &&& s.slot_mapping@[r] == 0
    } by {
        assert(kept.tokens@[r] == 0);
    }
    assert forall|r: int, p: int| 0 <= r < rows && 0 <= p < width implies #[trigger] s.pages@[r
        * width + p] == (if r < after.len() && p <= after[r].position / 64 {
        1 + after[r].slot * m.pages_per_slot + p
    } else {
        0
    }) by {
        assert(0 <= r * width + p < rows * width) by (nonlinear_arith)
            requires
                0 <= r < rows,
                0 <= p < width,
        ;
        if r == row {
        } else if r < row {
            assert(r * width + p < row * width) by (nonlinear_arith)
                requires
                    r < row,
                    0 <= p < width,
            ;
            assert(after[r] == before[r]);
        } else {
            assert(row * width + width <= r * width + p) by (nonlinear_arith)
                requires
                    row < r,
                    0 <= p,
                    0 <= width,
            ;
            assert(input.position / 64 + 1 <= width);
        }
        assert(kept.pages@[r * width + p] == (if r < before.len() && p <= before[r].position / 64 {
            1 + before[r].slot * m.pages_per_slot + p
        } else {
            0
        }));
    }
}

/// Whether a row's score and index are a token.
pub open spec fn argmax_valid(finite: Seq<bool>, indices: Seq<i32>, row: int) -> bool {
    finite[row] && indices[row] >= 0
}

/// What reading the tokens of a pass comes to: every row must hold a token, and
/// the first that does not is reported.
pub open spec fn reads_argmax(
    finite: Seq<bool>,
    indices: Seq<i32>,
    r: Result<Vec<u32>, Glm52MtpError>,
) -> bool {
    match r {
        Ok(tokens) => {
            &&& tokens.len() == indices.len()
            &&& forall|i: int|
                0 <= i < indices.len() ==> #[trigger] argmax_valid(finite, indices, i)
            &&& forall|i: int|
                0 <= i < indices.len() ==> #[trigger] tokens@[i] == indices[i]
        },
        Err(e) => exists|i: int|
            {
                &&& 0 <= i < indices.len()
                &&& !(#[trigger] argmax_valid(finite, indices, i))
                &&& e == (Glm52MtpError::Argmax { row: i as usize, index: indices[i] })
                &&& forall|j: int|
                    0 <= j < i ==> #[trigger] argmax_valid(finite, indices, j)
            },
    }
}

/// Reads the tokens of a pass: the score of each row must be finite and its
/// index not negative.
pub fn read_argmax(finite: &Vec<bool>, indices: &Vec<i32>) -> (r: Result<
    Vec<u32>,
    Glm52MtpError,
>)
    requires
        finite.len() == indices.len(),
    ensures
        reads_argmax(finite@, indices@, r),
        r is Ok <==> forall|i: int|
            0 <= i < indices.len() ==> #[trigger] finite@[i] && indices@[i] >= 0,
        r matches Ok(tokens) ==> tokens.len() == indices.len() && forall|i: int|
            0 <= i < indices.len() ==> #[trigger] tokens@[i] as int == indices@[i] as int,
{
    let mut tokens: Vec<u32> = Vec::new();
    let mut i: usize = 0;
    while i < indices.len()
        invariant
            i <= indices.len(),
            finite.len() == indices.len(),
            tokens.len() == i,
            forall|j: int| 0 <= j < i ==> #[trigger] argmax_valid(finite@, indices@, j),
            forall|j: int| 0 <= j < i ==> #[trigger] tokens@[j] == indices@[j],
        decreases indices.len() - i,
    {
        let index: i32 = indices[i];
        if !(finite[i] && index >= 0) {
            assert(!argmax_valid(finite@, indices@, i as int));
            assert(!(finite@[i as int] && indices@[i as int] >= 0));
            return Err(Glm52MtpError::Argmax { row: i, index });
        }
        assert(argmax_valid(finite@, indices@, i as int));
        tokens.push(index as u32);
        i = i + 1;
    }
    assert forall|k: int| 0 <= k < indices.len() implies #[trigger] finite@[k] by {
        assert(argmax_valid(finite@, indices@, k));
    }
    assert forall|k: int| 0 <= k < indices.len() implies #[trigger] indices@[k] >= 0 by {
        assert(argmax_valid(finite@, indices@, k));
    }
    Ok(tokens)
}

/// One launch of a draft pass.
#[derive(Clone, Copy, Debug, PartialEq, Eq, Structural)]
pub enum Glm52MtpOp {
    Embed,
    /// Token embedding and previous hidden state, normed and projected.
    Prepare,
    TakeInput,
    InputNorm,
    /// The attention half; `selects` where the layer runs its own indexer.
    Attention { selects: bool },
    Moe { rows: usize, global_rows: usize },
    Finish,
    Recycle,
    Head,
    Argmax,
}

/// The launches of a draft pass.
pub open spec fn mtp_ops(rows: usize, selects: bool) -> Seq<Glm52MtpOp> {
    seq![
        Glm52MtpOp::Embed,
        Glm52MtpOp::Prepare,
        Glm52MtpOp::TakeInput,
        Glm52MtpOp::InputNorm,
        Glm52MtpOp::Attention { selects },
        Glm52MtpOp::Moe { rows, global_rows: (8 * rows) as usize },
        Glm52MtpOp::Finish,
        Glm52MtpOp::Recycle,
        Glm52MtpOp::Head,
        Glm52MtpOp::Argmax,
    ]
}

/// Plans a draft pass. The context pass selects its sparse tokens; the draft
/// passes reuse the context row's selection.
pub fn plan_mtp_forward(rows: usize, selects: bool, is_moe: bool) -> (r: Result<
    Vec<Glm52MtpOp>,
    Glm52MtpError,
>)
    requires
        rows <= 8,
    ensures
        match r {
            Ok(ops) => is_moe && ops@ == mtp_ops(rows, selects),
            Err(e) => !is_moe && e == Glm52MtpError::NotMoe,
        },
{
    if !is_moe {
        return Err(Glm52MtpError::NotMoe);
    }
    let ops: Vec<Glm52MtpOp> = vec![
        Glm52MtpOp::Embed,
        Glm52MtpOp::Prepare,
        Glm52MtpOp::TakeInput,
        Glm52MtpOp::InputNorm,
        Glm52MtpOp::Attention { selects },
        Glm52MtpOp::Moe { rows, global_rows: GLM52_EP_RANKS * rows },
        Glm52MtpOp::Finish,
        Glm52MtpOp::Recycle,
        Glm52MtpOp::Head,
        Glm52MtpOp::Argmax,
    ];
    assert(ops@ =~= mtp_ops(rows, selects));
    Ok(ops)
}

/// What the draft layer is built with.
#[derive(Clone, Copy, Debug)]
pub struct Glm52MtpBuild {
    pub num_blocks: usize,
    pub table_width: usize,
    pub mla_cache_bytes: u64,
    pub index_cache_bytes: u64,
    pub buckets: [Glm52BucketPlan; 4],
    /// Entries of the shared selection.
    pub shared_topk_len: usize,
}

/// Plans the build of the draft layer: checks the bytes of the layers around
/// it, and sizes one layer's caches and the buckets for the context cap.
pub fn plan_mtp_build(
    max_model_len: usize,
    enorm_bytes: usize,
    hnorm_bytes: usize,
    eh_proj_bytes: usize,
    shared_norm_bytes: usize,
) -> (r: Result<Glm52MtpBuild, Glm52MtpError>)
    requires
        crate::rank_model::addressable(max_model_len),
    ensures
        match r {
            Ok(b) => {
                &&& enorm_bytes == 12_288 && hnorm_bytes == 12_288 && shared_norm_bytes == 12_288
                &&& eh_proj_bytes == 150_994_944
                &&& b.num_blocks == crate::budget::pool_blocks(max_model_len as int)
                &&& b.table_width == crate::budget::table_width(max_model_len as int)
                &&& b.mla_cache_bytes == 41_984 * b.num_blocks
                &&& b.index_cache_bytes == 8448 * b.num_blocks
                &&& crate::rank_model::bucket_plan(1, max_model_len as int, b.buckets@[0])
                &&& crate::rank_model::bucket_plan(2, max_model_len as int, b.buckets@[1])
                &&& crate::rank_model::bucket_plan(4, max_model_len as int, b.buckets@[2])
                &&& crate::rank_model::bucket_plan(8, max_model_len as int, b.buckets@[3])
                &&& b.shared_topk_len == 16_384
            },
            Err(e) => e == (if enorm_bytes != 12_288 {
                Glm52MtpError::NormBytes { which: Glm52MtpNorm::Embedding, got: enorm_bytes }
            } else if hnorm_bytes != 12_288 {
                Glm52MtpError::NormBytes { which: Glm52MtpNorm::Hidden, got: hnorm_bytes }
            } else if eh_proj_bytes != 150_994_944 {
                Glm52MtpError::ProjBytes { got: eh_proj_bytes }
            } else {
                Glm52MtpError::NormBytes { which: Glm52MtpNorm::SharedHead, got: shared_norm_bytes }
            }) && (enorm_bytes != 12_288 || hnorm_bytes != 12_288 || eh_proj_bytes != 150_994_944
                || shared_norm_bytes != 12_288),
        },
{
    if enorm_bytes != 12_288 {
        return Err(Glm52MtpError::NormBytes { which: Glm52MtpNorm::Embedding, got: enorm_bytes });
    }
    if hnorm_bytes != 12_288 {
        return Err(Glm52MtpError::NormBytes { which: Glm52MtpNorm::Hidden, got: hnorm_bytes });
    }
    if eh_proj_bytes != 150_994_944 {
        return Err(Glm52MtpError::ProjBytes { got: eh_proj_bytes });
    }
    if shared_norm_bytes != 12_288 {
        return Err(Glm52MtpError::NormBytes { which: Glm52MtpNorm::SharedHead, got: shared_norm_bytes });
    }
    let num_blocks: usize = glm52_pool_blocks(max_model_len);
    let (table_width, layout) = glm52_index_cache_layout(max_model_len);
    let b0 = plan_bucket(1, max_model_len, num_blocks, table_width, layout);
    let b1 = plan_bucket(2, max_model_len, num_blocks, table_width, layout);
    let b2 = plan_bucket(4, max_model_len, num_blocks, table_width, layout);
    let b3 = plan_bucket(8, max_model_len, num_blocks, table_width, layout);
    assert(num_blocks * layout.cache_block_stride_bytes == 8448 * num_blocks) by (nonlinear_arith)
        requires
            layout.cache_block_stride_bytes == 8448,
    ;
    Ok(
        Glm52MtpBuild {
            num_blocks,
            table_width,
            mla_cache_bytes: num_blocks as u64 * 41_984,
            index_cache_bytes: layout.min_cache_bytes(),
            buckets: [b0, b1, b2, b3],
            shared_topk_len: GLM52_MAX_BATCH_PER_RANK * 2048,
        },
    )
}

/// Every slot's pages lie in the pool, behind the padding page, and no two
/// slots share one.
pub proof fn draft_pages_are_private(
    max_model_len: int,
    slot: int,
    position: int,
    other_slot: int,
    other_position: int,
)
    requires
        0 <= slot < 8,
        0 <= other_slot < 8,
        0 <= position <= max_model_len,
        0 <= other_position <= max_model_len,
    ensures
        ({
            let per_slot = crate::arith::ceil_div(max_model_len + 1, 64);
            let page = draft_page(per_slot, slot, position);
            let other = draft_page(per_slot, other_slot, other_position);
            &&& 1 <= page < crate::budget::pool_blocks(max_model_len)
            &&& page == other ==> slot == other_slot && position / 64 == other_position / 64
        }),
{
    let per_slot = crate::arith::ceil_div(max_model_len + 1, 64);
    assert(position / 64 < per_slot);
    assert(other_position / 64 < per_slot);
    assert(slot * per_slot + per_slot <= 8 * per_slot) by (nonlinear_arith)
        requires
            slot < 8,
            per_slot >= 0,
    ;
    assert(slot * per_slot >= 0) by (nonlinear_arith)
        requires
            slot >= 0,
            per_slot >= 0,
    ;
    if slot < other_slot {
        assert(slot * per_slot + per_slot <= other_slot * per_slot) by (nonlinear_arith)
            requires
                slot < other_slot,
                per_slot >= 0,
        ;
    } else if other_slot < slot {
        assert(other_slot * per_slot + per_slot <= slot * per_slot) by (nonlinear_arith)
            requires
                other_slot < slot,
                per_slot >= 0,
        ;
    }
}

/// How many of the first `k` tokens of a round are a slot's.
pub open spec fn appends_of(appends: Seq<Glm52MtpAppend>, slot: int, k: int) -> nat
    decreases k,
{
    if k <= 0 {
        0
    } else {
        appends_of(appends, slot, k - 1) + (if appends[k - 1].slot == slot {
            1nat
        } else {
            0
        })
    }
}

/// The tokens of a slot go in at consecutive positions, from where the slot
/// stood, and the slot's length grows by one each.
pub proof fn committed_lengths_count_the_tokens(
    lens: Seq<usize>,
    appends: Seq<Glm52MtpAppend>,
    slot: int,
    k: int,
    target_rows: int,
)
    requires
        lens.len() == 8,
        0 <= slot < 8,
        0 <= k <= appends.len(),
        forall|j: int| 0 <= j < k ==> #[trigger] append_fits(lens, appends, j, target_rows),
        forall|s: int| 0 <= s < 8 ==> (#[trigger] lens[s]) + appends.len() <= usize::MAX,
    ensures
        appended(lens, appends, k).len() == 8,
        appended(lens, appends, k)[slot] == lens[slot] + appends_of(appends, slot, k),
        k < appends.len() && append_fits(lens, appends, k, target_rows) && appends[k].slot == slot
            ==> appends[k].position == lens[slot] + appends_of(appends, slot, k),
        appends_of(appends, slot, k) <= k,
    decreases k,
{
    if k > 0 {
        committed_lengths_count_the_tokens(lens, appends, slot, k - 1, target_rows);
        assert(append_fits(lens, appends, k - 1, target_rows));
        assert(lens[slot] + appends.len() <= usize::MAX);
    }
}

/// A staged row of a draft pass agrees with itself: its sequence is one longer
/// than its position, its write slot is where its own row of the page table
/// puts that position, and every older position is found in a page of its
/// slot.
pub proof fn a_staged_draft_row_agrees(
    m: Glm52NativeMtp,
    rows: int,
    inputs: Seq<Glm52MtpInput>,
    staged: Glm52MtpStaging,
    r: int,
    older: int,
)
    requires
        m.wf(),
        stages(m, rows, inputs, staged),
        0 <= r < inputs.len() <= rows <= 8,
        input_fits(m, rows, r, inputs[r]),
        0 <= older <= inputs[r].position,
    ensures
        ({
            let position = staged.positions@[r] as int;
            let width = m.table_width as int;
            &&& position == inputs[r].position
            &&& staged.tokens@[r] == inputs[r].token
            &&& staged.seq_lens@[r] == position + 1
            &&& staged.slot_mapping@[r] as int % 64 == position % 64
            &&& staged.slot_mapping@[r] as int / 64 == staged.pages@[r * width + position / 64]
            &&& staged.pages@[r * width + older / 64] == 1 + inputs[r].slot * m.pages_per_slot
                + older / 64
            &&& 1 <= staged.pages@[r * width + older / 64]
        }),
{
    let input = inputs[r];
    let width = m.table_width as int;
    assert(input.position / 64 < width);
    assert(older / 64 <= input.position / 64);
    assert(inputs[r] == input);
    assert(staged.pages@[r * width + input.position / 64] == 1 + input.slot * m.pages_per_slot
        + input.position / 64);
    assert(staged.pages@[r * width + older / 64] == 1 + input.slot * m.pages_per_slot + older
        / 64);
    assert(0 <= input.slot * m.pages_per_slot) by (nonlinear_arith);
}

/// Two rows of a draft pass never write the same slot of the draft cache,
/// unless they are the same position of the same slot.
pub proof fn drafts_write_distinct_slots(
    m: Glm52NativeMtp,
    rows: int,
    inputs: Seq<Glm52MtpInput>,
    staged: Glm52MtpStaging,
    a: int,
    b: int,
)
    requires
        m.wf(),
        stages(m, rows, inputs, staged),
        0 <= a < inputs.len() <= rows <= 8,
        0 <= b < inputs.len(),
        input_fits(m, rows, a, inputs[a]),
        input_fits(m, rows, b, inputs[b]),
        inputs[a].slot != inputs[b].slot || inputs[a].position != inputs[b].position,
    ensures
        staged.slot_mapping@[a] != staged.slot_mapping@[b],
{
    a_staged_draft_row_agrees(m, rows, inputs, staged, a, inputs[a].position as int);
    a_staged_draft_row_agrees(m, rows, inputs, staged, b, inputs[b].position as int);
    draft_pages_are_private(
        m.max_model_len as int,
        inputs[a].slot as int,
        inputs[a].position as int,
        inputs[b].slot as int,
        inputs[b].position as int,
    );
}

proof fn lemma_none_after(appends: Seq<Glm52MtpAppend>, slot: usize, row: int, k: int)
    requires
        is_last_append(appends, slot, row),
        row < k <= appends.len(),
    ensures
        appends_of(appends, slot as int, k) == appends_of(appends, slot as int, row) + 1,
    decreases k,
{
    if k > row + 1 {
        lemma_none_after(appends, slot, row, k - 1);
        assert(appends[k - 1].slot != slot);
    }
}

/// A slot drafts from its newest token: the row that is looked up for it holds
/// the token right below the slot's committed length.
pub proof fn a_slot_drafts_from_its_newest_token(
    before: Glm52NativeMtp,
    after: Glm52NativeMtp,
    context_bucket: usize,
    appends: Seq<Glm52MtpAppend>,
    slots: Seq<usize>,
    target_rows: usize,
    context: Glm52MtpContext,
    slot: usize,
    row: int,
)
    requires
        context_bucket <= 8,
        Glm52NativeMtp::context_begins(
            before,
            after,
            context_bucket,
            appends,
            slots,
            target_rows,
            Ok(context),
        ),
        forall|s: int|
            0 <= s < 8 ==> (#[trigger] before.committed_lens@[s]) + 8 <= usize::MAX,
        is_last_append(appends, slot, row),
    ensures
        slot < 8,
        appends[row].position + 1 == after.committed_lens@[slot as int],
        context.inputs@[row].position + 1 == after.committed_lens@[slot as int],
        context.inputs@[row].token == appends[row].input_token,
        context.target_rows@[row] == appends[row].target_row,
{
    let lens = before.committed_lens@;
    assert(append_fits(lens, appends, row, target_rows as int));
    assert(lens.len() == 8);
    committed_lengths_count_the_tokens(
        lens,
        appends,
        slot as int,
        appends.len() as int,
        target_rows as int,
    );
    committed_lengths_count_the_tokens(lens, appends, slot as int, row, target_rows as int);
    lemma_none_after(appends, slot, row, appends.len() as int);
}

/// A context pass is fed each slot's tokens in the order of their positions,
/// without a gap, from where the slot stood.
pub proof fn a_context_extends_each_slot_without_a_gap(
    lens: Seq<usize>,
    appends: Seq<Glm52MtpAppend>,
    target_rows: int,
    a: int,
    b: int,
)
    requires
        lens.len() == 8,
        0 <= a < b < appends.len(),
        forall|j: int|
            0 <= j < appends.len() ==> #[trigger] append_fits(lens, appends, j, target_rows),
        forall|s: int| 0 <= s < 8 ==> (#[trigger] lens[s]) + appends.len() <= usize::MAX,
        appends[a].slot == appends[b].slot,
        forall|j: int| a < j < b ==> (#[trigger] appends[j]).slot != appends[a].slot,
    ensures
        appends[b].position == appends[a].position + 1,
        appends[a].position >= lens[appends[a].slot as int],
{
    let slot = appends[a].slot as int;
    assert(append_fits(lens, appends, a, target_rows));
    assert(append_fits(lens, appends, b, target_rows));
    committed_lengths_count_the_tokens(lens, appends, slot, a, target_rows);
    committed_lengths_count_the_tokens(lens, appends, slot, b, target_rows);
    lemma_none_between(appends, a, b);
}

proof fn lemma_none_between(appends: Seq<Glm52MtpAppend>, a: int, k: int)
    requires
        0 <= a < k <= appends.len(),
        forall|j: int| a < j < k ==> (#[trigger] appends[j]).slot != appends[a].slot,
    ensures
        appends_of(appends, appends[a].slot as int, k) == appends_of(
            appends,
            appends[a].slot as int,
            a,
        ) + 1,
    decreases k,
{
    if k > a + 1 {
        lemma_none_between(appends, a, k - 1);
        assert(appends[k - 1].slot != appends[a].slot);
    }
}

} // verus!
