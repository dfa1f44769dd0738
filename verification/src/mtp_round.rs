//! The course of one native draft round: a context pass over the committed
//! tokens, and the draft passes that follow it.
use vstd::prelude::*;

use crate::config::bucket_index;
use crate::mtp::{
    last_rows, read_argmax, Glm52MtpAppend, Glm52MtpContext, Glm52MtpError, Glm52MtpInput,
    Glm52NativeMtp,
};

verus! {

/// What a round waits for on the device.
#[derive(Clone, Copy, Debug, PartialEq, Eq, Structural)]
pub enum Glm52MtpPhase {
    /// The copy of the target's hidden rows into the context bucket.
    GatherTarget,
    /// The context pass, which selects its sparse tokens.
    ContextPass,
    /// The tokens of the context pass.
    ReadContext,
    /// The copy of the last rows' hidden states and selections.
    GatherContext,
    /// The kept selections, handed to the draft bucket.
    ShareSelection { iteration: usize },
    /// A draft pass, which reuses the selections.
    DraftPass { iteration: usize },
    /// The tokens of a draft pass.
    ReadDraft { iteration: usize },
    /// The hidden states of a draft pass, fed back as its next inputs.
    Recycle { iteration: usize },
    /// Nothing: the round is over.
    Done,
}

/// The phase that follows another.
pub open spec fn mtp_phase_after(phase: Glm52MtpPhase, proposes: bool) -> Glm52MtpPhase {
    match phase {
        Glm52MtpPhase::GatherTarget => Glm52MtpPhase::ContextPass,
        Glm52MtpPhase::ContextPass => if proposes {
            Glm52MtpPhase::ReadContext
        } else {
            Glm52MtpPhase::Done
        },
        Glm52MtpPhase::ReadContext => Glm52MtpPhase::GatherContext,
        Glm52MtpPhase::GatherContext => Glm52MtpPhase::ShareSelection { iteration: 1 },
        Glm52MtpPhase::ShareSelection { iteration } => Glm52MtpPhase::DraftPass { iteration },
        Glm52MtpPhase::DraftPass { iteration } => Glm52MtpPhase::ReadDraft { iteration },
        Glm52MtpPhase::ReadDraft { iteration } => Glm52MtpPhase::Recycle { iteration },
        Glm52MtpPhase::Recycle { iteration } => if iteration < 4 {
            Glm52MtpPhase::ShareSelection { iteration: (iteration + 1) as usize }
        } else {
            Glm52MtpPhase::Done
        },
        Glm52MtpPhase::Done => Glm52MtpPhase::Done,
    }
}

/// The phases of one draft pass.
pub open spec fn draft_phases(iteration: usize) -> Seq<Glm52MtpPhase> {
    seq![
        Glm52MtpPhase::ShareSelection { iteration },
        Glm52MtpPhase::DraftPass { iteration },
        Glm52MtpPhase::ReadDraft { iteration },
        Glm52MtpPhase::Recycle { iteration },
    ]
}

/// The phases of a round, in order: a context pass, and four draft passes
/// where the round proposes.
pub open spec fn mtp_round_phases(proposes: bool) -> Seq<Glm52MtpPhase> {
    let context = seq![Glm52MtpPhase::GatherTarget, Glm52MtpPhase::ContextPass];
    if proposes {
        context + seq![Glm52MtpPhase::ReadContext, Glm52MtpPhase::GatherContext] + draft_phases(1)
            + draft_phases(2) + draft_phases(3) + draft_phases(4) + seq![Glm52MtpPhase::Done]
    } else {
        context + seq![Glm52MtpPhase::Done]
    }
}

/// How many passes have been read when a round waits for a phase.
pub open spec fn passes_read(phase: Glm52MtpPhase, proposes: bool) -> nat {
    match phase {
        Glm52MtpPhase::GatherTarget | Glm52MtpPhase::ContextPass
        | Glm52MtpPhase::ReadContext => 0,
        Glm52MtpPhase::GatherContext => 1,
        Glm52MtpPhase::ShareSelection { iteration } | Glm52MtpPhase::DraftPass { iteration }
        | Glm52MtpPhase::ReadDraft { iteration } => iteration as nat,
        Glm52MtpPhase::Recycle { iteration } => (iteration + 1) as nat,
        Glm52MtpPhase::Done => if proposes {
            5
        } else {
            0
        },
    }
}

/// One round on its way.
#[derive(Debug)]
pub struct Glm52MtpRun {
    pub phase: Glm52MtpPhase,
    pub context_bucket: usize,
    /// What the context pass runs on.
    pub context: Glm52MtpContext,
    pub appends: Vec<Glm52MtpAppend>,
    /// Whether the round drafts.
    pub proposes: bool,
    pub draft_bucket: usize,
    /// The slots that the rank drafts for.
    pub slots: Vec<usize>,
    /// The context row of each slot's last token.
    pub last_rows: Vec<usize>,
    /// The tokens of every pass read so far, the context pass first.
    pub passes: Vec<Vec<u32>>,
    /// The committed lengths that the round drafts from.
    pub committed_lens: [usize; 8],
    pub max_model_len: usize,
}

/// Whether a slot has room for a draft.
pub open spec fn slot_has_room(lens: Seq<usize>, slot: usize, max_model_len: usize) -> bool {
    lens[slot as int] < max_model_len
}

impl Glm52MtpRun {
    /// Whether the slots' last rows are known.
    pub open spec fn rows_found(&self) -> bool {
        self.proposes && !(self.phase is GatherTarget || self.phase is ContextPass)
    }

    /// Whether the drafts are open.
    pub open spec fn drafting(&self) -> bool {
        self.rows_found() && !(self.phase is ReadContext)
    }

    /// Whether the run is a round's: its buckets are known, its rows are rows
    /// of its passes, and it holds the tokens of every pass that is over.
    pub open spec fn wf(&self) -> bool {
        &&& crate::config::is_bucket(self.context_bucket as int)
        &&& self.appends.len() <= self.context_bucket
        &&& self.max_model_len < 0x7fff_ffff
        &&& forall|k: int| 0 <= k < self.appends.len() ==> (#[trigger] self.appends@[k]).slot < 8
        &&& self.passes.len() == passes_read(self.phase, self.proposes)
        &&& match self.phase {
            Glm52MtpPhase::GatherTarget | Glm52MtpPhase::ContextPass | Glm52MtpPhase::Done => true,
            Glm52MtpPhase::ReadContext | Glm52MtpPhase::GatherContext => self.proposes,
            Glm52MtpPhase::ShareSelection { iteration } | Glm52MtpPhase::DraftPass { iteration }
            | Glm52MtpPhase::ReadDraft { iteration } | Glm52MtpPhase::Recycle { iteration } =>
                self.proposes && 1 <= iteration <= 4,
        }
        &&& self.rows_found() ==> {
            &&& self.slots.len() <= self.draft_bucket
            &&& self.last_rows.len() == self.slots.len()
            &&& forall|i: int|
                0 <= i < self.slots.len() ==> crate::mtp::is_last_append(
                    self.appends@,
                    self.slots@[i],
                    #[trigger] self.last_rows@[i] as int,
                )
        }
        &&& self.drafting() ==> {
            &&& crate::config::is_bucket(self.draft_bucket as int)
            &&& forall|i: int|
                0 <= i < self.slots.len() ==> slot_has_room(
                    self.committed_lens@,
                    #[trigger] self.slots@[i],
                    self.max_model_len,
                )
            &&& self.passes@[0].len() == self.context_bucket
            &&& forall|k: int|
                1 <= k < self.passes.len() ==> (#[trigger] self.passes@[k]).len()
                    == self.draft_bucket
        }
    }

    /// Draft `k` of the `i`-th slot: the token of pass `k`, in the context
    /// pass at the slot's last row and in a draft pass at its own.
    pub open spec fn draft(&self, i: int, k: int) -> u32 {
        if k == 0 {
            self.passes@[0]@[self.last_rows@[i] as int]
        } else {
            self.passes@[k]@[i]
        }
    }

    /// The phase that follows the run's own.
    pub open spec fn next_phase(&self) -> Glm52MtpPhase {
        mtp_phase_after(self.phase, self.proposes)
    }

    /// Whether the phase hands tokens back.
    pub open spec fn reads(&self) -> bool {
        self.phase is ReadContext || self.phase is ReadDraft
    }

    /// The rows of the pass that the phase reads.
    pub open spec fn read_bucket(&self) -> usize {
        if self.phase is ReadContext {
            self.context_bucket
        } else {
            self.draft_bucket
        }
    }

    proof fn lemma_rows(&self)
        requires
            self.wf(),
            self.rows_found(),
        ensures
            forall|i: int|
                0 <= i < self.slots.len() ==> (#[trigger] self.slots@[i]) < 8
                    && self.last_rows@[i] < self.context_bucket,
    {
        assert forall|i: int| 0 <= i < self.slots.len() implies (#[trigger] self.slots@[i]) < 8
            && self.last_rows@[i] < self.context_bucket by {
            let row = self.last_rows@[i] as int;
            assert(crate::mtp::is_last_append(self.appends@, self.slots@[i], row));
            assert(self.appends@[row].slot < 8);
        }
    }

    /// Moves a round on after the device did what its phase names. Behind the
    /// context pass of a proposing round the slots' last rows are looked up.
    pub fn phase_done(&mut self) -> (r: Result<(), Glm52MtpError>)
        requires
            old(self).wf(),
            !old(self).reads(),
            !(old(self).phase is Done),
        ensures
            final(self).wf(),
            *final(self) == (Glm52MtpRun {
                phase: final(self).phase,
                last_rows: final(self).last_rows,
                ..*old(self)
            }),
            r is Ok ==> final(self).phase == old(self).next_phase(),
            if old(self).phase is ContextPass && old(self).proposes {
                match r {
                    Ok(()) => crate::mtp::finds_last_rows(
                        old(self).draft_bucket,
                        old(self).slots@,
                        old(self).appends@,
                        Ok(final(self).last_rows),
                    ),
                    Err(e) => {
                        &&& crate::mtp::finds_last_rows(
                            old(self).draft_bucket,
                            old(self).slots@,
                            old(self).appends@,
                            Err(e),
                        )
                        &&& *final(self) == *old(self)
                    },
                }
            } else {
                r is Ok && final(self).last_rows == old(self).last_rows
            },
    {
        match self.phase {
            Glm52MtpPhase::GatherTarget => {
                self.phase = Glm52MtpPhase::ContextPass;
            },
            Glm52MtpPhase::ContextPass => {
                if self.proposes {
                    match last_rows(self.draft_bucket, &self.slots, &self.appends) {
                        Ok(rows) => {
                            self.last_rows = rows;
                            self.phase = Glm52MtpPhase::ReadContext;
                        },
                        Err(e) => {
                            return Err(e);
                        },
                    }
                } else {
                    self.phase = Glm52MtpPhase::Done;
                }
            },
            Glm52MtpPhase::GatherContext => {
                self.phase = Glm52MtpPhase::ShareSelection { iteration: 1 };
            },
            Glm52MtpPhase::ShareSelection { iteration } => {
                self.phase = Glm52MtpPhase::DraftPass { iteration };
            },
            Glm52MtpPhase::DraftPass { iteration } => {
                self.phase = Glm52MtpPhase::ReadDraft { iteration };
            },
            Glm52MtpPhase::Recycle { iteration } => {
                if iteration < 4 {
                    self.phase = Glm52MtpPhase::ShareSelection { iteration: iteration + 1 };
                } else {
                    self.phase = Glm52MtpPhase::Done;
                }
            },
            Glm52MtpPhase::ReadContext | Glm52MtpPhase::ReadDraft { .. } | Glm52MtpPhase::Done => {
            },
        }
        Ok(())
    }

    /// What opening the drafts behind the context pass comes to: the draft
    /// bucket must be known and every slot must have room.
    pub open spec fn opens_drafts(&self, r: Result<(), Glm52MtpError>) -> bool {
        match r {
            Ok(()) => {
                &&& crate::config::is_bucket(self.draft_bucket as int)
                &&& forall|i: int|
                    0 <= i < self.slots.len() ==> slot_has_room(
                        self.committed_lens@,
                        #[trigger] self.slots@[i],
                        self.max_model_len,
                    )
            },
            Err(Glm52MtpError::Bucket { rows }) => rows == self.draft_bucket
                && !crate::config::is_bucket(self.draft_bucket as int),
            Err(Glm52MtpError::Exhausted { slot }) => {
                &&& crate::config::is_bucket(self.draft_bucket as int)
                &&& exists|i: int|
                    {
                        &&& 0 <= i < self.slots.len()
                        &&& #[trigger] self.slots@[i] == slot
                        &&& !slot_has_room(self.committed_lens@, slot, self.max_model_len)
                        &&& forall|j: int|
                            0 <= j < i ==> slot_has_room(
                                self.committed_lens@,
                                #[trigger] self.slots@[j],
                                self.max_model_len,
                            )
                    }
            },
            Err(_) => false,
        }
    }

    /// Checks that the drafts can be opened.
    fn check_drafts(&self) -> (r: Result<(), Glm52MtpError>)
        requires
            self.wf(),
            self.rows_found(),
        ensures
            self.opens_drafts(r),
    {
        proof {
            self.lemma_rows();
        }
        match bucket_index(self.draft_bucket) {
            Some(_) => {},
            None => {
                return Err(Glm52MtpError::Bucket { rows: self.draft_bucket });
            },
        }
        let mut i: usize = 0;
        while i < self.slots.len()
            invariant
                i <= self.slots.len(),
                crate::config::is_bucket(self.draft_bucket as int),
                forall|j: int| 0 <= j < self.slots.len() ==> (#[trigger] self.slots@[j]) < 8,
                forall|j: int|
                    0 <= j < i ==> slot_has_room(
                        self.committed_lens@,
                        #[trigger] self.slots@[j],
                        self.max_model_len,
                    ),
            decreases self.slots.len() - i,
        {
            let slot: usize = self.slots[i];
            if self.committed_lens[slot] >= self.max_model_len {
                return Err(Glm52MtpError::Exhausted { slot });
            }
            i = i + 1;
        }
        Ok(())
    }

    /// Takes the tokens of a pass. Behind the context pass the drafts are
    /// opened, and the context tokens are the first of them.
    pub fn tokens_read(&mut self, finite: &Vec<bool>, indices: &Vec<i32>) -> (r: Result<
        (),
        Glm52MtpError,
    >)
        requires
            old(self).wf(),
            old(self).reads(),
            finite.len() == old(self).read_bucket(),
            indices.len() == old(self).read_bucket(),
        ensures
            final(self).wf(),
            *final(self) == (Glm52MtpRun {
                phase: final(self).phase,
                passes: final(self).passes,
                ..*old(self)
            }),
            match r {
                Ok(()) => {
                    &&& final(self).phase == old(self).next_phase()
                    &&& final(self).passes.len() == old(self).passes.len() + 1
                    &&& final(self).passes@.drop_last() == old(self).passes@
                    &&& crate::mtp::reads_argmax(
                        finite@,
                        indices@,
                        Ok(final(self).passes@.last()),
                    )
                    &&& old(self).phase is ReadContext ==> {
                        &&& old(self).opens_drafts(Ok(()))
                        &&& forall|i: int|
                            0 <= i < old(self).slots.len() ==> #[trigger] final(self).draft(i, 0)
                                == indices@[old(self).last_rows@[i] as int]
                    }
                    &&& old(self).phase matches Glm52MtpPhase::ReadDraft { iteration } ==> {
                        &&& forall|i: int|
                            0 <= i < old(self).slots.len() ==> #[trigger] final(self).draft(
                                i,
                                iteration as int,
                            ) == indices@[i]
                        &&& forall|i: int, k: int|
                            0 <= i < old(self).slots.len() && 0 <= k < iteration
                                ==> #[trigger] final(self).draft(i, k) == old(self).draft(i, k)
                    }
                },
                Err(e) => {
                    &&& *final(self) == *old(self)
                    &&& crate::mtp::reads_argmax(finite@, indices@, Err(e)) || (old(self).phase is ReadContext && argmax_is_valid(finite@, indices@) && old(self).opens_drafts(Err(e)))
                },
            },
            r is Ok ==> final(self).passes@.last().len() == indices.len(),
            r is Ok ==> forall|i: int|
                0 <= i < indices.len() ==> #[trigger] final(self).passes@.last()@[i] as int
                    == indices@[i] as int,
            r is Ok ==> forall|i: int| 0 <= i < indices.len() ==> #[trigger] finite@[i],
            r is Ok && old(self).phase is ReadContext ==> forall|i: int|
                0 <= i < old(self).slots.len() ==> old(self).committed_lens@[(
                #[trigger] old(self).slots@[i]) as int] < old(self).max_model_len,
            r matches Err(Glm52MtpError::Exhausted { slot }) ==> old(self).slots@.contains(slot)
                && old(self).committed_lens@[slot as int] >= old(self).max_model_len,
    {
        let tokens: Vec<u32> = match read_argmax(finite, indices) {
            Ok(tokens) => tokens,
            Err(e) => {
                return Err(e);
            },
        };
        let ghost before = self.passes@;
        proof {
            self.lemma_rows();
        }
        match self.phase {
            Glm52MtpPhase::ReadContext => {
                match self.check_drafts() {
                    Ok(()) => {},
                    Err(e) => {
                        return Err(e);
                    },
                }
                self.passes.push(tokens);
                self.phase = Glm52MtpPhase::GatherContext;
            },
            Glm52MtpPhase::ReadDraft { iteration } => {
                self.passes.push(tokens);
                self.phase = Glm52MtpPhase::Recycle { iteration };
            },
            _ => {},
        }
        assert(self.passes@.drop_last() =~= before);
        Ok(())
    }

    /// What a draft pass is fed: each slot's previous draft, one position
    /// further than the pass before.
    pub fn draft_inputs(&self) -> (r: Vec<Glm52MtpInput>)
        requires
            self.wf(),
            self.phase is DraftPass,
        ensures
            self.phase matches Glm52MtpPhase::DraftPass { iteration } && r.len()
                == self.slots.len() && forall|i: int|
                0 <= i < r.len() ==> #[trigger] r@[i] == (Glm52MtpInput {
                    slot: self.slots@[i],
                    token: self.draft(i, iteration - 1),
                    position: (self.committed_lens@[self.slots@[i] as int] + iteration
                        - 1) as usize,
                }),
            self.phase matches Glm52MtpPhase::DraftPass { iteration } ==> forall|i: int|
                0 <= i < r.len() ==> (#[trigger] r@[i]).token == self.passes@[iteration - 1]@[if iteration
                    == 1 {
                    self.last_rows@[i] as int
                } else {
                    i
                }],
    {
        proof {
            self.lemma_rows();
        }
        let iteration: usize = match self.phase {
            Glm52MtpPhase::DraftPass { iteration } => iteration,
            _ => 1,
        };
        let mut inputs: Vec<Glm52MtpInput> = Vec::new();
        let mut i: usize = 0;
        while i < self.slots.len()
            invariant
                i <= self.slots.len(),
                self.wf(),
                self.drafting(),
                1 <= iteration <= 4,
                self.passes.len() == iteration,
                forall|j: int|
                    0 <= j < self.slots.len() ==> (#[trigger] self.slots@[j]) < 8
                        && self.last_rows@[j] < self.context_bucket,
                inputs.len() == i,
                forall|j: int|
                    0 <= j < i ==> #[trigger] inputs@[j] == (Glm52MtpInput {
                        slot: self.slots@[j],
                        token: self.draft(j, iteration - 1),
                        position: (self.committed_lens@[self.slots@[j] as int] + iteration
                            - 1) as usize,
                    }),
            decreases self.slots.len() - i,
        {
            let slot: usize = self.slots[i];
            assert(slot_has_room(self.committed_lens@, self.slots@[i as int], self.max_model_len));
            assert(self.passes@[iteration - 1].len() >= 0);
            let row: usize = if iteration == 1 {
                self.last_rows[i]
            } else {
                i
            };
            inputs.push(
                Glm52MtpInput {
                    slot,
                    token: self.passes[iteration - 1][row],
                    position: self.committed_lens[slot] + (iteration - 1),
                },
            );
            i = i + 1;
        }
        inputs
    }

    /// The drafts of a round that is over: five for each slot, draft `k` the
    /// token of pass `k`.
    pub fn drafts(&self) -> (r: Vec<[u32; 5]>)
        requires
            self.wf(),
            self.phase is Done,
        ensures
            !self.proposes ==> r.len() == 0,
            self.proposes ==> r.len() == self.slots.len() && forall|i: int, k: int|
                0 <= i < r.len() && 0 <= k < 5 ==> #[trigger] r@[i]@[k] == self.draft(i, k),
            self.proposes ==> forall|i: int|
                0 <= i < r.len() ==> (#[trigger] r@[i])@[0]
                    == self.passes@[0]@[self.last_rows@[i] as int],
            self.proposes ==> forall|i: int, k: int|
                0 <= i < r.len() && 1 <= k < 5 ==> #[trigger] r@[i]@[k] == self.passes@[k]@[i],
    {
        let mut drafts: Vec<[u32; 5]> = Vec::new();
        if !self.proposes {
            return drafts;
        }
        proof {
            self.lemma_rows();
        }
        let mut i: usize = 0;
        while i < self.slots.len()
            invariant
                i <= self.slots.len(),
                self.wf(),
                self.drafting(),
                self.passes.len() == 5,
                forall|j: int|
                    0 <= j < self.slots.len() ==> (#[trigger] self.slots@[j]) < 8
                        && self.last_rows@[j] < self.context_bucket,
                drafts.len() == i,
                forall|j: int, k: int|
                    0 <= j < i && 0 <= k < 5 ==> #[trigger] drafts@[j]@[k] == self.draft(j, k),
            decreases self.slots.len() - i,
        {
            assert(self.slots@[i as int] < 8);
            assert(self.passes@[1].len() == self.draft_bucket);
            assert(self.passes@[2].len() == self.draft_bucket);
            assert(self.passes@[3].len() == self.draft_bucket);
            assert(self.passes@[4].len() == self.draft_bucket);
            let span: [u32; 5] = [
                self.passes[0][self.last_rows[i]],
                self.passes[1][i],
                self.passes[2][i],
                self.passes[3][i],
                self.passes[4][i],
            ];
            drafts.push(span);
            i = i + 1;
        }
        drafts
    }
}

/// Whether every row of a pass holds a token.
pub open spec fn argmax_is_valid(finite: Seq<bool>, indices: Seq<i32>) -> bool {
    forall|i: int|
        0 <= i < indices.len() ==> #[trigger] crate::mtp::argmax_valid(finite, indices, i)
}

impl Glm52NativeMtp {
    /// Opens a round: the committed tokens go into the draft context, and the
    /// round drafts for the proposing slots where a proposal is asked for.
    pub fn begin_round(
        &mut self,
        context_bucket: usize,
        appends: Vec<Glm52MtpAppend>,
        proposal: Option<(usize, Vec<usize>)>,
        target_rows: usize,
    ) -> (r: Result<Glm52MtpRun, Glm52MtpError>)
        requires
            old(self).wf(),
            forall|slot: int|
                0 <= slot < 8 ==> (#[trigger] old(self).committed_lens@[slot]) + 8 <= usize::MAX,
        ensures
            final(self).wf(),
            match r {
                Ok(run) => {
                    &&& Self::context_begins(
                        *old(self),
                        *final(self),
                        context_bucket,
                        appends@,
                        run.slots@,
                        target_rows,
                        Ok(run.context),
                    )
                    &&& run.wf()
                    &&& run.phase is GatherTarget
                    &&& run.context_bucket == context_bucket
                    &&& run.appends == appends
                    &&& run.proposes == (proposal is Some)
                    &&& match proposal {
                        Some((draft_bucket, slots)) => run.draft_bucket == draft_bucket
                            && run.slots == slots,
                        None => run.slots@.len() == 0,
                    }
                    &&& run.committed_lens == final(self).committed_lens
                    &&& run.max_model_len == final(self).max_model_len
                },
                Err(e) => Self::context_begins(
                    *old(self),
                    *final(self),
                    context_bucket,
                    appends@,
                    match proposal {
                        Some((_, slots)) => slots@,
                        None => Seq::empty(),
                    },
                    target_rows,
                    Err(e),
                ),
            },
    {
        let proposes: bool = proposal.is_some();
        let (draft_bucket, slots): (usize, Vec<usize>) = match proposal {
            Some((draft_bucket, slots)) => (draft_bucket, slots),
            None => (context_bucket, Vec::new()),
        };
        assert(proposal is None ==> slots@ =~= Seq::<usize>::empty());
        let ghost before = *self;
        let context: Glm52MtpContext = match self.begin_context(
            context_bucket,
            &appends,
            &slots,
            target_rows,
        ) {
            Ok(context) => context,
            Err(e) => {
                return Err(e);
            },
        };
        assert forall|k: int| 0 <= k < appends.len() implies (#[trigger] appends@[k]).slot < 8 by {
            assert(crate::mtp::append_fits(
                before.committed_lens@,
                appends@,
                k,
                target_rows as int,
            ));
        }
        Ok(
            Glm52MtpRun {
                phase: Glm52MtpPhase::GatherTarget,
                context_bucket,
                context,
                appends,
                proposes,
                draft_bucket,
                slots,
                last_rows: Vec::new(),
                passes: Vec::new(),
                committed_lens: self.committed_lens,
                max_model_len: self.max_model_len,
            },
        )
    }
}

/// A round that is moved on goes through its phases in order.
pub proof fn a_round_walks_its_phases(proposes: bool)
    ensures
        mtp_round_phases(proposes)[0] == Glm52MtpPhase::GatherTarget,
        mtp_round_phases(proposes).last() == Glm52MtpPhase::Done,
        forall|i: int|
            0 <= i < mtp_round_phases(proposes).len() - 1 ==> mtp_phase_after(
                #[trigger] mtp_round_phases(proposes)[i],
                proposes,
            ) == mtp_round_phases(proposes)[i + 1],
{
}

/// Exactly four draft passes follow the context pass of a round that
/// proposes, and none that of a round that does not; each is read before the
/// next one runs.
pub proof fn four_draft_passes_follow_the_context_pass(i: int)
    ensures
        0 <= i < mtp_round_phases(true).len() ==> {
            let phase = mtp_round_phases(true)[i];
            &&& phase is ContextPass <==> i == 1
            &&& phase is DraftPass <==> i == 5 || i == 9 || i == 13 || i == 17
            &&& phase matches Glm52MtpPhase::DraftPass { iteration } ==> i == 4 * iteration + 1
                && mtp_round_phases(true)[i + 1] == (Glm52MtpPhase::ReadDraft { iteration })
        },
        0 <= i < mtp_round_phases(false).len() ==> !(mtp_round_phases(false)[i] is DraftPass),
{
}

/// A proposing round has twenty phases before its end, each in its place: the
/// context pass is read before its rows are gathered, and every draft pass is
/// given the selections before it runs, read behind it, and recycled behind
/// that. A round that does not propose ends with its context pass.
pub proof fn every_phase_has_its_place(iteration: usize)
    requires
        1 <= iteration <= 4,
    ensures
        ({
            let phases = mtp_round_phases(true);
            &&& phases.len() == 21
            &&& phases[0] is GatherTarget && phases[1] is ContextPass && phases[2] is ReadContext
                && phases[3] is GatherContext && phases[20] is Done
            &&& phases[4 * iteration] == Glm52MtpPhase::ShareSelection { iteration }
            &&& phases[4 * iteration + 1] == Glm52MtpPhase::DraftPass { iteration }
            &&& phases[4 * iteration + 2] == Glm52MtpPhase::ReadDraft { iteration }
            &&& phases[4 * iteration + 3] == Glm52MtpPhase::Recycle { iteration }
        }),
        mtp_round_phases(false).len() == 3,
        mtp_round_phases(false)[0] is GatherTarget,
        mtp_round_phases(false)[1] is ContextPass,
        mtp_round_phases(false)[2] is Done,
{
}

} // verus!
