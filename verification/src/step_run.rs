//! The course of one decode step: what the device does next, and what the
//! rank's state comes to when it is done.
use vstd::prelude::*;

use crate::step::{
    plan_sampling, Glm52RankSteps, Glm52RowSample, Glm52SamplingPlan, Glm52StepAction,
    Glm52StepError, Glm52StepFlags, Glm52StepKv, Glm52StepShape,
};

verus! {

/// What a step waits for on the device.
#[derive(Clone, Copy, Debug, PartialEq, Eq, Structural)]
pub enum Glm52StepPhase {
    /// The upload of the staged tokens, positions, lengths and cache slots.
    Upload,
    /// The rotary rows, the page rows and the active row count.
    StageRows,
    /// The replay of the bucket's whole-step graph, captured where it is not.
    Replay,
    /// The copy of the argmax to the host, enqueued and not waited for.
    CopyArgmax,
    /// The device's inputs, advanced by the argmax to those of the next step.
    FeedNext,
    /// The replay of the next step.
    ReplayAhead,
    /// The end of the argmax copy.
    ReadArgmax,
    /// The sampling passes.
    Sample,
    /// Nothing: the tokens are committed.
    Done,
}

/// The phase that a step opens with.
pub open spec fn first_phase(consume: bool) -> Glm52StepPhase {
    if consume {
        Glm52StepPhase::CopyArgmax
    } else {
        Glm52StepPhase::Upload
    }
}

/// The phase that follows another.
pub open spec fn phase_after(phase: Glm52StepPhase, lease: bool, samples: bool) -> Glm52StepPhase {
    match phase {
        Glm52StepPhase::Upload => Glm52StepPhase::StageRows,
        Glm52StepPhase::StageRows => Glm52StepPhase::Replay,
        Glm52StepPhase::Replay => Glm52StepPhase::CopyArgmax,
        Glm52StepPhase::CopyArgmax => if lease {
            Glm52StepPhase::FeedNext
        } else {
            Glm52StepPhase::ReadArgmax
        },
        Glm52StepPhase::FeedNext => Glm52StepPhase::ReplayAhead,
        Glm52StepPhase::ReplayAhead => Glm52StepPhase::ReadArgmax,
        Glm52StepPhase::ReadArgmax => if samples {
            Glm52StepPhase::Sample
        } else {
            Glm52StepPhase::Done
        },
        Glm52StepPhase::Sample | Glm52StepPhase::Done => Glm52StepPhase::Done,
    }
}

/// The phases of a step, in order: a consumed step has its replay behind it,
/// a leased one enqueues the next while the argmax copy is in flight, and
/// only then is the copy waited for.
pub open spec fn step_phases(consume: bool, lease: bool, samples: bool) -> Seq<Glm52StepPhase> {
    let replay = if consume {
        Seq::empty()
    } else {
        seq![Glm52StepPhase::Upload, Glm52StepPhase::StageRows, Glm52StepPhase::Replay]
    };
    let ahead = if lease {
        seq![Glm52StepPhase::FeedNext, Glm52StepPhase::ReplayAhead]
    } else {
        Seq::empty()
    };
    let sample = if samples {
        seq![Glm52StepPhase::Sample]
    } else {
        Seq::empty()
    };
    replay + seq![Glm52StepPhase::CopyArgmax] + ahead + seq![Glm52StepPhase::ReadArgmax] + sample
        + seq![Glm52StepPhase::Done]
}

/// One step on its way.
#[derive(Clone, Debug)]
pub struct Glm52StepRun {
    pub phase: Glm52StepPhase,
    pub inputs: [(u32, usize); 8],
    pub shape: Glm52StepShape,
    /// Whether the next step is enqueued ahead.
    pub lease: bool,
    /// How the step was opened, with what is uploaded.
    pub action: Glm52StepAction,
    /// The rows that are sampled.
    pub sampling: Vec<Glm52RowSample>,
    /// Whether the rank's head is sharded over the vocabulary.
    pub sharded_head: bool,
    /// The sampling passes, once the argmax is read.
    pub plan: Option<Glm52SamplingPlan>,
    /// The token of every row, once the argmax is read.
    pub tokens: [u32; 8],
}

/// Whether a step's active rows are rows of it that have a next position.
pub open spec fn step_countable(inputs: Seq<(u32, usize)>, shape: Glm52StepShape) -> bool {
    &&& shape.active_rows <= shape.bucket
    &&& forall|i: int|
        0 <= i < shape.active_rows && i < 8 ==> #[trigger] inputs[i].1 < usize::MAX
}

impl Glm52StepRun {
    /// Whether the run is one of a rank's steps: its bucket is known, its
    /// lease was checked before the next step is fed, and its sampling passes
    /// are planned before they run.
    pub open spec fn wf(&self, steps: Glm52RankSteps) -> bool {
        &&& steps.wf()
        &&& crate::config::is_bucket(self.shape.bucket as int)
        &&& step_countable(self.inputs@, self.shape)
        &&& self.phase == Glm52StepPhase::FeedNext || self.phase == Glm52StepPhase::ReplayAhead
            ==> self.lease && steps.rows_can_advance(self.shape.bucket as int)
        &&& self.phase == Glm52StepPhase::Sample ==> (self.plan matches Some(plan) && plan.wf())
    }

    /// Whether the step samples.
    pub open spec fn samples(&self) -> bool {
        self.sampling.len() > 0
    }

    /// The phase that follows the run's own.
    pub open spec fn next_phase(&self) -> Glm52StepPhase {
        phase_after(self.phase, self.lease, self.samples())
    }

    /// Whether the phase hands nothing back.
    pub open spec fn hands_nothing_back(&self) -> bool {
        !(self.phase is ReadArgmax || self.phase is Sample || self.phase is Done)
    }

    /// Takes what the sampling passes returned, and ends the step.
    pub fn sampled(
        &mut self,
        unseeded_tokens: &Vec<u32>,
        seeded_tokens: &Vec<u32>,
    )
        requires
            old(self).phase is Sample,
            old(self).plan matches Some(plan) && plan.wf() && unseeded_tokens.len()
                == plan.unseeded.len() && seeded_tokens.len() == plan.seeded.len(),
        ensures
            *final(self) == (Glm52StepRun {
                phase: Glm52StepPhase::Done,
                tokens: final(self).tokens,
                ..*old(self)
            }),
            old(self).plan matches Some(plan) ==> {
                &&& forall|i: int|
                    0 <= i < plan.unseeded.len() ==> final(self).tokens@[#[trigger] plan.unseeded@[i] as int] == unseeded_tokens@[i]
                &&& forall|i: int|
                    0 <= i < plan.seeded.len() ==> final(self).tokens@[(
                    #[trigger] plan.seeded@[i]).0 as int] == seeded_tokens@[i]
                &&& forall|row: int|
                    0 <= row < 8 && !plan.samples(row) ==> #[trigger] final(self).tokens@[row]
                        == old(self).tokens@[row]
            },
    {
        let mut tokens: [u32; 8] = self.tokens;
        match &self.plan {
            Some(plan) => {
                plan.apply(&mut tokens, unseeded_tokens, seeded_tokens);
            },
            None => {},
        }
        self.tokens = tokens;
        self.phase = Glm52StepPhase::Done;
    }
}

impl Glm52RankSteps {
    /// Whether everything but the captured graphs, the speculation and the
    /// device positions is as it was.
    pub open spec fn same_geometry(&self, other: &Glm52RankSteps) -> bool {
        &&& self.max_model_len == other.max_model_len
        &&& self.table_width == other.table_width
        &&& self.ep_ranks == other.ep_ranks
    }

    /// Opens a step and says what the device does first.
    pub fn open_step(
        &mut self,
        inputs: &[(u32, usize); 8],
        shape: Glm52StepShape,
        kv: &Glm52StepKv,
        flags: Glm52StepFlags,
        sampling: Vec<Glm52RowSample>,
        sharded_head: bool,
    ) -> (r: Result<Glm52StepRun, Glm52StepError>)
        requires
            old(self).wf(),
            step_countable(inputs@, shape),
        ensures
            final(self).wf(),
            match r {
                Ok(run) => {
                    &&& Self::opens(
                        *old(self),
                        *final(self),
                        inputs@,
                        shape,
                        *kv,
                        flags,
                        sampling@,
                        Ok(run.action),
                    )
                    &&& run.wf(*final(self))
                    &&& run.phase == first_phase(flags.consume)
                    &&& run.inputs == *inputs
                    &&& run.shape == shape
                    &&& run.lease == flags.lease
                    &&& run.sampling == sampling
                    &&& run.sharded_head == sharded_head
                },
                Err(e) => Self::opens(
                    *old(self),
                    *final(self),
                    inputs@,
                    shape,
                    *kv,
                    flags,
                    sampling@,
                    Err(e),
                ),
            },
    {
        let action: Glm52StepAction = match self.begin_step(inputs, shape, kv, flags, &sampling) {
            Ok(action) => action,
            Err(e) => {
                return Err(e);
            },
        };
        let phase: Glm52StepPhase = if flags.consume {
            Glm52StepPhase::CopyArgmax
        } else {
            Glm52StepPhase::Upload
        };
        Ok(
            Glm52StepRun {
                phase,
                inputs: *inputs,
                shape,
                lease: flags.lease,
                action,
                sampling,
                sharded_head,
                plan: None,
                tokens: [0, 0, 0, 0, 0, 0, 0, 0],
            },
        )
    }

    /// What the device's position of a row is after a phase of a step.
    pub open spec fn position_after(&self, run: Glm52StepRun, row: int) -> int {
        if row >= run.shape.bucket {
            self.device_positions@[row] as int
        } else if run.phase is Upload {
            run.inputs@[row].1 as int
        } else if run.phase is ReplayAhead {
            self.device_positions@[row] + 1
        } else {
            self.device_positions@[row] as int
        }
    }

    /// Which graphs are captured after a phase of a step.
    pub open spec fn captured_after(&self, run: Glm52StepRun) -> Seq<bool> {
        if run.phase is Replay {
            self.captured@.update(crate::step::bucket_at(run.shape.bucket as int), true)
        } else {
            self.captured@
        }
    }

    /// Moves a step on after the device did what its phase names. The state
    /// moves with it: an upload leaves its positions on the device, a replay
    /// its graph, and a replay ahead every row one position further. A lease
    /// is checked once the argmax copy is enqueued; a refused one leaves
    /// everything as it is.
    pub fn phase_done(&mut self, run: &mut Glm52StepRun) -> (r: Result<(), Glm52StepError>)
        requires
            old(run).wf(*old(self)),
            old(run).hands_nothing_back(),
        ensures
            final(run).wf(*final(self)),
            final(self).same_geometry(old(self)),
            final(self).speculated == old(self).speculated,
            *final(run) == (Glm52StepRun { phase: final(run).phase, ..*old(run) }),
            r is Err <==> old(run).phase is CopyArgmax && old(run).lease && !old(self).may_lease(
                old(run).shape,
            ),
            match r {
                Ok(()) => {
                    &&& final(run).phase == old(run).next_phase()
                    &&& final(self).captured@ == old(self).captured_after(*old(run))
                    &&& forall|b: int|
                        0 <= b < 4 ==> #[trigger] final(self).captured@[b] == (old(
                            self,
                        ).captured@[b] || (old(run).phase is Replay && seq![
                            1usize,
                            2usize,
                            4usize,
                            8usize,
                        ][b] == old(run).shape.bucket))
                    &&& forall|i: int|
                        0 <= i < 8 ==> #[trigger] final(self).device_positions@[i] == old(
                            self,
                        ).position_after(*old(run), i)
                    &&& forall|i: int|
                        0 <= i < old(run).shape.bucket ==> #[trigger] final(
                            self).device_positions@[i] == (match old(run).phase {
                            Glm52StepPhase::Upload => old(run).inputs@[i].1 as int,
                            Glm52StepPhase::ReplayAhead => old(self).device_positions@[i] + 1,
                            _ => old(self).device_positions@[i] as int,
                        })
                    &&& forall|i: int|
                        old(run).shape.bucket <= i < 8 ==> #[trigger] final(
                            self).device_positions@[i] == old(self).device_positions@[i]
                },
                Err(e) => {
                    &&& old(self).refuses_lease(old(run).shape, e)
                    &&& *final(run) == *old(run)
                    &&& *final(self) == *old(self)
                },
            },
    {
        let bucket: usize = run.shape.bucket;
        match run.phase {
            Glm52StepPhase::Upload => {
                self.inputs_uploaded(&run.inputs, bucket);
                run.phase = Glm52StepPhase::StageRows;
            },
            Glm52StepPhase::StageRows => {
                run.phase = Glm52StepPhase::Replay;
            },
            Glm52StepPhase::Replay => {
                let marked = self.mark_captured(bucket);
                assert(marked is Ok);
                run.phase = Glm52StepPhase::CopyArgmax;
            },
            Glm52StepPhase::CopyArgmax => {
                if run.lease {
                    match self.check_lease(run.shape) {
                        Ok(()) => {},
                        Err(e) => {
                            return Err(e);
                        },
                    }
                    run.phase = Glm52StepPhase::FeedNext;
                } else {
                    run.phase = Glm52StepPhase::ReadArgmax;
                }
            },
            Glm52StepPhase::FeedNext => {
                run.phase = Glm52StepPhase::ReplayAhead;
            },
            Glm52StepPhase::ReplayAhead => {
                self.replayed_ahead(bucket);
                run.phase = Glm52StepPhase::ReadArgmax;
            },
            Glm52StepPhase::ReadArgmax | Glm52StepPhase::Sample | Glm52StepPhase::Done => {},
        }
        Ok(())
    }

    /// Takes the argmax of a step: the tokens of its rows, and, where rows are
    /// sampled, the passes that replace theirs.
    pub fn argmax_read(
        &mut self,
        run: &mut Glm52StepRun,
        finite: &Vec<bool>,
        indices: &Vec<i32>,
    ) -> (r: Result<(), Glm52StepError>)
        requires
            old(run).wf(*old(self)),
            old(run).phase is ReadArgmax,
            finite.len() == old(run).shape.bucket,
            indices.len() == old(run).shape.bucket,
        ensures
            final(run).wf(*final(self)),
            *final(run) == (Glm52StepRun {
                phase: final(run).phase,
                plan: final(run).plan,
                tokens: final(run).tokens,
                ..*old(run)
            }),
            r is Ok ==> final(run).phase == old(run).next_phase(),
            r is Err ==> final(run).phase == old(run).phase,
            r is Ok ==> forall|i: int|
                0 <= i < old(run).shape.active_rows ==> #[trigger] final(run).tokens@[i] as int
                    == indices@[i] as int,
            r is Ok && old(run).samples() ==> (final(run).plan matches Some(plan)
                && crate::step::plans_sampling(
                old(run).shape,
                old(run).sampling@,
                old(run).sharded_head,
                Ok(plan),
            )),
            match r {
                Ok(()) => Self::finishes(
                    *old(self),
                    *final(self),
                    old(run).inputs@,
                    old(run).shape,
                    old(run).lease,
                    finite@,
                    indices@,
                    Ok(final(run).tokens),
                ),
                Err(e) => {
                    ||| Self::finishes(
                        *old(self),
                        *final(self),
                        old(run).inputs@,
                        old(run).shape,
                        old(run).lease,
                        finite@,
                        indices@,
                        Err(e),
                    )
                    ||| {
                        &&& Self::finishes(
                            *old(self),
                            *final(self),
                            old(run).inputs@,
                            old(run).shape,
                            old(run).lease,
                            finite@,
                            indices@,
                            Ok(final(run).tokens),
                        )
                        &&& old(run).samples()
                        &&& crate::step::plans_sampling(
                            old(run).shape,
                            old(run).sampling@,
                            old(run).sharded_head,
                            Err(e),
                        )
                    }
                },
            },
    {
        let inputs: [(u32, usize); 8] = run.inputs;
        match self.finish_step(&inputs, run.shape, run.lease, finite, indices) {
            Ok(tokens) => {
                run.tokens = tokens;
            },
            Err(e) => {
                return Err(e);
            },
        }
        if run.sampling.len() == 0 {
            run.phase = Glm52StepPhase::Done;
            return Ok(());
        }
        match plan_sampling(run.shape, &run.sampling, run.sharded_head) {
            Ok(plan) => {
                run.plan = Some(plan);
                run.phase = Glm52StepPhase::Sample;
                Ok(())
            },
            Err(e) => Err(e),
        }
    }
}

/// A step that is moved on goes through its phases in order, from the one it
/// opens with to its end.
pub proof fn a_step_walks_its_phases(consume: bool, lease: bool, samples: bool)
    ensures
        step_phases(consume, lease, samples)[0] == first_phase(consume),
        step_phases(consume, lease, samples).last() == Glm52StepPhase::Done,
        forall|i: int|
            0 <= i < step_phases(consume, lease, samples).len() - 1 ==> phase_after(
                #[trigger] step_phases(consume, lease, samples)[i],
                lease,
                samples,
            ) == step_phases(consume, lease, samples)[i + 1],
{
}

/// The argmax copy is enqueued before the next step is fed and replayed, and
/// waited for only after that; sampling comes behind it.
pub proof fn the_argmax_is_copied_before_the_lease(
    consume: bool,
    lease: bool,
    samples: bool,
    i: int,
    j: int,
)
    requires
        0 <= i < step_phases(consume, lease, samples).len(),
        0 <= j < step_phases(consume, lease, samples).len(),
    ensures
        ({
            let phases = step_phases(consume, lease, samples);
            &&& phases[i] is CopyArgmax && (phases[j] is FeedNext || phases[j] is ReplayAhead
                || phases[j] is ReadArgmax) ==> i < j
            &&& (phases[i] is FeedNext || phases[i] is ReplayAhead) && phases[j] is ReadArgmax
                ==> i < j
            &&& phases[i] is FeedNext && phases[j] is ReplayAhead ==> i < j
            &&& phases[i] is ReadArgmax && phases[j] is Sample ==> i < j
            &&& phases[i] is Replay && phases[j] is CopyArgmax ==> i < j
        }),
{
}

/// A step does each part of its work once, and none that is not its own: the
/// inputs are uploaded, staged and replayed unless the replay was enqueued
/// ahead, the next step is fed and replayed exactly where it is leased, the
/// argmax is copied and read in every step, and rows are sampled exactly
/// where some are.
pub proof fn a_step_does_its_work_once(
    consume: bool,
    lease: bool,
    samples: bool,
    i: int,
    j: int,
)
    requires
        0 <= i < j < step_phases(consume, lease, samples).len(),
    ensures
        ({
            let phases = step_phases(consume, lease, samples);
            &&& phases[i] != phases[j]
            &&& phases.contains(Glm52StepPhase::Upload) <==> !consume
            &&& phases.contains(Glm52StepPhase::StageRows) <==> !consume
            &&& phases.contains(Glm52StepPhase::Replay) <==> !consume
            &&& phases.contains(Glm52StepPhase::CopyArgmax)
            &&& phases.contains(Glm52StepPhase::FeedNext) <==> lease
            &&& phases.contains(Glm52StepPhase::ReplayAhead) <==> lease
            &&& phases.contains(Glm52StepPhase::ReadArgmax)
            &&& phases.contains(Glm52StepPhase::Sample) <==> samples
            &&& phases[j] is Upload ==> false
            &&& phases[j] is StageRows ==> phases[i] is Upload
            &&& phases[j] is Replay ==> phases[i] is Upload || phases[i] is StageRows
            &&& phases[i] is Done ==> false
        }),
{
    let phases = step_phases(consume, lease, samples);
    let n = phases.len();
    let at: int = if consume {
        0
    } else {
        3
    };
    if !consume {
        assert(phases[0] is Upload);
        assert(phases[1] is StageRows);
        assert(phases[2] is Replay);
    }
    assert(phases[at] is CopyArgmax);
    if lease {
        assert(phases[at + 1] is FeedNext);
        assert(phases[at + 2] is ReplayAhead);
        assert(phases[at + 3] is ReadArgmax);
        if samples {
            assert(phases[at + 4] is Sample);
        }
    } else {
        assert(phases[at + 1] is ReadArgmax);
        if samples {
            assert(phases[at + 2] is Sample);
        }
    }
}

} // verus!
