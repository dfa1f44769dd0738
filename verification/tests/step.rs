use openinfer_glm52::step::{
    plan_sampling, Glm52RankSteps, Glm52RowSample, Glm52SpeculatedStep, Glm52StepAction,
    Glm52StepError, Glm52StepFlags, Glm52StepKv, Glm52StepShape,
};
use openinfer_glm52::step_run::{Glm52StepPhase, Glm52StepRun};

const CAP: usize = 4096;
const WIDTH: usize = CAP / 64;

fn shape(bucket: usize, slots: [u8; 8]) -> Glm52StepShape {
    Glm52StepShape { bucket, slots, active_rows: bucket }
}

fn plain() -> Glm52StepFlags {
    Glm52StepFlags { consume: false, lease: false }
}

fn rows(positions: &[usize]) -> [(u32, usize); 8] {
    let mut inputs = [(0, 0); 8];
    for (row, &position) in positions.iter().enumerate() {
        inputs[row] = (100 + row as u32, position);
    }
    inputs
}

/// Page tables in which each row owns the pages from `1000 * (row + 1)` on.
fn kv(positions: &[usize]) -> Glm52StepKv {
    let mut pages = vec![0i32; positions.len() * WIDTH];
    let mut slot_mapping = [0i64; 8];
    for (row, &position) in positions.iter().enumerate() {
        for page in 0..WIDTH {
            pages[row * WIDTH + page] = (1000 * (row + 1) + page) as i32;
        }
        slot_mapping[row] = (1000 * (row + 1) + position / 64) as i64 * 64 + (position % 64) as i64;
    }
    Glm52StepKv { pages, slot_mapping }
}

fn steps() -> Glm52RankSteps {
    Glm52RankSteps::new(CAP, 8)
}

#[test]
fn a_step_is_staged_for_its_bucket() {
    let s = steps();
    let positions = [5, 70];
    let staged = s.prologue(&rows(&positions), shape(2, [3, 1, 0, 0, 0, 0, 0, 0]), &kv(&positions)).unwrap();
    assert_eq!(staged.bucket_index, 1);
    assert_eq!(staged.tokens, [100, 101, 0, 0, 0, 0, 0, 0]);
    assert_eq!(staged.positions, [5, 70, 0, 0, 0, 0, 0, 0]);
    assert_eq!(staged.seq_lens, [6, 71, 0, 0, 0, 0, 0, 0]);
    assert_eq!(staged.global_tokens, 16);
    assert_eq!(s.device_positions, [0; 8]);
}

#[test]
fn a_slot_may_span_consecutive_positions() {
    let s = steps();
    let positions = [63, 64, 65, 9];
    let shape4 = shape(4, [2, 2, 2, 5, 0, 0, 0, 0]);
    let mut k = kv(&positions);
    // The rows of one slot share its pages.
    for row in 1..3 {
        for page in 0..WIDTH {
            k.pages[row * WIDTH + page] = (1000 + page) as i32;
        }
        k.slot_mapping[row] = (1000 + positions[row] / 64) as i64 * 64 + (positions[row] % 64) as i64;
    }
    assert!(s.prologue(&rows(&positions), shape4, &k).is_ok());
    assert_eq!(k.slot_mapping[1], k.slot_mapping[0] + 1);
}

#[test]
fn only_known_buckets_run() {
    let s = steps();
    let error = s.prologue(&rows(&[0, 0, 0]), shape(3, [0, 1, 2, 0, 0, 0, 0, 0]), &kv(&[0, 0, 0]));
    assert_eq!(error.err(), Some(Glm52StepError::UnknownBucket { bucket: 3 }));
}

#[test]
fn slots_must_be_lanes_of_the_rank() {
    let s = steps();
    let error = s.prologue(&rows(&[0, 0]), shape(2, [0, 8, 0, 0, 0, 0, 0, 0]), &kv(&[0, 0]));
    assert_eq!(error.err(), Some(Glm52StepError::SlotOutOfRange { row: 1, slot: 8 }));
}

#[test]
fn a_broken_span_is_refused() {
    let s = steps();
    for positions in [[3, 5], [3, 3], [3, 2]] {
        let error = s.prologue(&rows(&positions), shape(2, [4, 4, 0, 0, 0, 0, 0, 0]), &kv(&positions));
        assert_eq!(error.err(), Some(Glm52StepError::BrokenSpan { row: 1, slot: 4 }));
    }
    let positions = [3, 9, 4, 9];
    let error = s.prologue(&rows(&positions), shape(4, [4, 5, 4, 6, 0, 0, 0, 0]), &kv(&positions));
    assert_eq!(error.err(), Some(Glm52StepError::BrokenSpan { row: 2, slot: 4 }));
}

#[test]
fn page_tables_must_cover_the_bucket() {
    let s = steps();
    let mut k = kv(&[0]);
    k.pages.pop();
    let error = s.prologue(&rows(&[0]), shape(1, [0; 8]), &k);
    assert_eq!(
        error.err(),
        Some(Glm52StepError::PagesLength { pages: WIDTH - 1, bucket: 1, table_width: WIDTH })
    );
}

#[test]
fn positions_stay_below_the_cap() {
    let s = steps();
    let positions = [CAP - 1];
    assert!(s.prologue(&rows(&positions), shape(1, [7, 0, 0, 0, 0, 0, 0, 0]), &kv(&positions)).is_ok());
    let positions = [CAP];
    let error = s.prologue(&rows(&positions), shape(1, [7, 0, 0, 0, 0, 0, 0, 0]), &kv(&[0]));
    assert_eq!(
        error.err(),
        Some(Glm52StepError::PositionBeyondCap { slot: 7, position: CAP, cap: CAP })
    );
}

#[test]
fn a_row_writes_into_the_page_of_its_position() {
    let s = steps();
    let mut k = kv(&[70]);
    k.slot_mapping[0] += 1;
    let error = s.prologue(&rows(&[70]), shape(1, [0; 8]), &k);
    assert_eq!(
        error.err(),
        Some(Glm52StepError::SlotMapping {
            row: 0,
            got: 1001 * 64 + 7,
            page: 1001,
            position: 70,
            expect: 1001 * 64 + 6,
        })
    );
}

/// Runs a step up to its argmax and returns the phases it went through.
fn run_to_argmax(s: &mut Glm52RankSteps, run: &mut Glm52StepRun) -> Vec<Glm52StepPhase> {
    let mut phases = vec![run.phase];
    while run.phase != Glm52StepPhase::ReadArgmax {
        s.phase_done(run).unwrap();
        phases.push(run.phase);
    }
    phases
}

fn lease_once(s: &mut Glm52RankSteps) -> ([(u32, usize); 8], Glm52StepShape) {
    let inputs = rows(&[5, 70]);
    let two = shape(2, [3, 1, 0, 0, 0, 0, 0, 0]);
    let flags = Glm52StepFlags { consume: false, lease: true };
    let mut run = s.open_step(&inputs, two, &kv(&[5, 70]), flags, vec![], false).unwrap();
    run_to_argmax(s, &mut run);
    s.argmax_read(&mut run, &vec![true, true], &vec![11, 22]).unwrap();
    assert_eq!(run.phase, Glm52StepPhase::Done);
    assert_eq!(run.tokens, [11, 22, 0, 0, 0, 0, 0, 0]);
    (inputs, two)
}

#[test]
fn a_leased_step_copies_its_argmax_before_the_next_is_fed() {
    let mut s = steps();
    let inputs = rows(&[5, 70]);
    let two = shape(2, [3, 1, 0, 0, 0, 0, 0, 0]);
    let flags = Glm52StepFlags { consume: false, lease: true };
    let mut run = s.open_step(&inputs, two, &kv(&[5, 70]), flags, vec![], false).unwrap();
    assert!(matches!(run.action, Glm52StepAction::Replay(_)));
    assert_eq!(
        run_to_argmax(&mut s, &mut run),
        vec![
            Glm52StepPhase::Upload,
            Glm52StepPhase::StageRows,
            Glm52StepPhase::Replay,
            Glm52StepPhase::CopyArgmax,
            Glm52StepPhase::FeedNext,
            Glm52StepPhase::ReplayAhead,
            Glm52StepPhase::ReadArgmax,
        ]
    );
}

#[test]
fn device_positions_move_with_the_device() {
    let mut s = steps();
    let inputs = rows(&[5, 70]);
    let two = shape(2, [3, 1, 0, 0, 0, 0, 0, 0]);
    let flags = Glm52StepFlags { consume: false, lease: true };
    let mut run = s.open_step(&inputs, two, &kv(&[5, 70]), flags, vec![], false).unwrap();
    assert_eq!(s.device_positions, [0; 8]);
    s.phase_done(&mut run).unwrap();
    assert_eq!(s.device_positions, [5, 70, 0, 0, 0, 0, 0, 0]);
    assert!(!s.captured[1]);
    s.phase_done(&mut run).unwrap();
    s.phase_done(&mut run).unwrap();
    assert!(s.captured[1]);
    s.phase_done(&mut run).unwrap();
    s.phase_done(&mut run).unwrap();
    assert_eq!(run.phase, Glm52StepPhase::ReplayAhead);
    assert_eq!(s.device_positions, [5, 70, 0, 0, 0, 0, 0, 0]);
    s.phase_done(&mut run).unwrap();
    assert_eq!(s.device_positions, [6, 71, 0, 0, 0, 0, 0, 0]);
    assert!(s.speculated.is_none());
    s.argmax_read(&mut run, &vec![true, true], &vec![11, 22]).unwrap();
    assert!(s.speculated.is_some());
}

#[test]
fn a_consumed_step_starts_at_its_argmax() {
    let mut s = steps();
    let (_, two) = lease_once(&mut s);
    let mut next = [(0, 0); 8];
    next[0] = (11, 6);
    next[1] = (22, 71);
    let flags = Glm52StepFlags { consume: true, lease: false };
    let mut run = s.open_step(&next, two, &kv(&[6, 71]), flags, vec![], false).unwrap();
    assert_eq!(
        run_to_argmax(&mut s, &mut run),
        vec![Glm52StepPhase::CopyArgmax, Glm52StepPhase::ReadArgmax]
    );
    assert_eq!(&s.device_positions[..2], &[6, 71]);
}

#[test]
fn a_refused_lease_leaves_the_step_where_it_is() {
    let mut s = steps();
    let one = shape(1, [0; 8]);
    let flags = Glm52StepFlags { consume: false, lease: true };
    let inputs = rows(&[CAP - 1]);
    let mut run = s.open_step(&inputs, one, &kv(&[CAP - 1]), flags, vec![], false).unwrap();
    for _ in 0..3 {
        s.phase_done(&mut run).unwrap();
    }
    let e = s.phase_done(&mut run).unwrap_err();
    assert_eq!(e, Glm52StepError::LeaseBeyondCap { position: CAP - 1 });
    assert_eq!(run.phase, Glm52StepPhase::CopyArgmax);
    assert_eq!(s.device_positions[0], CAP - 1);
}

#[test]
fn a_sampled_step_ends_with_its_passes() {
    let mut s = steps();
    let inputs = rows(&[5, 70]);
    let two = shape(2, [3, 1, 0, 0, 0, 0, 0, 0]);
    let sampling = vec![sample(0, None), sample(1, Some(77))];
    let mut run =
        s.open_step(&inputs, two, &kv(&[5, 70]), plain(), sampling, true).unwrap();
    run_to_argmax(&mut s, &mut run);
    s.argmax_read(&mut run, &vec![true, true], &vec![11, 22]).unwrap();
    assert_eq!(run.phase, Glm52StepPhase::Sample);
    let plan = run.plan.clone().unwrap();
    assert_eq!((plan.unseeded, plan.seeded), (vec![0], vec![(1, 77, 3)]));
    assert!(plan.recompute_full_head);
    run.sampled(&vec![500], &vec![600]);
    assert_eq!(run.phase, Glm52StepPhase::Done);
    assert_eq!(run.tokens, [500, 600, 0, 0, 0, 0, 0, 0]);
}

#[test]
fn a_sampled_step_is_refused_behind_its_argmax() {
    let mut s = steps();
    let inputs = rows(&[5, 70]);
    let two = shape(2, [3, 1, 0, 0, 0, 0, 0, 0]);
    let sampling = vec![sample(1, None), sample(0, None)];
    let mut run =
        s.open_step(&inputs, two, &kv(&[5, 70]), plain(), sampling, false).unwrap();
    run_to_argmax(&mut s, &mut run);
    assert_eq!(
        s.argmax_read(&mut run, &vec![true, true], &vec![11, 22]),
        Err(Glm52StepError::SamplingOrder)
    );
    assert_eq!(
        s.argmax_read(&mut run, &vec![true, true], &vec![11, -1]),
        Err(Glm52StepError::ArgmaxOutsideVocab { slot: 1, index: -1 })
    );
}

#[test]
fn a_leased_step_is_consumed_by_the_inputs_it_assumed() {
    let mut s = steps();
    let (_, two) = lease_once(&mut s);
    assert_eq!(&s.device_positions[..2], &[6, 71]);
    let mut next = [(0, 0); 8];
    next[0] = (11, 6);
    next[1] = (22, 71);
    let flags = Glm52StepFlags { consume: true, lease: false };
    let action = s.begin_step(&next, two, &kv(&[6, 71]), flags, &vec![]);
    assert_eq!(action, Ok(Glm52StepAction::Consume));
    assert_eq!(
        s.begin_step(&next, two, &kv(&[6, 71]), flags, &vec![]),
        Err(Glm52StepError::NothingSpeculated)
    );
}

#[test]
fn a_leased_step_is_not_consumed_by_other_inputs() {
    let mut s = steps();
    let (_, two) = lease_once(&mut s);
    let mut next = [(0, 0); 8];
    next[0] = (11, 6);
    next[1] = (23, 71);
    let flags = Glm52StepFlags { consume: true, lease: false };
    assert_eq!(
        s.begin_step(&next, two, &kv(&[6, 71]), flags, &vec![]),
        Err(Glm52StepError::SpeculationMismatch {
            speculated: Glm52SpeculatedStep {
                bucket: 2,
                active_rows: 2,
                slots: two.slots,
                expect: [(11, 6), (22, 71), (0, 0), (0, 0), (0, 0), (0, 0), (0, 0), (0, 0)],
            },
        })
    );
}

#[test]
fn a_replayed_step_spends_what_was_leased() {
    let mut s = steps();
    let (_, two) = lease_once(&mut s);
    assert!(s.speculated.is_some());
    s.begin_step(&rows(&[6, 71]), two, &kv(&[6, 71]), plain(), &vec![]).unwrap();
    assert!(s.speculated.is_none());
}

#[test]
fn leasing_is_refused_with_a_reason() {
    let mut s = steps();
    let one = shape(1, [0; 8]);
    assert_eq!(s.check_lease(one), Err(Glm52StepError::LeaseBeforeCapture { bucket: 1 }));
    s.mark_captured(1).unwrap();
    s.mark_captured(2).unwrap();
    assert_eq!(s.mark_captured(5), Err(Glm52StepError::UnknownBucket { bucket: 5 }));
    assert_eq!(
        s.check_lease(shape(2, [3, 3, 0, 0, 0, 0, 0, 0])),
        Err(Glm52StepError::LeaseRepeatsSlot { slot: 3 })
    );
    assert_eq!(s.check_lease(one), Ok(()));
    s.device_positions[0] = CAP - 1;
    assert_eq!(s.check_lease(one), Err(Glm52StepError::LeaseBeyondCap { position: CAP - 1 }));
}

#[test]
fn an_active_row_must_have_a_token() {
    let mut s = steps();
    let inputs = rows(&[5, 70]);
    let two = shape(2, [3, 1, 0, 0, 0, 0, 0, 0]);
    assert_eq!(
        s.finish_step(&inputs, two, false, &vec![true, false], &vec![1, 2]),
        Err(Glm52StepError::NoFiniteLogit { slot: 1 })
    );
    assert_eq!(
        s.finish_step(&inputs, two, false, &vec![true, true], &vec![154_880, 2]),
        Err(Glm52StepError::ArgmaxOutsideVocab { slot: 3, index: 154_880 })
    );
    let padded = Glm52StepShape { active_rows: 1, ..two };
    assert_eq!(
        s.finish_step(&inputs, padded, false, &vec![true, false], &vec![9, -1]),
        Ok([9, 0, 0, 0, 0, 0, 0, 0])
    );
}

fn sample(row: usize, seed: Option<u64>) -> Glm52RowSample {
    Glm52RowSample { row, greedy: false, seed, step: 3 }
}

#[test]
fn sampled_rows_overwrite_the_greedy_tokens() {
    let four = shape(4, [0, 1, 2, 3, 0, 0, 0, 0]);
    let sampling = vec![sample(0, None), sample(2, Some(77)), sample(3, None)];
    let plan = plan_sampling(four, &sampling, true).unwrap();
    assert_eq!(plan.unseeded, vec![0, 3]);
    assert_eq!(plan.seeded, vec![(2, 77, 3)]);
    assert!(plan.recompute_full_head);
    let mut outputs = [10, 11, 12, 13, 0, 0, 0, 0];
    plan.apply(&mut outputs, &vec![500, 503], &vec![502]);
    assert_eq!(outputs, [500, 11, 502, 503, 0, 0, 0, 0]);
}

#[test]
fn sampling_is_refused_with_a_reason() {
    let two = shape(2, [0, 1, 0, 0, 0, 0, 0, 0]);
    assert_eq!(
        plan_sampling(two, &vec![sample(1, None), sample(0, None)], false).err(),
        Some(Glm52StepError::SamplingOrder)
    );
    assert_eq!(
        plan_sampling(two, &vec![sample(2, None)], false).err(),
        Some(Glm52StepError::SamplingRow { row: 2, active_rows: 2 })
    );
    let greedy = Glm52RowSample { greedy: true, ..sample(0, None) };
    assert_eq!(
        plan_sampling(two, &vec![greedy], false).err(),
        Some(Glm52StepError::SamplingGreedy { row: 0 })
    );
    let mut s = steps();
    let flags = Glm52StepFlags { consume: false, lease: true };
    assert_eq!(
        s.begin_step(&rows(&[0, 0]), two, &kv(&[0, 0]), flags, &vec![sample(0, None)]),
        Err(Glm52StepError::SamplingRidesLaunchAhead)
    );
}

#[test]
fn a_refused_step_says_why() {
    let inputs = rows(&[3, 5]);
    let two = shape(2, [4, 4, 0, 0, 0, 0, 0, 0]);
    let speculated = Glm52SpeculatedStep {
        bucket: 1,
        active_rows: 1,
        slots: [4, 0, 0, 0, 0, 0, 0, 0],
        expect: rows(&[9]),
    };
    let texts = [
        (
            Glm52StepError::SamplingRidesLaunchAhead,
            "GLM5.2 sampling rows cannot ride a launch-ahead step (the speculation feeds the argmax token, not the sampled one)",
        ),
        (
            Glm52StepError::NothingSpeculated,
            "GLM5.2 launch-ahead desync: the coordinator consumed a speculation this rank never enqueued",
        ),
        (
            Glm52StepError::SpeculationMismatch { speculated },
            "GLM5.2 launch-ahead desync: consumed speculation (bucket 1, slots [4], expect [(100, 9)]) does not match the step (bucket 2, slots [4, 4], inputs [(100, 3), (101, 5)])",
        ),
        (
            Glm52StepError::UnknownBucket { bucket: 3 },
            "GLM5.2 step bucket 3 is not a member of [1, 2, 4, 8]",
        ),
        (
            Glm52StepError::SlotOutOfRange { row: 1, slot: 8 },
            "GLM5.2 step row 1 slot 8 out of range in [4, 4]",
        ),
        (
            Glm52StepError::BrokenSpan { row: 1, slot: 4 },
            "GLM5.2 step slot 4 span is not one contiguous run of consecutive positions: rows [4, 4], positions [3, 5]",
        ),
        (
            Glm52StepError::PagesLength { pages: 63, bucket: 1, table_width: 64 },
            "GLM5.2 step KV pages 63 != bucket 1 x table width 64",
        ),
        (
            Glm52StepError::PositionBeyondCap { slot: 7, position: 4096, cap: 4096 },
            "GLM5.2 slot 7 position 4096 exceeds the model-length cap 4096",
        ),
        (
            Glm52StepError::SlotMapping { row: 0, got: -2, page: 5, position: 70, expect: 326 },
            "GLM5.2 row 0 slot mapping -2 does not match page 5 at position 70 (expect 326)",
        ),
        (
            Glm52StepError::LeaseRepeatsSlot { slot: 3 },
            "GLM5.2 launch-ahead lease granted for a step with repeated slot 3 (span rows are never leased)",
        ),
        (
            Glm52StepError::LeaseBeyondCap { position: 4095 },
            "GLM5.2 launch-ahead lease granted with a row at position 4095 \u{2014} the advanced step would breach the model-length cap",
        ),
        (
            Glm52StepError::LeaseBeforeCapture { bucket: 4 },
            "GLM5.2 launch-ahead lease granted before the bucket 4 graph was captured \u{2014} the startup pre-capture must cover every shape",
        ),
        (
            Glm52StepError::NoFiniteLogit { slot: 2 },
            "GLM5.2 slot 2 greedy argmax found no finite logit",
        ),
        (
            Glm52StepError::ArgmaxOutsideVocab { slot: 3, index: -1 },
            "GLM5.2 slot 3 greedy argmax index -1 outside the vocab",
        ),
        (Glm52StepError::SamplingOrder, "GLM5.2 sampling rows must be strictly ascending"),
        (
            Glm52StepError::SamplingRow { row: 2, active_rows: 2 },
            "GLM5.2 sampling row 2 outside the step's 2 active rows",
        ),
        (
            Glm52StepError::SamplingGreedy { row: 0 },
            "GLM5.2 effectively-greedy row 0 routed to the sampler (coordinator bug)",
        ),
    ];
    for (error, text) in texts {
        assert_eq!(error.message(&inputs, two), text);
    }
}
