use openinfer_glm52::mtp::{
    is_ascending, last_rows, plan_mtp_build, plan_mtp_forward, read_argmax, Glm52MtpAppend,
    Glm52MtpError, Glm52MtpInput, Glm52MtpNorm, Glm52MtpOp, Glm52NativeMtp,
};
use openinfer_glm52::mtp_round::{Glm52MtpPhase, Glm52MtpRun};

fn append(slot: usize, target_row: usize, position: usize) -> Glm52MtpAppend {
    Glm52MtpAppend { slot, target_row, input_token: 900 + position as u32, position }
}

#[test]
fn slots_ascend_strictly() {
    assert!(is_ascending(&vec![]));
    assert!(is_ascending(&vec![1, 4, 7]));
    assert!(!is_ascending(&vec![1, 1]));
    assert!(!is_ascending(&vec![2, 1]));
}

#[test]
fn a_context_extends_its_slots() {
    let mut mtp = Glm52NativeMtp::new(4096);
    let appends = vec![append(2, 0, 0), append(2, 1, 1), append(5, 2, 0)];
    let context = mtp.begin_context(4, &appends, &vec![2, 5], 4).unwrap();
    assert_eq!(context.bucket, 2);
    assert_eq!(context.target_rows, vec![0, 1, 2]);
    assert_eq!(context.inputs[1], Glm52MtpInput { slot: 2, token: 901, position: 1 });
    assert_eq!(mtp.committed_lens, [0, 0, 2, 0, 0, 1, 0, 0]);
    mtp.reset_slots(&vec![2]).unwrap();
    assert_eq!(mtp.committed_lens, [0, 0, 0, 0, 0, 1, 0, 0]);
    assert_eq!(mtp.reset_slots(&vec![8]), Err(Glm52MtpError::ResetSlot { slot: 8 }));
}

#[test]
fn a_context_is_refused_with_a_reason() {
    let mut mtp = Glm52NativeMtp::new(4096);
    let two = vec![append(0, 0, 0), append(0, 1, 1)];
    assert_eq!(
        mtp.begin_context(1, &two, &vec![0], 2).err(),
        Some(Glm52MtpError::ContextRows { rows: 2, bucket: 1 })
    );
    assert_eq!(
        mtp.begin_context(2, &two, &vec![1, 0], 2).err(),
        Some(Glm52MtpError::SlotsNotAscending)
    );
    assert_eq!(
        mtp.begin_context(3, &two, &vec![0], 2).err(),
        Some(Glm52MtpError::Bucket { rows: 3 })
    );
    assert_eq!(
        mtp.begin_context(1, &vec![append(0, 2, 0)], &vec![0], 2).err(),
        Some(Glm52MtpError::AppendBounds { row: 0, target_row: 2, slot: 0, target_rows: 2 })
    );
    assert_eq!(
        mtp.begin_context(1, &vec![append(0, 0, 4)], &vec![0], 2).err(),
        Some(Glm52MtpError::AppendPosition { slot: 0, position: 4, committed: 0 })
    );
}

#[test]
fn drafts_write_pages_of_their_own_slot() {
    let mtp = Glm52NativeMtp::new(4096);
    let inputs = vec![
        Glm52MtpInput { slot: 0, token: 7, position: 0 },
        Glm52MtpInput { slot: 3, token: 8, position: 130 },
    ];
    let staged = mtp.stage(2, &inputs).unwrap();
    assert_eq!(&staged.tokens[..3], &[7, 8, 0]);
    assert_eq!(&staged.positions[..3], &[0, 130, 0]);
    assert_eq!(&staged.seq_lens[..2], &[1, 131]);
    let page = |slot: usize, position: usize| 1 + slot * mtp.pages_per_slot + position / 64;
    assert_eq!(staged.slot_mapping[0], 64 * page(0, 0) as i64);
    assert_eq!(staged.slot_mapping[1], (64 * page(3, 130) + 2) as i64);
    assert!(page(3, 130) > page(2, 4095));
    assert_eq!(staged.pages.len(), 2 * mtp.table_width);
}

#[test]
fn a_draft_input_must_fit() {
    let mtp = Glm52NativeMtp::new(4096);
    let good = Glm52MtpInput { slot: 0, token: 7, position: 0 };
    for bad in [
        Glm52MtpInput { slot: 8, token: 7, position: 0 },
        Glm52MtpInput { slot: 0, token: 7, position: 5000 },
    ] {
        assert_eq!(
            mtp.stage(2, &vec![good, bad]).err(),
            Some(Glm52MtpError::Input {
                row: 1,
                rows: 2,
                slot: bad.slot,
                position: bad.position,
                cap: 4096,
            })
        );
    }
}

/// A round over slots 2 and 5 of an empty context.
fn two_slots(mtp: &mut Glm52NativeMtp, draft_bucket: usize, slots: Vec<usize>) -> Glm52MtpRun {
    let appends = vec![append(2, 0, 0), append(2, 1, 1), append(5, 2, 0)];
    mtp.begin_round(4, appends, Some((draft_bucket, slots)), 4).unwrap()
}

#[test]
fn a_round_drafts_five_tokens_for_each_slot() {
    let mut mtp = Glm52NativeMtp::new(4096);
    let mut run = two_slots(&mut mtp, 2, vec![2, 5]);
    assert_eq!(run.context.target_rows, vec![0, 1, 2]);
    let mut draft_passes = vec![];
    let mut tokens = vec![vec![40, 41, 42, 43]];
    tokens.extend((1..5).map(|k| vec![60 + k, 70 + k]));
    while run.phase != Glm52MtpPhase::Done {
        match run.phase {
            Glm52MtpPhase::ReadContext => {
                assert_eq!(run.last_rows, vec![1, 2]);
                run.tokens_read(&vec![true; 4], &tokens[0]).unwrap();
            }
            Glm52MtpPhase::ReadDraft { iteration } => {
                run.tokens_read(&vec![true; 2], &tokens[iteration]).unwrap();
            }
            Glm52MtpPhase::DraftPass { iteration } => {
                let inputs = run.draft_inputs();
                assert_eq!(inputs[0].slot, 2);
                assert_eq!(inputs[0].position, 2 + iteration - 1);
                assert_eq!(inputs[1].position, 1 + iteration - 1);
                let previous = if iteration == 1 { 41 } else { 60 + iteration as u32 - 1 };
                assert_eq!(inputs[0].token, previous);
                draft_passes.push(iteration);
                run.phase_done().unwrap();
            }
            _ => run.phase_done().unwrap(),
        }
    }
    assert_eq!(draft_passes, vec![1, 2, 3, 4]);
    assert_eq!(run.drafts(), vec![[41, 61, 62, 63, 64], [42, 71, 72, 73, 74]]);
}

#[test]
fn a_rank_without_proposals_runs_the_draft_passes_too() {
    let mut mtp = Glm52NativeMtp::new(4096);
    let mut run = mtp.begin_round(1, vec![], Some((1, vec![])), 1).unwrap();
    let mut phases = 0;
    while run.phase != Glm52MtpPhase::Done {
        phases += 1;
        match run.phase {
            Glm52MtpPhase::ReadContext | Glm52MtpPhase::ReadDraft { .. } => {
                run.tokens_read(&vec![true], &vec![9]).unwrap();
            }
            Glm52MtpPhase::DraftPass { .. } => {
                assert!(run.draft_inputs().is_empty());
                run.phase_done().unwrap();
            }
            _ => run.phase_done().unwrap(),
        }
    }
    assert_eq!(phases, 20);
    assert!(run.drafts().is_empty());
}

#[test]
fn a_context_round_drafts_nothing() {
    let mut mtp = Glm52NativeMtp::new(4096);
    let mut run = mtp.begin_round(1, vec![append(3, 0, 0)], None, 1).unwrap();
    run.phase_done().unwrap();
    assert_eq!(run.phase, Glm52MtpPhase::ContextPass);
    run.phase_done().unwrap();
    assert_eq!(run.phase, Glm52MtpPhase::Done);
    assert!(run.drafts().is_empty());
    assert_eq!(mtp.committed_lens[3], 1);
    assert_eq!(
        mtp.begin_round(3, vec![], None, 1).err(),
        Some(Glm52MtpError::Bucket { rows: 3 })
    );
}

#[test]
fn a_draft_round_is_refused_with_a_reason() {
    assert_eq!(
        last_rows(1, &vec![0, 1], &vec![]).err(),
        Some(Glm52MtpError::DraftRows { rows: 2, bucket: 1 })
    );
    assert_eq!(
        last_rows(1, &vec![3], &vec![append(2, 0, 0)]).err(),
        Some(Glm52MtpError::NoAppend { slot: 3 })
    );
    let mut mtp = Glm52NativeMtp::new(4096);
    let mut run = two_slots(&mut mtp, 2, vec![2, 6]);
    run.phase_done().unwrap();
    assert_eq!(run.phase_done(), Err(Glm52MtpError::NoAppend { slot: 6 }));
    let mut mtp = Glm52NativeMtp::new(4096);
    let mut run = two_slots(&mut mtp, 3, vec![2, 5]);
    run.phase_done().unwrap();
    run.phase_done().unwrap();
    assert_eq!(
        run.tokens_read(&vec![true, false, true, true], &vec![1, 2, 3, 4]),
        Err(Glm52MtpError::Argmax { row: 1, index: 2 })
    );
    assert_eq!(
        run.tokens_read(&vec![true; 4], &vec![1, 2, 3, 4]),
        Err(Glm52MtpError::Bucket { rows: 3 })
    );
    let mut mtp = Glm52NativeMtp::new(64);
    mtp.committed_lens[4] = 63;
    let mut run = mtp.begin_round(1, vec![append(4, 0, 63)], Some((1, vec![4])), 1).unwrap();
    run.phase_done().unwrap();
    run.phase_done().unwrap();
    assert_eq!(
        run.tokens_read(&vec![true], &vec![1]),
        Err(Glm52MtpError::Exhausted { slot: 4 })
    );
}

#[test]
fn a_refused_draft_round_says_why() {
    let texts = [
        (Glm52MtpError::ResetSlot { slot: 8 }, "GLM5.2 MTP reset slot 8 is outside 0..8"),
        (
            Glm52MtpError::ContextRows { rows: 2, bucket: 1 },
            "GLM5.2 MTP context rows 2 exceed collective bucket 1",
        ),
        (
            Glm52MtpError::SlotsNotAscending,
            "GLM5.2 MTP proposal slots must be strictly ascending",
        ),
        (Glm52MtpError::Bucket { rows: 3 }, "GLM5.2 MTP bucket 3 is not in [1, 2, 4, 8]"),
        (
            Glm52MtpError::AppendBounds { row: 0, target_row: 2, slot: 9, target_rows: 2 },
            "GLM5.2 MTP append target row 2 or slot 9 is out of bounds (target rows 2, slots 8)",
        ),
        (
            Glm52MtpError::AppendPosition { slot: 1, position: 4, committed: 3 },
            "GLM5.2 MTP slot 1 first-pass position 4 != committed 3",
        ),
        (
            Glm52MtpError::DraftRows { rows: 2, bucket: 1 },
            "GLM5.2 MTP proposal rows 2 exceed collective bucket 1",
        ),
        (Glm52MtpError::NoAppend { slot: 3 }, "GLM5.2 MTP proposal slot 3 has no append"),
        (Glm52MtpError::Exhausted { slot: 4 }, "GLM5.2 MTP slot 4 exhausted its context cap"),
        (
            Glm52MtpError::Input { row: 1, rows: 2, slot: 8, position: 5000, cap: 4096 },
            "GLM5.2 MTP input row 1/2, slot 8/8, or position 5000/4096 is out of bounds",
        ),
        (
            Glm52MtpError::Argmax { row: 1, index: -1 },
            "GLM5.2 MTP row 1 produced invalid argmax value at index -1",
        ),
        (Glm52MtpError::NotMoe, "GLM5.2 MTP layer 78 is not EP MoE"),
        (Glm52MtpError::ProjBytes { got: 5 }, "GLM5.2 MTP eh_proj byte length drifted"),
        (
            Glm52MtpError::NormBytes { which: Glm52MtpNorm::SharedHead, got: 1 },
            "GLM5.2 tensor model.layers.78.shared_head.norm.weight bytes 1 != bf16 [6144]",
        ),
    ];
    for (error, text) in texts {
        assert_eq!(error.message(), text);
    }
}

#[test]
fn a_draft_must_be_a_token() {
    assert_eq!(read_argmax(&vec![true, true], &vec![5, 0]), Ok(vec![5, 0]));
    assert_eq!(
        read_argmax(&vec![true, true], &vec![5, -1]),
        Err(Glm52MtpError::Argmax { row: 1, index: -1 })
    );
    assert_eq!(
        read_argmax(&vec![false], &vec![5]),
        Err(Glm52MtpError::Argmax { row: 0, index: 5 })
    );
}

#[test]
fn a_forward_recycles_its_hidden_state() {
    let ops = plan_mtp_forward(4, true, true).unwrap();
    assert_eq!(ops[0], Glm52MtpOp::Embed);
    assert!(ops.contains(&Glm52MtpOp::Attention { selects: true }));
    assert!(ops.contains(&Glm52MtpOp::Recycle));
    assert_eq!(ops[ops.len() - 1], Glm52MtpOp::Argmax);
    assert_eq!(plan_mtp_forward(4, true, false).err(), Some(Glm52MtpError::NotMoe));
}

#[test]
fn the_extra_layer_is_built_from_checked_tensors() {
    let norm = 6144 * 2;
    let proj = 6144 * 2 * 6144 * 2;
    let build = plan_mtp_build(4096, norm, norm, proj, norm).unwrap();
    assert_eq!(build.num_blocks, 521);
    assert_eq!(build.mla_cache_bytes, 521 * 41_984);
    assert_eq!(build.index_cache_bytes, 521 * 8448);
    assert_eq!(build.shared_topk_len, 8 * 2048);
    assert_eq!(
        plan_mtp_build(4096, 1, norm, proj, norm).err(),
        Some(Glm52MtpError::NormBytes { which: Glm52MtpNorm::Embedding, got: 1 })
    );
    assert_eq!(
        plan_mtp_build(4096, norm, norm, 5, norm).err(),
        Some(Glm52MtpError::ProjBytes { got: 5 })
    );
}
