use openinfer_glm52::dspark::{
    accept_prefix_match, aux_feature, check_config, commit_round, dspark_cache_len, propose,
    rank_elements, read_drafts, set_tail_len, slot_elements, validate_config, DsparkConfigError, DsparkField,
    Glm52DsparkError, Glm52DsparkSlotState, DSPARK_MASK_TOKEN,
};

#[test]
fn accepts_full_run_plus_bonus() {
    assert_eq!(
        accept_prefix_match(&[10, 11, 12], &[10, 11, 12, 13]),
        vec![10, 11, 12, 13]
    );
}

#[test]
fn accepts_prefix_then_correction() {
    assert_eq!(
        accept_prefix_match(&[10, 11, 99], &[10, 11, 22, 33]),
        vec![10, 11, 22]
    );
}

#[test]
fn rejects_first_draft_commits_the_correction() {
    assert_eq!(accept_prefix_match(&[10, 11, 12], &[7, 8, 9, 10]), vec![7]);
}

#[test]
fn empty_proposal_commits_the_model_token() {
    assert_eq!(accept_prefix_match(&[], &[42]), vec![42]);
}

#[test]
fn a_match_after_a_divergence_is_not_accepted() {
    assert_eq!(accept_prefix_match(&[1, 9, 3], &[1, 2, 3, 4]), vec![1, 2]);
}

#[test]
fn features_follow_their_layers() {
    let layers = [7, 22, 38, 54, 69];
    for (feature, layer) in layers.iter().enumerate() {
        assert_eq!(aux_feature(*layer), Some(feature));
    }
    assert_eq!(aux_feature(8), None);
}

#[test]
fn a_slot_holds_what_its_cache_can_take() {
    let mut slot = Glm52DsparkSlotState::new(dspark_cache_len(2));
    assert_eq!(slot.append_captured_row(), Ok(0));
    assert_eq!(slot.append_captured_row(), Ok(1));
    assert_eq!(
        slot.append_captured_row(),
        Err(Glm52DsparkError::PendingOverflow {
            committed: 0,
            pending: 3
        })
    );
    assert_eq!(slot.set_context_len(10), Ok(()));
    assert_eq!(
        slot.set_context_len(11),
        Err(Glm52DsparkError::ContextBeyondCapacity { context_len: 11 })
    );
    slot.reset();
    assert_eq!((slot.committed_len, slot.pending_len), (0, 0));
}

#[test]
fn a_round_drains_the_pending_context() {
    let mut a = Glm52DsparkSlotState::new(100);
    a.committed_len = 20;
    a.pending_len = 3;
    let mut b = Glm52DsparkSlotState::new(100);
    b.pending_len = 5;
    let mut states = vec![a, b];
    let round = propose(&mut states, &vec![(11, 23), (12, 5)]).unwrap();
    assert_eq!(round.block_rows, 16);
    assert_eq!(round.block_token_ids[0], 11);
    assert_eq!(round.block_token_ids[8], 12);
    assert_eq!(
        round
            .block_token_ids
            .iter()
            .filter(|&&id| id == DSPARK_MASK_TOKEN)
            .count(),
        14
    );
    let first = round.requests[0];
    assert_eq!(first.context_len, 3);
    assert_eq!(first.tail_len, 11);
    assert_eq!(first.row_offset, 0);
    assert_eq!(first.query_start, 23);
    assert_eq!(first.key_start, 20);
    assert_eq!(first.attend_len, 31);
    assert_eq!(round.requests[1].row_offset, 8);
    assert_eq!((states[0].committed_len, states[0].pending_len), (20, 0));
    assert_eq!((states[1].committed_len, states[1].pending_len), (0, 0));
    assert_eq!((states[0].context_len, states[1].context_len), (3, 5));
    commit_round(&mut states, &round.requests);
    assert_eq!((states[0].committed_len, states[0].pending_len), (23, 0));
    assert_eq!((states[1].committed_len, states[1].pending_len), (5, 0));
}

#[test]
fn rounds_are_refused_before_anything_changes() {
    assert_eq!(
        propose(&mut vec![], &vec![]).unwrap_err(),
        Glm52DsparkError::NoRequest
    );
    let mut slot = Glm52DsparkSlotState::new(100);
    slot.pending_len = 4;
    let mut states = vec![slot];
    assert_eq!(
        propose(&mut states, &vec![]).unwrap_err(),
        Glm52DsparkError::AnchorCount {
            states: 1,
            anchors: 0
        }
    );
    assert_eq!(
        propose(&mut states, &vec![(1, 5)]).unwrap_err(),
        Glm52DsparkError::AnchorPosition {
            index: 0,
            position: 5,
            committed: 0,
            pending: 4
        }
    );
    assert_eq!(states[0], slot);
    let mut empty = vec![Glm52DsparkSlotState::new(100)];
    assert_eq!(
        propose(&mut empty, &vec![(1, 0)]).unwrap_err(),
        Glm52DsparkError::NoContext { index: 0 }
    );
}

#[test]
fn drafts_skip_the_anchor_position() {
    let sampled: Vec<u32> = (0..16).collect();
    assert_eq!(
        read_drafts(&sampled, 2),
        vec![[1, 2, 3, 4, 5, 6, 7], [9, 10, 11, 12, 13, 14, 15]]
    );
}

#[test]
fn the_tail_stays_within_its_buffers() {
    assert_eq!(set_tail_len(12, 12), Ok(12));
    assert_eq!(
        set_tail_len(13, 12),
        Err(Glm52DsparkError::TailBeyondCapacity { tail_len: 13 })
    );
}

#[test]
fn slot_and_rank_elements_are_the_ledger() {
    let len = dspark_cache_len(4096);
    assert_eq!(
        2 * (8 * slot_elements(len) + rank_elements(len)),
        openinfer_glm52::budget::glm52_dspark_arena_bytes(4096)
    );
}

fn config(layer_heads: &str, extra: &str) -> String {
    format!(
        r#"{{"speculators_model_type": "dspark", "block_size": 8, "mask_token_id": 154856,
            "markov_rank": 256, "markov_head_type": "vanilla",
            "aux_hidden_state_layer_ids": [8, 23, 39, 55, 70]{extra},
            "transformer_layer_config": {{"model_type": "qwen3", "num_hidden_layers": 5,
            "hidden_size": 6144, "num_attention_heads": {layer_heads},
            "num_key_value_heads": 64, "head_dim": 64, "intermediate_size": 12288,
            "vocab_size": 154880, "use_sliding_window": false}}}}"#
    )
}

#[test]
fn the_pinned_drafter_config_is_accepted() {
    assert_eq!(validate_config(&config("64", "")), Ok(()));
    let json: serde_json::Value = serde_json::from_str(&config("64", "")).unwrap();
    assert_eq!(check_config(&json), Ok(()));
}

#[test]
fn any_other_drafter_config_is_refused() {
    assert_eq!(validate_config("{"), Err(DsparkConfigError::Unparsable));
    assert_eq!(
        validate_config("{}"),
        Err(DsparkConfigError::Missing {
            field: DsparkField::ModelType
        })
    );
    assert_eq!(
        validate_config(r#"{"speculators_model_type": "eagle"}"#),
        Err(DsparkConfigError::Mismatch {
            field: DsparkField::ModelType
        })
    );
    let shifted = config("64", "").replace("[8, 23", "[7, 23");
    assert_eq!(
        validate_config(&shifted),
        Err(DsparkConfigError::Mismatch {
            field: DsparkField::AuxLayerIds
        })
    );
    let shorter = config("64", "").replace(", 70]", "]");
    assert_eq!(
        validate_config(&shorter),
        Err(DsparkConfigError::Mismatch {
            field: DsparkField::AuxLayerIds
        })
    );
    assert_eq!(
        validate_config(&config("64", ", \"num_anchors\": 1")),
        Err(DsparkConfigError::AnchorFirst)
    );
    assert_eq!(
        validate_config(&config("32", "")),
        Err(DsparkConfigError::Mismatch {
            field: DsparkField::AttentionHeads
        })
    );
    let float_heads = config("64.0", "");
    assert_eq!(
        validate_config(&float_heads),
        Err(DsparkConfigError::Mismatch {
            field: DsparkField::AttentionHeads
        })
    );
    let windowed = config("64", "").replace("false", "true");
    assert_eq!(
        validate_config(&windowed),
        Err(DsparkConfigError::Mismatch {
            field: DsparkField::SlidingWindow
        })
    );
    let no_layer = config("64", "").replace("transformer_layer_config", "other");
    assert_eq!(
        validate_config(&no_layer),
        Err(DsparkConfigError::LayerConfigMissing)
    );
    assert_eq!(DsparkField::HeadDim.name_text(), "head_dim");
}

#[test]
fn a_refused_round_says_why() {
    let texts = [
        (
            Glm52DsparkError::PendingOverflow { committed: 90, pending: 3 },
            "dspark pending context would exceed the draft cache: committed=90, pending=3",
        ),
        (
            Glm52DsparkError::ContextBeyondCapacity { context_len: 11 },
            "dspark context length 11 exceeds the preallocated cap",
        ),
        (
            Glm52DsparkError::TailBeyondCapacity { tail_len: 12 },
            "dspark tail length 12 exceeds the preallocated cap",
        ),
        (Glm52DsparkError::NoRequest, "dspark propose needs at least one request"),
        (
            Glm52DsparkError::AnchorCount { states: 2, anchors: 1 },
            "dspark propose: 2 states vs 1 anchors",
        ),
        (
            Glm52DsparkError::NoContext { index: 4 },
            "dspark propose before any captured context (slot index 4)",
        ),
        (
            Glm52DsparkError::AnchorPosition { index: 1, position: 9, committed: 5, pending: 3 },
            "dspark anchor position 9 != committed 5 + pending 3 (slot index 1)",
        ),
    ];
    for (error, text) in texts {
        assert_eq!(error.message(), text);
    }
}

#[test]
fn a_refused_drafter_says_why() {
    let texts = [
        (DsparkConfigError::Unparsable, "config.json is not a JSON document"),
        (
            DsparkConfigError::Missing { field: DsparkField::BlockSize },
            "dspark config missing `block_size`",
        ),
        (
            DsparkConfigError::Missing { field: DsparkField::HeadDim },
            "dspark transformer_layer_config missing `head_dim`",
        ),
        (
            DsparkConfigError::Mismatch { field: DsparkField::ModelType },
            "dspark config `speculators_model_type` differs, this build expects \"dspark\"",
        ),
        (
            DsparkConfigError::Mismatch { field: DsparkField::AuxLayerIds },
            "dspark config `aux_hidden_state_layer_ids` differs, this build expects [8,23,39,55,70]",
        ),
        (
            DsparkConfigError::Mismatch { field: DsparkField::VocabSize },
            "dspark transformer_layer_config `vocab_size` differs, this build expects 154880",
        ),
        (
            DsparkConfigError::Mismatch { field: DsparkField::SlidingWindow },
            "dspark transformer_layer_config `use_sliding_window` differs, this build expects false",
        ),
        (
            DsparkConfigError::AnchorFirst,
            "dspark config has `num_anchors` (a DeepSpec anchor-first marker); this module implements the speculators anchor-drop layout only",
        ),
        (
            DsparkConfigError::LayerConfigMissing,
            "dspark config missing transformer_layer_config",
        ),
    ];
    for (error, text) in texts {
        assert_eq!(error.message(), text);
    }
}
