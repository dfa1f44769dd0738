use openinfer_glm52::budget::{
    derive_max_model_len, ensure_post_build_headroom, glm52_arena_bytes, glm52_cap_bytes,
    glm52_dspark_arena_bytes, glm52_index_cache_layout, glm52_pool_blocks, glm52_table_width,
    min_free_vram, Glm52BudgetError, GLM52_DSPARK_VRAM_RESERVE_BYTES,
    GLM52_POST_BUILD_MIN_FREE_BYTES, GLM52_VRAM_RESERVE_BYTES,
};
use openinfer_glm52::config::{GLM52_MAX_CONTEXT, GLM52_MODEL_LEN_ALIGN};
use openinfer_glm52::text::format_bytes;

/// Free VRAM that budgets exactly a `cap`-token context.
fn free_for(cap: usize, dspark: bool) -> u64 {
    let reserve = GLM52_VRAM_RESERVE_BYTES
        + if dspark {
            GLM52_DSPARK_VRAM_RESERVE_BYTES
        } else {
            0
        };
    reserve + glm52_cap_bytes(cap, dspark)
}

#[test]
fn derived_cap_is_aligned_and_scales_with_free_vram() {
    let cap = derive_max_model_len(None, free_for(10_048, false), false)
        .expect("derive")
        .max_model_len;
    assert_eq!(cap, 10_048, "exact budget for an aligned cap derives it");
    assert!(cap.is_multiple_of(GLM52_MODEL_LEN_ALIGN));
    let larger = derive_max_model_len(None, free_for(50_048, false), false)
        .expect("derive")
        .max_model_len;
    assert!(larger > cap);
}

#[test]
fn dspark_lane_shrinks_the_derived_cap() {
    let free = free_for(50_048, false);
    let plain = derive_max_model_len(None, free, false).expect("derive");
    let dspark = derive_max_model_len(None, free, true).expect("derive");
    assert!(
        dspark.max_model_len < plain.max_model_len,
        "dspark cap-scaled cost must shrink the cap"
    );
}

#[test]
fn derived_cap_never_exceeds_the_checkpoint_ceiling() {
    let budget = derive_max_model_len(None, u64::MAX / 2, false).expect("derive");
    assert_eq!(budget.max_model_len, GLM52_MAX_CONTEXT);
}

#[test]
fn too_little_vram_fails_instead_of_serving_a_toy_cap() {
    let err = derive_max_model_len(None, free_for(1024, false), false)
        .expect_err("sub-minimum cap must fail");
    assert!(err.message().contains("context cap"), "{}", err.message());
}

#[test]
fn unaligned_requested_cap_is_rejected_with_the_nearest_valid_values() {
    let err = derive_max_model_len(Some(5000), free_for(100_032, false), false)
        .expect_err("unaligned cap must fail, not silently round");
    let message = err.message();
    assert!(
        message.contains("4992") && message.contains("5056"),
        "{message}"
    );
}

#[test]
fn requested_cap_beyond_the_budget_fails_at_launch() {
    let err = derive_max_model_len(Some(99_968), free_for(10_048, false), false)
        .expect_err("over-budget cap must fail");
    assert!(err.message().contains("--max-model-len"), "{}", err.message());
}

#[test]
fn requested_cap_below_the_minimum_fails() {
    derive_max_model_len(Some(1024), free_for(100_032, false), false)
        .expect_err("sub-minimum cap must fail");
}

#[test]
fn ledger_of_the_smallest_cap() {
    // 8 lanes of 65 pages and the padding page.
    assert_eq!(glm52_pool_blocks(4096), 521);
    assert_eq!(glm52_table_width(4096), 64);
    let (width, layout) = glm52_index_cache_layout(4096);
    assert_eq!(width, 64);
    assert_eq!(layout.cache_blocks, 521);
    assert_eq!(layout.cache_block_size, 64);
    assert_eq!(layout.cache_block_stride_bytes, 8448);
    assert_eq!(layout.min_cache_bytes(), 521 * 8448);
    let arenas = 78 * 521 * 64 * 656
        + 21 * 521 * 64 * 132
        + 2 * 4096 * 32 * 2
        + 15 * 4096 * 6
        + 15 * 64 * 4;
    assert_eq!(glm52_arena_bytes(4096), arenas);
    let dspark = 8 * (5 * 2 * 4096 + 30_720 + 2 * 6144) * 4104 * 2
        + (6144 + 2 * 4096) * 4104 * 2
        + 2 * 4104 * 64 * 2;
    assert_eq!(glm52_dspark_arena_bytes(4096), dspark);
    assert_eq!(glm52_cap_bytes(4096, true), arenas + dspark);
}

#[test]
fn the_ledger_goes_on_beyond_the_checkpoint() {
    let cap = 8 * GLM52_MAX_CONTEXT;
    for dspark in [false, true] {
        assert!(glm52_cap_bytes(cap, dspark) < glm52_cap_bytes(cap + 1, dspark));
    }
    assert_eq!(
        glm52_cap_bytes(cap, true),
        glm52_arena_bytes(cap) + glm52_dspark_arena_bytes(cap)
    );
}

#[test]
fn a_served_request_reports_its_numbers() {
    let free = free_for(10_048, true) + 63;
    let budget = derive_max_model_len(Some(10_048), free, true).unwrap();
    assert_eq!(budget.max_model_len, 10_048);
    assert_eq!(budget.arena_bytes, glm52_cap_bytes(10_048, true));
    assert_eq!(budget.reserve_bytes, 10 << 30);
    assert_eq!(budget.budget_bytes, budget.arena_bytes + 63);
}

#[test]
fn refusals_say_what_was_asked() {
    let below = derive_max_model_len(Some(4095), u64::MAX, false).unwrap_err();
    assert_eq!(below, Glm52BudgetError::BelowMinimum { requested: 4095 });
    assert_eq!(
        below.message(),
        "GLM5.2 --max-model-len 4095 is below the minimum 4096"
    );
    let above = derive_max_model_len(Some(1_048_640), u64::MAX, false).unwrap_err();
    assert_eq!(
        above.message(),
        "GLM5.2 --max-model-len 1048640 exceeds the checkpoint's max_position_embeddings 1048576"
    );
    let unaligned = derive_max_model_len(Some(5000), u64::MAX, false).unwrap_err();
    assert_eq!(
        unaligned,
        Glm52BudgetError::Unaligned {
            requested: 5000,
            below: 4992,
            above: 5056
        }
    );
    let over = derive_max_model_len(Some(4096), 6 << 30, false).unwrap_err();
    assert_eq!(
        over.message(),
        "GLM5.2 --max-model-len 4096 needs 1.7 GiB of cache per rank but only 1.0 GiB fits \
         (min rank free VRAM 6.0 GiB - reserve 5.0 GiB); lower it or free VRAM"
    );
    let none = derive_max_model_len(None, 0, false).unwrap_err();
    assert_eq!(
        none.message(),
        "GLM5.2 free VRAM leaves a context cap of 0 (< 4096): budget 0 B (min rank free VRAM 0 B \
         - reserve 5.0 GiB)"
    );
}

#[test]
fn one_byte_less_derives_the_next_smaller_cap() {
    let free = free_for(20_032, false);
    assert_eq!(
        derive_max_model_len(None, free - 1, false)
            .unwrap()
            .max_model_len,
        19_968
    );
}

#[test]
fn the_tightest_rank_decides() {
    assert_eq!(min_free_vram(&vec![9, 4, 7, 4]), 4);
    assert_eq!(min_free_vram(&vec![3]), 3);
}

#[test]
fn headroom_is_held_on_every_rank() {
    let enough = GLM52_POST_BUILD_MIN_FREE_BYTES;
    assert!(ensure_post_build_headroom(&vec![enough, enough + 1]).is_ok());
    let err = ensure_post_build_headroom(&vec![enough, enough - 1, 0]).unwrap_err();
    assert_eq!(err.rank, 1);
    assert_eq!(err.free, enough - 1);
    assert_eq!(
        err.message(),
        "GLM5.2 rank 1 has only 1024.0 MiB free VRAM after build (< 1.0 GiB headroom for graph \
         capture); lower --max-model-len or free device memory"
    );
}

#[test]
fn byte_sizes_are_rendered_per_rank() {
    assert_eq!(
        format_bytes(&vec![0, 1023, 1024, 5 << 30]),
        vec!["0 B", "1023 B", "1.0 KiB", "5.0 GiB"]
    );
}
