use openinfer_glm52::budget::glm52_arena_bytes;
use openinfer_glm52::config::GLM52_VOCAB;
use openinfer_glm52::mla::Glm52MlaBackend;
use openinfer_glm52::offload::Glm52ArenaKind;
use openinfer_glm52::rank_model::{
    captured_bucket, check_consumed, dump_bucket, kv_arenas, layer_cache_bytes, logit_rows, plan_build,
    plan_rope_fixup, Glm52BucketError, Glm52BuildError, Glm52FixupError, Glm52LayerCacheBytes,
};
use openinfer_glm52::topology::Glm52MoeTopo;

const HEAD: usize = 154_880 * 6144 * 2;

#[test]
fn an_expert_parallel_rank_holds_the_whole_model_but_its_experts() {
    let plan = plan_build(Glm52MoeTopo::Ep8, None, 4096, false, HEAD, HEAD).unwrap();
    assert_eq!(plan.heads, 64);
    assert_eq!(plan.backend, Glm52MlaBackend::FlashMlaFp8Ds);
    assert!(!plan.single_part && !plan.preflight);
    assert_eq!(plan.num_blocks, 8 * 65 + 1);
    assert_eq!(plan.table_width, 64);
    assert_eq!(plan.mla_cache_bytes, 521 * 64 * 656);
    assert_eq!(plan.index_cache_bytes, 521 * 8448);
    assert_eq!(plan.rope_len, 4096 * 32);
    assert!(plan.shard.is_none());
    assert_eq!(plan.ep_ranks, 8);
}

#[test]
fn a_tensor_replicated_rank_holds_a_vocabulary_shard() {
    for (topo, devices) in [(Glm52MoeTopo::Tp4, 4), (Glm52MoeTopo::Tp8, 8)] {
        let mut next = 0;
        for rank in 0..devices {
            let plan = plan_build(topo, Some(rank), 4096, false, HEAD, HEAD).unwrap();
            assert_eq!(plan.ep_ranks, 1);
            let shard = plan.shard.unwrap();
            assert_eq!(shard.start, next);
            next += shard.rows;
        }
        assert_eq!(next, GLM52_VOCAB);
    }
}

#[test]
fn the_caches_are_what_the_budget_counts() {
    let plan = plan_build(Glm52MoeTopo::Ep8, None, 8192, false, HEAD, HEAD).unwrap();
    let caches = layer_cache_bytes(&plan);
    let bytes: u64 = caches.iter().map(|c| c.mla + c.index_k.unwrap_or(0)).sum();
    assert!(bytes <= glm52_arena_bytes(8192));
    assert_eq!(caches.iter().filter(|c| c.index_k.is_some()).count(), 21);
}

#[test]
fn a_build_takes_every_tensor() {
    assert_eq!(check_consumed(&vec![]), Ok(()));
    let left = vec!["model.norm.bias".to_string(), "extra".to_string()];
    assert_eq!(
        check_consumed(&left),
        Err(Glm52BuildError::NotConsumed { name: "model.norm.bias".to_string() })
    );
}

#[test]
fn a_build_is_refused_with_a_reason() {
    assert_eq!(
        plan_build(Glm52MoeTopo::Ep8, Some(0), 4096, false, HEAD, HEAD).err(),
        Some(Glm52BuildError::ShardTopology { topo: Glm52MoeTopo::Ep8, shard: Some(0) })
    );
    assert_eq!(
        plan_build(Glm52MoeTopo::Tp8, None, 4096, false, HEAD, HEAD).err(),
        Some(Glm52BuildError::ShardTopology { topo: Glm52MoeTopo::Tp8, shard: None })
    );
    assert_eq!(
        plan_build(Glm52MoeTopo::Ep8, None, 100, false, HEAD, HEAD).err(),
        Some(Glm52BuildError::ModelLen { max_model_len: 100 })
    );
    assert_eq!(
        plan_build(Glm52MoeTopo::Ep8, None, 4096, false, HEAD, 1).err(),
        Some(Glm52BuildError::VocabBytes { embed: HEAD, head: 1 })
    );
    assert_eq!(
        plan_build(Glm52MoeTopo::Tp4, Some(4), 4096, false, HEAD, HEAD).err(),
        Some(Glm52BuildError::VocabShard { rank: 4, ranks: 4 })
    );
}

#[test]
fn the_head_emits_the_selectable_prefix_or_a_shard() {
    assert_eq!(logit_rows(154_880, 151_552), Some(151_552));
    assert_eq!(logit_rows(151_552 / 8, 151_552), Some(18_944));
    assert_eq!(logit_rows(1000, 151_552), None);
    assert_eq!(logit_rows(0, 151_552), None);
}

#[test]
fn the_caches_are_registered_layer_by_layer() {
    let plan = plan_build(Glm52MoeTopo::Ep8, None, 4096, false, HEAD, HEAD).unwrap();
    let arenas = kv_arenas(&layer_cache_bytes(&plan), 4096, 656).unwrap();
    assert_eq!(arenas.len(), 78 + 21);
    assert_eq!(arenas[0].name, "glm52.L0.mla");
    assert_eq!((arenas[0].num_blocks, arenas[0].bytes_per_block), (521, 41_984));
    assert_eq!(arenas[1].name, "glm52.L0.idxk");
    assert_eq!((arenas[1].num_blocks, arenas[1].bytes_per_block), (521, 8448));
    assert!(arenas.iter().any(|a| a.name == "glm52.L77.mla"));
    assert!(!arenas.iter().any(|a| a.name == "glm52.L3.idxk"));
}

#[test]
fn a_cache_of_another_size_is_not_registered() {
    let caches = vec![Glm52LayerCacheBytes { mla: 521 * 41_984 - 1, index_k: None }];
    let error = kv_arenas(&caches, 4096, 656).unwrap_err();
    assert_eq!(error.layer, 0);
    assert_eq!(error.kind, Glm52ArenaKind::Mla);
    assert_eq!((error.blocks, error.block_bytes), (521, 41_984));
}

#[test]
fn restored_pages_are_rotated_in_every_cache() {
    let caches = vec![
        Glm52LayerCacheBytes { mla: 1, index_k: Some(1) },
        Glm52LayerCacheBytes { mla: 1, index_k: None },
    ];
    let fixups = plan_rope_fixup(&caches, &vec![4, 9], 656).unwrap();
    let kinds: Vec<(usize, Glm52ArenaKind)> = fixups.iter().map(|f| (f.layer, f.kind)).collect();
    assert!(kinds.contains(&(0, Glm52ArenaKind::Mla)));
    assert!(kinds.contains(&(0, Glm52ArenaKind::IndexK)));
    assert!(kinds.contains(&(1, Glm52ArenaKind::Mla)));
    assert_eq!(fixups.len(), 3);
    assert!(fixups.iter().all(|f| f.pages == 2));
    assert_eq!(plan_rope_fixup(&caches, &vec![], 656).err(), Some(Glm52FixupError::NoPages));
    assert_eq!(
        plan_rope_fixup(&caches, &vec![1], 576).err(),
        Some(Glm52FixupError::CacheRow { bytes_per_token: 576 })
    );
}

#[test]
fn only_captured_buckets_are_exported() {
    assert_eq!(dump_bucket(4, [false, false, true, false]), Ok(2));
    assert_eq!(
        dump_bucket(4, [true, true, false, true]),
        Err(Glm52BucketError::NotCaptured { bucket: 4 })
    );
    assert_eq!(dump_bucket(3, [true; 4]), Err(Glm52BucketError::Unknown { bucket: 3 }));
    assert_eq!(captured_bucket(8, true), Ok(3));
    assert_eq!(captured_bucket(8, false), Err(Glm52BucketError::CaptureDisabled));
    assert_eq!(captured_bucket(7, true), Err(Glm52BucketError::Unknown { bucket: 7 }));
}

#[test]
fn a_refused_build_says_why() {
    let texts = [
        (
            Glm52BuildError::ShardTopology { topo: Glm52MoeTopo::Ep8, shard: Some(3) },
            "GLM5.2 attention-TP shard must ride a tensor-replicated topology (topo Ep8, shard Some(3))",
        ),
        (
            Glm52BuildError::ShardTopology { topo: Glm52MoeTopo::Tp8, shard: None },
            "GLM5.2 attention-TP shard must ride a tensor-replicated topology (topo Tp8, shard None)",
        ),
        (
            Glm52BuildError::ModelLen { max_model_len: 100 },
            "GLM5.2 max_model_len 100 must be a positive multiple of 64 (the FlashMLA page / index-K block size)",
        ),
        (
            Glm52BuildError::VocabBytes { embed: 1, head: 2 },
            "GLM5.2 embed/lm_head byte lengths unexpected",
        ),
        (
            Glm52BuildError::VocabShard { rank: 4, ranks: 4 },
            "GLM5.2 vocab TP shard 4/4 cannot partition 154880 rows",
        ),
        (
            Glm52BuildError::NotConsumed { name: "model.norm.bias".to_string() },
            "GLM5.2 model build left tensor model.norm.bias unconsumed",
        ),
    ];
    for (error, text) in texts {
        assert_eq!(error.message(), text);
    }
}
