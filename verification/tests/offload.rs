use openinfer_glm52::offload::{
    arena_name, is_mla_arena_name, mla_bytes_per_token, offload_namespace, plan_offload,
    vllm_arena_name, Glm52ArenaKind, Glm52KvArena, Glm52OffloadError,
};

fn arena(name: &str, bytes_per_block: usize) -> Glm52KvArena {
    Glm52KvArena { name: name.to_string(), num_blocks: 513, bytes_per_block }
}

fn rank(bytes: usize) -> Vec<Glm52KvArena> {
    vec![arena("glm52.L0.idxk", 8448), arena("glm52.L0.mla", bytes), arena("glm52.L1.mla", bytes)]
}

#[test]
fn arenas_are_named_by_layer_and_kind() {
    assert_eq!(arena_name(7, Glm52ArenaKind::Mla), "glm52.L7.mla");
    assert_eq!(arena_name(42, Glm52ArenaKind::IndexK), "glm52.L42.idxk");
    assert!(is_mla_arena_name("glm52.L7.mla"));
    assert!(!is_mla_arena_name("glm52.L7.idxk"));
    assert!(!is_mla_arena_name("mla"));
}

#[test]
fn native_names_have_vllm_names() {
    for layer in [0usize, 9, 10, 77] {
        assert_eq!(
            vllm_arena_name(&arena_name(layer, Glm52ArenaKind::Mla)).unwrap(),
            format!("model.layers.{layer}.self_attn.attn")
        );
        assert_eq!(
            vllm_arena_name(&arena_name(layer, Glm52ArenaKind::IndexK)).unwrap(),
            format!("model.layers.{layer}.self_attn.indexer.k_cache")
        );
    }
}

#[test]
fn other_names_have_no_vllm_name() {
    for name in ["", "glm52.L", "glm52.L7", "glm52.Lx.mla", "glm52.L7.kv", "other.L7.mla"] {
        assert_eq!(vllm_arena_name(name), None, "{name}");
    }
}

#[test]
fn renamed_arenas_are_told_apart() {
    let mut names: Vec<String> = vec![];
    for layer in 0..78 {
        for kind in [Glm52ArenaKind::Mla, Glm52ArenaKind::IndexK] {
            names.push(vllm_arena_name(&arena_name(layer, kind)).unwrap());
        }
    }
    let count = names.len();
    names.sort();
    names.dedup();
    assert_eq!(names.len(), count);
}

#[test]
fn the_token_size_is_that_of_the_first_packed_arena() {
    assert_eq!(mla_bytes_per_token(&vec![rank(41_984), rank(41_984)]), Ok(656));
    assert_eq!(mla_bytes_per_token(&vec![]), Err(Glm52OffloadError::NoMlaArena));
    assert_eq!(
        mla_bytes_per_token(&vec![vec![arena("glm52.L0.idxk", 8448)]]),
        Err(Glm52OffloadError::NoMlaArena)
    );
    assert_eq!(
        mla_bytes_per_token(&vec![rank(41_984), rank(36_864)]),
        Err(Glm52OffloadError::LayoutsDisagree)
    );
}

#[test]
fn the_namespace_names_the_layout() {
    assert_eq!(offload_namespace(656, None), "openinfer-glm52-l78-p64-mla656-idxk132");
    assert_eq!(offload_namespace(656, Some("prefill")), "prefill");
}

#[test]
fn a_fleet_registers_every_rank() {
    let plan = plan_offload(&vec![rank(41_984), rank(41_984)], &vec![2, 3], None).unwrap();
    assert_eq!(plan.namespace, "openinfer-glm52-l78-p64-mla656-idxk132");
    assert!(!plan.page_first);
    assert_eq!(plan.instances.len(), 2);
    assert_eq!(plan.instances[1].name, "glm52-rank1");
    assert_eq!(plan.instances[1].device_ordinal, 3);
    assert_eq!(plan.instances[1].arenas[0].name, "glm52.L0.idxk");
    assert_eq!(plan.instances[1].arenas[2].bytes_per_block, 41_984);
}

#[test]
fn a_vllm_peer_sees_its_own_names() {
    let plan = plan_offload(&vec![rank(41_984)], &vec![0], Some("prefill")).unwrap();
    assert!(plan.page_first);
    assert_eq!(plan.namespace, "prefill");
    assert_eq!(plan.instances[0].arenas[0].name, "model.layers.0.self_attn.indexer.k_cache");
    assert_eq!(plan.instances[0].arenas[1].name, "model.layers.0.self_attn.attn");
    assert_eq!(plan.instances[0].arenas[1].num_blocks, 513);
}

#[test]
fn an_arena_without_a_vllm_name_is_refused() {
    let mut arenas = rank(41_984);
    arenas.push(arena("scratch", 1));
    let ranks = vec![rank(41_984), arenas];
    assert!(plan_offload(&ranks, &vec![0, 1], None).is_ok());
    assert_eq!(
        plan_offload(&ranks, &vec![0, 1], Some("prefill")).err(),
        Some(Glm52OffloadError::NoVllmName { rank: 1, arena: 3 })
    );
    assert_eq!(
        Glm52OffloadError::NoVllmName { rank: 1, arena: 3 }.message(&ranks),
        "GLM5.2 arena scratch has no vLLM-compat mapping"
    );
    assert_eq!(
        Glm52OffloadError::NoMlaArena.message(&ranks),
        "GLM5.2 KV offload has no MLA arena"
    );
    assert_eq!(
        Glm52OffloadError::LayoutsDisagree.message(&ranks),
        "GLM5.2 KV offload ranks disagree on MLA cache layout"
    );
}
