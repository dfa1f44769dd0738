use openinfer_glm52::launch::{
    launch, remote_rank_count, Glm52KvOffloadOptions, Glm52LaunchError, Glm52LaunchOptions,
    Glm52P2pOptions, Glm52RankHostError, Glm52RankHostFault, Glm52RankHostSpec,
    Glm52VllmCompatOptions,
};
use openinfer_glm52::startup::{
    cache_vram, collect_load_reports, comm_id_width, engine_facts, model_phases, place_ranks,
    read_model_config, validate_startup, Glm52ModelPhase,
    Glm52RankHome, Glm52RankLoadReport, Glm52StartCleanup, Glm52StartMachine, Glm52StartStage,
    Glm52StartupError,
};
use openinfer_glm52::topology::Glm52MoeTopo;

const DEADLINE: u128 = 10_000_000_000;

fn options(topo: Glm52MoeTopo) -> Glm52LaunchOptions {
    Glm52LaunchOptions {
        tp_size: topo.expected_tp_size(),
        dp_size: topo.default_dp_size(),
        dspark_draft_model_path: None,
        max_model_len: None,
        no_prefix_cache: false,
        kv_offload: None,
        moe_topo: topo,
        dump_graph_png: None,
        rank_hosts: vec![],
    }
}

fn offload() -> Glm52KvOffloadOptions {
    Glm52KvOffloadOptions {
        pinned_pool_bytes: 1 << 30,
        use_hugepages: false,
        p2p: None,
        vllm_compat: None,
    }
}

fn compat(miss_wait: u128) -> Glm52VllmCompatOptions {
    Glm52VllmCompatOptions {
        python_hash_seed: "0".to_string(),
        namespace: "prefill".to_string(),
        miss_wait,
        allow_local_prefill: false,
    }
}

fn p2p() -> Glm52P2pOptions {
    Glm52P2pOptions {
        metaserver_addr: "meta:1".to_string(),
        advertise_addr: "self:2".to_string(),
        rdma_nics: vec!["mlx5_0".to_string()],
    }
}

fn host(addr: &str, ranks: usize) -> Glm52RankHostSpec {
    Glm52RankHostSpec { addr: addr.to_string(), ranks }
}

fn refusal(o: Glm52LaunchOptions) -> Glm52LaunchError {
    launch(o, DEADLINE).unwrap_err()
}

#[test]
fn rank_host_specs_are_read() {
    let spec: Glm52RankHostSpec = "node1:7000=8".parse().unwrap();
    assert_eq!((spec.addr.as_str(), spec.ranks), ("node1:7000", 8));
    let spec: Glm52RankHostSpec = "a=b:1=2".parse().unwrap();
    assert_eq!((spec.addr.as_str(), spec.ranks), ("a=b:1", 2));
}

#[test]
fn rank_host_specs_are_refused_with_a_reason() {
    for (text, fault, words) in [
        ("node1:7000", Glm52RankHostFault::NoRankCount, "rank-host spec `node1:7000` must be host:port=ranks"),
        (
            "node1:7000=x",
            Glm52RankHostFault::RankCountNotNumeric,
            "rank-host spec `node1:7000=x` has a non-numeric rank count",
        ),
        (
            "node1:7000=0",
            Glm52RankHostFault::EmptyAddressOrNoRanks,
            "rank-host spec `node1:7000=0` must be host:port=ranks with ranks > 0",
        ),
        (
            "=4",
            Glm52RankHostFault::EmptyAddressOrNoRanks,
            "rank-host spec `=4` must be host:port=ranks with ranks > 0",
        ),
    ] {
        let error: Glm52RankHostError = text.parse::<Glm52RankHostSpec>().unwrap_err();
        assert_eq!(error.fault, fault, "{text}");
        assert_eq!(error.message(), words);
    }
}

#[test]
fn remote_ranks_add_up() {
    let hosts = vec![host("a:1", 8), host("b:1", 4)];
    assert_eq!(remote_rank_count(&hosts), 12);
    assert_eq!(remote_rank_count(&vec![]), 0);
}

#[test]
fn a_launch_passes_its_settings_on() {
    let mut o = options(Glm52MoeTopo::Ep8);
    o.max_model_len = Some(8192);
    o.no_prefix_cache = true;
    o.dspark_draft_model_path = Some("draft".to_string());
    o.dump_graph_png = Some("graph.png".to_string());
    let plan = launch(o, DEADLINE).unwrap();
    assert_eq!(plan.load.device_ordinals, vec![0, 1, 2, 3, 4, 5, 6, 7]);
    assert_eq!((plan.load.tp_size, plan.load.dp_size, plan.load.ep_size), (1, 8, 8));
    assert_eq!(plan.max_model_len, Some(8192));
    assert!(plan.no_prefix_cache);
    assert_eq!(plan.dspark_draft_model_path.as_deref(), Some("draft"));
    assert_eq!(plan.dump_graph_png.as_deref(), Some("graph.png"));
}

#[test]
fn remote_ranks_leave_the_first_ranks_local() {
    let mut o = options(Glm52MoeTopo::Ep16);
    o.rank_hosts = vec![host("node1:7000", 8)];
    let plan = launch(o, DEADLINE).unwrap();
    assert_eq!(plan.load.device_ordinals, vec![0, 1, 2, 3, 4, 5, 6, 7]);
    assert_eq!(plan.load.rank_hosts.len(), 1);
    assert_eq!(validate_startup(&plan.load, Glm52MoeTopo::Ep16), Ok(()));
}

#[test]
fn parallel_sizes_must_fit_the_topology() {
    let mut o = options(Glm52MoeTopo::Tp4);
    o.tp_size = 1;
    let e = refusal(o);
    assert_eq!(e, Glm52LaunchError::TpSize { topo: Glm52MoeTopo::Tp4, got: 1 });
    assert_eq!(e.message(), "GLM5.2 TP4 requires --tp-size=4, got 1");

    let mut o = options(Glm52MoeTopo::Ep8);
    o.tp_size = 2;
    assert_eq!(refusal(o), Glm52LaunchError::TpSize { topo: Glm52MoeTopo::Ep8, got: 2 });

    let mut o = options(Glm52MoeTopo::Ep8);
    o.dp_size = 3;
    assert_eq!(
        refusal(o),
        Glm52LaunchError::DpSize { topo: Glm52MoeTopo::Ep8, expected: 8, got: 3 }
    );
}

#[test]
fn offload_needs_the_prefix_cache() {
    let mut o = options(Glm52MoeTopo::Ep8);
    o.kv_offload = Some(offload());
    o.no_prefix_cache = true;
    assert_eq!(refusal(o), Glm52LaunchError::OffloadNeedsPrefixCache);
    let mut o = options(Glm52MoeTopo::Ep8);
    o.kv_offload = Some(offload());
    assert!(launch(o, DEADLINE).unwrap().kv_offload.is_some());
}

#[test]
fn offload_needs_ranks_of_their_own() {
    let mut o = options(Glm52MoeTopo::Tp8);
    o.kv_offload = Some(offload());
    assert_eq!(refusal(o), Glm52LaunchError::OffloadNeedsEp8);
}

#[test]
fn a_vllm_peer_needs_the_mesh_and_a_short_wait() {
    let mut o = options(Glm52MoeTopo::Ep8);
    o.kv_offload = Some(Glm52KvOffloadOptions { vllm_compat: Some(compat(1)), ..offload() });
    assert_eq!(refusal(o), Glm52LaunchError::VllmCompatNeedsP2p);

    let mut o = options(Glm52MoeTopo::Ep8);
    o.kv_offload = Some(Glm52KvOffloadOptions {
        p2p: Some(p2p()),
        vllm_compat: Some(compat(DEADLINE)),
        ..offload()
    });
    let e = refusal(o);
    assert_eq!(e, Glm52LaunchError::MissWaitBeyondDeadline { deadline_secs: 10 });
    assert_eq!(
        e.message(),
        "GLM5.2 --kv-pd-miss-wait-ms must stay below the 10s remote-fetch deadline"
    );

    let mut o = options(Glm52MoeTopo::Ep8);
    o.kv_offload = Some(Glm52KvOffloadOptions {
        p2p: Some(p2p()),
        vllm_compat: Some(compat(DEADLINE - 1)),
        ..offload()
    });
    assert!(launch(o, DEADLINE).is_ok());
}

#[test]
fn remote_ranks_need_an_expert_parallel_topology() {
    let mut o = options(Glm52MoeTopo::Tp8);
    o.rank_hosts = vec![host("a:1", 1)];
    assert_eq!(refusal(o), Glm52LaunchError::RankHostsNeedEp);

    let mut o = options(Glm52MoeTopo::Ep8);
    o.rank_hosts = vec![host("a:1", 8)];
    assert_eq!(
        refusal(o),
        Glm52LaunchError::TooManyRemoteRanks { remote: 8, topo: Glm52MoeTopo::Ep8 }
    );

    let mut o = options(Glm52MoeTopo::Ep8);
    o.rank_hosts = vec![host("a:1", 4)];
    o.kv_offload = Some(offload());
    assert_eq!(refusal(o), Glm52LaunchError::OffloadWithRankHosts);
}

#[test]
fn what_a_launch_plans_starts_up() {
    for topo in [Glm52MoeTopo::Ep4, Glm52MoeTopo::Ep8, Glm52MoeTopo::Tp4, Glm52MoeTopo::Tp8] {
        let plan = launch(options(topo), DEADLINE).unwrap();
        assert_eq!(validate_startup(&plan.load, topo), Ok(()));
    }
}

#[test]
fn a_startup_checks_ranks_shape_and_ordinals() {
    let plan = launch(options(Glm52MoeTopo::Ep8), DEADLINE).unwrap();
    let mut load = plan.load.clone();
    load.device_ordinals.pop();
    assert_eq!(
        validate_startup(&load, Glm52MoeTopo::Ep8),
        Err(Glm52StartupError::RankCount { expected: 8, local: 7, remote: 0 })
    );
    let mut load = plan.load.clone();
    load.ep_size = 4;
    assert_eq!(
        validate_startup(&load, Glm52MoeTopo::Ep8),
        Err(Glm52StartupError::ParallelShape { tp_size: 1, dp_size: 8, ep_size: 4 })
    );
    let mut load = plan.load.clone();
    load.device_ordinals[5] = 2;
    assert_eq!(
        validate_startup(&load, Glm52MoeTopo::Ep8),
        Err(Glm52StartupError::RepeatedOrdinal { ordinal: 2 })
    );
}

#[test]
fn every_rank_has_one_home() {
    let placements = place_ranks(&vec![3, 5], &vec![host("a:1", 2), host("b:1", 1)]);
    let homes: Vec<Glm52RankHome> = placements.iter().map(|p| p.home).collect();
    assert_eq!(
        homes,
        vec![
            Glm52RankHome::Local { device_ordinal: 3 },
            Glm52RankHome::Local { device_ordinal: 5 },
            Glm52RankHome::Remote { host: 0, index: 0 },
            Glm52RankHome::Remote { host: 0, index: 1 },
            Glm52RankHome::Remote { host: 1, index: 0 },
        ]
    );
    for (rank, placement) in placements.iter().enumerate() {
        assert_eq!(placement.rank, rank);
    }
}

fn report(rank: usize, loaded_to_gpu: bool) -> Glm52RankLoadReport {
    Glm52RankLoadReport {
        rank,
        loaded_to_gpu,
        loaded_tensor_count: 10 + rank,
        loaded_total_bytes: 100 + rank as u64,
        free_vram_bytes: 1000 + rank as u64,
    }
}

#[test]
fn load_reports_are_gathered_in_rank_order() {
    let gathered = collect_load_reports(&vec![report(0, true), report(1, true)]).unwrap();
    assert_eq!(gathered.tensor_counts, vec![10, 11]);
    assert_eq!(gathered.bytes, vec![100, 101]);
    assert_eq!(gathered.free_vram_bytes, vec![1000, 1001]);
    assert_eq!(
        collect_load_reports(&vec![report(0, true), report(1, false)]).err(),
        Some(Glm52StartupError::LoadReport { rank: 1 })
    );
}

#[test]
fn the_engine_serves_one_block_less_than_its_pool() {
    let facts = engine_facts(4096, Glm52MoeTopo::Ep8);
    assert_eq!(facts.servable_len, 4096);
    assert_eq!(facts.kv_block_size, 64);
    assert_eq!(facts.kv_total_blocks, 8 * (64 + 1));
    assert_eq!(facts.logical_ranks, 8);
    assert_eq!(comm_id_width(Glm52MoeTopo::Tp4), None);
    assert_eq!(comm_id_width(Glm52MoeTopo::Tp8), Some(8));
    assert_eq!(comm_id_width(Glm52MoeTopo::Ep16), Some(16));
}

#[test]
fn collectives_follow_the_builds_where_there_are_any() {
    assert_eq!(model_phases(Glm52MoeTopo::Tp4), vec![Glm52ModelPhase::Build]);
    for topo in [Glm52MoeTopo::Tp8, Glm52MoeTopo::Ep4, Glm52MoeTopo::Ep8, Glm52MoeTopo::Ep64] {
        assert_eq!(
            model_phases(topo),
            vec![Glm52ModelPhase::Build, Glm52ModelPhase::SetupComm]
        );
    }
}

#[test]
fn a_full_start_runs_every_stage() {
    let mut machine = Glm52StartMachine::new(true, true, true);
    let mut stages = vec![machine.stage];
    while machine.stage != Glm52StartStage::Serving {
        stages.push(machine.succeed());
    }
    assert_eq!(
        stages,
        vec![
            Glm52StartStage::Validating,
            Glm52StartStage::LoadingWeights,
            Glm52StartStage::SizingContext,
            Glm52StartStage::ReadingEos,
            Glm52StartStage::BuildingModels,
            Glm52StartStage::LoadingDrafters,
            Glm52StartStage::ProbingHeadroom,
            Glm52StartStage::RegisteringOffload,
            Glm52StartStage::SpawningCoordinator,
            Glm52StartStage::ExportingGraph,
            Glm52StartStage::Serving,
        ]
    );
}

#[test]
fn a_plain_start_leaves_the_optional_stages_out() {
    let mut machine = Glm52StartMachine::new(false, false, false);
    let mut count = 0;
    while machine.stage != Glm52StartStage::Serving {
        assert_ne!(machine.succeed(), Glm52StartStage::LoadingDrafters);
        count += 1;
    }
    assert_eq!(count, 7);
}

#[test]
fn a_failed_start_cleans_up_what_it_holds() {
    let mut machine = Glm52StartMachine::new(true, true, true);
    assert_eq!(machine.fail(), Glm52StartCleanup::Nothing);
    assert_eq!(machine.stage, Glm52StartStage::Failed);

    for stage in [
        Glm52StartStage::BuildingModels,
        Glm52StartStage::LoadingDrafters,
        Glm52StartStage::ProbingHeadroom,
        Glm52StartStage::RegisteringOffload,
        Glm52StartStage::SpawningCoordinator,
    ] {
        let mut machine = Glm52StartMachine::new(true, true, true);
        while machine.stage != stage {
            machine.succeed();
        }
        assert_eq!(machine.fail(), Glm52StartCleanup::ShutdownRanks, "{stage:?}");
    }

    let mut machine = Glm52StartMachine::new(true, true, true);
    while machine.stage != Glm52StartStage::ExportingGraph {
        machine.succeed();
    }
    assert_eq!(machine.fail(), Glm52StartCleanup::JoinCoordinator);
}

#[test]
fn the_caches_count_on_the_poorest_rank() {
    let twins = 78 * (2624 * 6144 + 21 * 48 * 4);
    assert_eq!(cache_vram(&vec![9_000_000_000, 8_000_000_000], false), 8_000_000_000);
    assert_eq!(cache_vram(&vec![9_000_000_000, 8_000_000_000], true), 8_000_000_000 - twins);
    assert_eq!(cache_vram(&vec![5], true), 0);
}

#[test]
fn the_model_config_is_read_before_anything_else() {
    let value = read_model_config(r#"{"model_type": "glm", "num_hidden_layers": 78}"#).unwrap();
    assert_eq!(value.get("num_hidden_layers").and_then(|v| v.as_u64()), Some(78));
    assert_eq!(value.get("model_type").and_then(|v| v.as_str()), Some("glm"));
    assert!(read_model_config("[1, 2]").unwrap().is_array());
    for broken in ["", "{", "{\"a\": 1} trailing"] {
        assert_eq!(read_model_config(broken).err(), Some(Glm52StartupError::ConfigUnparsable));
    }
}

#[test]
fn a_refused_startup_says_why() {
    let plan = launch(options(Glm52MoeTopo::Ep8), DEADLINE).unwrap();
    let topo = Glm52MoeTopo::Ep8;
    let mut load = plan.load.clone();
    load.device_ordinals.pop();
    let e = validate_startup(&load, topo).unwrap_err();
    assert_eq!(
        e.message(&load, topo),
        "GLM5.2 Ep8 load requires 8 ranks, got 7 local ([0, 1, 2, 3, 4, 5, 6]) + 0 remote"
    );
    let mut load = plan.load.clone();
    load.ep_size = 4;
    let e = validate_startup(&load, topo).unwrap_err();
    assert_eq!(
        e.message(&load, topo),
        "GLM5.2 Ep8 requires TP1/DP8/EP8, got TP1 DP8 EP4"
    );
    let mut load = plan.load.clone();
    load.device_ordinals[5] = 2;
    let e = validate_startup(&load, topo).unwrap_err();
    assert_eq!(
        e.message(&load, topo),
        "GLM5.2 device ordinals must be unique, got [0, 1, 2, 3, 4, 2, 6, 7]"
    );
    let e = collect_load_reports(&vec![report(1, true)]).err().unwrap();
    assert_eq!(e.message(&load, topo), "GLM5.2 rank 0 invalid weight-load report");
    assert_eq!(
        Glm52StartupError::ConfigUnparsable.message(&load, topo),
        "config.json is not a JSON document"
    );
}
