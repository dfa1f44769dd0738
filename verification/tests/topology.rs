use openinfer_glm52::config::GLM52_EP_RANKS;
use openinfer_glm52::topology::Glm52MoeTopo;

#[test]
fn tp4_topology_shape_is_four_rank_replicated_tp() {
    assert_eq!(Glm52MoeTopo::Tp4.default_dp_size(), 1);
    assert_eq!(Glm52MoeTopo::Tp4.device_count(), 4);
    assert_eq!(Glm52MoeTopo::Tp4.logical_rank_count(), 1);
    assert_eq!(Glm52MoeTopo::Tp4.expected_tp_size(), 4);
    assert_eq!(Glm52MoeTopo::Tp4.expected_ep_size(), 1);
    assert!(!Glm52MoeTopo::Tp4.uses_ep_expert_bundles());
    assert!(Glm52MoeTopo::Tp4.uses_tensor_replicated_moe());
}

#[test]
fn tp8_and_ep8_shapes_remain_unchanged() {
    for topo in [Glm52MoeTopo::Ep8, Glm52MoeTopo::Tp8] {
        assert_eq!(topo.default_dp_size(), GLM52_EP_RANKS);
        assert_eq!(topo.device_count(), GLM52_EP_RANKS);
        assert_eq!(topo.expected_tp_size(), 1);
        assert_eq!(topo.expected_ep_size(), GLM52_EP_RANKS);
    }
    assert_eq!(Glm52MoeTopo::Ep8.logical_rank_count(), GLM52_EP_RANKS);
    assert_eq!(Glm52MoeTopo::Tp8.logical_rank_count(), 1);
    assert!(Glm52MoeTopo::Ep8.uses_ep_expert_bundles());
    assert!(!Glm52MoeTopo::Ep8.uses_tensor_replicated_moe());
    assert!(!Glm52MoeTopo::Tp8.uses_ep_expert_bundles());
    assert!(Glm52MoeTopo::Tp8.uses_tensor_replicated_moe());
    assert_eq!(Glm52MoeTopo::Ep8.ep_local_experts(), 32);
}

#[test]
fn ep4_topology_shape_is_four_rank_expert_parallel() {
    assert_eq!(Glm52MoeTopo::Ep4.default_dp_size(), 4);
    assert_eq!(Glm52MoeTopo::Ep4.device_count(), 4);
    assert_eq!(Glm52MoeTopo::Ep4.logical_rank_count(), 4);
    assert_eq!(Glm52MoeTopo::Ep4.expected_tp_size(), 1);
    assert_eq!(Glm52MoeTopo::Ep4.expected_ep_size(), 4);
    assert!(Glm52MoeTopo::Ep4.uses_ep_expert_bundles());
    assert!(!Glm52MoeTopo::Ep4.uses_tensor_replicated_moe());
    assert_eq!(Glm52MoeTopo::Ep4.ep_local_experts(), 64);
    assert_eq!("ep4".parse::<Glm52MoeTopo>().unwrap(), Glm52MoeTopo::Ep4);
}

#[test]
fn cross_tray_ep_widths_shard_all_routed_experts() {
    for (topo, ranks, local) in [
        (Glm52MoeTopo::Ep16, 16, 16),
        (Glm52MoeTopo::Ep32, 32, 8),
        (Glm52MoeTopo::Ep64, 64, 4),
    ] {
        assert_eq!(topo.default_dp_size(), ranks);
        assert_eq!(topo.device_count(), ranks);
        assert_eq!(topo.logical_rank_count(), ranks);
        assert_eq!(topo.expected_tp_size(), 1);
        assert_eq!(topo.expected_ep_size(), ranks);
        assert!(topo.uses_ep_expert_bundles());
        assert!(!topo.uses_tensor_replicated_moe());
        assert_eq!(topo.ep_local_experts(), local);
        assert_eq!(format!("ep{ranks}").parse::<Glm52MoeTopo>().unwrap(), topo);
    }
}

#[test]
fn every_topology_has_its_own_name() {
    let named = [
        ("ep4", Glm52MoeTopo::Ep4),
        ("ep8", Glm52MoeTopo::Ep8),
        ("ep16", Glm52MoeTopo::Ep16),
        ("ep32", Glm52MoeTopo::Ep32),
        ("ep64", Glm52MoeTopo::Ep64),
        ("tp8", Glm52MoeTopo::Tp8),
        ("tp4", Glm52MoeTopo::Tp4),
    ];
    for (name, topo) in named {
        assert_eq!(Glm52MoeTopo::parse(name), Some(topo));
    }
    assert_eq!(Glm52MoeTopo::default(), Glm52MoeTopo::Ep8);
    assert_eq!(Glm52MoeTopo::Tp8.label_text(), "Tp8");
}

#[test]
fn an_unknown_topology_is_refused_by_name() {
    assert_eq!(Glm52MoeTopo::parse("EP8"), None);
    let err = "ep128".parse::<Glm52MoeTopo>().unwrap_err();
    assert_eq!(
        err.message(),
        "GLM5.2 MoE topology must be ep4, ep8, ep16, ep32, ep64, tp8, or tp4, got ep128"
    );
}

#[test]
fn every_expert_bundle_topology_holds_each_expert_once() {
    for topo in [
        Glm52MoeTopo::Ep4,
        Glm52MoeTopo::Ep8,
        Glm52MoeTopo::Ep16,
        Glm52MoeTopo::Ep32,
        Glm52MoeTopo::Ep64,
    ] {
        assert_eq!(topo.device_count() * topo.ep_local_experts(), 256);
    }
}
