use openinfer_glm52::config::{glm52_layer_has_full_indexer, GLM52_LAYERS};
use openinfer_glm52::layer::{
    model_layers, plan_attention_half, plan_close, plan_mlp_half, plan_single_layer, plan_step_body, Glm52LayerError,
    Glm52LayerFacts, Glm52LayerFault, Glm52LayerMlp, Glm52LayerOp, Glm52SingleLayerError,
    Glm52SingleMlp, Glm52WalkShape,
};
use openinfer_glm52::proj::Glm52ProjError;
use openinfer_glm52::tensors::{
    plan_layer_takes, plan_model_takes, proj_names, take_names, vector_name, Glm52LayerProj,
    Glm52LayerTake, Glm52LayerVector, Glm52ModelTake,
};
use openinfer_glm52::topology::Glm52MoeTopo;

fn layer(index: usize) -> Glm52LayerFacts {
    let full = glm52_layer_has_full_indexer(index);
    Glm52LayerFacts {
        heads: 64,
        full_indexer: full,
        owns_index_cache: full,
        mlp: if index < 3 { Glm52LayerMlp::Dense } else { Glm52LayerMlp::Moe },
    }
}

fn model() -> Vec<Glm52LayerFacts> {
    (0..GLM52_LAYERS).map(layer).collect()
}

fn walk() -> Glm52WalkShape {
    Glm52WalkShape { rows: 4, global_rows: 32, all_reduce: false, aside: true }
}

#[test]
fn a_step_walks_every_layer_once() {
    let ops = plan_step_body(&model(), walk()).unwrap();
    assert_eq!(ops[0], Glm52LayerOp::Embed);
    assert_eq!(ops[1], Glm52LayerOp::InputNorm);
    assert_eq!(&ops[ops.len() - 3..], &[Glm52LayerOp::FinalNorm, Glm52LayerOp::Head, Glm52LayerOp::Argmax]);
    for index in 0..GLM52_LAYERS {
        let attends = ops
            .iter()
            .filter(|op| matches!(op, Glm52LayerOp::Attend { layer, .. } if *layer == index))
            .count();
        assert_eq!(attends, 1);
    }
    let captures: Vec<Glm52LayerOp> =
        ops.iter().copied().filter(|op| matches!(op, Glm52LayerOp::Capture { .. })).collect();
    assert_eq!(captures.len(), 5);
}

#[test]
fn residuals_alternate_between_two_buffers() {
    let ops = plan_step_body(&model(), walk()).unwrap();
    for op in ops {
        if let Glm52LayerOp::Attend { layer, odd } = op {
            assert_eq!(odd, layer % 2 == 1);
        }
        if let Glm52LayerOp::FinishFused { odd, next } = op {
            assert_eq!(odd, (next - 1) % 2 == 1);
        }
    }
}

#[test]
fn a_walk_is_refused_at_its_first_bad_layer() {
    let mut layers = model();
    layers[7].heads = 16;
    assert_eq!(
        plan_step_body(&layers, walk()).err(),
        Some(Glm52LayerError {
            layer: 7,
            fault: Glm52LayerFault::Wiring { heads: 16, all_reduce: false },
        })
    );
    let mut layers = model();
    layers[6].owns_index_cache = false;
    assert_eq!(
        plan_step_body(&layers, walk()).err(),
        Some(Glm52LayerError { layer: 6, fault: Glm52LayerFault::MissingIndexCache })
    );
    let mut layers = model();
    layers[3].owns_index_cache = true;
    assert_eq!(
        plan_step_body(&layers, walk()).err(),
        Some(Glm52LayerError { layer: 3, fault: Glm52LayerFault::UnexpectedIndexCache })
    );
    assert_eq!(
        plan_step_body(&vec![layer(3)], walk()).err(),
        Some(Glm52LayerError { layer: 0, fault: Glm52LayerFault::NoSelection })
    );
}

#[test]
fn a_head_shard_is_reduced_before_the_norm() {
    let mut facts = layer(0);
    facts.heads = 16;
    let mut selected = false;
    let ops = plan_attention_half(0, facts, true, false, &mut selected, false, true).unwrap();
    assert!(selected);
    let partial = ops.iter().position(|op| *op == Glm52LayerOp::AttendPartial { layer: 0 }).unwrap();
    assert_eq!(ops[partial + 1], Glm52LayerOp::AllReduce { layer: 0, odd: false });
    assert_eq!(ops[partial + 2], Glm52LayerOp::PostNorm { layer: 0, odd: false, first: true });
}

#[test]
fn the_last_layer_ends_in_the_residual_stream() {
    assert_eq!(plan_close(77, 78, true), vec![Glm52LayerOp::Finish { odd: true }]);
    assert_eq!(
        plan_close(7, 78, true),
        vec![
            Glm52LayerOp::FinishFused { odd: true, next: 8 },
            Glm52LayerOp::Capture { feature: 0, odd: true },
        ]
    );
}

#[test]
fn a_layer_alone_needs_its_experts_here() {
    let mut selected = false;
    let ops = plan_single_layer(layer(0), Glm52SingleMlp::Dense, &mut selected).unwrap();
    assert_eq!(ops[0], Glm52LayerOp::InputNorm);
    assert_eq!(&ops[ops.len() - 2..], &[Glm52LayerOp::Dense { layer: 0 }, Glm52LayerOp::Finish { odd: false }]);
    let ops = plan_single_layer(layer(3), Glm52SingleMlp::AllExperts, &mut selected).unwrap();
    assert!(ops.contains(&Glm52LayerOp::AllExperts { layer: 0 }));
    assert_eq!(
        plan_single_layer(layer(3), Glm52SingleMlp::Collective, &mut selected).err(),
        Some(Glm52SingleLayerError::NeedsCollective)
    );
    let mut fresh = false;
    assert_eq!(
        plan_single_layer(layer(3), Glm52SingleMlp::AllExperts, &mut fresh).err(),
        Some(Glm52SingleLayerError::Layer(Glm52LayerFault::NoSelection))
    );
}

#[test]
fn tensors_are_named_by_their_layer() {
    assert_eq!(
        proj_names(12, Glm52LayerProj::QA),
        (
            "model.layers.12.self_attn.q_a_proj.weight".to_string(),
            "model.layers.12.self_attn.q_a_proj.weight_scale_inv".to_string(),
        )
    );
    assert_eq!(
        vector_name(3, Glm52LayerVector::RouterBias),
        "model.layers.3.mlp.gate.e_score_correction_bias"
    );
    assert_eq!(Glm52LayerProj::KvB.stem_text(), ".self_attn.kv_b_proj");
    assert_eq!(Glm52LayerVector::RouterGate.bytes(), 256 * 6144 * 2);
}

#[test]
fn a_layer_takes_each_tensor_once() {
    for index in [0, 2, 3, 5, 6] {
        let takes = plan_layer_takes(index, false);
        for (i, take) in takes.iter().enumerate() {
            assert!(!takes[..i].contains(take));
        }
        let dense = takes.contains(&Glm52LayerTake::Proj(Glm52LayerProj::Gate));
        assert_eq!(dense, index < 3);
        assert_eq!(takes.contains(&Glm52LayerTake::Experts), !dense);
        assert_eq!(
            takes.contains(&Glm52LayerTake::Proj(Glm52LayerProj::IndexerWk)),
            glm52_layer_has_full_indexer(index)
        );
    }
}

#[test]
fn a_replicated_layer_takes_its_router_alone() {
    let takes = plan_layer_takes(3, true);
    assert!(takes.contains(&Glm52LayerTake::Vector(Glm52LayerVector::RouterGate)));
    assert!(takes.contains(&Glm52LayerTake::Vector(Glm52LayerVector::RouterBias)));
    assert!(!takes.contains(&Glm52LayerTake::Experts));
    assert!(!takes.contains(&Glm52LayerTake::Proj(Glm52LayerProj::SharedGate)));
    assert_eq!(plan_layer_takes(2, true), plan_layer_takes(2, false));
}

#[test]
fn a_model_takes_each_tensor_once() {
    for (replicated, moe) in [(false, 6), (true, 2)] {
        let takes = plan_model_takes(replicated);
        assert_eq!(takes.len(), 78 * 9 + 21 * 5 + 3 * 3 + 75 * moe + 3);
        assert_eq!(
            &takes[takes.len() - 3..],
            &[Glm52ModelTake::Embed, Glm52ModelTake::Head, Glm52ModelTake::FinalNorm]
        );
        let mut names: Vec<String> = takes.iter().flat_map(|&take| take_names(take)).collect();
        let count = names.len();
        names.sort();
        names.dedup();
        assert_eq!(names.len(), count);
        assert!(names.contains(&"model.embed_tokens.weight".to_string()));
        assert!(names.contains(&"model.layers.77.self_attn.o_proj.weight_scale_inv".to_string()));
    }
    let experts = Glm52ModelTake::Layer { layer: 3, take: Glm52LayerTake::Experts };
    assert!(take_names(experts).is_empty());
}

#[test]
fn a_replicated_layer_launches_the_router_and_the_slice_bank() {
    assert_eq!(
        plan_mlp_half(5, Glm52LayerMlp::Replicated, 4, 4),
        vec![Glm52LayerOp::Router { layer: 5 }, Glm52LayerOp::SliceBank { layer: 5, rows: 4 }]
    );
    for (topo, heads) in [(Glm52MoeTopo::Tp8, 8), (Glm52MoeTopo::Tp4, 16), (Glm52MoeTopo::Ep8, 64)] {
        let layers = model_layers(topo);
        assert_eq!(layers.len(), 78);
        assert!(layers.iter().all(|layer| layer.heads == heads));
        let all_reduce = heads != 64;
        let ops =
            plan_step_body(&layers, Glm52WalkShape { rows: 1, global_rows: 1, all_reduce, aside: false })
                .unwrap();
        let shared = ops.iter().filter(|op| matches!(op, Glm52LayerOp::SharedExpert { .. })).count();
        let banks = ops.iter().filter(|op| matches!(op, Glm52LayerOp::SliceBank { .. })).count();
        assert_eq!((shared, banks), if all_reduce { (0, 75) } else { (75, 0) });
    }
    assert_eq!(model_layers(Glm52MoeTopo::Ep8), model());
}

#[test]
fn a_taken_projection_has_the_bytes_of_its_shape() {
    let shape = Glm52LayerProj::SharedDown.shape();
    assert_eq!((shape.n, shape.k), (6144, 2048));
    assert_eq!(Glm52LayerProj::SharedDown.check(6144 * 2048, shape.scale_len()), Ok(()));
    assert_eq!(
        Glm52LayerProj::SharedDown.check(1, 2),
        Err(Glm52ProjError::WeightBytes { got: 1, n: 6144, k: 2048 })
    );
}

#[test]
fn a_refused_walk_says_why() {
    assert_eq!(
        Glm52LayerFault::Wiring { heads: 16, all_reduce: false }.message(),
        "GLM5.2 attention-TP wiring mismatch: layer holds 16 heads but AR is absent"
    );
    assert_eq!(
        Glm52LayerFault::Wiring { heads: 64, all_reduce: true }.message(),
        "GLM5.2 attention-TP wiring mismatch: layer holds 64 heads but AR is wired"
    );
    assert_eq!(
        Glm52LayerFault::MissingIndexCache.message(),
        "GLM5.2 full-indexer layer is missing its index-K cache"
    );
    assert_eq!(
        Glm52LayerFault::UnexpectedIndexCache.message(),
        "GLM5.2 shared-indexer layer unexpectedly owns an index-K cache"
    );
    assert_eq!(
        Glm52LayerFault::NoSelection.message(),
        "GLM5.2 shared-indexer layer reached before any full indexer ran"
    );
}
