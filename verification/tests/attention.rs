use openinfer_glm52::budget::Glm52IndexerCacheLayout;
use openinfer_glm52::indexer::{
    check_indexer_weights, decode_shape, indexer_lens, plan_cache_fill, plan_indexer,
    Glm52IndexerError, Glm52IndexerLaunch,
};
use openinfer_glm52::mla::{
    glm52_qa_kva_twin_bytes, glm52_select_mla_backend, mla_heads, pack_qa_kva, split_kv_b,
    uk_scale_index, uv_scale_index, Glm52MlaBackend, Glm52MlaError, Glm52MlaProj, Glm52MlaProjs,
};
use openinfer_glm52::mla_plan::{
    attend_kind, attend_lens, check_packed_split, folds_kv_pack, front_lens, front_path,
    plan_attend, plan_front_q, plan_front_rest, plan_preflight, Glm52AttendKind,
    Glm52AttendShape, Glm52FrontPath, Glm52MlaLaunch,
};
use openinfer_glm52::proj::Glm52Proj;

fn proj(n: usize, k: usize) -> Glm52Proj {
    Glm52Proj { n, k }
}

fn projs(heads: usize) -> Glm52MlaProjs {
    Glm52MlaProjs {
        q_a: proj(2048, 6144),
        q_b: proj(256 * heads, 2048),
        kv_a: proj(576, 6144),
        kv_b: proj(448 * heads, 512),
        o_proj: proj(6144, 256 * heads),
    }
}

#[test]
fn the_backend_follows_the_device_and_the_heads() {
    assert_eq!(glm52_select_mla_backend(64, false), Glm52MlaBackend::FlashMlaFp8Ds);
    assert_eq!(Glm52MlaBackend::FlashMlaFp8Ds.cache_bytes_per_token(), 656);
    assert_eq!(Glm52MlaBackend::FlashInferFp8.cache_bytes_per_token(), 576);
}

#[test]
fn the_heads_are_read_off_the_projections() {
    assert_eq!(mla_heads(16_384, 28_672, 16_384), Ok(64));
    assert_eq!(mla_heads(2048, 3584, 2048), Ok(8));
    assert_eq!(mla_heads(100, 28_672, 16_384), Err(Glm52MlaError::QueryRows { n: 100 }));
    assert_eq!(
        mla_heads(256 * 65, 448 * 65, 256 * 65),
        Err(Glm52MlaError::TooManyHeads { heads: 65 })
    );
    assert_eq!(
        mla_heads(16_384, 28_671, 16_384),
        Err(Glm52MlaError::HeadMismatch { heads: 64, kv_b_n: 28_671, o_proj_k: 16_384 })
    );
}

#[test]
fn a_layers_projections_fit_together() {
    assert_eq!(projs(64).check(2048, 512), Ok(64));
    assert_eq!(projs(16).check(2048, 512), Ok(16));
    let mut wrong = projs(64);
    wrong.kv_a = proj(575, 6144);
    assert_eq!(
        wrong.check(2048, 512),
        Err(Glm52MlaError::Shape {
            which: Glm52MlaProj::KvA,
            got: proj(575, 6144),
            want: proj(576, 6144),
        })
    );
    wrong.kv_b = proj(28_671, 512);
    assert_eq!(
        wrong.check(2047, 512),
        Err(Glm52MlaError::HeadMismatch { heads: 64, kv_b_n: 28_671, o_proj_k: 16_384 })
    );
    let mut both = projs(64);
    both.q_a = proj(2048, 6143);
    both.o_proj = proj(6143, 16_384);
    assert_eq!(
        both.check(2047, 512),
        Err(Glm52MlaError::Shape {
            which: Glm52MlaProj::QA,
            got: proj(2048, 6143),
            want: proj(2048, 6144),
        })
    );
    assert_eq!(
        projs(64).check(2047, 512),
        Err(Glm52MlaError::LayernormLengths { q_a: 2047, kv_a: 512 })
    );
}

#[test]
fn the_twin_projection_is_counted_as_allocated() {
    let pair = pack_qa_kva(true, proj(2048, 6144), proj(576, 6144)).unwrap();
    assert_eq!(pair.proj, proj(2624, 6144));
    assert_eq!(glm52_qa_kva_twin_bytes(true), 78 * (pair.weight_len + pair.scale_len));
    assert!(pack_qa_kva(false, proj(2048, 6144), proj(576, 6144)).is_none());
    assert_eq!(glm52_qa_kva_twin_bytes(false), 0);
}

#[test]
fn the_absorbed_weights_hold_every_code_once() {
    let kv_b = proj(448, 512);
    let weight: Vec<u8> = (0..448 * 512).map(|i| (i % 251) as u8).collect();
    let codes = split_kv_b(kv_b, &weight, 4 * 4 * 4).unwrap();
    assert_eq!(codes.heads, 1);
    assert_eq!(codes.uk.len(), 192 * 512);
    assert_eq!(codes.uv.len(), 256 * 512);
    let mut before = [0usize; 256];
    let mut after = [0usize; 256];
    for &code in &weight {
        before[code as usize] += 1;
    }
    for &code in codes.uk.iter().chain(&codes.uv) {
        after[code as usize] += 1;
    }
    assert_eq!(before, after);
    assert_eq!(uk_scale_index(0), 0);
    assert_eq!(uv_scale_index(0), 4);
}

#[test]
fn absorbed_bytes_are_checked() {
    let kv_b = proj(448, 512);
    assert!(matches!(split_kv_b(kv_b, &vec![0u8; 7], 64), Err(Glm52MlaError::Bytes(_))));
    assert!(matches!(
        split_kv_b(kv_b, &vec![0u8; 448 * 512], 63),
        Err(Glm52MlaError::Bytes(_))
    ));
}

#[test]
fn the_front_takes_the_widest_launch_it_can() {
    for rows in [1, 2, 4, 8] {
        for packed in [false, true] {
            for routed in [false, true] {
                let path = front_path(rows, packed, routed);
                let launches = plan_front_q(rows, packed, routed);
                let separate = launches
                    .iter()
                    .filter(|l| matches!(l, Glm52MlaLaunch::Linear { proj: Glm52MlaProj::QA, .. }))
                    .count();
                assert_eq!(separate, usize::from(path == Glm52FrontPath::Separate));
            }
        }
    }
    assert_eq!(front_path(1, true, true), Glm52FrontPath::Pair);
    assert_eq!(front_path(2, true, true), Glm52FrontPath::Packed);
    assert_eq!(front_path(2, true, false), Glm52FrontPath::Separate);
}

#[test]
fn the_kv_rows_are_projected_once() {
    for packed in [false, true] {
        for routed in [false, true] {
            let mut launches = plan_front_q(2, packed, routed);
            launches.extend(plan_front_rest(2, packed, routed, false, 64, 64).unwrap());
            let projections = launches
                .iter()
                .filter(|l| {
                    matches!(
                        l,
                        Glm52MlaLaunch::LinearPair
                            | Glm52MlaLaunch::PackedPartials { .. }
                            | Glm52MlaLaunch::Linear { proj: Glm52MlaProj::KvA, .. }
                    )
                })
                .count();
            assert_eq!(projections, 1);
        }
    }
    assert_eq!(
        plan_front_rest(2, false, false, false, 64, 16).err(),
        Some(Glm52MlaError::FrontHeads { front: 64, weights: 16 })
    );
}

#[test]
fn the_packed_split_is_checked() {
    assert!(check_packed_split(0).is_err());
    assert_eq!(check_packed_split(0).err(), Some(Glm52MlaError::RegisterTile));
}

#[test]
fn a_new_token_is_cached_once_before_it_is_attended() {
    let shape = Glm52AttendShape { rows: 2, blocks: 521, topk: 2048 };
    for kind in [Glm52AttendKind::Rightsize, Glm52AttendKind::FlashMla, Glm52AttendKind::FlashInfer] {
        let launches = plan_attend(shape, 64, 64, 64, kind, kind).unwrap();
        let packs: Vec<usize> = launches
            .iter()
            .enumerate()
            .filter(|(_, l)| {
                matches!(l, Glm52MlaLaunch::CachePack { .. } | Glm52MlaLaunch::FrontPack { .. })
            })
            .map(|(i, _)| i)
            .collect();
        let attend = launches
            .iter()
            .position(|l| {
                matches!(
                    l,
                    Glm52MlaLaunch::SparseDecode { .. }
                        | Glm52MlaLaunch::FlashMla { .. }
                        | Glm52MlaLaunch::FlashInfer { .. }
                )
            })
            .unwrap();
        assert_eq!(packs.len(), 1, "{kind:?}");
        assert!(packs[0] < attend);
        assert_eq!(
            folds_kv_pack(kind),
            matches!(launches[packs[0]], Glm52MlaLaunch::FrontPack { .. })
        );
    }
}

#[test]
fn attending_checks_heads_and_backend() {
    let shape = Glm52AttendShape { rows: 2, blocks: 521, topk: 2048 };
    assert_eq!(
        plan_attend(shape, 64, 16, 64, Glm52AttendKind::FlashMla, Glm52AttendKind::FlashMla).err(),
        Some(Glm52MlaError::AttendHeads { weights: 64, front: 16, scratch: 64 })
    );
    assert!(plan_attend(shape, 64, 64, 64, Glm52AttendKind::FlashMla, Glm52AttendKind::FlashInfer)
        .is_err());
    assert_eq!(attend_kind(Glm52MlaBackend::FlashInferFp8, 64, 8), Glm52AttendKind::FlashInfer);
}

#[test]
fn only_flashinfer_is_launched_ahead() {
    let shape = Glm52AttendShape { rows: 8, blocks: 521, topk: 2048 };
    let flash = plan_preflight(shape, 64, Glm52AttendKind::FlashInfer, Glm52AttendKind::FlashInfer);
    assert!(matches!(flash, Ok(Some(Glm52MlaLaunch::FlashInfer { .. }))));
    let mla = plan_preflight(shape, 64, Glm52AttendKind::FlashMla, Glm52AttendKind::FlashMla);
    assert!(matches!(mla, Ok(None)));
}

#[test]
fn attention_scratch_is_sized_by_rows_and_heads() {
    let front = front_lens(2, 64).unwrap();
    assert_eq!((front.q_a, front.q_full), (2 * 2048, 2 * 16_384));
    assert_eq!((front.ckv, front.kv_c, front.k_pe), (2 * 576, 2 * 512, 2 * 64));
    assert_eq!(front_lens(2, 0).err(), Some(Glm52MlaError::HeadsOutOfRange { heads: 0 }));
    let attend = attend_lens(2, 64, Glm52MlaBackend::FlashMlaFp8Ds).unwrap();
    assert_eq!(attend.ql_nope, 2 * 64 * 512);
    assert_eq!(attend.value, 2 * 64 * 256);
    assert_eq!((attend.ckv_fp8, attend.ckv_scales), (2 * 512, 2 * 4));
}

fn layout() -> Glm52IndexerCacheLayout {
    Glm52IndexerCacheLayout {
        cache_blocks: 521,
        cache_block_size: 64,
        cache_block_stride_bytes: 8448,
    }
}

#[test]
fn the_indexers_weights_are_checked_in_order() {
    let good = (proj(4096, 2048), proj(128, 6144), 32 * 6144, 256, 256);
    assert_eq!(check_indexer_weights(good.0, good.1, good.2, good.3, good.4), Ok(()));
    assert_eq!(
        check_indexer_weights(proj(1, 2), good.1, good.2, good.3, good.4),
        Err(Glm52IndexerError::QueryShape { got: proj(1, 2) })
    );
    assert_eq!(
        check_indexer_weights(good.0, proj(1, 2), good.2, good.3, good.4),
        Err(Glm52IndexerError::KeyShape { got: proj(1, 2) })
    );
    assert_eq!(
        check_indexer_weights(good.0, good.1, 5, good.3, good.4),
        Err(Glm52IndexerError::HeadWeights { got: 5 })
    );
    assert_eq!(
        check_indexer_weights(good.0, good.1, good.2, 255, good.4),
        Err(Glm52IndexerError::KeyNorm { got: 255 })
    );
}

#[test]
fn the_indexers_logits_cover_the_context() {
    let shape = decode_shape(8, layout(), 64, 132, 4096);
    assert_eq!(shape.batch_size, 8);
    assert_eq!((shape.num_heads, shape.head_dim), (32, 128));
    assert_eq!((shape.num_kv_blocks, shape.block_kv), (521, 64));
    assert_eq!(shape.logits_stride, 4096);
    assert_eq!(decode_shape(1, layout(), 64, 132, 4000).logits_stride, 4096);
    let lens = indexer_lens(shape);
    assert_eq!((lens.q, lens.k), (8 * 4096, 8 * 128));
    assert_eq!(lens.topk, 8 * 2048);
    assert_eq!(lens.logits, 8 * 4096);
}

#[test]
fn the_indexer_scores_the_keys_it_has_just_cached() {
    let launches = plan_indexer(decode_shape(2, layout(), 64, 132, 4096), 2048);
    let at = |f: fn(&Glm52IndexerLaunch) -> bool| launches.iter().position(f).unwrap();
    let cache = at(|l| matches!(l, Glm52IndexerLaunch::KeyCache { .. }));
    let score = at(|l| matches!(l, Glm52IndexerLaunch::Score));
    let topk = at(|l| matches!(l, Glm52IndexerLaunch::TopK { .. }));
    let slots = at(|l| matches!(l, Glm52IndexerLaunch::ToSlots { .. }));
    assert!(cache < score && score < topk && topk < slots);
    assert_eq!(slots, launches.len() - 1);
}

#[test]
fn filling_the_index_cache_needs_a_hidden_row() {
    assert!(plan_cache_fill(6144, layout()).is_ok());
    assert_eq!(
        plan_cache_fill(6143, layout()).err(),
        Some(Glm52IndexerError::HiddenTooSmall { got: 6143 })
    );
}
