use openinfer_glm52::dspark::{propose, Glm52DsparkSlotState};
use openinfer_glm52::dspark_model::{
    check_head, check_layer, ensure_matrix, layer_tensor_name, plan_draft_body,
    plan_draft_closing, plan_draft_round, DsparkHeadTensor, DsparkLayerShapes, DsparkLayerTensor, DsparkMatrix, DsparkOp, DsparkShapeError, MatrixShape,
};

fn matrix(rows: usize, cols: usize) -> MatrixShape {
    MatrixShape { rows, cols }
}

fn shapes() -> DsparkLayerShapes {
    DsparkLayerShapes {
        query: matrix(4096, 6144),
        key: matrix(4096, 6144),
        value: matrix(4096, 6144),
        gate: matrix(12_288, 6144),
        up: matrix(12_288, 6144),
        output: matrix(6144, 4096),
        down: matrix(6144, 12_288),
    }
}

#[test]
fn drafter_tensors_are_named_by_layer() {
    assert!(layer_tensor_name(3, DsparkLayerTensor::Query).starts_with("layers.3."));
    assert_ne!(
        layer_tensor_name(1, DsparkLayerTensor::Key),
        layer_tensor_name(1, DsparkLayerTensor::Value)
    );
    assert!(DsparkHeadTensor::Fc.name_text().starts_with("fc"));
}

#[test]
fn drafter_shapes_are_checked_in_order() {
    assert_eq!(check_layer(0, shapes()), Ok(()));
    let mut wrong = shapes();
    wrong.value = matrix(1, 2);
    wrong.down = matrix(3, 4);
    assert_eq!(
        check_layer(4, wrong),
        Err(DsparkShapeError {
            matrix: DsparkMatrix::Layer { layer: 4, tensor: DsparkLayerTensor::Value },
            got: matrix(1, 2),
            want: matrix(4096, 6144),
        })
    );
    let (fc, markov) = (matrix(6144, 30_720), matrix(154_880, 256));
    assert_eq!(check_head(fc, markov, markov), Ok(()));
    assert_eq!(
        check_head(fc, markov, fc),
        Err(DsparkShapeError {
            matrix: DsparkMatrix::Head(DsparkHeadTensor::MarkovW2),
            got: fc,
            want: markov,
        })
    );
    let which = DsparkMatrix::Head(DsparkHeadTensor::Fc);
    assert_eq!(ensure_matrix(which, fc, fc), Ok(()));
}

fn slot(pending: usize) -> Glm52DsparkSlotState {
    let mut state = Glm52DsparkSlotState::new(4096);
    for _ in 0..pending {
        state.append_captured_row().unwrap();
    }
    state
}

#[test]
fn a_request_is_attended_before_the_next_one_uses_the_tail() {
    let mut states = vec![slot(2), slot(3), slot(1)];
    let round = propose(&mut states, &vec![(7, 2), (8, 3), (9, 1)]).unwrap();
    let ops = plan_draft_round(&round.requests);
    let mut holder = None;
    for op in &ops {
        match *op {
            DsparkOp::TailContext { request, .. } => {
                assert_eq!(holder, None);
                holder = Some(request);
            }
            DsparkOp::TailBlock { request, .. }
            | DsparkOp::CacheKeys { request, .. }
            | DsparkOp::CacheValues { request, .. } => assert_eq!(holder, Some(request)),
            DsparkOp::Attend { request, row_offset, .. } => {
                assert_eq!(holder, Some(request));
                assert_eq!(row_offset, 8 * request);
                holder = None;
            }
            _ => {}
        }
    }
    assert_eq!(holder, None);
    let attends = ops.iter().filter(|op| matches!(op, DsparkOp::Attend { .. })).count();
    assert_eq!(attends, 5 * 3);
}

#[test]
fn a_round_samples_seven_positions_in_a_chain() {
    let mut states = vec![slot(1)];
    let round = propose(&mut states, &vec![(7, 1)]).unwrap();
    let ops = plan_draft_round(&round.requests);
    let samples: Vec<DsparkOp> =
        ops.iter().copied().filter(|op| matches!(op, DsparkOp::Sample { .. })).collect();
    let expected: Vec<DsparkOp> =
        (1..=7).map(|position| DsparkOp::Sample { position, rows: 1 }).collect();
    assert_eq!(samples, expected);
    assert_eq!(ops[0], DsparkOp::Embed { rows: 8 });
}

#[test]
fn a_round_is_its_layers_and_then_its_head() {
    let mut states = vec![slot(2), slot(3)];
    let round = propose(&mut states, &vec![(7, 2), (8, 3)]).unwrap();
    let mut ops = plan_draft_body(&round.requests);
    assert_eq!(ops[ops.len() - 1], DsparkOp::Add);
    assert!(!ops.contains(&DsparkOp::Head));
    let closing = plan_draft_closing(2);
    assert_eq!(closing[0], DsparkOp::FinalNorm);
    ops.extend(closing);
    assert_eq!(ops, plan_draft_round(&round.requests));
}
