//! What holds of decode steps as a whole: which tokens they commit, which
//! steps run, and how one step hands over to the next.
use vstd::prelude::*;

use crate::step::{
    Glm52RankSteps, Glm52RowSample, Glm52StepKv, Glm52StepShape, Glm52StepStaging,
};

verus! {

/// The token that a step commits for an active row is the row's argmax index,
/// as a number, whichever index of the vocabulary that is.
pub proof fn committed_tokens_are_the_argmax(
    before: Glm52RankSteps,
    after: Glm52RankSteps,
    inputs: Seq<(u32, usize)>,
    shape: Glm52StepShape,
    leased: bool,
    finite: Seq<bool>,
    indices: Seq<i32>,
    outputs: [u32; 8],
)
    requires
        shape.active_rows <= shape.bucket <= 8,
        Glm52RankSteps::finishes(
            before,
            after,
            inputs,
            shape,
            leased,
            finite,
            indices,
            Ok(outputs),
        ),
    ensures
        forall|i: int|
            0 <= i < shape.active_rows ==> #[trigger] outputs@[i] as int == indices[i] as int,
        forall|i: int| 0 <= i < shape.active_rows ==> #[trigger] outputs@[i] < 154_880,
{
    let r: Result<[u32; 8], crate::step::Glm52StepError> = Ok(outputs);
    assert(r matches Ok(o) && o@ == outputs@);
    assert(Glm52RankSteps::finishes(before, after, inputs, shape, leased, finite, indices, r));
    assert forall|i: int| 0 <= i < shape.active_rows implies #[trigger] outputs@[i] as int
        == indices[i] as int && outputs@[i] < 154_880 by {
        assert(Glm52RankSteps::row_committable(finite, indices, i));
        assert(outputs@[i] == Glm52RankSteps::output_of(indices, shape.bucket as int, i));
    }
}

/// Two steps whose argmax differs in an active row commit different tokens
/// for that row.
pub proof fn another_argmax_is_another_token(
    before: Glm52RankSteps,
    after: Glm52RankSteps,
    other: Glm52RankSteps,
    inputs: Seq<(u32, usize)>,
    shape: Glm52StepShape,
    leased: bool,
    finite: Seq<bool>,
    indices: Seq<i32>,
    other_indices: Seq<i32>,
    outputs: [u32; 8],
    other_outputs: [u32; 8],
    row: int,
)
    requires
        0 <= row < shape.active_rows <= shape.bucket <= 8,
        indices[row] != other_indices[row],
        Glm52RankSteps::finishes(
            before,
            after,
            inputs,
            shape,
            leased,
            finite,
            indices,
            Ok(outputs),
        ),
        Glm52RankSteps::finishes(
            before,
            other,
            inputs,
            shape,
            leased,
            finite,
            other_indices,
            Ok(other_outputs),
        ),
    ensures
        outputs@[row] != other_outputs@[row],
{
    committed_tokens_are_the_argmax(
        before,
        after,
        inputs,
        shape,
        leased,
        finite,
        indices,
        outputs,
    );
    committed_tokens_are_the_argmax(
        before,
        other,
        inputs,
        shape,
        leased,
        finite,
        other_indices,
        other_outputs,
    );
}

/// What a leased step enqueued ahead is the step that follows it: every
/// active row with the token just committed, one position further, and every
/// padding row as it was.
pub proof fn a_leased_step_is_the_next_one(
    before: Glm52RankSteps,
    after: Glm52RankSteps,
    inputs: Seq<(u32, usize)>,
    shape: Glm52StepShape,
    finite: Seq<bool>,
    indices: Seq<i32>,
    outputs: [u32; 8],
    next: Seq<(u32, usize)>,
)
    requires
        shape.active_rows <= shape.bucket <= 8,
        inputs.len() == 8,
        next.len() == 8,
        Glm52RankSteps::finishes(before, after, inputs, shape, true, finite, indices, Ok(outputs)),
        forall|i: int| 0 <= i < shape.active_rows ==> #[trigger] inputs[i].1 < usize::MAX,
        forall|i: int|
            0 <= i < shape.active_rows ==> (#[trigger] next[i]).0 == outputs@[i] && next[i].1
                == inputs[i].1 + 1,
        forall|i: int| shape.active_rows <= i < 8 ==> #[trigger] next[i] == inputs[i],
    ensures
        after.speculated matches Some(s) && Glm52RankSteps::speculation_matches(s, next, shape),
{
    let closed: Result<[u32; 8], crate::step::Glm52StepError> = Ok(outputs);
    assert(closed matches Ok(o) && o@ == outputs@);
    assert(Glm52RankSteps::finishes(before, after, inputs, shape, true, finite, indices, closed));
    let s = after.speculated->0;
    assert forall|r: int| 0 <= r < shape.bucket implies #[trigger] s.slots@[r] == shape.slots@[r]
        && s.expect@[r] == next[r] by {
        assert(s.expect@[r] == Glm52RankSteps::next_inputs(inputs, indices, shape, r));
        assert(outputs@[r] == Glm52RankSteps::output_of(indices, shape.bucket as int, r));
        if r < shape.active_rows {
            assert(inputs[r].1 < usize::MAX);
            assert(next[r].0 == outputs@[r]);
            assert(next[r] == (outputs@[r], (inputs[r].1 + 1) as usize));
        } else {
            assert(next[r] == inputs[r]);
        }
    }
}

/// Nothing but what must be is asked of a step: a known bucket, lanes in
/// range whose rows stand together at consecutive positions, page tables of
/// the right width, positions below the cap, and write slots where the row's
/// own page puts its position.
pub proof fn a_sound_step_is_accepted(
    rank: Glm52RankSteps,
    inputs: Seq<(u32, usize)>,
    shape: Glm52StepShape,
    kv: Glm52StepKv,
)
    requires
        shape.bucket == 1 || shape.bucket == 2 || shape.bucket == 4 || shape.bucket == 8,
        forall|r: int| 0 <= r < shape.bucket ==> #[trigger] shape.slots@[r] < 8,
        forall|a: int, b: int|
            0 <= a < b < shape.bucket && shape.slots@[a] == shape.slots@[b] ==> (
            #[trigger] inputs[b]).1 == (#[trigger] inputs[a]).1 + (b - a),
        forall|a: int, b: int|
            0 <= a < b - 1 && b < shape.bucket && #[trigger] shape.slots@[a]
                == #[trigger] shape.slots@[b] ==> shape.slots@[b - 1] == shape.slots@[b],
        kv.pages.len() == shape.bucket * rank.table_width,
        forall|r: int|
            0 <= r < shape.bucket ==> {
                &&& (#[trigger] inputs[r]).1 < rank.max_model_len
                &&& kv.slot_mapping@[r] == kv.pages@[r * rank.table_width + inputs[r].1 / 64] * 64
                    + inputs[r].1 % 64
            },
    ensures
        rank.accepts(inputs, shape, kv),
{
    assert forall|r: int| 0 <= r < shape.bucket implies #[trigger] crate::step::slot_in_range(
        shape.slots@,
        r,
    ) && crate::step::span_unbroken(inputs, shape.slots@, r) by {
        if crate::step::continues_a_slot(shape.slots@, r) {
            let a = choose|a: int| 0 <= a < r && #[trigger] shape.slots@[a] == shape.slots@[r];
            assert(shape.slots@[r - 1] == shape.slots@[r]);
            assert(inputs[r].1 == inputs[r - 1].1 + 1);
        }
    }
    assert forall|r: int| 0 <= r < shape.bucket implies #[trigger] rank.row_addresses(
        inputs,
        kv,
        r,
    ) by {
        assert(inputs[r].1 < rank.max_model_len);
    }
}

/// An accepted step is sound: its lanes' rows stand together at consecutive
/// positions, and each row writes into the page that its own table gives for
/// its position, at the position's offset in the page.
pub proof fn an_accepted_step_is_sound(
    rank: Glm52RankSteps,
    inputs: Seq<(u32, usize)>,
    shape: Glm52StepShape,
    kv: Glm52StepKv,
    a: int,
    b: int,
)
    requires
        rank.wf(),
        rank.accepts(inputs, shape, kv),
        0 <= a <= b < shape.bucket,
    ensures
        shape.slots@[a] == shape.slots@[b] ==> inputs[b].1 == inputs[a].1 + (b - a),
        a < b && shape.slots@[a] == shape.slots@[b] ==> shape.slots@[b - 1] == shape.slots@[b],
        kv.pages.len() == shape.bucket * rank.table_width,
        shape.slots@[a] < 8,
        inputs[a].1 < rank.max_model_len,
        kv.slot_mapping@[a] as int / 64 == kv.pages@[a * rank.table_width + inputs[a].1 / 64],
        kv.slot_mapping@[a] as int % 64 == inputs[a].1 as int % 64,
        shape.bucket == 1 || shape.bucket == 2 || shape.bucket == 4 || shape.bucket == 8,
        rank.max_model_len == 64 * rank.table_width,
{
    assert(crate::step::slot_in_range(shape.slots@, a));
    assert(rank.row_addresses(inputs, kv, a));
    if shape.slots@[a] == shape.slots@[b] {
        crate::step::span_walks_consecutive_positions(
            inputs,
            shape.slots@,
            shape.bucket as int,
            a,
            b,
        );
    }
}

/// A staged step is its rows: the same tokens and positions, sequences one
/// longer than the newest position, and zeros behind the bucket.
pub proof fn a_staged_step_is_its_rows(
    rank: Glm52RankSteps,
    inputs: Seq<(u32, usize)>,
    shape: Glm52StepShape,
    kv: Glm52StepKv,
    staged: Glm52StepStaging,
    row: int,
)
    requires
        rank.wf(),
        rank.accepts(inputs, shape, kv),
        rank.stages(inputs, shape, staged),
        0 <= row < 8,
    ensures
        row < shape.bucket ==> staged.tokens@[row] == inputs[row].0 && staged.positions@[row]
            == inputs[row].1,
        row < shape.bucket ==> staged.seq_lens@[row] == staged.positions@[row] + 1,
        row >= shape.bucket ==> staged.tokens@[row] == 0 && staged.positions@[row] == 0
            && staged.seq_lens@[row] == 0,
        staged.global_tokens == rank.ep_ranks * shape.bucket,
        staged.active_rows == shape.active_rows,
        shape.bucket == 1 ==> staged.bucket_index == 0,
        shape.bucket == 2 ==> staged.bucket_index == 1,
        shape.bucket == 4 ==> staged.bucket_index == 2,
        shape.bucket == 8 ==> staged.bucket_index == 3,
{
    assert(staged.tokens@[row] == (if row < shape.bucket {
        inputs[row].0
    } else {
        0
    }));
}

/// Every sampled row has one pass: those without a seed together, in order,
/// and each with a seed alone, under its own seed and step.
pub proof fn every_sampled_row_has_one_pass(sampling: Seq<Glm52RowSample>)
    ensures
        crate::step::unseeded_rows(sampling) == sampling.filter(
            |s: Glm52RowSample| s.seed is None,
        ).map_values(|s: Glm52RowSample| s.row),
        crate::step::seeded_rows(sampling) == sampling.filter(
            |s: Glm52RowSample| s.seed is Some,
        ).map_values(|s: Glm52RowSample| (s.row, s.seed->0, s.step)),
    decreases sampling.len(),
{
    reveal(Seq::filter);
    let without = |s: Glm52RowSample| s.seed is None;
    let with = |s: Glm52RowSample| s.seed is Some;
    if sampling.len() > 0 {
        let rest = sampling.drop_last();
        every_sampled_row_has_one_pass(rest);
        assert(sampling.filter(without) =~= if without(sampling.last()) {
            rest.filter(without).push(sampling.last())
        } else {
            rest.filter(without)
        });
        assert(sampling.filter(with) =~= if with(sampling.last()) {
            rest.filter(with).push(sampling.last())
        } else {
            rest.filter(with)
        });
        assert(crate::step::unseeded_rows(sampling) =~= sampling.filter(without).map_values(
            |s: Glm52RowSample| s.row,
        ));
        assert(crate::step::seeded_rows(sampling) =~= sampling.filter(with).map_values(
            |s: Glm52RowSample| (s.row, s.seed->0, s.step),
        ));
    } else {
        assert(crate::step::unseeded_rows(sampling) =~= sampling.filter(without).map_values(
            |s: Glm52RowSample| s.row,
        ));
        assert(crate::step::seeded_rows(sampling) =~= sampling.filter(with).map_values(
            |s: Glm52RowSample| (s.row, s.seed->0, s.step),
        ));
    }
}

} // verus!
