//! One lock-step decode step of a rank: the checks and staging before the
//! replay, the launch-ahead protocol, and what is read back.
use vstd::prelude::*;

use crate::config::{bucket_index, GLM52_MAX_BATCH_PER_RANK, GLM52_PAGE_SIZE, GLM52_VOCAB};
use crate::text::{decimal_text, number_list_text, pair_list_text, signed_text};

verus! {

/// The forward shape of a step, agreed by all ranks. Rows below `active_rows`
/// carry requests, the others are padding; `slots` names the lane of each
/// row. A lane may own several rows: a contiguous run that walks consecutive
/// positions.
#[derive(Clone, Copy, Debug)]
pub struct Glm52StepShape {
    pub bucket: usize,
    pub slots: [u8; 8],
    pub active_rows: usize,
}

/// The KV paging of a step: one page-table row per forwarded row, and the
/// flat cache slot that each row writes.
#[derive(Clone, Debug)]
pub struct Glm52StepKv {
    pub pages: Vec<i32>,
    pub slot_mapping: [i64; 8],
}

/// A next step that was enqueued ahead, with the inputs it assumed.
#[derive(Clone, Copy, Debug, PartialEq, Eq)]
pub struct Glm52SpeculatedStep {
    pub bucket: usize,
    pub active_rows: usize,
    pub slots: [u8; 8],
    pub expect: [(u32, usize); 8],
}

/// What the coordinator grants and claims for a step.
#[derive(Clone, Copy, Debug)]
pub struct Glm52StepFlags {
    /// The step is the replay that every rank enqueued ahead.
    pub consume: bool,
    /// Every rank may enqueue the next step ahead.
    pub lease: bool,
}

/// A row whose token is sampled instead of taken from the argmax.
#[derive(Clone, Copy, Debug)]
pub struct Glm52RowSample {
    pub row: usize,
    /// Whether the sampling parameters leave no choice but the argmax.
    pub greedy: bool,
    pub seed: Option<u64>,
    pub step: u64,
}

/// What the prologue uploads before the replay.
#[derive(Clone, Copy, Debug, PartialEq, Eq)]
pub struct Glm52StepStaging {
    pub bucket_index: usize,
    pub tokens: [u32; 8],
    pub positions: [u32; 8],
    pub seq_lens: [i32; 8],
    pub active_rows: usize,
    pub global_tokens: usize,
}

/// How a step goes on after its checks.
#[derive(Clone, Copy, Debug, PartialEq, Eq)]
pub enum Glm52StepAction {
    /// The replay is already enqueued.
    Consume,
    /// Upload the staged inputs and the page rows, then replay.
    Replay(Glm52StepStaging),
}

/// Why a step is refused.
#[derive(Clone, Copy, Debug, PartialEq, Eq)]
pub enum Glm52StepError {
    SamplingRidesLaunchAhead,
    NothingSpeculated,
    SpeculationMismatch { speculated: Glm52SpeculatedStep },
    UnknownBucket { bucket: usize },
    SlotOutOfRange { row: usize, slot: usize },
    BrokenSpan { row: usize, slot: usize },
    PagesLength { pages: usize, bucket: usize, table_width: usize },
    PositionBeyondCap { slot: usize, position: usize, cap: usize },
    SlotMapping { row: usize, got: i64, page: i32, position: usize, expect: i64 },
    LeaseRepeatsSlot { slot: usize },
    LeaseBeyondCap { position: usize },
    LeaseBeforeCapture { bucket: usize },
    NoFiniteLogit { slot: usize },
    ArgmaxOutsideVocab { slot: usize, index: i32 },
    SamplingOrder,
    SamplingRow { row: usize, active_rows: usize },
    SamplingGreedy { row: usize },
}

/// The slots of the rows that a step forwards.
pub open spec fn forwarded_slots(slots: Seq<u8>, bucket: usize) -> Seq<u64> {
    Seq::new(
        if bucket < 8 {
            bucket as nat
        } else {
            8
        },
        |i: int| slots[i] as u64,
    )
}

/// The positions of the rows that a step forwards.
pub open spec fn forwarded_positions(inputs: Seq<(u32, usize)>, bucket: usize) -> Seq<u64> {
    Seq::new(
        if bucket < 8 {
            bucket as nat
        } else {
            8
        },
        |i: int| inputs[i].1 as u64,
    )
}

/// The tokens and positions of the rows that a step forwards.
pub open spec fn forwarded_inputs(inputs: Seq<(u32, usize)>, bucket: usize) -> Seq<(u64, u64)> {
    Seq::new(
        if bucket < 8 {
            bucket as nat
        } else {
            8
        },
        |i: int| (inputs[i].0 as u64, inputs[i].1 as u64),
    )
}

fn slots_text(slots: &[u8; 8], bucket: usize) -> (t: String)
    ensures
        t@ == crate::text::number_list(forwarded_slots(slots@, bucket)),
{
    let mut list: Vec<u64> = Vec::new();
    let mut i: usize = 0;
    while i < bucket && i < 8
        invariant
            i <= 8,
            i <= bucket,
            list.len() == i,
            forall|k: int| 0 <= k < i ==> #[trigger] list@[k] == slots@[k] as u64,
        decreases 8 - i,
    {
        list.push(slots[i] as u64);
        i = i + 1;
    }
    assert(list@ =~= forwarded_slots(slots@, bucket));
    number_list_text(&list)
}

fn positions_text(inputs: &[(u32, usize); 8], bucket: usize) -> (t: String)
    ensures
        t@ == crate::text::number_list(forwarded_positions(inputs@, bucket)),
{
    let mut list: Vec<u64> = Vec::new();
    let mut i: usize = 0;
    while i < bucket && i < 8
        invariant
            i <= 8,
            i <= bucket,
            list.len() == i,
            forall|k: int| 0 <= k < i ==> #[trigger] list@[k] == inputs@[k].1 as u64,
        decreases 8 - i,
    {
        list.push(inputs[i].1 as u64);
        i = i + 1;
    }
    assert(list@ =~= forwarded_positions(inputs@, bucket));
    number_list_text(&list)
}

fn inputs_text(inputs: &[(u32, usize); 8], bucket: usize) -> (t: String)
    ensures
        t@ == crate::text::pair_list(forwarded_inputs(inputs@, bucket)),
{
    let mut list: Vec<(u64, u64)> = Vec::new();
    let mut i: usize = 0;
    while i < bucket && i < 8
        invariant
            i <= 8,
            i <= bucket,
            list.len() == i,
            forall|k: int|
                0 <= k < i ==> #[trigger] list@[k] == (inputs@[k].0 as u64, inputs@[k].1 as u64),
        decreases 8 - i,
    {
        list.push((inputs[i].0 as u64, inputs[i].1 as u64));
        i = i + 1;
    }
    assert(list@ =~= forwarded_inputs(inputs@, bucket));
    pair_list_text(&list)
}

impl Glm52StepError {
    /// The message for the operator, about the step that was refused.
    pub open spec fn text(self, inputs: Seq<(u32, usize)>, shape: Glm52StepShape) -> Seq<char> {
        match self {
            Glm52StepError::SamplingRidesLaunchAhead => "GLM5.2 sampling rows cannot ride a launch-ahead step (the speculation feeds the argmax token, not the sampled one)"@,
            Glm52StepError::NothingSpeculated => "GLM5.2 launch-ahead desync: the coordinator consumed a speculation this rank never enqueued"@,
            Glm52StepError::SpeculationMismatch { speculated } => "GLM5.2 launch-ahead desync: consumed speculation (bucket "@
                + crate::text::decimal(speculated.bucket as nat)
                + ", slots "@
                + crate::text::number_list(forwarded_slots(speculated.slots@, speculated.bucket))
                + ", expect "@
                + crate::text::pair_list(forwarded_inputs(speculated.expect@, speculated.bucket))
                + ") does not match the step (bucket "@
                + crate::text::decimal(shape.bucket as nat)
                + ", slots "@
                + crate::text::number_list(forwarded_slots(shape.slots@, shape.bucket))
                + ", inputs "@
                + crate::text::pair_list(forwarded_inputs(inputs, shape.bucket))
                + ")"@,
            Glm52StepError::UnknownBucket { bucket } => "GLM5.2 step bucket "@
                + crate::text::decimal(bucket as nat)
                + " is not a member of [1, 2, 4, 8]"@,
            Glm52StepError::SlotOutOfRange { row, slot } => "GLM5.2 step row "@
                + crate::text::decimal(row as nat)
                + " slot "@
                + crate::text::decimal(slot as nat)
                + " out of range in "@
                + crate::text::number_list(forwarded_slots(shape.slots@, shape.bucket)),
            Glm52StepError::BrokenSpan { slot, .. } => "GLM5.2 step slot "@
                + crate::text::decimal(slot as nat)
                + " span is not one contiguous run of consecutive positions: rows "@
                + crate::text::number_list(forwarded_slots(shape.slots@, shape.bucket))
                + ", positions "@
                + crate::text::number_list(forwarded_positions(inputs, shape.bucket)),
            Glm52StepError::PagesLength { pages, bucket, table_width } => "GLM5.2 step KV pages "@
                + crate::text::decimal(pages as nat)
                + " != bucket "@
                + crate::text::decimal(bucket as nat)
                + " x table width "@
                + crate::text::decimal(table_width as nat),
            Glm52StepError::PositionBeyondCap { slot, position, cap } => "GLM5.2 slot "@
                + crate::text::decimal(slot as nat)
                + " position "@
                + crate::text::decimal(position as nat)
                + " exceeds the model-length cap "@
                + crate::text::decimal(cap as nat),
            Glm52StepError::SlotMapping { row, got, page, position, expect } => "GLM5.2 row "@
                + crate::text::decimal(row as nat)
                + " slot mapping "@
                + crate::text::signed_decimal(got as int)
                + " does not match page "@
                + crate::text::signed_decimal(page as int)
                + " at position "@
                + crate::text::decimal(position as nat)
                + " (expect "@
                + crate::text::signed_decimal(expect as int)
                + ")"@,
            Glm52StepError::LeaseRepeatsSlot { slot } => "GLM5.2 launch-ahead lease granted for a step with repeated slot "@
                + crate::text::decimal(slot as nat)
                + " (span rows are never leased)"@,
            Glm52StepError::LeaseBeyondCap { position } => "GLM5.2 launch-ahead lease granted with a row at position "@
                + crate::text::decimal(position as nat)
                + " — the advanced step would breach the model-length cap"@,
            Glm52StepError::LeaseBeforeCapture { bucket } => "GLM5.2 launch-ahead lease granted before the bucket "@
                + crate::text::decimal(bucket as nat)
                + " graph was captured — the startup pre-capture must cover every shape"@,
            Glm52StepError::NoFiniteLogit { slot } => "GLM5.2 slot "@
                + crate::text::decimal(slot as nat)
                + " greedy argmax found no finite logit"@,
            Glm52StepError::ArgmaxOutsideVocab { slot, index } => "GLM5.2 slot "@
                + crate::text::decimal(slot as nat)
                + " greedy argmax index "@
                + crate::text::signed_decimal(index as int)
                + " outside the vocab"@,
            Glm52StepError::SamplingOrder => "GLM5.2 sampling rows must be strictly ascending"@,
            Glm52StepError::SamplingRow { row, active_rows } => "GLM5.2 sampling row "@
                + crate::text::decimal(row as nat)
                + " outside the step's "@
                + crate::text::decimal(active_rows as nat)
                + " active rows"@,
            Glm52StepError::SamplingGreedy { row } => "GLM5.2 effectively-greedy row "@
                + crate::text::decimal(row as nat)
                + " routed to the sampler (coordinator bug)"@,
        }
    }

    /// The message for the operator, about the step that was refused.
    pub fn message(&self, inputs: &[(u32, usize); 8], shape: Glm52StepShape) -> (m: String)
        ensures
            m@ == self.text(inputs@, shape),
    {
        match *self {
            Glm52StepError::SamplingRidesLaunchAhead => String::from_str(
                "GLM5.2 sampling rows cannot ride a launch-ahead step (the speculation feeds the argmax token, not the sampled one)",
            ),
            Glm52StepError::NothingSpeculated => String::from_str(
                "GLM5.2 launch-ahead desync: the coordinator consumed a speculation this rank never enqueued",
            ),
            Glm52StepError::SpeculationMismatch { speculated } => {
                let mut m = String::from_str("GLM5.2 launch-ahead desync: consumed speculation (bucket ");
                m.append(decimal_text(speculated.bucket as u64).as_str());
                m.append(", slots ");
                m.append(slots_text(&speculated.slots, speculated.bucket).as_str());
                m.append(", expect ");
                m.append(inputs_text(&speculated.expect, speculated.bucket).as_str());
                m.append(") does not match the step (bucket ");
                m.append(decimal_text(shape.bucket as u64).as_str());
                m.append(", slots ");
                m.append(slots_text(&shape.slots, shape.bucket).as_str());
                m.append(", inputs ");
                m.append(inputs_text(inputs, shape.bucket).as_str());
                m.append(")");
                m
            },
            Glm52StepError::UnknownBucket { bucket } => {
                let mut m = String::from_str("GLM5.2 step bucket ");
                m.append(decimal_text(bucket as u64).as_str());
                m.append(" is not a member of [1, 2, 4, 8]");
                m
            },
            Glm52StepError::SlotOutOfRange { row, slot } => {
                let mut m = String::from_str("GLM5.2 step row ");
                m.append(decimal_text(row as u64).as_str());
                m.append(" slot ");
                m.append(decimal_text(slot as u64).as_str());
                m.append(" out of range in ");
                m.append(slots_text(&shape.slots, shape.bucket).as_str());
                m
            },
            Glm52StepError::BrokenSpan { slot, .. } => {
                let mut m = String::from_str("GLM5.2 step slot ");
                m.append(decimal_text(slot as u64).as_str());
                m.append(" span is not one contiguous run of consecutive positions: rows ");
                m.append(slots_text(&shape.slots, shape.bucket).as_str());
                m.append(", positions ");
                m.append(positions_text(inputs, shape.bucket).as_str());
                m
            },
            Glm52StepError::PagesLength { pages, bucket, table_width } => {
                let mut m = String::from_str("GLM5.2 step KV pages ");
                m.append(decimal_text(pages as u64).as_str());
                m.append(" != bucket ");
                m.append(decimal_text(bucket as u64).as_str());
                m.append(" x table width ");
                m.append(decimal_text(table_width as u64).as_str());
                m
            },
            Glm52StepError::PositionBeyondCap { slot, position, cap } => {
                let mut m = String::from_str("GLM5.2 slot ");
                m.append(decimal_text(slot as u64).as_str());
                m.append(" position ");
                m.append(decimal_text(position as u64).as_str());
                m.append(" exceeds the model-length cap ");
                m.append(decimal_text(cap as u64).as_str());
                m
            },
            Glm52StepError::SlotMapping { row, got, page, position, expect } => {
                let mut m = String::from_str("GLM5.2 row ");
                m.append(decimal_text(row as u64).as_str());
                m.append(" slot mapping ");
                m.append(signed_text(got as i64).as_str());
                m.append(" does not match page ");
                m.append(signed_text(page as i64).as_str());
                m.append(" at position ");
                m.append(decimal_text(position as u64).as_str());
                m.append(" (expect ");
                m.append(signed_text(expect as i64).as_str());
                m.append(")");
                m
            },
            Glm52StepError::LeaseRepeatsSlot { slot } => {
                let mut m = String::from_str(
                    "GLM5.2 launch-ahead lease granted for a step with repeated slot ",
                );
                m.append(decimal_text(slot as u64).as_str());
                m.append(" (span rows are never leased)");
                m
            },
            Glm52StepError::LeaseBeyondCap { position } => {
                let mut m = String::from_str("GLM5.2 launch-ahead lease granted with a row at position ");
                m.append(decimal_text(position as u64).as_str());
                m.append(" — the advanced step would breach the model-length cap");
                m
            },
            Glm52StepError::LeaseBeforeCapture { bucket } => {
                let mut m = String::from_str("GLM5.2 launch-ahead lease granted before the bucket ");
                m.append(decimal_text(bucket as u64).as_str());
                m.append(" graph was captured — the startup pre-capture must cover every shape");
                m
            },
            Glm52StepError::NoFiniteLogit { slot } => {
                let mut m = String::from_str("GLM5.2 slot ");
                m.append(decimal_text(slot as u64).as_str());
                m.append(" greedy argmax found no finite logit");
                m
            },
            Glm52StepError::ArgmaxOutsideVocab { slot, index } => {
                let mut m = String::from_str("GLM5.2 slot ");
                m.append(decimal_text(slot as u64).as_str());
                m.append(" greedy argmax index ");
                m.append(signed_text(index as i64).as_str());
                m.append(" outside the vocab");
                m
            },
            Glm52StepError::SamplingOrder => String::from_str(
                "GLM5.2 sampling rows must be strictly ascending",
            ),
            Glm52StepError::SamplingRow { row, active_rows } => {
                let mut m = String::from_str("GLM5.2 sampling row ");
                m.append(decimal_text(row as u64).as_str());
                m.append(" outside the step's ");
                m.append(decimal_text(active_rows as u64).as_str());
                m.append(" active rows");
                m
            },
            Glm52StepError::SamplingGreedy { row } => {
                let mut m = String::from_str("GLM5.2 effectively-greedy row ");
                m.append(decimal_text(row as u64).as_str());
                m.append(" routed to the sampler (coordinator bug)");
                m
            },
        }
    }
}

/// The host state of a rank between steps.
#[derive(Clone, Debug)]
pub struct Glm52RankSteps {
    /// Per-request context cap.
    pub max_model_len: usize,
    /// Page ids per row of a page table.
    pub table_width: usize,
    /// Ranks of the MoE collective.
    pub ep_ranks: usize,
    /// Whether the whole-step graph of each bucket is captured.
    pub captured: [bool; 4],
    /// The step that is enqueued ahead, if any.
    pub speculated: Option<Glm52SpeculatedStep>,
    /// What the device's position buffer holds.
    pub device_positions: [usize; 8],
}

/// The index of a bucket.
pub open spec fn bucket_at(rows: int) -> int {
    if rows == 1 {
        0
    } else if rows == 2 {
        1
    } else if rows == 4 {
        2
    } else {
        3
    }
}

/// Whether an earlier row of the step belongs to the same lane.
pub open spec fn continues_a_slot(slots: Seq<u8>, row: int) -> bool {
    exists|r: int| 0 <= r < row && #[trigger] slots[r] == slots[row]
}

/// Whether a row's lane is in range.
pub open spec fn slot_in_range(slots: Seq<u8>, row: int) -> bool {
    slots[row] < 8
}

/// Whether a row, where its lane has earlier rows, follows the last of them
/// directly and at the next position.
pub open spec fn span_unbroken(inputs: Seq<(u32, usize)>, slots: Seq<u8>, row: int) -> bool {
    continues_a_slot(slots, row) ==> slots[row - 1] == slots[row] && inputs[row - 1].1 + 1
        == inputs[row].1
}

/// Whether the lanes of all rows below `rows` are in range and unbroken.
pub open spec fn spans_hold(inputs: Seq<(u32, usize)>, slots: Seq<u8>, rows: int) -> bool {
    forall|r: int|
        0 <= r < rows ==> #[trigger] slot_in_range(slots, r) && span_unbroken(inputs, slots, r)
}

/// The page that covers a position in a row's page table.
pub open spec fn page_of(pages: Seq<i32>, table_width: int, row: int, position: int) -> i32 {
    pages[row * table_width + position / 64]
}

/// The flat cache slot of a position.
pub open spec fn cache_slot(page: int, position: int) -> int {
    page * 64 + position % 64
}

impl Glm52RankSteps {
    /// The page table of one request covers the cap, which is a positive
    /// number of whole pages; a speculated step has a known bucket.
    pub open spec fn wf(&self) -> bool {
        &&& 0 < self.max_model_len <= i32::MAX
        &&& self.max_model_len % 64 == 0
        &&& self.table_width == crate::budget::table_width(self.max_model_len as int)
        &&& self.ep_ranks <= 64
        &&& self.speculated matches Some(s) ==> crate::config::is_bucket(s.bucket as int)
            && s.active_rows <= s.bucket
    }

    /// Whether a row addresses the cache within the cap and through its own
    /// page.
    pub open spec fn row_addresses(
        &self,
        inputs: Seq<(u32, usize)>,
        kv: Glm52StepKv,
        row: int,
    ) -> bool {
        &&& self.row_in_cap(inputs, row)
        &&& self.row_maps(inputs, kv, row)
    }

    /// Whether a row's position is below the cap.
    pub open spec fn row_in_cap(&self, inputs: Seq<(u32, usize)>, row: int) -> bool {
        inputs[row].1 < self.max_model_len
    }

    /// Whether a row's write slot lies in the page that covers its position.
    pub open spec fn row_maps(&self, inputs: Seq<(u32, usize)>, kv: Glm52StepKv, row: int) -> bool {
        kv.slot_mapping@[row] == cache_slot(
            page_of(kv.pages@, self.table_width as int, row, inputs[row].1 as int) as int,
            inputs[row].1 as int,
        )
    }

    /// Whether all rows below `rows` address the cache as they must.
    pub open spec fn rows_address(
        &self,
        inputs: Seq<(u32, usize)>,
        kv: Glm52StepKv,
        rows: int,
    ) -> bool {
        forall|r: int| 0 <= r < rows ==> #[trigger] self.row_addresses(inputs, kv, r)
    }

    /// Whether the prologue accepts a step.
    pub open spec fn accepts(
        &self,
        inputs: Seq<(u32, usize)>,
        shape: Glm52StepShape,
        kv: Glm52StepKv,
    ) -> bool {
        &&& crate::config::is_bucket(shape.bucket as int)
        &&& spans_hold(inputs, shape.slots@, shape.bucket as int)
        &&& kv.pages.len() == shape.bucket * self.table_width
        &&& self.rows_address(inputs, kv, shape.bucket as int)
    }

    /// Which refusal a step gets from the prologue: the first check that
    /// fails, and for the row checks the first row that fails it.
    pub open spec fn refuses(
        &self,
        inputs: Seq<(u32, usize)>,
        shape: Glm52StepShape,
        kv: Glm52StepKv,
        e: Glm52StepError,
    ) -> bool {
        match e {
            Glm52StepError::UnknownBucket { bucket } => {
                bucket == shape.bucket && !crate::config::is_bucket(shape.bucket as int)
            },
            Glm52StepError::SlotOutOfRange { row, slot } => {
                &&& crate::config::is_bucket(shape.bucket as int)
                &&& row < shape.bucket
                &&& spans_hold(inputs, shape.slots@, row as int)
                &&& slot == shape.slots@[row as int]
                &&& !slot_in_range(shape.slots@, row as int)
            },
            Glm52StepError::BrokenSpan { row, slot } => {
                &&& crate::config::is_bucket(shape.bucket as int)
                &&& row < shape.bucket
                &&& spans_hold(inputs, shape.slots@, row as int)
                &&& slot == shape.slots@[row as int]
                &&& slot_in_range(shape.slots@, row as int)
                &&& !span_unbroken(inputs, shape.slots@, row as int)
            },
            Glm52StepError::PagesLength { pages, bucket, table_width } => {
                &&& crate::config::is_bucket(shape.bucket as int)
                &&& spans_hold(inputs, shape.slots@, shape.bucket as int)
                &&& pages == kv.pages.len()
                &&& bucket == shape.bucket
                &&& table_width == self.table_width
                &&& pages != bucket * table_width
            },
            Glm52StepError::PositionBeyondCap { slot, position, cap } => {
                &&& cap == self.max_model_len
                &&& crate::config::is_bucket(shape.bucket as int)
                &&& spans_hold(inputs, shape.slots@, shape.bucket as int)
                &&& kv.pages.len() == shape.bucket * self.table_width
                &&& exists|row: int|
                    {
                        &&& 0 <= row < shape.bucket
                        &&& self.rows_address(inputs, kv, row)
                        &&& !(#[trigger] self.row_in_cap(inputs, row))
                        &&& slot == shape.slots@[row]
                        &&& position == inputs[row].1
                    }
            },
            Glm52StepError::SlotMapping { row, got, page, position, expect } => {
                &&& crate::config::is_bucket(shape.bucket as int)
                &&& spans_hold(inputs, shape.slots@, shape.bucket as int)
                &&& kv.pages.len() == shape.bucket * self.table_width
                &&& row < shape.bucket
                &&& self.rows_address(inputs, kv, row as int)
                &&& self.row_in_cap(inputs, row as int)
                &&& !self.row_maps(inputs, kv, row as int)
                &&& got == kv.slot_mapping@[row as int]
                &&& position == inputs[row as int].1
                &&& page == page_of(
                    kv.pages@,
                    self.table_width as int,
                    row as int,
                    position as int,
                )
                &&& expect == cache_slot(page as int, position as int)
            },
            _ => false,
        }
    }

    /// Whether the staged buffers are those of the step.
    pub open spec fn stages(
        &self,
        inputs: Seq<(u32, usize)>,
        shape: Glm52StepShape,
        staged: Glm52StepStaging,
    ) -> bool {
        &&& staged.bucket_index == bucket_at(shape.bucket as int)
        &&& staged.active_rows == shape.active_rows
        &&& staged.global_tokens == self.ep_ranks * shape.bucket
        &&& forall|r: int|
            0 <= r < 8 ==> {
                &&& #[trigger] staged.tokens@[r] == (if r < shape.bucket {
                    inputs[r].0
                } else {
                    0
                })
                &&& staged.positions@[r] == (if r < shape.bucket {
                    inputs[r].1 as int
                } else {
                    0
                })
                &&& staged.seq_lens@[r] == (if r < shape.bucket {
                    inputs[r].1 + 1
                } else {
                    0
                })
            }
    }

    /// Whether a step that is enqueued ahead is the step at hand.
    pub open spec fn speculation_matches(
        speculated: Glm52SpeculatedStep,
        inputs: Seq<(u32, usize)>,
        shape: Glm52StepShape,
    ) -> bool {
        &&& speculated.bucket == shape.bucket
        &&& speculated.active_rows == shape.active_rows
        &&& forall|r: int|
            0 <= r < shape.bucket ==> {
                &&& #[trigger] speculated.slots@[r] == shape.slots@[r]
                &&& speculated.expect@[r] == inputs[r]
            }
    }

    /// The state after everything but the speculation and the device
    /// positions stayed as it was.
    pub open spec fn same_setup(&self, other: &Glm52RankSteps) -> bool {
        &&& self.max_model_len == other.max_model_len
        &&& self.table_width == other.table_width
        &&& self.ep_ranks == other.ep_ranks
        &&& self.captured == other.captured
    }

    /// The state of a freshly built rank: nothing enqueued, nothing captured.
    pub fn new(max_model_len: usize, ep_ranks: usize) -> (r: Self)
        requires
            0 < max_model_len <= i32::MAX,
            max_model_len % 64 == 0,
            ep_ranks <= 64,
        ensures
            r.wf(),
            r.max_model_len == max_model_len,
            r.ep_ranks == ep_ranks,
            r.speculated is None,
            forall|b: int| 0 <= b < 4 ==> !#[trigger] r.captured@[b],
            forall|i: int| 0 <= i < 8 ==> #[trigger] r.device_positions@[i] == 0,
    {
        Glm52RankSteps {
            max_model_len,
            table_width: crate::budget::glm52_table_width(max_model_len),
            ep_ranks,
            captured: [false, false, false, false],
            speculated: None,
            device_positions: [0, 0, 0, 0, 0, 0, 0, 0],
        }
    }

    /// Records that the whole-step graph of a bucket is captured.
    pub fn mark_captured(&mut self, bucket: usize) -> (r: Result<(), Glm52StepError>)
        requires
            old(self).wf(),
        ensures
            final(self).wf(),
            match r {
                Ok(()) => {
                    &&& crate::config::is_bucket(bucket as int)
                    &&& final(self).captured@ == old(self).captured@.update(
                        bucket_at(bucket as int),
                        true,
                    )
                    &&& forall|b: int|
                        0 <= b < 4 ==> #[trigger] final(self).captured@[b] == (old(
                            self,
                        ).captured@[b] || b == (if bucket == 1 {
                            0int
                        } else if bucket == 2 {
                            1
                        } else if bucket == 4 {
                            2
                        } else {
                            3
                        }))
                },
                Err(e) => {
                    &&& e == (Glm52StepError::UnknownBucket { bucket })
                    &&& !crate::config::is_bucket(bucket as int)
                    &&& final(self).captured == old(self).captured
                },
            },
            final(self).max_model_len == old(self).max_model_len,
            final(self).table_width == old(self).table_width,
            final(self).ep_ranks == old(self).ep_ranks,
            final(self).speculated == old(self).speculated,
            final(self).device_positions == old(self).device_positions,
    {
        match bucket_index(bucket) {
            Some(index) => {
                self.captured[index] = true;
                Ok(())
            },
            None => Err(Glm52StepError::UnknownBucket { bucket }),
        }
    }

    /// Checks that a step forwards a known bucket and that every lane's rows
    /// form one run of consecutive positions.
    fn check_spans(inputs: &[(u32, usize); 8], shape: Glm52StepShape) -> (r: Result<
        usize,
        Glm52StepError,
    >)
        ensures
            match r {
                Ok(index) => {
                    &&& crate::config::is_bucket(shape.bucket as int)
                    &&& index == bucket_at(shape.bucket as int)
                    &&& spans_hold(inputs@, shape.slots@, shape.bucket as int)
                },
                Err(Glm52StepError::UnknownBucket { bucket }) => {
                    bucket == shape.bucket && !crate::config::is_bucket(shape.bucket as int)
                },
                Err(Glm52StepError::SlotOutOfRange { row, slot }) => {
                    &&& crate::config::is_bucket(shape.bucket as int)
                    &&& row < shape.bucket
                    &&& spans_hold(inputs@, shape.slots@, row as int)
                    &&& slot == shape.slots@[row as int]
                    &&& !slot_in_range(shape.slots@, row as int)
                },
                Err(Glm52StepError::BrokenSpan { row, slot }) => {
                    &&& crate::config::is_bucket(shape.bucket as int)
                    &&& row < shape.bucket
                    &&& spans_hold(inputs@, shape.slots@, row as int)
                    &&& slot == shape.slots@[row as int]
                    &&& slot_in_range(shape.slots@, row as int)
                    &&& !span_unbroken(inputs@, shape.slots@, row as int)
                },
                Err(_) => false,
            },
    {
        let index: usize = match bucket_index(shape.bucket) {
            Some(index) => index,
            None => {
                return Err(Glm52StepError::UnknownBucket { bucket: shape.bucket });
            },
        };
        let batch: usize = shape.bucket;
        let mut row: usize = 0;
        while row < batch
            invariant
                batch == shape.bucket,
                crate::config::is_bucket(batch as int),
                row <= batch <= 8,
                spans_hold(inputs@, shape.slots@, row as int),
            decreases batch - row,
        {
            let slot: u8 = shape.slots[row];
            if slot as usize >= GLM52_MAX_BATCH_PER_RANK {
                return Err(Glm52StepError::SlotOutOfRange { row, slot: slot as usize });
            }
            let mut last: usize = row;
            while last > 0 && shape.slots[last - 1] != slot
                invariant
                    last <= row < 8,
                    shape.slots@[row as int] == slot,
                    forall|r: int| last <= r < row ==> #[trigger] shape.slots@[r] != slot,
                decreases last,
            {
                last = last - 1;
            }
            if last > 0 {
                assert(shape.slots@[last - 1] == shape.slots@[row as int]);
                assert(continues_a_slot(shape.slots@, row as int));
                let previous: usize = inputs[last - 1].1;
                let position: usize = inputs[row].1;
                if !(last == row && position > 0 && previous == position - 1) {
                    return Err(Glm52StepError::BrokenSpan { row, slot: slot as usize });
                }
            }
            assert(slot_in_range(shape.slots@, row as int));
            assert(span_unbroken(inputs@, shape.slots@, row as int));
            assert(spans_hold(inputs@, shape.slots@, row as int));
            assert(spans_hold(inputs@, shape.slots@, row + 1));
            row = row + 1;
        }
        Ok(index)
    }

    /// Checks a step and stages what the replay reads: the prologue of a step
    /// that is not consumed.
    pub fn prologue(
        &self,
        inputs: &[(u32, usize); 8],
        shape: Glm52StepShape,
        kv: &Glm52StepKv,
    ) -> (r: Result<Glm52StepStaging, Glm52StepError>)
        requires
            self.wf(),
        ensures
            r is Ok <==> self.accepts(inputs@, shape, *kv),
            match r {
                Ok(staged) => self.stages(inputs@, shape, staged),
                Err(e) => self.refuses(inputs@, shape, *kv, e),
            },
            r matches Ok(staged) ==> {
                &&& shape.bucket == 1 || shape.bucket == 2 || shape.bucket == 4 || shape.bucket == 8
                &&& seq![1usize, 2usize, 4usize, 8usize][staged.bucket_index as int] == shape.bucket
                &&& staged.bucket_index < 4
                &&& staged.active_rows == shape.active_rows
                &&& staged.global_tokens == self.ep_ranks * shape.bucket
                &&& forall|i: int|
                    0 <= i < shape.bucket ==> {
                        &&& #[trigger] staged.tokens@[i] == inputs@[i].0
                        &&& staged.positions@[i] as int == inputs@[i].1
                        &&& staged.seq_lens@[i] == inputs@[i].1 + 1
                        &&& inputs@[i].1 < self.max_model_len
                        &&& kv.slot_mapping@[i] == kv.pages@[i * self.table_width + inputs@[i].1
                            / 64] * 64 + inputs@[i].1 % 64
                    }
                &&& forall|i: int|
                    shape.bucket <= i < 8 ==> {
                        &&& #[trigger] staged.tokens@[i] == 0
                        &&& staged.positions@[i] == 0
                        &&& staged.seq_lens@[i] == 0
                    }
            },
            match r {
                Ok(_) => true,
                Err(Glm52StepError::UnknownBucket { bucket }) => bucket == shape.bucket && bucket != 1
                    && bucket != 2 && bucket != 4 && bucket != 8,
                Err(Glm52StepError::SlotOutOfRange { row, slot }) => row < shape.bucket && slot
                    == shape.slots@[row as int] && slot >= 8,
                Err(Glm52StepError::BrokenSpan { row, slot }) => {
                    &&& 0 < row < shape.bucket && slot == shape.slots@[row as int]
                    &&& shape.slots@[row - 1] != slot || inputs@[row - 1].1 + 1
                        != inputs@[row as int].1
                },
                Err(Glm52StepError::PagesLength { pages, bucket, table_width }) => {
                    &&& pages == kv.pages.len() && bucket == shape.bucket
                    &&& table_width == self.table_width && pages != bucket * table_width
                },
                Err(Glm52StepError::PositionBeyondCap { slot, position, cap }) => {
                    &&& cap == self.max_model_len && position >= cap
                    &&& exists|i: int|
                        0 <= i < shape.bucket && #[trigger] shape.slots@[i] == slot && inputs@[i].1
                            == position
                },
                Err(Glm52StepError::SlotMapping { row, got, page, position, expect }) => {
                    &&& row < shape.bucket && position == inputs@[row as int].1
                    &&& got == kv.slot_mapping@[row as int]
                    &&& page == kv.pages@[row * self.table_width + position / 64]
                    &&& expect == page * 64 + position % 64 && got != expect
                },
                Err(_) => false,
            },
    {
        let index: usize = match Self::check_spans(inputs, shape) {
            Ok(index) => index,
            Err(e) => {
                proof {
                    refused_is_not_accepted(*self, inputs@, shape, *kv, e);
                }
                return Err(e);
            },
        };
        let batch: usize = shape.bucket;
        let width: usize = self.table_width;
        assert(width <= self.max_model_len);
        assert(batch * width <= 8 * width) by (nonlinear_arith)
            requires
                batch <= 8,
        ;
        if kv.pages.len() as u64 != batch as u64 * width as u64 {
            return Err(
                Glm52StepError::PagesLength {
                    pages: kv.pages.len(),
                    bucket: batch,
                    table_width: width,
                },
            );
        }
        let mut tokens: [u32; 8] = [0, 0, 0, 0, 0, 0, 0, 0];
        let mut positions: [u32; 8] = [0, 0, 0, 0, 0, 0, 0, 0];
        let mut seq_lens: [i32; 8] = [0, 0, 0, 0, 0, 0, 0, 0];
        let mut row: usize = 0;
        while row < batch
            invariant
                self.wf(),
                batch == shape.bucket,
                width == self.table_width,
                crate::config::is_bucket(batch as int),
                spans_hold(inputs@, shape.slots@, shape.bucket as int),
                kv.pages.len() == batch * width,
                row <= batch <= 8,
                self.rows_address(inputs@, *kv, row as int),
                forall|r: int|
                    0 <= r < 8 ==> #[trigger] tokens@[r] == (if r < row {
                        inputs@[r].0
                    } else {
                        0
                    }),
                forall|r: int|
                    0 <= r < 8 ==> #[trigger] positions@[r] == (if r < row {
                        inputs@[r].1 as int
                    } else {
                        0
                    }),
                forall|r: int|
                    0 <= r < 8 ==> #[trigger] seq_lens@[r] == (if r < row {
                        inputs@[r].1 + 1
                    } else {
                        0
                    }),
            decreases batch - row,
        {
            let (token, position) = inputs[row];
            if position >= self.max_model_len {
                assert(!self.row_in_cap(inputs@, row as int));
                assert(!self.row_addresses(inputs@, *kv, row as int));
                return Err(
                    Glm52StepError::PositionBeyondCap {
                        slot: shape.slots[row] as usize,
                        position,
                        cap: self.max_model_len,
                    },
                );
            }
            assert(position / 64 < width);
            assert(row * width + position / 64 < batch * width) by (nonlinear_arith)
                requires
                    row < batch,
                    position / 64 < width,
            ;
            assert(0 <= row * width) by (nonlinear_arith);
            let page: i32 = kv.pages[row * width + position / GLM52_PAGE_SIZE];
            let expect: i64 = page as i64 * 64 + (position % GLM52_PAGE_SIZE) as i64;
            if kv.slot_mapping[row] != expect {
                assert(!self.row_addresses(inputs@, *kv, row as int));
                return Err(
                    Glm52StepError::SlotMapping {
                        row,
                        got: kv.slot_mapping[row],
                        page,
                        position,
                        expect,
                    },
                );
            }
            assert(self.row_addresses(inputs@, *kv, row as int));
            tokens[row] = token;
            positions[row] = position as u32;
            seq_lens[row] = (position + 1) as i32;
            row = row + 1;
        }
        assert(self.ep_ranks * batch <= 512) by (nonlinear_arith)
            requires
                self.ep_ranks <= 64,
                batch <= 8,
        ;
        assert forall|i: int| 0 <= i < batch implies self.row_addresses(inputs@, *kv, i) by {
            assert(self.rows_address(inputs@, *kv, batch as int));
        }
        assert forall|i: int| 0 <= i < batch implies (#[trigger] tokens@[i] == inputs@[i].0
            && positions@[i] as int == inputs@[i].1 && seq_lens@[i] == inputs@[i].1 + 1
            && inputs@[i].1 < self.max_model_len && kv.slot_mapping@[i] == kv.pages@[i
            * self.table_width + inputs@[i].1 / 64] * 64 + inputs@[i].1 % 64) by {
            assert(self.row_addresses(inputs@, *kv, i));
        }
        Ok(
            Glm52StepStaging {
                bucket_index: index,
                tokens,
                positions,
                seq_lens,
                active_rows: shape.active_rows,
                global_tokens: self.ep_ranks * batch,
            },
        )
    }

    /// Records that the device's inputs are those of a step.
    pub(crate) fn inputs_uploaded(&mut self, inputs: &[(u32, usize); 8], bucket: usize)
        requires
            old(self).wf(),
            bucket <= 8,
        ensures
            final(self).wf(),
            final(self).same_setup(old(self)),
            final(self).speculated == old(self).speculated,
            forall|i: int|
                0 <= i < 8 ==> #[trigger] final(self).device_positions@[i] == (if i < bucket {
                    inputs@[i].1
                } else {
                    old(self).device_positions@[i]
                }),
    {
        let mut i: usize = 0;
        while i < bucket
            invariant
                i <= bucket <= 8,
                self.same_setup(old(self)),
                self.speculated == old(self).speculated,
                forall|j: int|
                    0 <= j < 8 ==> #[trigger] self.device_positions@[j] == (if j < i {
                        inputs@[j].1
                    } else {
                        old(self).device_positions@[j]
                    }),
            decreases bucket - i,
        {
            self.device_positions[i] = inputs[i].1;
            i = i + 1;
        }
    }

    /// Whether the step that is enqueued ahead is the step at hand.
    fn matches_speculation(
        speculated: &Glm52SpeculatedStep,
        inputs: &[(u32, usize); 8],
        shape: Glm52StepShape,
    ) -> (r: bool)
        requires
            speculated.bucket <= 8,
        ensures
            r == Self::speculation_matches(*speculated, inputs@, shape),
    {
        if speculated.bucket != shape.bucket || speculated.active_rows != shape.active_rows {
            return false;
        }
        let mut row: usize = 0;
        while row < shape.bucket
            invariant
                row <= shape.bucket <= 8,
                speculated.bucket == shape.bucket,
                speculated.active_rows == shape.active_rows,
                forall|r: int|
                    0 <= r < row ==> {
                        &&& #[trigger] speculated.slots@[r] == shape.slots@[r]
                        &&& speculated.expect@[r] == inputs@[r]
                    },
            decreases shape.bucket - row,
        {
            let (token, position) = inputs[row];
            let (expect_token, expect_position) = speculated.expect[row];
            if speculated.slots[row] != shape.slots[row] || expect_token != token
                || expect_position != position {
                return false;
            }
            row = row + 1;
        }
        true
    }

    /// Whether sampled rows may ride the step.
    pub open spec fn sampling_may_ride(sampling: Seq<Glm52RowSample>, flags: Glm52StepFlags) -> bool {
        sampling.len() == 0 || (!flags.consume && !flags.lease)
    }

    /// What opening a step comes to: a consumed step is the one that was
    /// enqueued ahead, any other is checked and staged. Whatever was enqueued
    /// ahead is spent, and the device's inputs stay as they are.
    pub open spec fn opens(
        before: Self,
        after: Self,
        inputs: Seq<(u32, usize)>,
        shape: Glm52StepShape,
        kv: Glm52StepKv,
        flags: Glm52StepFlags,
        sampling: Seq<Glm52RowSample>,
        r: Result<Glm52StepAction, Glm52StepError>,
    ) -> bool {
        &&& after.same_setup(&before)
        &&& after.device_positions == before.device_positions
        &&& if !Self::sampling_may_ride(sampling, flags) {
            &&& after.speculated == before.speculated
            &&& r == Err::<Glm52StepAction, _>(Glm52StepError::SamplingRidesLaunchAhead)
        } else if flags.consume {
            &&& after.speculated is None
            &&& r == (match before.speculated {
                None => Err(Glm52StepError::NothingSpeculated),
                Some(s) => if Self::speculation_matches(s, inputs, shape) {
                    Ok(Glm52StepAction::Consume)
                } else {
                    Err(Glm52StepError::SpeculationMismatch { speculated: s })
                },
            })
        } else {
            &&& after.speculated is None
            &&& r is Ok <==> before.accepts(inputs, shape, kv)
            &&& match r {
                Ok(Glm52StepAction::Replay(staged)) => before.stages(inputs, shape, staged),
                Ok(Glm52StepAction::Consume) => false,
                Err(e) => before.refuses(inputs, shape, kv, e),
            }
        }
    }

    /// Opens a step: either the step is the one that was enqueued ahead, or
    /// its inputs are checked and staged for a replay. Whatever was enqueued
    /// ahead is spent.
    pub fn begin_step(
        &mut self,
        inputs: &[(u32, usize); 8],
        shape: Glm52StepShape,
        kv: &Glm52StepKv,
        flags: Glm52StepFlags,
        sampling: &Vec<Glm52RowSample>,
    ) -> (r: Result<Glm52StepAction, Glm52StepError>)
        requires
            old(self).wf(),
        ensures
            final(self).wf(),
            Self::opens(*old(self), *final(self), inputs@, shape, *kv, flags, sampling@, r),
            final(self).device_positions == old(self).device_positions,
            final(self).captured == old(self).captured,
            r == Err::<Glm52StepAction, _>(Glm52StepError::SamplingRidesLaunchAhead)
                <==> sampling.len() > 0 && (flags.consume || flags.lease),
            final(self).speculated is Some ==> sampling.len() > 0 && (flags.consume
                || flags.lease) && final(self).speculated == old(self).speculated,
            r == Ok::<Glm52StepAction, Glm52StepError>(Glm52StepAction::Consume)
                <==> flags.consume && sampling.len() == 0 && (old(self).speculated matches Some(s)
                && s.bucket == shape.bucket && s.active_rows == shape.active_rows && forall|i: int|
                0 <= i < shape.bucket ==> #[trigger] s.slots@[i] == shape.slots@[i] && s.expect@[i]
                    == inputs@[i]),
            r matches Ok(Glm52StepAction::Replay(staged)) ==> {
                &&& !flags.consume
                &&& seq![1usize, 2usize, 4usize, 8usize][staged.bucket_index as int] == shape.bucket
                &&& staged.bucket_index < 4
                &&& staged.active_rows == shape.active_rows
                &&& staged.global_tokens == old(self).ep_ranks * shape.bucket
                &&& forall|i: int|
                    0 <= i < shape.bucket ==> {
                        &&& #[trigger] staged.tokens@[i] == inputs@[i].0
                        &&& staged.positions@[i] as int == inputs@[i].1
                        &&& staged.seq_lens@[i] == inputs@[i].1 + 1
                    }
            },
    {
        if sampling.len() > 0 && (flags.consume || flags.lease) {
            return Err(Glm52StepError::SamplingRidesLaunchAhead);
        }
        if flags.consume {
            let speculated = match self.speculated.take() {
                Some(speculated) => speculated,
                None => {
                    return Err(Glm52StepError::NothingSpeculated);
                },
            };
            if !Self::matches_speculation(&speculated, inputs, shape) {
                return Err(Glm52StepError::SpeculationMismatch { speculated });
            }
            Ok(Glm52StepAction::Consume)
        } else {
            self.speculated = None;
            proof {
                lemma_setup_decides(*old(self), *self, inputs@, shape, *kv);
            }
            match self.prologue(inputs, shape, kv) {
                Ok(staged) => {
                    assert(old(self).stages(inputs@, shape, staged));
                    Ok(Glm52StepAction::Replay(staged))
                },
                Err(e) => {
                    assert(old(self).refuses(inputs@, shape, *kv, e));
                    Err(e)
                },
            }
        }
    }

    /// Whether no lane below `rows` repeats and all are in range.
    pub open spec fn slots_distinct(slots: Seq<u8>, rows: int) -> bool {
        forall|r: int| 0 <= r < rows ==> #[trigger] slot_in_range(slots, r) && !continues_a_slot(
            slots,
            r,
        )
    }

    /// Whether all rows below `rows` can move one position further.
    pub open spec fn rows_can_advance(&self, rows: int) -> bool {
        forall|r: int|
            0 <= r < rows ==> #[trigger] self.device_positions@[r] + 1 < self.max_model_len
    }

    /// Whether the next step may be enqueued ahead.
    pub open spec fn may_lease(&self, shape: Glm52StepShape) -> bool {
        &&& Self::slots_distinct(shape.slots@, shape.bucket as int)
        &&& self.rows_can_advance(shape.bucket as int)
        &&& self.captured@[bucket_at(shape.bucket as int)]
    }

    /// Which refusal a lease gets: the first check that fails, and the first
    /// row that fails it.
    pub open spec fn refuses_lease(&self, shape: Glm52StepShape, e: Glm52StepError) -> bool {
        match e {
            Glm52StepError::LeaseRepeatsSlot { slot } => exists|row: int|
                {
                    &&& 0 <= row < shape.bucket
                    &&& Self::slots_distinct(shape.slots@, row)
                    &&& slot == #[trigger] shape.slots@[row]
                    &&& !slot_in_range(shape.slots@, row) || continues_a_slot(shape.slots@, row)
                },
            Glm52StepError::LeaseBeyondCap { position } => {
                &&& Self::slots_distinct(shape.slots@, shape.bucket as int)
                &&& exists|row: int|
                    {
                        &&& 0 <= row < shape.bucket
                        &&& self.rows_can_advance(row)
                        &&& position == #[trigger] self.device_positions@[row]
                        &&& position + 1 >= self.max_model_len
                    }
            },
            Glm52StepError::LeaseBeforeCapture { bucket } => {
                &&& bucket == shape.bucket
                &&& Self::slots_distinct(shape.slots@, shape.bucket as int)
                &&& self.rows_can_advance(shape.bucket as int)
                &&& !self.captured@[bucket_at(shape.bucket as int)]
            },
            _ => false,
        }
    }

    /// Decides whether a leased next step may be enqueued while the current
    /// one runs. Nothing that can be refused follows these checks.
    pub fn check_lease(&self, shape: Glm52StepShape) -> (r: Result<(), Glm52StepError>)
        requires
            self.wf(),
            crate::config::is_bucket(shape.bucket as int),
        ensures
            r is Ok <==> self.may_lease(shape),
            r matches Err(e) ==> self.refuses_lease(shape, e),
            r is Ok <==> {
                &&& forall|i: int| 0 <= i < shape.bucket ==> #[trigger] shape.slots@[i] < 8
                &&& forall|i: int, j: int|
                    0 <= i < j < shape.bucket ==> #[trigger] shape.slots@[i]
                        != #[trigger] shape.slots@[j]
                &&& forall|i: int|
                    0 <= i < shape.bucket ==> #[trigger] self.device_positions@[i] + 1
                        < self.max_model_len
                &&& self.captured@[if shape.bucket == 1 {
                    0
                } else if shape.bucket == 2 {
                    1
                } else if shape.bucket == 4 {
                    2
                } else {
                    3
                }]
            },
            match r {
                Ok(_) => true,
                Err(Glm52StepError::LeaseRepeatsSlot { slot }) => slot >= 8 || exists|
                    i: int,
                    j: int,
                |
                    0 <= i < j < shape.bucket && #[trigger] shape.slots@[i] == slot
                        && #[trigger] shape.slots@[j] == slot,
                Err(Glm52StepError::LeaseBeyondCap { position }) => position + 1
                    >= self.max_model_len && self.device_positions@.contains(position),
                Err(Glm52StepError::LeaseBeforeCapture { bucket }) => bucket == shape.bucket,
                Err(_) => false,
            },
    {
        let batch: usize = shape.bucket;
        let mut row: usize = 0;
        while row < batch
            invariant
                batch == shape.bucket,
                row <= batch <= 8,
                self.wf(),
                Self::slots_distinct(shape.slots@, row as int),
            decreases batch - row,
        {
            let slot: u8 = shape.slots[row];
            let mut repeated: bool = false;
            let mut earlier: usize = 0;
            while earlier < row
                invariant
                    earlier <= row < 8,
                    slot == shape.slots@[row as int],
                    repeated <==> exists|r: int|
                        0 <= r < earlier && #[trigger] shape.slots@[r] == shape.slots@[row as int],
                decreases row - earlier,
            {
                if shape.slots[earlier] == slot {
                    repeated = true;
                }
                earlier = earlier + 1;
            }
            if slot as usize >= GLM52_MAX_BATCH_PER_RANK || repeated {
                assert(!slot_in_range(shape.slots@, row as int) || continues_a_slot(
                    shape.slots@,
                    row as int,
                ));
                assert(!Self::slots_distinct(shape.slots@, shape.bucket as int)) by {
                    if Self::slots_distinct(shape.slots@, shape.bucket as int) {
                        assert(slot_in_range(shape.slots@, row as int));
                    }
                }
                return Err(Glm52StepError::LeaseRepeatsSlot { slot: slot as usize });
            }
            assert(slot_in_range(shape.slots@, row as int));
            assert(!continues_a_slot(shape.slots@, row as int));
            assert(Self::slots_distinct(shape.slots@, row as int));
            assert(Self::slots_distinct(shape.slots@, row + 1));
            row = row + 1;
        }
        let mut row: usize = 0;
        while row < batch
            invariant
                batch == shape.bucket,
                row <= batch <= 8,
                self.wf(),
                self.rows_can_advance(row as int),
                Self::slots_distinct(shape.slots@, shape.bucket as int),
            decreases batch - row,
        {
            let position: usize = self.device_positions[row];
            if position >= self.max_model_len - 1 {
                return Err(Glm52StepError::LeaseBeyondCap { position });
            }
            row = row + 1;
        }
        let index: usize = match bucket_index(batch) {
            Some(index) => index,
            None => 0,
        };
        if !self.captured[index] {
            return Err(Glm52StepError::LeaseBeforeCapture { bucket: batch });
        }
        assert forall|i: int| 0 <= i < shape.bucket implies #[trigger] shape.slots@[i] < 8 by {
            assert(slot_in_range(shape.slots@, i));
        }
        assert forall|i: int, j: int| 0 <= i < j < shape.bucket implies #[trigger] shape.slots@[i]
            != #[trigger] shape.slots@[j] by {
            assert(slot_in_range(shape.slots@, j));
            assert(!continues_a_slot(shape.slots@, j));
        }
        Ok(())
    }

    /// Records that the next step is enqueued: every row's device position
    /// has moved one further.
    pub(crate) fn replayed_ahead(&mut self, bucket: usize)
        requires
            old(self).wf(),
            bucket <= 8,
            old(self).rows_can_advance(bucket as int),
        ensures
            final(self).wf(),
            final(self).same_setup(old(self)),
            final(self).speculated == old(self).speculated,
            forall|i: int|
                0 <= i < 8 ==> #[trigger] final(self).device_positions@[i] == (if i < bucket {
                    old(self).device_positions@[i] + 1
                } else {
                    old(self).device_positions@[i] as int
                }),
    {
        let mut row: usize = 0;
        while row < bucket
            invariant
                row <= bucket <= 8,
                old(self).rows_can_advance(bucket as int),
                self.same_setup(old(self)),
                self.speculated == old(self).speculated,
                forall|i: int|
                    0 <= i < 8 ==> #[trigger] self.device_positions@[i] == (if i < row {
                        old(self).device_positions@[i] + 1
                    } else {
                        old(self).device_positions@[i] as int
                    }),
            decreases bucket - row,
        {
            assert(old(self).device_positions@[row as int] + 1 < old(self).max_model_len);
            let position: usize = self.device_positions[row];
            self.device_positions[row] = position + 1;
            row = row + 1;
        }
    }

    /// Whether a row's greedy result can be committed.
    pub open spec fn row_committable(finite: Seq<bool>, indices: Seq<i32>, row: int) -> bool {
        finite[row] && 0 <= indices[row] < GLM52_VOCAB
    }

    /// The token that is returned for a row.
    pub open spec fn output_of(indices: Seq<i32>, bucket: int, row: int) -> u32 {
        if row < bucket && indices[row] > 0 {
            indices[row] as u32
        } else {
            0
        }
    }

    /// The inputs that a next step must have to be the one enqueued ahead.
    pub open spec fn next_inputs(
        inputs: Seq<(u32, usize)>,
        indices: Seq<i32>,
        shape: Glm52StepShape,
        row: int,
    ) -> (u32, usize) {
        if row < shape.active_rows {
            (Self::output_of(indices, shape.bucket as int, row), (inputs[row].1 + 1) as usize)
        } else {
            inputs[row]
        }
    }

    /// What the read-back of a step's argmax comes to: the tokens of its
    /// rows, and, where the next step was enqueued ahead, what it assumed.
    pub open spec fn finishes(
        before: Self,
        after: Self,
        inputs: Seq<(u32, usize)>,
        shape: Glm52StepShape,
        leased: bool,
        finite: Seq<bool>,
        indices: Seq<i32>,
        r: Result<[u32; 8], Glm52StepError>,
    ) -> bool {
        &&& after.same_setup(&before)
        &&& after.device_positions == before.device_positions
        &&& match r {
            Ok(outputs) => {
                &&& forall|i: int|
                    0 <= i < shape.active_rows ==> #[trigger] Self::row_committable(
                        finite,
                        indices,
                        i,
                    )
                &&& forall|i: int|
                    0 <= i < 8 ==> #[trigger] outputs@[i] == Self::output_of(
                        indices,
                        shape.bucket as int,
                        i,
                    )
                &&& !leased ==> after.speculated == before.speculated
                &&& leased ==> {
                    &&& after.speculated matches Some(s)
                    &&& s.bucket == shape.bucket
                    &&& s.active_rows == shape.active_rows
                    &&& s.slots == shape.slots
                    &&& forall|i: int|
                        0 <= i < 8 ==> #[trigger] s.expect@[i] == Self::next_inputs(
                            inputs,
                            indices,
                            shape,
                            i,
                        )
                }
            },
            Err(Glm52StepError::NoFiniteLogit { slot }) => {
                &&& after.speculated == before.speculated
                &&& exists|row: int|
                    {
                        &&& 0 <= row < shape.active_rows
                        &&& slot == shape.slots@[row]
                        &&& !(#[trigger] finite[row])
                        &&& forall|i: int|
                            0 <= i < row ==> Self::row_committable(finite, indices, i)
                    }
            },
            Err(Glm52StepError::ArgmaxOutsideVocab { slot, index }) => {
                &&& after.speculated == before.speculated
                &&& exists|row: int|
                    {
                        &&& 0 <= row < shape.active_rows
                        &&& slot == shape.slots@[row]
                        &&& index == indices[row]
                        &&& #[trigger] finite[row]
                        &&& !(0 <= index < GLM52_VOCAB)
                        &&& forall|i: int|
                            0 <= i < row ==> Self::row_committable(finite, indices, i)
                    }
            },
            Err(_) => false,
        }
    }

    /// Closes a step with the read-back of its argmax: the committed token of
    /// every row, and, where the next step was enqueued ahead, what it
    /// assumed. Only the active rows are held to be valid tokens.
    pub fn finish_step(
        &mut self,
        inputs: &[(u32, usize); 8],
        shape: Glm52StepShape,
        leased: bool,
        finite: &Vec<bool>,
        indices: &Vec<i32>,
    ) -> (r: Result<[u32; 8], Glm52StepError>)
        requires
            old(self).wf(),
            crate::config::is_bucket(shape.bucket as int),
            shape.active_rows <= shape.bucket,
            finite.len() == shape.bucket,
            indices.len() == shape.bucket,
            forall|i: int| 0 <= i < shape.active_rows ==> #[trigger] inputs@[i].1 < usize::MAX,
        ensures
            final(self).wf(),
            Self::finishes(
                *old(self),
                *final(self),
                inputs@,
                shape,
                leased,
                finite@,
                indices@,
                r,
            ),
            r is Ok <==> forall|i: int|
                0 <= i < shape.active_rows ==> #[trigger] finite@[i] && 0 <= indices@[i] < 154_880,
            r matches Ok(outputs) ==> {
                &&& forall|i: int|
                    0 <= i < shape.active_rows ==> #[trigger] outputs@[i] as int == indices@[i] as int
                &&& forall|i: int|
                    shape.active_rows <= i < shape.bucket ==> #[trigger] outputs@[i] as int == (
                    if indices@[i] < 0 {
                        0
                    } else {
                        indices@[i] as int
                    })
                &&& forall|i: int| shape.bucket <= i < 8 ==> #[trigger] outputs@[i] == 0
            },
            r is Ok && leased ==> (final(self).speculated matches Some(s) && {
                &&& forall|i: int|
                    0 <= i < shape.active_rows ==> (#[trigger] s.expect@[i]).0 as int
                        == indices@[i] as int && s.expect@[i].1 == inputs@[i].1 + 1
                &&& forall|i: int|
                    shape.active_rows <= i < 8 ==> #[trigger] s.expect@[i] == inputs@[i]
            }),
            !(r is Ok && leased) ==> final(self).speculated == old(self).speculated,
            match r {
                Ok(_) => true,
                Err(Glm52StepError::NoFiniteLogit { slot }) => exists|i: int|
                    0 <= i < shape.active_rows && !(#[trigger] finite@[i]) && slot
                        == shape.slots@[i],
                Err(Glm52StepError::ArgmaxOutsideVocab { slot, index }) => {
                    &&& index < 0 || index >= 154_880
                    &&& exists|i: int|
                        0 <= i < shape.active_rows && #[trigger] finite@[i] && indices@[i] == index
                            && slot == shape.slots@[i]
                },
                Err(_) => false,
            },
    {
        let batch: usize = shape.bucket;
        let mut outputs: [u32; 8] = [0, 0, 0, 0, 0, 0, 0, 0];
        let mut row: usize = 0;
        while row < batch
            invariant
                batch == shape.bucket,
                indices.len() == batch,
                row <= batch <= 8,
                forall|i: int|
                    0 <= i < 8 ==> #[trigger] outputs@[i] == (if i < row {
                        Self::output_of(indices@, batch as int, i)
                    } else {
                        0
                    }),
            decreases batch - row,
        {
            if indices[row] > 0 {
                outputs[row] = indices[row] as u32;
            }
            row = row + 1;
        }
        let mut row: usize = 0;
        while row < shape.active_rows
            invariant
                *self == *old(self),
                self.wf(),
                row <= shape.active_rows <= shape.bucket <= 8,
                finite.len() == shape.bucket,
                indices.len() == shape.bucket,
                forall|i: int|
                    0 <= i < row ==> #[trigger] Self::row_committable(finite@, indices@, i),
            decreases shape.active_rows - row,
        {
            let slot: usize = shape.slots[row] as usize;
            let index: i32 = indices[row];
            if !finite[row] {
                assert(!finite@[row as int]);
                return Err(Glm52StepError::NoFiniteLogit { slot });
            }
            assert(finite@[row as int]);
            if index < 0 || index as usize >= GLM52_VOCAB {
                return Err(Glm52StepError::ArgmaxOutsideVocab { slot, index });
            }
            assert(Self::row_committable(finite@, indices@, row as int));
            row = row + 1;
        }
        assert forall|i: int| 0 <= i < shape.active_rows implies #[trigger] finite@[i] && 0
            <= indices@[i] < 154_880 by {
            assert(Self::row_committable(finite@, indices@, i));
        }
        assert forall|i: int| 0 <= i < shape.active_rows implies #[trigger] outputs@[i] as int
            == indices@[i] as int by {
            assert(finite@[i]);
        }
        if leased {
            let mut expect: [(u32, usize); 8] = *inputs;
            let mut row: usize = 0;
            while row < shape.active_rows
                invariant
                    row <= shape.active_rows <= shape.bucket <= 8,
                    forall|i: int|
                        0 <= i < shape.active_rows ==> #[trigger] inputs@[i].1 < usize::MAX,
                    forall|i: int|
                        0 <= i < 8 ==> #[trigger] outputs@[i] == Self::output_of(
                            indices@,
                            shape.bucket as int,
                            i,
                        ),
                    forall|i: int|
                        0 <= i < 8 ==> #[trigger] expect@[i] == (if i < row {
                            Self::next_inputs(inputs@, indices@, shape, i)
                        } else {
                            inputs@[i]
                        }),
                decreases shape.active_rows - row,
            {
                assert(inputs@[row as int].1 < usize::MAX);
                expect[row] = (outputs[row], inputs[row].1 + 1);
                row = row + 1;
            }
            assert forall|i: int| 0 <= i < shape.active_rows implies (
            #[trigger] expect@[i]).0 as int == indices@[i] as int && expect@[i].1 == inputs@[i].1
                + 1 by {
                assert(outputs@[i] as int == indices@[i] as int);
                assert(inputs@[i].1 < usize::MAX);
            }
            self.speculated = Some(
                Glm52SpeculatedStep {
                    bucket: batch,
                    active_rows: shape.active_rows,
                    slots: shape.slots,
                    expect,
                },
            );
        }
        Ok(outputs)
    }
}

/// What is accepted and what is refused depends on the setup alone.
proof fn lemma_setup_decides(
    a: Glm52RankSteps,
    b: Glm52RankSteps,
    inputs: Seq<(u32, usize)>,
    shape: Glm52StepShape,
    kv: Glm52StepKv,
)
    requires
        a.same_setup(&b),
    ensures
        a.accepts(inputs, shape, kv) == b.accepts(inputs, shape, kv),
        forall|e: Glm52StepError|
            a.refuses(inputs, shape, kv, e) == #[trigger] b.refuses(inputs, shape, kv, e),
{
    assert forall|rows: int|
        #![trigger a.rows_address(inputs, kv, rows)]
        #![trigger b.rows_address(inputs, kv, rows)]
        a.rows_address(inputs, kv, rows) == b.rows_address(inputs, kv, rows) by {
        assert forall|r: int|
            #![trigger a.row_addresses(inputs, kv, r)]
            #![trigger b.row_addresses(inputs, kv, r)]
            a.row_addresses(inputs, kv, r) == b.row_addresses(inputs, kv, r) by {}
    }
    assert forall|e: Glm52StepError|
        a.refuses(inputs, shape, kv, e) == #[trigger] b.refuses(inputs, shape, kv, e) by {
        assert forall|row: int|
            #![trigger a.row_in_cap(inputs, row)]
            #![trigger b.row_in_cap(inputs, row)]
            a.row_in_cap(inputs, row) == b.row_in_cap(inputs, row) by {}
    }
}

/// A step that is refused is not one that is accepted, so a step is refused
/// exactly where one of the checks fails.
pub proof fn refused_is_not_accepted(
    rank: Glm52RankSteps,
    inputs: Seq<(u32, usize)>,
    shape: Glm52StepShape,
    kv: Glm52StepKv,
    e: Glm52StepError,
)
    requires
        rank.refuses(inputs, shape, kv, e),
    ensures
        !rank.accepts(inputs, shape, kv),
{
    match e {
        Glm52StepError::SlotOutOfRange { row, slot } => {
            assert(!slot_in_range(shape.slots@, row as int));
        },
        Glm52StepError::BrokenSpan { row, slot } => {
            assert(slot_in_range(shape.slots@, row as int));
        },
        Glm52StepError::PositionBeyondCap { slot, position, cap } => {
            let row = choose|row: int|
                {
                    &&& 0 <= row < shape.bucket
                    &&& rank.rows_address(inputs, kv, row)
                    &&& !(#[trigger] rank.row_in_cap(inputs, row))
                    &&& slot == shape.slots@[row]
                    &&& position == inputs[row].1
                };
            assert(!rank.row_addresses(inputs, kv, row));
        },
        Glm52StepError::SlotMapping { row, got, page, position, expect } => {
            assert(!rank.row_addresses(inputs, kv, row as int));
        },
        _ => {},
    }
}

/// The sampling passes of a step.
#[derive(Clone, Debug)]
pub struct Glm52SamplingPlan {
    /// Rows without a seed of their own: one batched pass under the step seed.
    pub unseeded: Vec<usize>,
    /// Rows with a seed: one pass each, with the request's seed and step.
    pub seeded: Vec<(usize, u64, u64)>,
    /// Whether the full-vocabulary head must be recomputed first.
    pub recompute_full_head: bool,
}

/// The rows without a seed, in order.
pub open spec fn unseeded_rows(sampling: Seq<Glm52RowSample>) -> Seq<usize>
    decreases sampling.len(),
{
    if sampling.len() == 0 {
        Seq::empty()
    } else {
        let rest = unseeded_rows(sampling.drop_last());
        if sampling.last().seed is None {
            rest.push(sampling.last().row)
        } else {
            rest
        }
    }
}

/// The rows with a seed, with their seed and step, in order.
pub open spec fn seeded_rows(sampling: Seq<Glm52RowSample>) -> Seq<(usize, u64, u64)>
    decreases sampling.len(),
{
    if sampling.len() == 0 {
        Seq::empty()
    } else {
        let rest = seeded_rows(sampling.drop_last());
        match sampling.last().seed {
            Some(seed) => rest.push((sampling.last().row, seed, sampling.last().step)),
            None => rest,
        }
    }
}

/// Whether the sampled rows are strictly ascending.
pub open spec fn rows_ascend(sampling: Seq<Glm52RowSample>) -> bool {
    forall|i: int, j: int|
        0 <= i < j < sampling.len() ==> (#[trigger] sampling[i]).row < (#[trigger] sampling[j]).row
}

/// Whether one sampled row is active and has a choice.
pub open spec fn row_samplable(sampling: Seq<Glm52RowSample>, active_rows: int, i: int) -> bool {
    sampling[i].row < active_rows && !sampling[i].greedy
}

impl Glm52SamplingPlan {
    /// No row is sampled twice, and every row is a batch row.
    pub open spec fn wf(&self) -> bool {
        &&& forall|i: int, j: int|
            0 <= i < j < self.unseeded.len() ==> (#[trigger] self.unseeded@[i])
                != #[trigger] self.unseeded@[j]
        &&& forall|i: int, j: int|
            0 <= i < j < self.seeded.len() ==> (#[trigger] self.seeded@[i]).0 != (
            #[trigger] self.seeded@[j]).0
        &&& forall|i: int, j: int|
            0 <= i < self.unseeded.len() && 0 <= j < self.seeded.len() ==> (
            #[trigger] self.unseeded@[i]) != (#[trigger] self.seeded@[j]).0
        &&& forall|i: int| 0 <= i < self.unseeded.len() ==> #[trigger] self.unseeded@[i] < 8
        &&& forall|i: int| 0 <= i < self.seeded.len() ==> (#[trigger] self.seeded@[i]).0 < 8
    }

    /// Whether a row is sampled.
    pub open spec fn samples(&self, row: int) -> bool {
        ||| exists|i: int| 0 <= i < self.unseeded.len() && #[trigger] self.unseeded@[i] == row
        ||| exists|i: int| 0 <= i < self.seeded.len() && (#[trigger] self.seeded@[i]).0 == row
    }

    /// Overwrites the sampled rows' tokens with what the passes returned.
    pub fn apply(
        &self,
        outputs: &mut [u32; 8],
        unseeded_tokens: &Vec<u32>,
        seeded_tokens: &Vec<u32>,
    )
        requires
            self.wf(),
            unseeded_tokens.len() == self.unseeded.len(),
            seeded_tokens.len() == self.seeded.len(),
        ensures
            forall|i: int|
                0 <= i < self.unseeded.len() ==> final(outputs)@[#[trigger] self.unseeded@[i] as int]
                    == unseeded_tokens@[i],
            forall|i: int|
                0 <= i < self.seeded.len() ==> final(outputs)@[(
                #[trigger] self.seeded@[i]).0 as int] == seeded_tokens@[i],
            forall|row: int|
                0 <= row < 8 && !self.samples(row) ==> #[trigger] final(outputs)@[row] == old(
                    outputs,
                )@[row],
    {
        let mut i: usize = 0;
        while i < self.unseeded.len()
            invariant
                self.wf(),
                i <= self.unseeded.len(),
                unseeded_tokens.len() == self.unseeded.len(),
                forall|k: int|
                    0 <= k < i ==> outputs@[#[trigger] self.unseeded@[k] as int]
                        == unseeded_tokens@[k],
                forall|row: int|
                    0 <= row < 8 && !self.samples(row) ==> #[trigger] outputs@[row] == old(
                        outputs,
                    )@[row],
            decreases self.unseeded.len() - i,
        {
            let row: usize = self.unseeded[i];
            assert(self.samples(row as int)) by {
                assert(self.unseeded@[i as int] == row);
            }
            outputs[row] = unseeded_tokens[i];
            i = i + 1;
        }
        let mut i: usize = 0;
        while i < self.seeded.len()
            invariant
                self.wf(),
                i <= self.seeded.len(),
                unseeded_tokens.len() == self.unseeded.len(),
                seeded_tokens.len() == self.seeded.len(),
                forall|k: int|
                    0 <= k < self.unseeded.len() ==> outputs@[#[trigger] self.unseeded@[k] as int]
                        == unseeded_tokens@[k],
                forall|k: int|
                    0 <= k < i ==> outputs@[(#[trigger] self.seeded@[k]).0 as int]
                        == seeded_tokens@[k],
                forall|row: int|
                    0 <= row < 8 && !self.samples(row) ==> #[trigger] outputs@[row] == old(
                        outputs,
                    )@[row],
            decreases self.seeded.len() - i,
        {
            let (row, _seed, _step) = self.seeded[i];
            assert(self.samples(row as int)) by {
                assert(self.seeded@[i as int].0 == row);
            }
            outputs[row] = seeded_tokens[i];
            i = i + 1;
        }
    }
}

/// What planning the sampling passes of a step comes to: the rows must ascend,
/// be active and have a choice, and the first that fails is reported.
pub open spec fn plans_sampling(
    shape: Glm52StepShape,
    sampling: Seq<Glm52RowSample>,
    sharded_head: bool,
    r: Result<Glm52SamplingPlan, Glm52StepError>,
) -> bool {
    match r {
        Ok(plan) => {
            &&& plan.wf()
            &&& rows_ascend(sampling)
            &&& forall|i: int|
                0 <= i < sampling.len() ==> #[trigger] row_samplable(
                    sampling,
                    shape.active_rows as int,
                    i,
                )
            &&& plan.unseeded@ == unseeded_rows(sampling)
            &&& plan.seeded@ == seeded_rows(sampling)
            &&& plan.recompute_full_head == (sharded_head && sampling.len() > 0)
        },
        Err(Glm52StepError::SamplingOrder) => !rows_ascend(sampling),
        Err(Glm52StepError::SamplingRow { row, active_rows }) => {
            &&& rows_ascend(sampling)
            &&& active_rows == shape.active_rows
            &&& exists|i: int|
                {
                    &&& 0 <= i < sampling.len()
                    &&& (#[trigger] sampling[i]).row == row
                    &&& row >= active_rows
                    &&& forall|k: int|
                        0 <= k < i ==> row_samplable(sampling, shape.active_rows as int, k)
                }
        },
        Err(Glm52StepError::SamplingGreedy { row }) => {
            &&& rows_ascend(sampling)
            &&& exists|i: int|
                {
                    &&& 0 <= i < sampling.len()
                    &&& (#[trigger] sampling[i]).row == row
                    &&& row < shape.active_rows
                    &&& sampling[i].greedy
                    &&& forall|k: int|
                        0 <= k < i ==> row_samplable(sampling, shape.active_rows as int, k)
                }
        },
        Err(_) => false,
    }
}

/// Plans the sampling passes of a step. The rows must ascend, be active and
/// have a choice; a rank with a sharded head recomputes the full one first.
pub fn plan_sampling(
    shape: Glm52StepShape,
    sampling: &Vec<Glm52RowSample>,
    sharded_head: bool,
) -> (r: Result<Glm52SamplingPlan, Glm52StepError>)
    requires
        shape.active_rows <= 8,
    ensures
        plans_sampling(shape, sampling@, sharded_head, r),
        r is Ok <==> {
            &&& forall|i: int, j: int|
                0 <= i < j < sampling.len() ==> (#[trigger] sampling@[i]).row < (
                #[trigger] sampling@[j]).row
            &&& forall|i: int|
                0 <= i < sampling.len() ==> (#[trigger] sampling@[i]).row < shape.active_rows
                    && !sampling@[i].greedy
        },
        match r {
            Ok(plan) => {
                &&& plan.recompute_full_head <==> sharded_head && sampling.len() > 0
                &&& forall|i: int|
                    0 <= i < sampling.len() ==> ((#[trigger] sampling@[i]).seed matches Some(seed)
                        ==> plan.seeded@.contains((sampling@[i].row, seed, sampling@[i].step)))
                &&& forall|i: int|
                    0 <= i < sampling.len() ==> ((#[trigger] sampling@[i]).seed is None
                        ==> plan.unseeded@.contains(sampling@[i].row))
                &&& plan.seeded.len() + plan.unseeded.len() == sampling.len()
            },
            Err(Glm52StepError::SamplingRow { row, active_rows }) => active_rows
                == shape.active_rows && row >= active_rows,
            Err(Glm52StepError::SamplingGreedy { row }) => exists|i: int|
                0 <= i < sampling.len() && (#[trigger] sampling@[i]).row == row
                    && sampling@[i].greedy,
            Err(Glm52StepError::SamplingOrder) => true,
            Err(_) => false,
        },
{
    let mut i: usize = 1;
    while i < sampling.len()
        invariant
            i >= 1,
            i <= sampling.len() || sampling.len() == 0,
            forall|a: int, b: int|
                0 <= a < b < i && b < sampling.len() ==> (#[trigger] sampling@[a]).row < (
                #[trigger] sampling@[b]).row,
        decreases sampling.len() - i,
    {
        if sampling[i - 1].row >= sampling[i].row {
            assert(!(sampling@[i - 1].row < sampling@[i as int].row));
            return Err(Glm52StepError::SamplingOrder);
        }
        i = i + 1;
    }
    let mut unseeded: Vec<usize> = Vec::new();
    let mut seeded: Vec<(usize, u64, u64)> = Vec::new();
    let mut i: usize = 0;
    while i < sampling.len()
        invariant
            shape.active_rows <= 8,
            i <= sampling.len(),
            rows_ascend(sampling@),
            forall|k: int|
                0 <= k < i ==> #[trigger] row_samplable(sampling@, shape.active_rows as int, k),
            unseeded@ == unseeded_rows(sampling@.subrange(0, i as int)),
            seeded@ == seeded_rows(sampling@.subrange(0, i as int)),
            seeded.len() + unseeded.len() == i,
            forall|k: int|
                0 <= k < i ==> ((#[trigger] sampling@[k]).seed matches Some(seed)
                    ==> seeded@.contains((sampling@[k].row, seed, sampling@[k].step))),
            forall|k: int|
                0 <= k < i ==> ((#[trigger] sampling@[k]).seed is None ==> unseeded@.contains(
                    sampling@[k].row,
                )),
            forall|k: int|
                0 <= k < unseeded.len() ==> #[trigger] unseeded@[k] < 8 && (i < sampling.len()
                    ==> unseeded@[k] < sampling@[i as int].row),
            forall|k: int|
                0 <= k < seeded.len() ==> (#[trigger] seeded@[k]).0 < 8 && (i < sampling.len()
                    ==> seeded@[k].0 < sampling@[i as int].row),
            forall|a: int, b: int|
                0 <= a < b < unseeded.len() ==> (#[trigger] unseeded@[a])
                    != #[trigger] unseeded@[b],
            forall|a: int, b: int|
                0 <= a < b < seeded.len() ==> (#[trigger] seeded@[a]).0 != (
                #[trigger] seeded@[b]).0,
            forall|a: int, b: int|
                0 <= a < unseeded.len() && 0 <= b < seeded.len() ==> (#[trigger] unseeded@[a])
                    != (#[trigger] seeded@[b]).0,
        decreases sampling.len() - i,
    {
        let s: Glm52RowSample = sampling[i];
        if s.row >= shape.active_rows {
            return Err(
                Glm52StepError::SamplingRow { row: s.row, active_rows: shape.active_rows },
            );
        }
        if s.greedy {
            return Err(Glm52StepError::SamplingGreedy { row: s.row });
        }
        assert(row_samplable(sampling@, shape.active_rows as int, i as int));
        let ghost longer = sampling@.subrange(0, i + 1);
        assert(longer.drop_last() =~= sampling@.subrange(0, i as int));
        assert(longer.last() == s);
        if i + 1 < sampling.len() {
            assert(sampling@[i as int].row < sampling@[i + 1].row);
        }
        let ghost seeded_before = seeded@;
        let ghost unseeded_before = unseeded@;
        match s.seed {
            Some(seed) => {
                seeded.push((s.row, seed, s.step));
                assert(seeded@[seeded_before.len() as int] == (s.row, seed, s.step));
            },
            None => {
                unseeded.push(s.row);
                assert(unseeded@[unseeded_before.len() as int] == s.row);
            },
        }
        assert forall|k: int| 0 <= k < i + 1 implies ((#[trigger] sampling@[k]).seed matches Some(
            seed,
        ) ==> seeded@.contains((sampling@[k].row, seed, sampling@[k].step))) by {
            if k < i && sampling@[k].seed is Some {
                let t = (sampling@[k].row, sampling@[k].seed->0, sampling@[k].step);
                let at = choose|at: int| 0 <= at < seeded_before.len() && seeded_before[at] == t;
                assert(seeded@[at] == t);
            }
        }
        assert forall|k: int| 0 <= k < i + 1 implies ((#[trigger] sampling@[k]).seed is None
            ==> unseeded@.contains(sampling@[k].row)) by {
            if k < i && sampling@[k].seed is None {
                let row = sampling@[k].row;
                let at = choose|at: int|
                    0 <= at < unseeded_before.len() && unseeded_before[at] == row;
                assert(unseeded@[at] == row);
            }
        }
        i = i + 1;
    }
    assert(sampling@.subrange(0, sampling.len() as int) =~= sampling@);
    assert forall|k: int| 0 <= k < sampling.len() implies (#[trigger] sampling@[k]).row
        < shape.active_rows && !sampling@[k].greedy by {
        assert(row_samplable(sampling@, shape.active_rows as int, k));
    }
    Ok(
        Glm52SamplingPlan {
            unseeded,
            seeded,
            recompute_full_head: sharded_head && sampling.len() > 0,
        },
    )
}

/// The rows of a lane walk consecutive positions.
pub proof fn span_walks_consecutive_positions(
    inputs: Seq<(u32, usize)>,
    slots: Seq<u8>,
    rows: int,
    a: int,
    b: int,
)
    requires
        spans_hold(inputs, slots, rows),
        0 <= a <= b < rows,
        slots[a] == slots[b],
    ensures
        inputs[b].1 == inputs[a].1 + (b - a),
        forall|r: int| a <= r <= b ==> #[trigger] slots[r] == slots[a],
    decreases b - a,
{
    if a < b {
        assert(slot_in_range(slots, b));
        assert(continues_a_slot(slots, b));
        span_walks_consecutive_positions(inputs, slots, rows, a, b - 1);
    }
}

/// Where lanes hold distinct pages, and the rows of one lane share their page
/// table, no two rows of an accepted step write the same cache slot.
pub proof fn rows_write_distinct_slots(
    rank: Glm52RankSteps,
    inputs: Seq<(u32, usize)>,
    shape: Glm52StepShape,
    kv: Glm52StepKv,
    a: int,
    b: int,
)
    requires
        rank.accepts(inputs, shape, kv),
        0 <= a < b < shape.active_rows <= shape.bucket,
        shape.slots@[a] != shape.slots@[b] ==> forall|i: int, j: int|
            0 <= i <= inputs[a].1 / 64 && 0 <= j <= inputs[b].1 / 64
                ==> #[trigger] kv.pages@[a * rank.table_width + i]
                != #[trigger] kv.pages@[b * rank.table_width + j],
        shape.slots@[a] == shape.slots@[b] ==> forall|i: int|
            0 <= i <= inputs[a].1 / 64 ==> #[trigger] kv.pages@[a * rank.table_width + i]
                == kv.pages@[b * rank.table_width + i],
        shape.slots@[a] == shape.slots@[b] ==> forall|i: int, j: int|
            0 <= i < j <= inputs[b].1 / 64 ==> #[trigger] kv.pages@[b * rank.table_width + i]
                != #[trigger] kv.pages@[b * rank.table_width + j],
    ensures
        kv.slot_mapping@[a] != kv.slot_mapping@[b],
{
    assert(rank.row_addresses(inputs, kv, a));
    assert(rank.row_addresses(inputs, kv, b));
    let pa = inputs[a].1 as int;
    let pb = inputs[b].1 as int;
    let w = rank.table_width as int;
    if shape.slots@[a] == shape.slots@[b] {
        span_walks_consecutive_positions(inputs, shape.slots@, shape.bucket as int, a, b);
        assert(pa < pb);
        assert(kv.pages@[a * w + pa / 64] == kv.pages@[b * w + pa / 64]);
        if pa / 64 < pb / 64 {
            assert(kv.pages@[b * w + pa / 64] != kv.pages@[b * w + pb / 64]);
        }
    } else {
        assert(kv.pages@[a * w + pa / 64] != kv.pages@[b * w + pb / 64]);
    }
}

/// A next step with the inputs that the step enqueued ahead assumed is that
/// step; one with any other input of a forwarded row is not.
pub proof fn only_the_assumed_inputs_are_consumed(
    inputs: Seq<(u32, usize)>,
    indices: Seq<i32>,
    shape: Glm52StepShape,
    speculated: Glm52SpeculatedStep,
    next: Seq<(u32, usize)>,
)
    requires
        shape.bucket <= 8,
        speculated.bucket == shape.bucket,
        speculated.active_rows == shape.active_rows,
        speculated.slots == shape.slots,
        forall|i: int|
            0 <= i < 8 ==> #[trigger] speculated.expect@[i] == Glm52RankSteps::next_inputs(
                inputs,
                indices,
                shape,
                i,
            ),
    ensures
        Glm52RankSteps::speculation_matches(speculated, next, shape) <==> forall|i: int|
            0 <= i < shape.bucket ==> #[trigger] next[i] == Glm52RankSteps::next_inputs(
                inputs,
                indices,
                shape,
                i,
            ),
{
    if Glm52RankSteps::speculation_matches(speculated, next, shape) {
        assert forall|i: int| 0 <= i < shape.bucket implies #[trigger] next[i]
            == Glm52RankSteps::next_inputs(inputs, indices, shape, i) by {
            let slot = speculated.slots@[i];
            assert(speculated.expect@[i] == next[i]);
        }
    } else if forall|i: int|
        0 <= i < shape.bucket ==> #[trigger] next[i] == Glm52RankSteps::next_inputs(
            inputs,
            indices,
            shape,
            i,
        ) {
        assert forall|r: int| 0 <= r < shape.bucket implies {
            &&& #[trigger] speculated.slots@[r] == shape.slots@[r]
            &&& speculated.expect@[r] == next[r]
        } by {
            assert(next[r] == Glm52RankSteps::next_inputs(inputs, indices, shape, r));
        }
    }
}

/// A row that is moved ahead stays below the cap.
pub proof fn leased_rows_stay_below_the_cap(
    before: Glm52RankSteps,
    after: Glm52RankSteps,
    shape: Glm52StepShape,
    row: int,
)
    requires
        before.may_lease(shape),
        after.same_setup(&before),
        0 <= row < shape.bucket <= 8,
        after.device_positions@[row] == before.device_positions@[row] + 1,
    ensures
        after.device_positions@[row] < after.max_model_len,
{
}

} // verus!
