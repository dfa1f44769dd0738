//! Page-table metadata of the fixed 128-row decode bucket.
use vstd::prelude::*;
use vstd::string::*;

use crate::arith::div_ceil;
use crate::text::{decimal_text, signed_text};

verus! {

/// Rows of the fixed decode bucket.
pub const GLM52_DECODE_BATCH_CAP: usize = 128;

/// Multiprocessors of the device that the bucket is scheduled for.
pub const GLM52_DECODE_DEVICE_SMS: usize = 132;

/// One active decode row. `seq_len` counts the token of this step, and
/// `block_ids` covers exactly that many tokens.
#[derive(Clone, Copy, Debug)]
pub struct Glm52DecodePageRow<'a> {
    pub seq_len: usize,
    pub block_ids: &'a [i32],
}

impl<'a> Glm52DecodePageRow<'a> {
    /// A row of `seq_len` tokens in the given blocks.
    pub fn new(seq_len: usize, block_ids: &'a [i32]) -> (r: Self)
        ensures
            r.seq_len == seq_len,
            r.block_ids@ == block_ids@,
    {
        Glm52DecodePageRow { seq_len, block_ids }
    }
}

/// Why a geometry or a batch of rows is refused.
#[derive(Clone, Copy, Debug, PartialEq, Eq, Structural)]
pub enum Glm52DecodeMetaError {
    BatchCapacity { got: usize },
    BlockSize,
    MaxModelLen,
    PoolBlocks,
    NegativePadding { padding_block_id: i32 },
    PaddingBeyondPool { padding_block_id: i32, pool_blocks: usize },
    NumSms,
    TableOverflow,
    ActiveRows { rows: usize, batch_capacity: usize },
    ZeroLength { row: usize },
    BeyondCap { row: usize, seq_len: usize, max_model_len: usize },
    BlockCount { row: usize, blocks: usize, seq_len: usize, needed: usize },
    NegativeBlock { row: usize, index: usize, block_id: i32 },
    BlockBeyondPool { row: usize, block_id: i32, pool_blocks: usize },
    SeqLenExceedsI32 { value: usize },
    PositionExceedsI32 { value: usize },
    ActiveRowsExceedI32 { value: usize },
    ScheduleLength { got: usize, rows: usize },
}

impl Glm52DecodeMetaError {
    /// The message of the refusal.
    pub open spec fn text(self) -> Seq<char> {
        match self {
            Glm52DecodeMetaError::BatchCapacity { got } =>
                "GLM5.2 decode metadata is fixed at B=128, got "@ + crate::text::decimal(
                got as nat,
            ),
            Glm52DecodeMetaError::BlockSize => "GLM5.2 decode block_size must be positive"@,
            Glm52DecodeMetaError::MaxModelLen => "GLM5.2 decode max_model_len must be positive"@,
            Glm52DecodeMetaError::PoolBlocks => "GLM5.2 decode metadata needs a cache pool"@,
            Glm52DecodeMetaError::NegativePadding { padding_block_id } =>
                "GLM5.2 decode padding block must be non-negative, got "@
                + crate::text::signed_decimal(padding_block_id as int),
            Glm52DecodeMetaError::PaddingBeyondPool { padding_block_id, pool_blocks } =>
                "GLM5.2 decode padding block "@ + crate::text::signed_decimal(
                padding_block_id as int,
            ) + " exceeds pool blocks "@ + crate::text::decimal(pool_blocks as nat),
            Glm52DecodeMetaError::NumSms => "GLM5.2 decode num_sms must be positive"@,
            Glm52DecodeMetaError::TableOverflow => "GLM5.2 decode block table length overflow"@,
            Glm52DecodeMetaError::ActiveRows { rows, batch_capacity } =>
                "GLM5.2 decode active rows "@ + crate::text::decimal(rows as nat)
                + " exceed fixed bucket "@ + crate::text::decimal(batch_capacity as nat),
            Glm52DecodeMetaError::ZeroLength { row } => "GLM5.2 decode row "@
                + crate::text::decimal(row as nat) + " has zero KV length"@,
            Glm52DecodeMetaError::BeyondCap { row, seq_len, max_model_len } =>
                "GLM5.2 decode row "@ + crate::text::decimal(row as nat) + " seq_len "@
                + crate::text::decimal(seq_len as nat) + " exceeds max_model_len "@
                + crate::text::decimal(max_model_len as nat),
            Glm52DecodeMetaError::BlockCount { row, blocks, seq_len, needed } =>
                "GLM5.2 decode row "@ + crate::text::decimal(row as nat) + " has "@
                + crate::text::decimal(blocks as nat) + " blocks for "@ + crate::text::decimal(
                seq_len as nat,
            ) + " tokens, needs "@ + crate::text::decimal(needed as nat),
            Glm52DecodeMetaError::NegativeBlock { row, index, block_id } => "GLM5.2 decode row "@
                + crate::text::decimal(row as nat) + " block "@ + crate::text::decimal(
                index as nat,
            ) + " is negative: "@ + crate::text::signed_decimal(block_id as int),
            Glm52DecodeMetaError::BlockBeyondPool { row, block_id, pool_blocks } =>
                "GLM5.2 decode row "@ + crate::text::decimal(row as nat) + " block "@
                + crate::text::signed_decimal(block_id as int) + " exceeds pool blocks "@
                + crate::text::decimal(pool_blocks as nat),
            Glm52DecodeMetaError::SeqLenExceedsI32 { value } => "GLM5.2 decode seq_len "@
                + crate::text::decimal(value as nat) + " exceeds i32"@,
            Glm52DecodeMetaError::PositionExceedsI32 { value } => "GLM5.2 decode position "@
                + crate::text::decimal(value as nat) + " exceeds i32"@,
            Glm52DecodeMetaError::ActiveRowsExceedI32 { value } => "GLM5.2 decode active_rows "@
                + crate::text::decimal(value as nat) + " exceeds i32"@,
            Glm52DecodeMetaError::ScheduleLength { got, rows } =>
                "GLM5.2 schedule_metadata length "@ + crate::text::decimal(got as nat)
                + " does not match ["@ + crate::text::decimal(rows as nat) + ", 2]"@,
        }
    }

    /// The message of the refusal.
    pub fn message(&self) -> (m: String)
        ensures
            m@ == self.text(),
    {
        match *self {
            Glm52DecodeMetaError::BatchCapacity { got } => {
                let mut m = String::from_str("GLM5.2 decode metadata is fixed at B=128, got ");
                m.append(decimal_text(got as u64).as_str());
                m
            },
            Glm52DecodeMetaError::BlockSize => {
                String::from_str("GLM5.2 decode block_size must be positive")
            },
            Glm52DecodeMetaError::MaxModelLen => {
                String::from_str("GLM5.2 decode max_model_len must be positive")
            },
            Glm52DecodeMetaError::PoolBlocks => {
                String::from_str("GLM5.2 decode metadata needs a cache pool")
            },
            Glm52DecodeMetaError::NegativePadding { padding_block_id } => {
                let mut m = String::from_str(
                    "GLM5.2 decode padding block must be non-negative, got ",
                );
                m.append(signed_text(padding_block_id as i64).as_str());
                m
            },
            Glm52DecodeMetaError::PaddingBeyondPool { padding_block_id, pool_blocks } => {
                let mut m = String::from_str("GLM5.2 decode padding block ");
                m.append(signed_text(padding_block_id as i64).as_str());
                m.append(" exceeds pool blocks ");
                m.append(decimal_text(pool_blocks as u64).as_str());
                m
            },
            Glm52DecodeMetaError::NumSms => {
                String::from_str("GLM5.2 decode num_sms must be positive")
            },
            Glm52DecodeMetaError::TableOverflow => {
                String::from_str("GLM5.2 decode block table length overflow")
            },
            Glm52DecodeMetaError::ActiveRows { rows, batch_capacity } => {
                let mut m = String::from_str("GLM5.2 decode active rows ");
                m.append(decimal_text(rows as u64).as_str());
                m.append(" exceed fixed bucket ");
                m.append(decimal_text(batch_capacity as u64).as_str());
                m
            },
            Glm52DecodeMetaError::ZeroLength { row } => {
                let mut m = String::from_str("GLM5.2 decode row ");
                m.append(decimal_text(row as u64).as_str());
                m.append(" has zero KV length");
                m
            },
            Glm52DecodeMetaError::BeyondCap { row, seq_len, max_model_len } => {
                let mut m = String::from_str("GLM5.2 decode row ");
                m.append(decimal_text(row as u64).as_str());
                m.append(" seq_len ");
                m.append(decimal_text(seq_len as u64).as_str());
                m.append(" exceeds max_model_len ");
                m.append(decimal_text(max_model_len as u64).as_str());
                m
            },
            Glm52DecodeMetaError::BlockCount { row, blocks, seq_len, needed } => {
                let mut m = String::from_str("GLM5.2 decode row ");
                m.append(decimal_text(row as u64).as_str());
                m.append(" has ");
                m.append(decimal_text(blocks as u64).as_str());
                m.append(" blocks for ");
                m.append(decimal_text(seq_len as u64).as_str());
                m.append(" tokens, needs ");
                m.append(decimal_text(needed as u64).as_str());
                m
            },
            Glm52DecodeMetaError::NegativeBlock { row, index, block_id } => {
                let mut m = String::from_str("GLM5.2 decode row ");
                m.append(decimal_text(row as u64).as_str());
                m.append(" block ");
                m.append(decimal_text(index as u64).as_str());
                m.append(" is negative: ");
                m.append(signed_text(block_id as i64).as_str());
                m
            },
            Glm52DecodeMetaError::BlockBeyondPool { row, block_id, pool_blocks } => {
                let mut m = String::from_str("GLM5.2 decode row ");
                m.append(decimal_text(row as u64).as_str());
                m.append(" block ");
                m.append(signed_text(block_id as i64).as_str());
                m.append(" exceeds pool blocks ");
                m.append(decimal_text(pool_blocks as u64).as_str());
                m
            },
            Glm52DecodeMetaError::SeqLenExceedsI32 { value } => {
                let mut m = String::from_str("GLM5.2 decode seq_len ");
                m.append(decimal_text(value as u64).as_str());
                m.append(" exceeds i32");
                m
            },
            Glm52DecodeMetaError::PositionExceedsI32 { value } => {
                let mut m = String::from_str("GLM5.2 decode position ");
                m.append(decimal_text(value as u64).as_str());
                m.append(" exceeds i32");
                m
            },
            Glm52DecodeMetaError::ActiveRowsExceedI32 { value } => {
                let mut m = String::from_str("GLM5.2 decode active_rows ");
                m.append(decimal_text(value as u64).as_str());
                m.append(" exceeds i32");
                m
            },
            Glm52DecodeMetaError::ScheduleLength { got, rows } => {
                let mut m = String::from_str("GLM5.2 schedule_metadata length ");
                m.append(decimal_text(got as u64).as_str());
                m.append(" does not match [");
                m.append(decimal_text(rows as u64).as_str());
                m.append(", 2]");
                m
            },
        }
    }
}

/// The geometry of the fixed decode bucket.
#[derive(Clone, Copy, Debug, PartialEq, Eq, Structural)]
pub struct Glm52DecodeBatchGeometry {
    pub batch_capacity: usize,
    pub block_size: usize,
    pub max_model_len: usize,
    pub max_blocks_per_row: usize,
    pub pool_blocks: usize,
    pub padding_block_id: i32,
    pub num_sms: usize,
}

/// One cell of a row-major table.
pub open spec fn cell(table: Seq<i32>, width: int, row: int, column: int) -> i32 {
    table[row * width + column]
}

/// The length of the longest of the first `n` rows, or one.
pub open spec fn longest(rows: Seq<Glm52DecodePageRow<'_>>, n: int) -> int
    decreases n,
{
    if n <= 0 {
        1
    } else {
        let before = longest(rows, n - 1);
        if rows[n - 1].seq_len > before {
            rows[n - 1].seq_len as int
        } else {
            before
        }
    }
}

/// Blocks that the first `n` rows hold together.
pub open spec fn blocks_held(rows: Seq<Glm52DecodePageRow<'_>>, n: int) -> int
    decreases n,
{
    if n <= 0 {
        0
    } else {
        blocks_held(rows, n - 1) + rows[n - 1].block_ids@.len()
    }
}

impl Glm52DecodeBatchGeometry {
    /// A geometry as the constructor accepts it.
    pub open spec fn wf(&self) -> bool {
        &&& self.batch_capacity == 128
        &&& self.block_size > 0
        &&& self.max_model_len > 0
        &&& self.max_blocks_per_row == crate::arith::ceil_div(
            self.max_model_len as int,
            self.block_size as int,
        )
        &&& 0 <= self.padding_block_id < self.pool_blocks
        &&& self.num_sms > 0
    }

    /// The bucket of an H200.
    pub fn fixed_h200(
        block_size: usize,
        max_model_len: usize,
        pool_blocks: usize,
        padding_block_id: i32,
    ) -> (r: Result<Self, Glm52DecodeMetaError>)
        ensures
            r is Ok <==> block_size > 0 && max_model_len > 0 && 0 <= padding_block_id < pool_blocks,
            r matches Ok(g) ==> g.wf() && g.block_size == block_size && g.max_model_len
                == max_model_len && g.pool_blocks == pool_blocks && g.padding_block_id
                == padding_block_id && g.num_sms == 132,
    {
        Self::new(
            GLM52_DECODE_BATCH_CAP,
            block_size,
            max_model_len,
            pool_blocks,
            padding_block_id,
            GLM52_DECODE_DEVICE_SMS,
        )
    }

    /// A geometry of whole blocks whose padding block lies in the pool.
    pub fn new(
        batch_capacity: usize,
        block_size: usize,
        max_model_len: usize,
        pool_blocks: usize,
        padding_block_id: i32,
        num_sms: usize,
    ) -> (r: Result<Self, Glm52DecodeMetaError>)
        ensures
            match r {
                Ok(g) => {
                    &&& g.wf()
                    &&& g.batch_capacity == batch_capacity
                    &&& g.block_size == block_size
                    &&& g.max_model_len == max_model_len
                    &&& g.pool_blocks == pool_blocks
                    &&& g.padding_block_id == padding_block_id
                    &&& g.num_sms == num_sms
                },
                Err(e) => e == (if batch_capacity != 128 {
                    Glm52DecodeMetaError::BatchCapacity { got: batch_capacity }
                } else if block_size == 0 {
                    Glm52DecodeMetaError::BlockSize
                } else if max_model_len == 0 {
                    Glm52DecodeMetaError::MaxModelLen
                } else if pool_blocks == 0 {
                    Glm52DecodeMetaError::PoolBlocks
                } else if padding_block_id < 0 {
                    Glm52DecodeMetaError::NegativePadding { padding_block_id }
                } else if padding_block_id >= pool_blocks {
                    Glm52DecodeMetaError::PaddingBeyondPool { padding_block_id, pool_blocks }
                } else {
                    Glm52DecodeMetaError::NumSms
                }),
            },
            r is Ok <==> batch_capacity == 128 && block_size > 0 && max_model_len > 0 && 0
                <= padding_block_id < pool_blocks && num_sms > 0,
    {
        if batch_capacity != GLM52_DECODE_BATCH_CAP {
            return Err(Glm52DecodeMetaError::BatchCapacity { got: batch_capacity });
        }
        if block_size == 0 {
            return Err(Glm52DecodeMetaError::BlockSize);
        }
        if max_model_len == 0 {
            return Err(Glm52DecodeMetaError::MaxModelLen);
        }
        if pool_blocks == 0 {
            return Err(Glm52DecodeMetaError::PoolBlocks);
        }
        if padding_block_id < 0 {
            return Err(Glm52DecodeMetaError::NegativePadding { padding_block_id });
        }
        if padding_block_id as usize >= pool_blocks {
            return Err(
                Glm52DecodeMetaError::PaddingBeyondPool { padding_block_id, pool_blocks },
            );
        }
        if num_sms == 0 {
            return Err(Glm52DecodeMetaError::NumSms);
        }
        Ok(
            Glm52DecodeBatchGeometry {
                batch_capacity,
                block_size,
                max_model_len,
                max_blocks_per_row: div_ceil(max_model_len, block_size),
                pool_blocks,
                padding_block_id,
                num_sms,
            },
        )
    }

    /// Length of the scheduler metadata: a pair per multiprocessor and one
    /// more.
    pub fn schedule_metadata_len(self) -> (r: usize)
        requires
            (self.num_sms + 1) * 2 <= usize::MAX,
        ensures
            r == (self.num_sms + 1) * 2,
    {
        (self.num_sms + 1) * 2
    }

    /// Checks the length of scheduler metadata before it is uploaded.
    pub fn check_schedule_metadata(self, got: usize) -> (r: Result<(), Glm52DecodeMetaError>)
        requires
            (self.num_sms + 1) * 2 <= usize::MAX,
        ensures
            r == (if got == (self.num_sms + 1) * 2 {
                Ok(())
            } else {
                Err::<(), _>(
                    Glm52DecodeMetaError::ScheduleLength {
                        got,
                        rows: (self.num_sms + 1) as usize,
                    },
                )
            }),
    {
        if got != self.schedule_metadata_len() {
            return Err(Glm52DecodeMetaError::ScheduleLength { got, rows: self.num_sms + 1 });
        }
        Ok(())
    }

    /// Cells of the block table.
    pub fn block_table_len(self) -> (r: Result<usize, Glm52DecodeMetaError>)
        ensures
            r == (if self.batch_capacity * self.max_blocks_per_row <= usize::MAX {
                Ok((self.batch_capacity * self.max_blocks_per_row) as usize)
            } else {
                Err::<usize, _>(Glm52DecodeMetaError::TableOverflow)
            }),
    {
        match self.batch_capacity.checked_mul(self.max_blocks_per_row) {
            Some(len) => Ok(len),
            None => Err(Glm52DecodeMetaError::TableOverflow),
        }
    }

    /// Whether a block id names a block of the pool.
    pub open spec fn block_in_pool(&self, block_id: i32) -> bool {
        0 <= block_id < self.pool_blocks
    }

    /// Whether a row is one that the bucket can hold.
    pub open spec fn row_valid(&self, row: Glm52DecodePageRow<'_>) -> bool {
        &&& 0 < row.seq_len <= self.max_model_len
        &&& row.block_ids@.len() == crate::arith::ceil_div(
            row.seq_len as int,
            self.block_size as int,
        )
        &&& forall|i: int|
            0 <= i < row.block_ids@.len() ==> #[trigger] self.block_in_pool(row.block_ids@[i])
    }

    /// Which refusal a row gets.
    pub open spec fn row_refusal(
        &self,
        row_idx: usize,
        row: Glm52DecodePageRow<'_>,
        e: Glm52DecodeMetaError,
    ) -> bool {
        let needed = crate::arith::ceil_div(row.seq_len as int, self.block_size as int);
        if row.seq_len == 0 {
            e == (Glm52DecodeMetaError::ZeroLength { row: row_idx })
        } else if row.seq_len > self.max_model_len {
            e == (Glm52DecodeMetaError::BeyondCap {
                row: row_idx,
                seq_len: row.seq_len,
                max_model_len: self.max_model_len,
            })
        } else if row.block_ids@.len() != needed {
            e == (Glm52DecodeMetaError::BlockCount {
                row: row_idx,
                blocks: row.block_ids@.len() as usize,
                seq_len: row.seq_len,
                needed: needed as usize,
            })
        } else {
            exists|i: int|
                {
                    &&& 0 <= i < row.block_ids@.len()
                    &&& !(#[trigger] self.block_in_pool(row.block_ids@[i]))
                    &&& forall|k: int|
                        0 <= k < i ==> self.block_in_pool(#[trigger] row.block_ids@[k])
                    &&& e == (if row.block_ids@[i] < 0 {
                        Glm52DecodeMetaError::NegativeBlock {
                            row: row_idx,
                            index: i as usize,
                            block_id: row.block_ids@[i],
                        }
                    } else {
                        Glm52DecodeMetaError::BlockBeyondPool {
                            row: row_idx,
                            block_id: row.block_ids@[i],
                            pool_blocks: self.pool_blocks,
                        }
                    })
                }
        }
    }

    /// Checks that a row fits the bucket and that its blocks cover exactly
    /// its tokens.
    pub fn validate_row(self, row_idx: usize, row: Glm52DecodePageRow<'_>) -> (r: Result<
        (),
        Glm52DecodeMetaError,
    >)
        requires
            self.wf(),
        ensures
            r is Ok <==> self.row_valid(row),
            r matches Err(e) ==> self.row_refusal(row_idx, row, e),
            match r {
                Ok(()) => {
                    &&& 0 < row.seq_len <= self.max_model_len
                    &&& forall|i: int|
                        0 <= i < row.block_ids@.len() ==> 0 <= #[trigger] row.block_ids@[i]
                            < self.pool_blocks
                },
                Err(Glm52DecodeMetaError::ZeroLength { row: at }) => at == row_idx && row.seq_len
                    == 0,
                Err(Glm52DecodeMetaError::BeyondCap { row: at, seq_len, max_model_len }) => {
                    &&& at == row_idx && seq_len == row.seq_len
                    &&& max_model_len == self.max_model_len && seq_len > max_model_len
                },
                Err(Glm52DecodeMetaError::BlockCount { row: at, blocks, seq_len, needed }) => {
                    &&& at == row_idx && blocks == row.block_ids@.len()
                    &&& seq_len == row.seq_len && needed != blocks
                },
                Err(Glm52DecodeMetaError::NegativeBlock { row: at, index, block_id }) => {
                    &&& at == row_idx && index < row.block_ids@.len()
                    &&& block_id == row.block_ids@[index as int] && block_id < 0
                },
                Err(Glm52DecodeMetaError::BlockBeyondPool { row: at, block_id, pool_blocks }) => {
                    &&& at == row_idx && row.block_ids@.contains(block_id)
                    &&& pool_blocks == self.pool_blocks && block_id >= pool_blocks
                },
                Err(_) => false,
            },
    {
        if row.seq_len == 0 {
            return Err(Glm52DecodeMetaError::ZeroLength { row: row_idx });
        }
        if row.seq_len > self.max_model_len {
            return Err(
                Glm52DecodeMetaError::BeyondCap {
                    row: row_idx,
                    seq_len: row.seq_len,
                    max_model_len: self.max_model_len,
                },
            );
        }
        let needed: usize = div_ceil(row.seq_len, self.block_size);
        if row.block_ids.len() != needed {
            return Err(
                Glm52DecodeMetaError::BlockCount {
                    row: row_idx,
                    blocks: row.block_ids.len(),
                    seq_len: row.seq_len,
                    needed,
                },
            );
        }
        let mut i: usize = 0;
        while i < row.block_ids.len()
            invariant
                i <= row.block_ids@.len(),
                0 < row.seq_len <= self.max_model_len,
                row.block_ids@.len() == crate::arith::ceil_div(
                    row.seq_len as int,
                    self.block_size as int,
                ),
                forall|k: int| 0 <= k < i ==> self.block_in_pool(#[trigger] row.block_ids@[k]),
            decreases row.block_ids@.len() - i,
        {
            let block_id: i32 = row.block_ids[i];
            if block_id < 0 {
                assert(!self.block_in_pool(row.block_ids@[i as int]));
                return Err(
                    Glm52DecodeMetaError::NegativeBlock { row: row_idx, index: i, block_id },
                );
            }
            if block_id as usize >= self.pool_blocks {
                assert(!self.block_in_pool(row.block_ids@[i as int]));
                return Err(
                    Glm52DecodeMetaError::BlockBeyondPool {
                        row: row_idx,
                        block_id,
                        pool_blocks: self.pool_blocks,
                    },
                );
            }
            i = i + 1;
        }
        Ok(())
    }

    /// The flat cache slot that a row writes.
    pub open spec fn write_slot(&self, seq_len: int, block_ids: Seq<i32>) -> int {
        block_ids[(seq_len - 1) / self.block_size as int] * self.block_size + (seq_len - 1)
            % self.block_size as int
    }

    /// The flat cache slot of a row's newest token, which must be an `i64`.
    pub fn slot_mapping(self, seq_len: usize, block_ids: &[i32]) -> (r: i64)
        requires
            self.wf(),
            self.row_valid(Glm52DecodePageRow { seq_len, block_ids }),
            self.write_slot(seq_len as int, block_ids@) <= i64::MAX,
        ensures
            r == self.write_slot(seq_len as int, block_ids@),
            0 <= r < self.pool_blocks * self.block_size,
            r as int / self.block_size as int == block_ids@.last(),
            r as int % self.block_size as int == (seq_len - 1) % self.block_size as int,
    {
        let position: usize = seq_len - 1;
        proof {
            crate::arith::ceil_div_splits(seq_len as int, self.block_size as int);
            lemma_newest_token_is_in_the_last_block(seq_len as int, self.block_size as int);
            active_row_writes_its_last_block(self, Glm52DecodePageRow { seq_len, block_ids });
            a_slot_keeps_the_offset(self, Glm52DecodePageRow { seq_len, block_ids });
        }
        let block: i32 = block_ids[position / self.block_size];
        assert(self.block_in_pool(block));
        let offset: usize = position % self.block_size;
        assert(block * self.block_size + offset < self.pool_blocks * self.block_size)
            by (nonlinear_arith)
            requires
                0 <= block < self.pool_blocks,
                offset < self.block_size,
        ;
        self.block_start(block) + offset as i64
    }

    /// The first flat cache slot of a block.
    fn block_start(self, block: i32) -> (r: i64)
        requires
            0 <= block,
            block * self.block_size <= i64::MAX,
        ensures
            r == block * self.block_size,
            0 <= r,
    {
        if block == 0 {
            return 0;
        }
        assert(self.block_size <= block * self.block_size) by (nonlinear_arith)
            requires
                block >= 1,
        ;
        block as i64 * self.block_size as i64
    }
}

proof fn lemma_newest_token_is_in_the_last_block(seq_len: int, block_size: int)
    requires
        seq_len > 0,
        block_size > 0,
    ensures
        (seq_len - 1) / block_size == crate::arith::ceil_div(seq_len, block_size) - 1,
        0 <= (seq_len - 1) % block_size < block_size,
{
    let c = crate::arith::ceil_div(seq_len, block_size);
    assert(c == (seq_len - 1 + block_size) / block_size);
    vstd::arithmetic::div_mod::lemma_div_plus_one(seq_len - 1, block_size);
    vstd::arithmetic::div_mod::lemma_mod_bound(seq_len - 1, block_size);
}

/// A number as a non-negative `i32`, if it is one.
pub fn usize_to_i32(value: usize) -> (r: Option<i32>)
    ensures
        r == (if value <= i32::MAX {
            Some(value as i32)
        } else {
            None
        }),
{
    if value <= 0x7fff_ffff {
        Some(value as i32)
    } else {
        None
    }
}

/// The staging of one metadata upload.
#[derive(Clone, Debug)]
pub struct Glm52DecodeBatchHostMetadata {
    pub active_rows: usize,
    pub max_seq_len: usize,
    pub total_active_blocks: usize,
    pub seq_lens_2d: Vec<i32>,
    pub block_table: Vec<i32>,
    pub slot_mapping: Vec<i64>,
    pub positions: Vec<i32>,
    pub decode_lens: Vec<i32>,
    pub active_rows_scalar: Vec<i32>,
    pub active_mask: Vec<i32>,
}

impl Glm52DecodeBatchHostMetadata {
    /// Whether the per-row vectors are those of the rows, with `n` of them
    /// filled in.
    pub open spec fn rows_filled(
        geometry: Glm52DecodeBatchGeometry,
        rows: Seq<Glm52DecodePageRow<'_>>,
        n: int,
        seq_lens: Seq<i32>,
        slots: Seq<i64>,
        positions: Seq<i32>,
        mask: Seq<i32>,
    ) -> bool {
        &&& seq_lens.len() == 128 && slots.len() == 128 && positions.len() == 128 && mask.len()
            == 128
        &&& forall|r: int|
            0 <= r < 128 ==> #[trigger] seq_lens[r] == (if r < n {
                rows[r].seq_len as int
            } else {
                1
            })
        &&& forall|r: int|
            0 <= r < 128 ==> #[trigger] slots[r] == (if r < n {
                geometry.write_slot(rows[r].seq_len as int, rows[r].block_ids@)
            } else {
                geometry.padding_block_id * geometry.block_size
            })
        &&& forall|r: int|
            0 <= r < 128 ==> #[trigger] positions[r] == (if r < n {
                rows[r].seq_len - 1
            } else {
                0
            })
        &&& forall|r: int|
            0 <= r < 128 ==> #[trigger] mask[r] == (if r < n {
                1int
            } else {
                0
            })
    }

    /// The block that a cell of the table names.
    pub open spec fn table_entry(
        geometry: Glm52DecodeBatchGeometry,
        rows: Seq<Glm52DecodePageRow<'_>>,
        row: int,
        column: int,
    ) -> i32 {
        if row < rows.len() && column < rows[row].block_ids@.len() {
            rows[row].block_ids@[column]
        } else {
            geometry.padding_block_id
        }
    }

    /// Whether the staging is that of the rows.
    pub open spec fn describes(
        &self,
        geometry: Glm52DecodeBatchGeometry,
        rows: Seq<Glm52DecodePageRow<'_>>,
    ) -> bool {
        &&& self.active_rows == rows.len()
        &&& self.max_seq_len == longest(rows, rows.len() as int)
        &&& self.total_active_blocks == blocks_held(rows, rows.len() as int)
        &&& Self::rows_filled(
            geometry,
            rows,
            rows.len() as int,
            self.seq_lens_2d@,
            self.slot_mapping@,
            self.positions@,
            self.active_mask@,
        )
        &&& self.block_table.len() == 128 * geometry.max_blocks_per_row
        &&& forall|r: int, c: int|
            0 <= r < 128 && 0 <= c < geometry.max_blocks_per_row ==> #[trigger] cell(
                self.block_table@,
                geometry.max_blocks_per_row as int,
                r,
                c,
            ) == Self::table_entry(geometry, rows, r, c)
        &&& self.decode_lens@ == Seq::new(128, |i: int| 1i32)
        &&& self.active_rows_scalar@ == seq![rows.len() as i32]
    }

    /// Whether a row passes every check of its own.
    pub open spec fn row_accepted(
        geometry: Glm52DecodeBatchGeometry,
        rows: Seq<Glm52DecodePageRow<'_>>,
        i: int,
    ) -> bool {
        geometry.row_valid(rows[i]) && rows[i].seq_len <= i32::MAX
    }

    /// Whether the padding slot and the slots of all accepted rows are `i64`
    /// numbers.
    pub open spec fn slots_fit(
        geometry: Glm52DecodeBatchGeometry,
        rows: Seq<Glm52DecodePageRow<'_>>,
    ) -> bool {
        &&& geometry.padding_block_id * geometry.block_size <= i64::MAX
        &&& forall|i: int|
            0 <= i < rows.len() && #[trigger] Self::row_accepted(geometry, rows, i)
                ==> geometry.write_slot(rows[i].seq_len as int, rows[i].block_ids@) <= i64::MAX
    }

    /// The row-major block table of the bucket.
    fn build_table(
        geometry: Glm52DecodeBatchGeometry,
        rows: &[Glm52DecodePageRow<'_>],
    ) -> (table: Vec<i32>)
        requires
            geometry.wf(),
            rows@.len() <= 128,
            128 * geometry.max_blocks_per_row <= usize::MAX,
        ensures
            table.len() == 128 * geometry.max_blocks_per_row,
            forall|r: int, c: int|
                0 <= r < 128 && 0 <= c < geometry.max_blocks_per_row ==> #[trigger] cell(
                    table@,
                    geometry.max_blocks_per_row as int,
                    r,
                    c,
                ) == Self::table_entry(geometry, rows@, r, c),
    {
        let width: usize = geometry.max_blocks_per_row;
        let mut table: Vec<i32> = Vec::new();
        let mut row: usize = 0;
        while row < 128
            invariant
                width == geometry.max_blocks_per_row,
                row <= 128,
                rows@.len() <= 128,
                table.len() == row * width,
                forall|r: int, c: int|
                    0 <= r < row && 0 <= c < width ==> #[trigger] cell(table@, width as int, r, c)
                        == Self::table_entry(geometry, rows@, r, c),
            decreases 128 - row,
        {
            let mut column: usize = 0;
            while column < width
                invariant
                    width == geometry.max_blocks_per_row,
                    row < 128,
                    rows@.len() <= 128,
                    column <= width,
                    table.len() == row * width + column,
                    forall|r: int, c: int|
                        0 <= r < row && 0 <= c < width ==> #[trigger] cell(
                            table@,
                            width as int,
                            r,
                            c,
                        ) == Self::table_entry(geometry, rows@, r, c),
                    forall|c: int|
                        0 <= c < column ==> #[trigger] cell(table@, width as int, row as int, c)
                            == Self::table_entry(geometry, rows@, row as int, c),
                decreases width - column,
            {
                let entry: i32 = if row < rows.len() && column < rows[row].block_ids.len() {
                    rows[row].block_ids[column]
                } else {
                    geometry.padding_block_id
                };
                let ghost before = table@;
                table.push(entry);
                assert forall|r: int, c: int| 0 <= r < row && 0 <= c < width implies #[trigger] cell(
                    table@,
                    width as int,
                    r,
                    c,
                ) == cell(before, width as int, r, c) by {
                    assert(0 <= r * width + c < row * width) by (nonlinear_arith)
                        requires
                            0 <= r < row,
                            0 <= c < width,
                    ;
                }
                assert forall|c: int| 0 <= c < column implies #[trigger] cell(
                    table@,
                    width as int,
                    row as int,
                    c,
                ) == cell(before, width as int, row as int, c) by {
                    assert(0 <= row * width) by (nonlinear_arith);
                }
                column = column + 1;
            }
            assert((row + 1) * width == row * width + width) by (nonlinear_arith);
            row = row + 1;
        }
        table
    }

    /// Builds the metadata of a batch: one page-table row per active row, and
    /// padding rows that read and write the padding block only.
    pub fn build(
        geometry: Glm52DecodeBatchGeometry,
        rows: &[Glm52DecodePageRow<'_>],
    ) -> (r: Result<Self, Glm52DecodeMetaError>)
        requires
            geometry.wf(),
            Self::slots_fit(geometry, rows@),
        ensures
            match r {
                Ok(host) => {
                    &&& rows@.len() <= 128
                    &&& 128 * geometry.max_blocks_per_row <= usize::MAX
                    &&& forall|i: int|
                        0 <= i < rows@.len() ==> #[trigger] Self::row_accepted(geometry, rows@, i)
                    &&& host.describes(geometry, rows@)
                },
                Err(e) => if rows@.len() > 128 {
                    e == (Glm52DecodeMetaError::ActiveRows {
                        rows: rows@.len() as usize,
                        batch_capacity: 128,
                    })
                } else if 128 * geometry.max_blocks_per_row > usize::MAX {
                    e == Glm52DecodeMetaError::TableOverflow
                } else {
                    exists|i: int|
                        {
                            &&& 0 <= i < rows@.len()
                            &&& !(#[trigger] Self::row_accepted(geometry, rows@, i))
                            &&& forall|k: int|
                                0 <= k < i ==> Self::row_accepted(geometry, rows@, k)
                            &&& if geometry.row_valid(rows@[i]) {
                                e == (Glm52DecodeMetaError::SeqLenExceedsI32 {
                                    value: rows@[i].seq_len,
                                })
                            } else {
                                geometry.row_refusal(i as usize, rows@[i], e)
                            }
                        }
                },
            },
            r matches Ok(host) ==> {
                &&& host.active_rows == rows@.len()
                &&& forall|k: int|
                    0 <= k < rows@.len() ==> (#[trigger] host.seq_lens_2d@[k]) as int
                        == rows@[k].seq_len as int && host.positions@[k] == rows@[k].seq_len - 1
                        && host.active_mask@[k] == 1 && host.decode_lens@[k] == 1
                &&& forall|k: int|
                    rows@.len() <= k < 128 ==> #[trigger] host.seq_lens_2d@[k] == 1
                        && host.positions@[k] == 0 && host.active_mask@[k] == 0
                        && host.decode_lens@[k] == 1 && host.slot_mapping@[k]
                        == geometry.padding_block_id * geometry.block_size
                &&& forall|k: int, c: int|
                    0 <= k < 128 && 0 <= c < geometry.max_blocks_per_row
                        ==> #[trigger] host.block_table@[k * geometry.max_blocks_per_row + c] == (
                    if k < rows@.len() && c < rows@[k].block_ids@.len() {
                        rows@[k].block_ids@[c]
                    } else {
                        geometry.padding_block_id
                    })
            },
    {
        if rows.len() > geometry.batch_capacity {
            return Err(
                Glm52DecodeMetaError::ActiveRows {
                    rows: rows.len(),
                    batch_capacity: geometry.batch_capacity,
                },
            );
        }
        match geometry.block_table_len() {
            Ok(_) => {},
            Err(e) => {
                return Err(e);
            },
        }
        let padding_slot: i64 = geometry.block_start(geometry.padding_block_id);
        let mut seq_lens_2d: Vec<i32> = vec![1i32; 128];
        let mut slot_mapping: Vec<i64> = vec![padding_slot; 128];
        let mut positions: Vec<i32> = vec![0i32; 128];
        let decode_lens: Vec<i32> = vec![1i32; 128];
        let mut active_mask: Vec<i32> = vec![0i32; 128];
        let mut max_seq_len: usize = 1;
        let mut total_active_blocks: usize = 0;
        let mut row_idx: usize = 0;
        while row_idx < rows.len()
            invariant
                geometry.wf(),
                Self::slots_fit(geometry, rows@),
                128 * geometry.max_blocks_per_row <= usize::MAX,
                row_idx <= rows@.len() <= 128,
                forall|i: int|
                    0 <= i < row_idx ==> #[trigger] Self::row_accepted(geometry, rows@, i),
                Self::rows_filled(
                    geometry,
                    rows@,
                    row_idx as int,
                    seq_lens_2d@,
                    slot_mapping@,
                    positions@,
                    active_mask@,
                ),
                max_seq_len == longest(rows@, row_idx as int),
                total_active_blocks == blocks_held(rows@, row_idx as int),
                total_active_blocks <= row_idx * geometry.max_blocks_per_row,
            decreases rows@.len() - row_idx,
        {
            let row: Glm52DecodePageRow<'_> = rows[row_idx];
            match geometry.validate_row(row_idx, row) {
                Ok(()) => {},
                Err(e) => {
                    assert(!Self::row_accepted(geometry, rows@, row_idx as int));
                    return Err(e);
                },
            }
            let seq_len: i32 = match usize_to_i32(row.seq_len) {
                Some(v) => v,
                None => {
                    assert(!Self::row_accepted(geometry, rows@, row_idx as int));
                    return Err(Glm52DecodeMetaError::SeqLenExceedsI32 { value: row.seq_len });
                },
            };
            assert(Self::row_accepted(geometry, rows@, row_idx as int));
            let position: i32 = match usize_to_i32(row.seq_len - 1) {
                Some(v) => v,
                None => {
                    return Err(
                        Glm52DecodeMetaError::PositionExceedsI32 { value: row.seq_len - 1 },
                    );
                },
            };
            proof {
                crate::arith::ceil_div_monotone(
                    row.seq_len as int,
                    geometry.max_model_len as int,
                    geometry.block_size as int,
                );
                assert((row_idx + 1) * geometry.max_blocks_per_row == row_idx
                    * geometry.max_blocks_per_row + geometry.max_blocks_per_row)
                    by (nonlinear_arith);
                assert((row_idx + 1) * geometry.max_blocks_per_row <= 128
                    * geometry.max_blocks_per_row) by (nonlinear_arith)
                    requires
                        row_idx + 1 <= 128,
                ;
            }
            let slot: i64 = geometry.slot_mapping(row.seq_len, row.block_ids);
            seq_lens_2d[row_idx] = seq_len;
            slot_mapping[row_idx] = slot;
            positions[row_idx] = position;
            active_mask[row_idx] = 1;
            if row.seq_len > max_seq_len {
                max_seq_len = row.seq_len;
            }
            total_active_blocks = total_active_blocks + row.block_ids.len();
            row_idx = row_idx + 1;
        }
        let active_rows: i32 = match usize_to_i32(rows.len()) {
            Some(v) => v,
            None => {
                return Err(Glm52DecodeMetaError::ActiveRowsExceedI32 { value: rows.len() });
            },
        };
        assert(decode_lens@ =~= Seq::new(128, |i: int| 1i32));
        let host = Glm52DecodeBatchHostMetadata {
            active_rows: rows.len(),
            max_seq_len,
            total_active_blocks,
            seq_lens_2d,
            block_table: Self::build_table(geometry, rows),
            slot_mapping,
            positions,
            decode_lens,
            active_rows_scalar: vec![active_rows],
            active_mask,
        };
        assert(host.active_rows_scalar@ =~= seq![rows@.len() as i32]);
        assert forall|k: int, c: int|
            0 <= k < 128 && 0 <= c
                < geometry.max_blocks_per_row implies #[trigger] host.block_table@[k
            * geometry.max_blocks_per_row + c] == (if k < rows@.len() && c
            < rows@[k].block_ids@.len() {
            rows@[k].block_ids@[c]
        } else {
            geometry.padding_block_id
        }) by {
            assert(cell(host.block_table@, geometry.max_blocks_per_row as int, k, c)
                == Self::table_entry(geometry, rows@, k, c));
        }
        Ok(host)
    }
}

/// An active row writes into its last block, and within the pool.
pub proof fn active_row_writes_its_last_block(
    geometry: Glm52DecodeBatchGeometry,
    row: Glm52DecodePageRow<'_>,
)
    requires
        geometry.wf(),
        geometry.row_valid(row),
    ensures
        geometry.write_slot(row.seq_len as int, row.block_ids@) / geometry.block_size as int
            == row.block_ids@.last(),
        0 <= geometry.write_slot(row.seq_len as int, row.block_ids@) < geometry.pool_blocks
            * geometry.block_size,
{
    let size = geometry.block_size as int;
    let position = row.seq_len - 1;
    crate::arith::ceil_div_splits(row.seq_len as int, size);
    lemma_newest_token_is_in_the_last_block(row.seq_len as int, size);
    let block = row.block_ids@[position / size];
    assert(geometry.block_in_pool(block));
    vstd::arithmetic::div_mod::lemma_fundamental_div_mod_converse(
        block * size + position % size,
        size,
        block as int,
        position % size,
    );
    assert(block * size + position % size < geometry.pool_blocks * size) by (nonlinear_arith)
        requires
            0 <= block < geometry.pool_blocks,
            position % size < size,
    ;
    assert(0 <= block * size) by (nonlinear_arith)
        requires
            0 <= block,
            0 < size,
    ;
}

/// Block ids are `i32`, so the slots of any batch are `i64` numbers where the
/// blocks hold no more than about four billion tokens each.
pub proof fn slots_of_any_batch_fit(
    geometry: Glm52DecodeBatchGeometry,
    rows: Seq<Glm52DecodePageRow<'_>>,
)
    requires
        geometry.wf(),
        0x8000_0000 * geometry.block_size <= i64::MAX,
    ensures
        Glm52DecodeBatchHostMetadata::slots_fit(geometry, rows),
{
    let size = geometry.block_size as int;
    let padding = geometry.padding_block_id as int;
    assert(padding * size <= 0x8000_0000 * size) by (nonlinear_arith)
        requires
            padding <= 0x8000_0000,
            size >= 0,
    ;
    assert forall|i: int|
        0 <= i < rows.len() && #[trigger] Glm52DecodeBatchHostMetadata::row_accepted(
            geometry,
            rows,
            i,
        ) implies geometry.write_slot(rows[i].seq_len as int, rows[i].block_ids@) <= i64::MAX by {
        let position = rows[i].seq_len - 1;
        lemma_newest_token_is_in_the_last_block(rows[i].seq_len as int, size);
        let block = rows[i].block_ids@[position / size] as int;
        let offset = position % size;
        assert((block + 1) * size <= 0x8000_0000 * size) by (nonlinear_arith)
            requires
                block + 1 <= 0x8000_0000,
                size >= 0,
        ;
        assert((block + 1) * size == block * size + size) by (nonlinear_arith);
    }
}

/// A padding row writes into the padding block, so it never touches the block
/// of an active row that does not hold that block.
pub proof fn padding_row_writes_the_padding_block(
    geometry: Glm52DecodeBatchGeometry,
    rows: Seq<Glm52DecodePageRow<'_>>,
    host: Glm52DecodeBatchHostMetadata,
    r: int,
)
    requires
        geometry.wf(),
        host.describes(geometry, rows),
        rows.len() <= r < 128,
    ensures
        host.slot_mapping@[r] as int / geometry.block_size as int == geometry.padding_block_id,
        forall|c: int|
            0 <= c < geometry.max_blocks_per_row ==> #[trigger] cell(
                host.block_table@,
                geometry.max_blocks_per_row as int,
                r,
                c,
            ) == geometry.padding_block_id,
{
    vstd::arithmetic::div_mod::lemma_div_by_multiple(
        geometry.padding_block_id as int,
        geometry.block_size as int,
    );
    assert(host.slot_mapping@[r] == geometry.padding_block_id * geometry.block_size);
}

/// Within its block a row writes at the offset of its newest token, so that a
/// block fills from its first slot to its last.
pub proof fn a_slot_keeps_the_offset(
    geometry: Glm52DecodeBatchGeometry,
    row: Glm52DecodePageRow<'_>,
)
    requires
        geometry.wf(),
        geometry.row_valid(row),
    ensures
        geometry.write_slot(row.seq_len as int, row.block_ids@) % geometry.block_size as int == (
        row.seq_len - 1) % geometry.block_size as int,
{
    let size = geometry.block_size as int;
    let position = row.seq_len - 1;
    crate::arith::ceil_div_splits(row.seq_len as int, size);
    lemma_newest_token_is_in_the_last_block(row.seq_len as int, size);
    let block = row.block_ids@[position / size];
    vstd::arithmetic::div_mod::lemma_fundamental_div_mod_converse(
        block * size + position % size,
        size,
        block as int,
        position % size,
    );
}

/// A request that grows writes every token into a slot of its own: two
/// lengths of one block list, in which no block occurs twice, never write the
/// same slot.
pub proof fn every_token_has_its_own_slot(
    geometry: Glm52DecodeBatchGeometry,
    short: Glm52DecodePageRow<'_>,
    long: Glm52DecodePageRow<'_>,
)
    requires
        geometry.wf(),
        geometry.row_valid(short),
        geometry.row_valid(long),
        short.seq_len < long.seq_len,
        forall|i: int|
            0 <= i < short.block_ids@.len() ==> #[trigger] short.block_ids@[i]
                == long.block_ids@[i],
        forall|i: int, j: int|
            0 <= i < j < long.block_ids@.len() ==> #[trigger] long.block_ids@[i]
                != #[trigger] long.block_ids@[j],
    ensures
        geometry.write_slot(short.seq_len as int, short.block_ids@) != geometry.write_slot(
            long.seq_len as int,
            long.block_ids@,
        ),
{
    let size = geometry.block_size as int;
    active_row_writes_its_last_block(geometry, short);
    active_row_writes_its_last_block(geometry, long);
    a_slot_keeps_the_offset(geometry, short);
    a_slot_keeps_the_offset(geometry, long);
    lemma_newest_token_is_in_the_last_block(short.seq_len as int, size);
    lemma_newest_token_is_in_the_last_block(long.seq_len as int, size);
    crate::arith::ceil_div_splits(short.seq_len as int, size);
    crate::arith::ceil_div_splits(long.seq_len as int, size);
    crate::arith::ceil_div_monotone(short.seq_len as int, long.seq_len as int, size);
    let a = short.block_ids@.len() - 1;
    let b = long.block_ids@.len() - 1;
    assert(short.block_ids@.last() == long.block_ids@[a]);
    if a == b {
        vstd::arithmetic::div_mod::lemma_fundamental_div_mod(short.seq_len - 1, size);
        vstd::arithmetic::div_mod::lemma_fundamental_div_mod(long.seq_len - 1, size);
    } else {
        assert(long.block_ids@[a] != long.block_ids@[b]);
    }
}

/// The blocks of a row hold all its tokens, and none of them is without one;
/// the table is wide enough for the longest row and no wider.
pub proof fn blocks_cover_the_tokens(
    geometry: Glm52DecodeBatchGeometry,
    row: Glm52DecodePageRow<'_>,
)
    requires
        geometry.wf(),
        geometry.row_valid(row),
    ensures
        (row.block_ids@.len() - 1) * geometry.block_size < row.seq_len,
        row.seq_len <= row.block_ids@.len() * geometry.block_size,
        row.block_ids@.len() <= geometry.max_blocks_per_row,
        (geometry.max_blocks_per_row - 1) * geometry.block_size < geometry.max_model_len,
        geometry.max_model_len <= geometry.max_blocks_per_row * geometry.block_size,
{
    let size = geometry.block_size as int;
    crate::arith::round_up_is_least_multiple(row.seq_len as int, size);
    crate::arith::round_up_is_least_multiple(geometry.max_model_len as int, size);
    let blocks = row.block_ids@.len() as int;
    let width = geometry.max_blocks_per_row as int;
    assert((blocks - 1) * size == blocks * size - size) by (nonlinear_arith);
    assert((width - 1) * size == width * size - size) by (nonlinear_arith);
    crate::arith::ceil_div_monotone(
        row.seq_len as int,
        geometry.max_model_len as int,
        geometry.block_size as int,
    );
}

/// The metadata of an active row agrees with itself: the sequence is one
/// longer than the newest position, the slot that the row writes is where its
/// own row of the block table puts that position, and every older position is
/// found through the table in the row's own block.
pub proof fn the_metadata_of_a_row_agrees(
    geometry: Glm52DecodeBatchGeometry,
    rows: Seq<Glm52DecodePageRow<'_>>,
    host: Glm52DecodeBatchHostMetadata,
    r: int,
    older: int,
)
    requires
        geometry.wf(),
        host.describes(geometry, rows),
        0 <= r < rows.len() <= 128,
        Glm52DecodeBatchHostMetadata::row_accepted(geometry, rows, r),
        0 <= older < rows[r].seq_len,
    ensures
        ({
            let size = geometry.block_size as int;
            let width = geometry.max_blocks_per_row as int;
            let position = host.positions@[r] as int;
            &&& position == rows[r].seq_len - 1
            &&& host.seq_lens_2d@[r] == position + 1
            &&& host.slot_mapping@[r] == host.block_table@[r * width + position / size] * size
                + position % size
            &&& host.block_table@[r * width + older / size] == rows[r].block_ids@[older / size]
            &&& host.active_mask@[r] == 1
            &&& host.decode_lens@[r] == 1
            &&& host.max_seq_len >= rows[r].seq_len
            &&& host.active_rows == rows.len()
            &&& host.active_rows_scalar@ == seq![rows.len() as i32]
        }),
{
    let size = geometry.block_size as int;
    let width = geometry.max_blocks_per_row as int;
    let row = rows[r];
    let position = row.seq_len - 1;
    blocks_cover_the_tokens(geometry, row);
    lemma_newest_token_is_in_the_last_block(row.seq_len as int, size);
    active_row_writes_its_last_block(geometry, row);
    a_slot_keeps_the_offset(geometry, row);
    let slot = geometry.write_slot(row.seq_len as int, row.block_ids@);
    vstd::arithmetic::div_mod::lemma_fundamental_div_mod(slot, size);
    assert(slot == row.block_ids@.last() * size + position % size) by (nonlinear_arith)
        requires
            slot == size * (slot / size) + slot % size,
            slot / size == row.block_ids@.last(),
            slot % size == position % size,
    ;
    vstd::arithmetic::div_mod::lemma_div_is_ordered(older, position, size);
    vstd::arithmetic::div_mod::lemma_div_pos_is_pos(older, size);
    let at = cell(host.block_table@, width, r, position / size);
    assert(at == Glm52DecodeBatchHostMetadata::table_entry(geometry, rows, r, position / size));
    let before = cell(host.block_table@, width, r, older / size);
    assert(before == Glm52DecodeBatchHostMetadata::table_entry(geometry, rows, r, older / size));
    assert(host.slot_mapping@[r] == slot);
    lemma_longest_is_no_less(rows, rows.len() as int, r);
}

proof fn lemma_longest_is_no_less(rows: Seq<Glm52DecodePageRow<'_>>, n: int, r: int)
    requires
        0 <= r < n <= rows.len(),
    ensures
        longest(rows, n) >= rows[r].seq_len,
    decreases n,
{
    if r < n - 1 {
        lemma_longest_is_no_less(rows, n - 1, r);
    }
}

proof fn lemma_longest_is_a_row(rows: Seq<Glm52DecodePageRow<'_>>, n: int) -> (r: int)
    requires
        0 < n <= rows.len(),
        forall|i: int| 0 <= i < rows.len() ==> (#[trigger] rows[i]).seq_len > 0,
    ensures
        0 <= r < n,
        longest(rows, n) == rows[r].seq_len,
    decreases n,
{
    if n == 1 {
        assert(longest(rows, 0) == 1);
        0
    } else {
        let before = lemma_longest_is_a_row(rows, n - 1);
        if rows[n - 1].seq_len > longest(rows, n - 1) {
            n - 1
        } else {
            before
        }
    }
}

proof fn lemma_blocks_held_is_a_sum(rows: Seq<Glm52DecodePageRow<'_>>, n: int)
    requires
        0 <= n <= rows.len(),
    ensures
        blocks_held(rows, n) == Seq::new(
            n as nat,
            |i: int| rows[i].block_ids@.len() as int,
        ).fold_left(0int, |a: int, b: int| a + b),
    decreases n,
{
    let all = Seq::new(n as nat, |i: int| rows[i].block_ids@.len() as int);
    if n > 0 {
        lemma_blocks_held_is_a_sum(rows, n - 1);
        assert(all.drop_last() =~= Seq::new(
            (n - 1) as nat,
            |i: int| rows[i].block_ids@.len() as int,
        ));
        assert(all.last() == rows[n - 1].block_ids@.len());
    }
}

/// The totals of the metadata are those of the rows: the longest sequence is
/// one of a row, where there is one, and the blocks are counted once each.
pub proof fn the_totals_are_those_of_the_rows(
    geometry: Glm52DecodeBatchGeometry,
    rows: Seq<Glm52DecodePageRow<'_>>,
    host: Glm52DecodeBatchHostMetadata,
)
    requires
        host.describes(geometry, rows),
        forall|i: int| 0 <= i < rows.len() ==> (#[trigger] rows[i]).seq_len > 0,
    ensures
        rows.len() == 0 ==> host.max_seq_len == 1,
        rows.len() > 0 ==> exists|r: int|
            0 <= r < rows.len() && (#[trigger] rows[r]).seq_len == host.max_seq_len,
        forall|r: int|
            0 <= r < rows.len() ==> (#[trigger] rows[r]).seq_len <= host.max_seq_len,
        host.total_active_blocks == Seq::new(
            rows.len(),
            |i: int| rows[i].block_ids@.len() as int,
        ).fold_left(0int, |a: int, b: int| a + b),
{
    if rows.len() > 0 {
        let at = lemma_longest_is_a_row(rows, rows.len() as int);
        assert(rows[at].seq_len == host.max_seq_len);
    }
    assert forall|r: int| 0 <= r < rows.len() implies (#[trigger] rows[r]).seq_len
        <= host.max_seq_len by {
        lemma_longest_is_no_less(rows, rows.len() as int, r);
    }
    lemma_blocks_held_is_a_sum(rows, rows.len() as int);
}

} // verus!
