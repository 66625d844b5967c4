//! Difficulty adjustment: every `ADJUSTMENT_INTERVAL` blocks the difficulty
//! is scaled by expected time over actual time, by at most 4x either way,
//! and kept within `MIN_DIFFICULTY..=MAX_DIFFICULTY`.
use crate::primitives::types::{BlockHeight, Timestamp};
use vstd::prelude::*;

verus! {

/// Target time between blocks: 10 minutes, in milliseconds.
pub const TARGET_BLOCK_TIME_MS: u64 = 600_000;

/// Blocks per adjustment period.
pub const ADJUSTMENT_INTERVAL: u64 = 2_016;

/// Lowest difficulty (bits).
pub const MIN_DIFFICULTY: u32 = 16;

/// Highest difficulty (bits).
pub const MAX_DIFFICULTY: u32 = 64;

/// Expected duration of a period in milliseconds.
pub open spec fn expected_period_ms() -> int {
    ADJUSTMENT_INTERVAL * TARGET_BLOCK_TIME_MS
}

/// The measured duration of a period: end minus start, at least 1
/// (0 where the end is before the start).
pub open spec fn actual_period_ms(start: u64, end: u64) -> int {
    if end > start {
        end - start
    } else {
        1
    }
}

/// The scaled difficulty, truncated to 32 bits (an `as u32` cast).
pub open spec fn scaled_bits(current: u32, start: u64, end: u64) -> int {
    ((current * expected_period_ms()) / actual_period_ms(start, end)) % 0x1_0000_0000
}

/// The difficulty for the next period.
pub open spec fn compute_target_spec(current: u32, start: u64, end: u64) -> u32 {
    let raw = scaled_bits(current, start, end);
    let lo: int = current as int / 4;
    let hi: int = current * 4;
    let bounded: int = if raw < lo {
        lo
    } else if raw > hi {
        hi
    } else {
        raw
    };
    if bounded < MIN_DIFFICULTY {
        MIN_DIFFICULTY
    } else if bounded > MAX_DIFFICULTY {
        MAX_DIFFICULTY
    } else {
        bounded as u32
    }
}

/// The difficulty for the next period, from the current one and the times
/// of the period's first and last blocks. The upper bound `current_bits * 4`
/// must fit in 32 bits, so `current_bits` stays at most `u32::MAX / 4`.
pub fn compute_target(current_bits: u32, period_start_time: Timestamp, period_end_time: Timestamp) -> (r: u32)
    requires
        current_bits <= u32::MAX / 4,
    ensures
        r == compute_target_spec(current_bits, period_start_time.0, period_end_time.0),
        MIN_DIFFICULTY <= r <= MAX_DIFFICULTY,
{
    let expected_time_ms: u64 = ADJUSTMENT_INTERVAL * TARGET_BLOCK_TIME_MS;
    let diff = period_end_time.0.saturating_sub(period_start_time.0);
    let actual_time_ms: u64 = if diff > 1 {
        diff
    } else {
        1
    };
    assert((current_bits as u128) * (expected_time_ms as u128) <= 0xffff_ffff * 1_209_600_000)
        by (nonlinear_arith)
        requires
            current_bits <= 0xffff_ffff,
            expected_time_ms == 1_209_600_000,
    ;
    let product: u128 = (current_bits as u128) * (expected_time_ms as u128);
    let quotient: u128 = product / (actual_time_ms as u128);
    let new_bits: u32 = (quotient % 0x1_0000_0000) as u32;
    let lo = current_bits / 4;
    let hi = current_bits * 4;
    let bounded = if new_bits < lo {
        lo
    } else if new_bits > hi {
        hi
    } else {
        new_bits
    };
    if bounded < MIN_DIFFICULTY {
        MIN_DIFFICULTY
    } else if bounded > MAX_DIFFICULTY {
        MAX_DIFFICULTY
    } else {
        bounded
    }
}

/// Tracks the current adjustment period.
pub struct DifficultyAdjuster {
    period_start: Option<(BlockHeight, Timestamp)>,
    current_bits: u32,
}

impl View for DifficultyAdjuster {
    /// The start of the current period (if one was seen) and the current
    /// difficulty.
    type V = (Option<(BlockHeight, Timestamp)>, u32);

    closed spec fn view(&self) -> Self::V {
        (self.period_start, self.current_bits)
    }
}

/// Whether a height ends an adjustment period.
pub open spec fn is_adjustment_height(h: u64) -> bool {
    h > 0 && h % ADJUSTMENT_INTERVAL == 0
}

impl DifficultyAdjuster {
    /// A new adjuster with the given initial difficulty and no period yet.
    pub fn new(initial_bits: u32) -> (r: Self)
        ensures
            r@ == (None::<(BlockHeight, Timestamp)>, initial_bits),
    {
        DifficultyAdjuster { period_start: None, current_bits: initial_bits }
    }

    /// Records a new block. The first block seen starts the period. At a
    /// height that ends a period the difficulty is recomputed from the
    /// period's start time and this block's time, the period restarts at
    /// this block, and the new difficulty is returned; otherwise `None`.
    pub fn on_new_block(&mut self, height: BlockHeight, timestamp: Timestamp) -> (r: Option<u32>)
        requires
            is_adjustment_height(height.0) ==> old(self)@.1 <= u32::MAX / 4,
        ensures
            ({
                let start = match old(self)@.0 {
                    Some(s) => s,
                    None => (height, timestamp),
                };
                if is_adjustment_height(height.0) {
                    let nb = compute_target_spec(old(self)@.1, start.1.0, timestamp.0);
                    &&& r == Some(nb)
                    &&& final(self)@ == (Some((height, timestamp)), nb)
                } else {
                    &&& r is None
                    &&& final(self)@ == (Some(start), old(self)@.1)
                }
            }),
    {
        if self.period_start.is_none() {
            self.period_start = Some((height, timestamp));
        }
        if height.0 > 0 && height.0 % ADJUSTMENT_INTERVAL == 0 {
            if let Some((_, start_time)) = self.period_start {
                let new_bits = compute_target(self.current_bits, start_time, timestamp);
                self.current_bits = new_bits;
                self.period_start = Some((height, timestamp));
                return Some(new_bits);
            }
        }
        None
    }

    /// The current difficulty.
    pub fn current_bits(&self) -> (r: u32)
        ensures
            r == self@.1,
    {
        self.current_bits
    }
}

/// Where the current difficulty lies between 4 and 259, a period changes
/// it by at most a factor of 4 either way. Outside that range the result is
/// still kept within `MIN_DIFFICULTY..=MAX_DIFFICULTY`, and that clamp can
/// move it by more than 4x: from 1 it rises to `MIN_DIFFICULTY`, and from
/// 260 up it falls to at most `MAX_DIFFICULTY`, below a quarter.
pub proof fn lemma_target_within_4x(current: u32, start: u64, end: u64)
    requires
        4 <= current <= 259,
    ensures
        current / 4 <= compute_target_spec(current, start, end) <= current * 4,
{
}

/// A period that took exactly the expected time leaves a difficulty within
/// the absolute bounds unchanged.
pub proof fn lemma_target_unchanged_on_schedule(current: u32, start: u64)
    requires
        MIN_DIFFICULTY <= current <= MAX_DIFFICULTY,
        start + expected_period_ms() <= u64::MAX,
    ensures
        compute_target_spec(current, start, (start + expected_period_ms()) as u64) == current,
{
    let e = expected_period_ms();
    assert((current * e) / e == current) by (nonlinear_arith)
        requires
            e > 0,
    ;
}

/// Faster blocks never lower a difficulty within the absolute bounds,
/// where the scaled value does not wrap past 32 bits.
pub proof fn lemma_faster_not_easier(current: u32, start: u64, end: u64)
    requires
        MIN_DIFFICULTY <= current <= MAX_DIFFICULTY,
        actual_period_ms(start, end) <= expected_period_ms(),
        (current * expected_period_ms()) / actual_period_ms(start, end) < 0x1_0000_0000,
    ensures
        compute_target_spec(current, start, end) >= current,
{
    let e = expected_period_ms();
    let a = actual_period_ms(start, end);
    assert((current * e) / a >= current) by (nonlinear_arith)
        requires
            0 < a <= e,
            current >= 0,
    {
        assert(current * e >= current * a);
        assert((current * a) / a == current);
    }
}

/// Slower blocks never raise a difficulty within the absolute bounds.
pub proof fn lemma_slower_not_harder(current: u32, start: u64, end: u64)
    requires
        MIN_DIFFICULTY <= current <= MAX_DIFFICULTY,
        actual_period_ms(start, end) >= expected_period_ms(),
    ensures
        compute_target_spec(current, start, end) <= current,
{
    let e = expected_period_ms();
    let a = actual_period_ms(start, end);
    assert((current * e) / a <= current) by (nonlinear_arith)
        requires
            0 < e <= a,
            0 <= current,
    {
        assert(current * e <= current * a);
        assert((current * a) / a == current);
    }
    assert(((current * e) / a) % 0x1_0000_0000 == (current * e) / a);
}

} // verus!
