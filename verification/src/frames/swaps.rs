//! How many swaps may be in flight, and what comes of them.

use crate::rounding;
use crate::rounding::{divide, power_of_two, Parts};
use crate::time;
use crate::time::{Duration, Instant};
use vstd::arithmetic::{div_mod, power2};
use vstd::prelude::*;

verus! {

/// The first whole number that needs more bits than a double-precision number has,
/// and how many of the units in which fractions are held make a whole.
pub const DOUBLE_LIMIT: u128 = 9_007_199_254_740_992;

/// `0.8` in double precision, in units.
pub const FOUR_FIFTHS: u128 = 7_205_759_403_792_794;

/// The double-precision number nearest to a number.
pub open spec fn nearest_double(size: nat) -> nat {
    rounding::nearest(size, DOUBLE_LIMIT as nat)
}

/// The number of frames that lie between now and a presentation, a frame that
/// is more than a fifth begun counting whole: `(present_delta + 0.8 interval) /
/// interval`, computed in double precision and rounded down.
pub open spec fn frames_ahead(present_delta: nat, interval: nat) -> nat {
    let step = nearest_double(interval);
    let share = nearest_double(FOUR_FIFTHS as nat * step);
    let sum = nearest_double(nearest_double(present_delta) * DOUBLE_LIMIT as nat + share);
    rounding::nearest_quotient(sum, step, DOUBLE_LIMIT as nat) / (DOUBLE_LIMIT as nat)
}

/// Adds two double-precision numbers, each given by its bits and how many zeros
/// follow them, the one with more zeros first.
fn add_doubles(high: u128, high_exponent: u32, low: u128, low_exponent: u32) -> (sum: (u128, u32))
    requires
        low_exponent <= high_exponent <= 1000,
        high <= DOUBLE_LIMIT,
        low <= DOUBLE_LIMIT,
        2 * high >= DOUBLE_LIMIT || 2 * low >= DOUBLE_LIMIT,
        high_exponent - low_exponent > 64 ==> 2 * high >= DOUBLE_LIMIT,
    ensures
        sum.0 * power2::pow2(sum.1 as nat) == nearest_double(
            high as nat * power2::pow2(high_exponent as nat) + low as nat * power2::pow2(low_exponent as nat),
        ),
        DOUBLE_LIMIT <= 2 * sum.0 <= 2 * DOUBLE_LIMIT,
        sum.1 <= 2000,
{
    let apart: u32 = high_exponent - low_exponent;
    let ghost limit = DOUBLE_LIMIT as nat;
    let ghost aligned = high as nat * power2::pow2(apart as nat) + low as nat;
    proof {
        let (far, near) = (power2::pow2(apart as nat), power2::pow2(low_exponent as nat));
        power2::lemma2_to64();
        power2::lemma_pow2_adds(apart as nat, low_exponent as nat);
        assert(high as nat * (far * near) + low as nat * near == aligned * near)
            by (nonlinear_arith)
            requires
                aligned == high as nat * far + low as nat,
        ;
        rounding::lemma_scaling(aligned, 1, low_exponent as nat, limit);
    }
    if apart > 64 {
        proof {
            let (far, near) = (power2::pow2(apart as nat), power2::pow2(low_exponent as nat));
            power2::lemma_pow2_strictly_increases(64, apart as nat);
            rounding::lemma_absorbs(high as nat, apart as nat, low as nat, limit);
            assert((high as nat * far) * near == high as nat * (far * near)) by (nonlinear_arith);
        }
        return (high, high_exponent);
    }
    let power: u128 = power_of_two(apart);
    proof {
        if apart < 64 {
            power2::lemma_pow2_strictly_increases(apart as nat, 64);
        }
        power2::lemma_pow2_pos(apart as nat);
        assert(high <= high * power <= DOUBLE_LIMIT * 0x1_0000_0000_0000_0000) by (nonlinear_arith)
            requires
                0 <= high <= DOUBLE_LIMIT,
                1 <= power <= 0x1_0000_0000_0000_0000,
        ;
    }
    let parts: Parts = divide(high * power + low, 1, DOUBLE_LIMIT);
    proof {
        let near = power2::pow2(low_exponent as nat);
        power2::lemma_pow2_adds(parts.exponent as nat, low_exponent as nat);
        assert((parts.multiple as nat * parts.spaced as nat) * near == parts.multiple as nat * (
        parts.spaced as nat * near)) by (nonlinear_arith);
    }
    (parts.multiple, parts.exponent + low_exponent)
}

/// Divides two double-precision numbers, each given by its bits and how many zeros
/// follow them, and rounds down to a whole number, of thirty-two bits at most.
fn divide_doubles(high: u128, high_exponent: u32, low: u128, low_exponent: u32) -> (whole: u32)
    requires
        DOUBLE_LIMIT <= 2 * high <= 2 * DOUBLE_LIMIT,
        1 <= low <= DOUBLE_LIMIT,
        low_exponent > 0 ==> 2 * low >= DOUBLE_LIMIT,
    ensures
        whole == time::at_most(
            rounding::nearest_quotient(
                high as nat * power2::pow2(high_exponent as nat),
                low as nat * power2::pow2(low_exponent as nat),
                DOUBLE_LIMIT as nat,
            ) / (DOUBLE_LIMIT as nat),
            u32::MAX as nat,
        ),
{
    let ghost limit = DOUBLE_LIMIT as nat;
    proof {
        power2::lemma2_to64();
        power2::lemma2_to64_rest();
        power2::lemma_pow2_pos(high_exponent as nat);
        power2::lemma_pow2_pos(low_exponent as nat);
    }
    if high_exponent < low_exponent {
        proof {
            let apart = (low_exponent - high_exponent) as nat;
            let divisor = low as nat * power2::pow2(apart);
            let near = power2::pow2(high_exponent as nat);
            power2::lemma_pow2_adds(apart, high_exponent as nat);
            power2::lemma_pow2_unfold(apart);
            power2::lemma_pow2_pos((apart - 1) as nat);
            assert(low as nat * (power2::pow2(apart) * near) == divisor * near) by (nonlinear_arith)
                requires
                    divisor == low as nat * power2::pow2(apart),
            ;
            assert(divisor >= limit) by (nonlinear_arith)
                requires
                    divisor == low as nat * power2::pow2(apart),
                    power2::pow2(apart) >= 2,
                    2 * low >= limit,
            ;
            rounding::lemma_common_factor(high as nat, divisor, near, limit);
            rounding::lemma_rounding_is_ordered(high as nat, divisor, divisor, limit);
            assert(1 * divisor == divisor);
            rounding::lemma_common_factor(1, 1, divisor, limit);
            rounding::lemma_small_numbers_are_kept(1, limit);
        }
        return 0;
    }
    let apart: u32 = high_exponent - low_exponent;
    proof {
        let near = power2::pow2(low_exponent as nat);
        power2::lemma_pow2_adds(apart as nat, low_exponent as nat);
        assert(high as nat * (power2::pow2(apart as nat) * near) == (high as nat * power2::pow2(apart as nat))
            * near) by (nonlinear_arith);
        rounding::lemma_common_factor(high as nat * power2::pow2(apart as nat), low as nat, near, limit);
    }
    let used: u32 = if apart > 64 {
        64
    } else {
        apart
    };
    let power: u128 = power_of_two(used);
    proof {
        if used < 64 {
            power2::lemma_pow2_strictly_increases(used as nat, 64);
        }
        power2::lemma_pow2_pos(used as nat);
        assert(high <= high * power <= DOUBLE_LIMIT * 0x1_0000_0000_0000_0000) by (nonlinear_arith)
            requires
                0 <= high <= DOUBLE_LIMIT,
                1 <= power <= 0x1_0000_0000_0000_0000,
        ;
    }
    let parts: Parts = divide(high * power, low, DOUBLE_LIMIT);
    let quotient: u128 = parts.multiple * parts.spaced;
    if apart <= 64 {
        let whole: u128 = quotient / DOUBLE_LIMIT;
        return if whole > u32::MAX as u128 {
            u32::MAX
        } else {
            whole as u32
        };
    }
    let left: u32 = apart - 64;
    proof {
        let scaled = high as nat * power2::pow2(64);
        let more = power2::pow2(left as nat);
        power2::lemma_pow2_adds(64, left as nat);
        assert(high as nat * (power2::pow2(64) * more) == scaled * more) by (nonlinear_arith)
            requires
                scaled == high as nat * power2::pow2(64),
        ;
        assert(scaled / low as nat >= 0x8000_0000_0000_0000) by (nonlinear_arith)
            requires
                scaled == high as nat * 0x1_0000_0000_0000_0000,
                2 * high >= 9_007_199_254_740_992,
                1 <= low <= 9_007_199_254_740_992,
        ;
        rounding::lemma_scaling(scaled, low as nat, left as nat, limit);
        // The quotient is not rounded to less than a power of two that it reaches.
        let reached = 0x8000_0000_0000_0000nat;
        div_mod::lemma_fundamental_div_mod(scaled as int, low as int);
        assert(reached * low as nat <= scaled) by (nonlinear_arith)
            requires
                scaled == low as nat * (scaled / low as nat) + scaled % low as nat,
                scaled / low as nat >= reached,
        ;
        rounding::lemma_rounding_is_ordered(reached * low as nat, scaled, low as nat, limit);
        assert(1 * low as nat == low as nat);
        rounding::lemma_common_factor(reached, 1, low as nat, limit);
        assert(1 * power2::pow2(63) == reached);
        rounding::lemma_scaling(1, 1, 63, limit);
        rounding::lemma_small_numbers_are_kept(1, limit);
        assert(quotient >= reached);
    }
    if left >= 23 {
        proof {
            let more = power2::pow2(left as nat);
            if left > 23 {
                power2::lemma_pow2_strictly_increases(23, left as nat);
            }
            assert(quotient as nat * more >= 0x8000_0000_0000_0000 * 0x80_0000) by (nonlinear_arith)
                requires
                    quotient >= 0x8000_0000_0000_0000,
                    more >= 0x80_0000,
            ;
            div_mod::lemma_div_is_ordered(
                0x8000_0000_0000_0000int * 0x80_0000,
                quotient as int * more as int,
                limit as int,
            );
        }
        return u32::MAX;
    }
    let divisor: u128 = power_of_two(53 - left);
    proof {
        let more = power2::pow2(left as nat);
        power2::lemma_pow2_adds((53 - left) as nat, left as nat);
        power2::lemma_pow2_pos(left as nat);
        power2::lemma_pow2_pos((53 - left) as nat);
        assert(quotient as nat * more == more * quotient as nat && divisor as nat * more == more
            * divisor as nat) by (nonlinear_arith);
        div_mod::lemma_div_multiples_vanish_quotient(
            more as int,
            quotient as int,
            divisor as int,
        );
    }
    let whole: u128 = quotient / divisor;
    if whole > u32::MAX as u128 {
        u32::MAX
    } else {
        whole as u32
    }
}

/// How many swaps may be pending for a frame that is presented at
/// `present_delta`. Without an interval it is one.
pub fn max_pending_swaps_for_deadline(present_delta: Duration, interval: Duration) -> (swaps: u32)
    ensures
        swaps == if interval@ == 0 {
            1
        } else {
            time::at_most(frames_ahead(present_delta@, interval@), u32::MAX as nat)
        },
{
    proof {
        power2::lemma2_to64();
        power2::lemma2_to64_rest();
    }
    let span: u128 = interval.as_nanos();
    if span == 0 {
        return 1;
    }
    let total: Parts = divide(present_delta.as_nanos(), 1, DOUBLE_LIMIT);
    let step: Parts = divide(span, 1, DOUBLE_LIMIT);
    assert(FOUR_FIFTHS <= FOUR_FIFTHS * step.multiple <= FOUR_FIFTHS * DOUBLE_LIMIT)
        by (nonlinear_arith)
        requires
            1 <= step.multiple <= DOUBLE_LIMIT,
    ;
    let share: Parts = divide(FOUR_FIFTHS * step.multiple, 1, DOUBLE_LIMIT);
    let total_exponent: u32 = total.exponent + 53;
    let share_exponent: u32 = share.exponent + step.exponent;
    proof {
        let limit = DOUBLE_LIMIT as nat;
        let power = power2::pow2(step.exponent as nat);
        rounding::lemma_scaling(FOUR_FIFTHS as nat * step.multiple as nat, 1, step.exponent as nat, limit);
        assert((FOUR_FIFTHS as nat * step.multiple as nat) * power == FOUR_FIFTHS as nat * (
        step.multiple as nat * power)) by (nonlinear_arith);
        power2::lemma_pow2_adds(share.exponent as nat, step.exponent as nat);
        assert((share.multiple as nat * share.spaced as nat) * power == share.multiple as nat * (
        share.spaced as nat * power)) by (nonlinear_arith);
        power2::lemma_pow2_adds(total.exponent as nat, 53);
        assert((total.multiple as nat * total.spaced as nat) * limit == total.multiple as nat * (
        total.spaced as nat * limit)) by (nonlinear_arith);
    }
    let sum: (u128, u32) = if total_exponent >= share_exponent {
        add_doubles(total.multiple, total_exponent, share.multiple, share_exponent)
    } else {
        add_doubles(share.multiple, share_exponent, total.multiple, total_exponent)
    };
    divide_doubles(sum.0, sum.1, step.multiple, step.exponent)
}

/// A frame that is presented a whole number of intervals from now, in a span that
/// leaves three bits of a double-precision number free, allows that many swaps.
pub proof fn law_whole_intervals_allow_as_many_swaps(interval: nat, frames: nat)
    requires
        interval > 0,
        8 * (frames + 1) * interval < DOUBLE_LIMIT,
    ensures
        frames_ahead(frames * interval, interval) == frames,
{
    let limit = DOUBLE_LIMIT as nat;
    let total = frames * interval;
    let share = nearest_double(FOUR_FIFTHS as nat * interval);
    let sum = nearest_double(total * limit + share);
    assert((8 * frames + 7) * interval == 8 * total + 7 * interval && 8 * (frames + 1) * interval
        == 8 * total + 8 * interval) by (nonlinear_arith)
        requires
            total == frames * interval,
    ;
    assert(frames <= total) by (nonlinear_arith)
        requires
            total == frames * interval,
            interval >= 1,
    ;
    rounding::lemma_small_numbers_are_kept(total, limit);
    rounding::lemma_small_numbers_are_kept(interval, limit);
    rounding::lemma_small_numbers_are_kept(frames, limit);
    power2::lemma2_to64();
    power2::lemma2_to64_rest();
    let eighth = power2::pow2(50);
    // No less than the whole intervals.
    rounding::lemma_scaling(total, 1, 53, limit);
    rounding::lemma_rounding_is_ordered(total * limit, total * limit + share, 1, limit);
    assert(sum >= total * limit);
    assert(total * limit == (frames * limit) * interval) by (nonlinear_arith)
        requires
            total == frames * interval,
    ;
    rounding::lemma_rounding_is_ordered(total * limit, sum, interval, limit);
    assert(1 * interval == interval);
    rounding::lemma_common_factor(frames * limit, 1, interval, limit);
    rounding::lemma_scaling(frames, 1, 53, limit);
    // No more than seven eighths of an interval above them.
    rounding::lemma_small_numbers_are_kept(7 * interval, limit);
    rounding::lemma_scaling(7 * interval, 1, 50, limit);
    rounding::lemma_rounding_is_ordered(
        FOUR_FIFTHS as nat * interval,
        (7 * interval) * eighth,
        1,
        limit,
    );
    assert(share <= (7 * interval) * eighth);
    let above = (8 * frames + 7) * interval;
    rounding::lemma_small_numbers_are_kept(above, limit);
    rounding::lemma_scaling(above, 1, 50, limit);
    rounding::lemma_rounding_is_ordered(total * limit + share, above * eighth, 1, limit);
    assert(sum <= above * eighth);
    assert(above * eighth == ((8 * frames + 7) * eighth) * interval) by (nonlinear_arith)
        requires
            above == (8 * frames + 7) * interval,
    ;
    rounding::lemma_rounding_is_ordered(sum, above * eighth, interval, limit);
    rounding::lemma_common_factor((8 * frames + 7) * eighth, 1, interval, limit);
    rounding::lemma_small_numbers_are_kept(8 * frames + 7, limit);
    rounding::lemma_scaling(8 * frames + 7, 1, 50, limit);
}

/// A later presentation never allows fewer swaps.
pub proof fn law_later_frames_allow_no_fewer_swaps(
    present_delta: nat,
    later_delta: nat,
    interval: nat,
)
    requires
        interval > 0,
        present_delta <= later_delta,
    ensures
        frames_ahead(present_delta, interval) <= frames_ahead(later_delta, interval),
{
    let limit = DOUBLE_LIMIT as nat;
    let step = nearest_double(interval);
    let share = nearest_double(FOUR_FIFTHS as nat * step);
    let (first, second) = (nearest_double(present_delta), nearest_double(later_delta));
    rounding::lemma_rounding_is_ordered(present_delta, later_delta, 1, limit);
    rounding::lemma_rounding_is_ordered(1, interval, 1, limit);
    rounding::lemma_small_numbers_are_kept(1, limit);
    rounding::lemma_rounding_is_ordered(
        first * limit + share,
        second * limit + share,
        1,
        limit,
    );
    rounding::lemma_rounding_is_ordered(
        nearest_double(first * limit + share),
        nearest_double(second * limit + share),
        step,
        limit,
    );
}

/// Caps on pending swaps, with overrides for fast displays.
#[derive(Clone, Copy, Debug, PartialEq, Eq, Structural)]
pub struct RefreshRateSwapCaps {
    /// The cap where no override applies.
    pub max_pending_swaps: u32,
    /// The override from 120 Hz on.
    pub max_pending_swaps_120hz: Option<u32>,
    /// The override from 90 Hz on.
    pub max_pending_swaps_90hz: Option<u32>,
    /// The override from 72 Hz on.
    pub max_pending_swaps_72hz: Option<u32>,
}

impl Default for RefreshRateSwapCaps {
    fn default() -> (caps: Self)
        ensures
            caps == (RefreshRateSwapCaps {
                max_pending_swaps: 0,
                max_pending_swaps_120hz: None,
                max_pending_swaps_90hz: None,
                max_pending_swaps_72hz: None,
            }),
    {
        RefreshRateSwapCaps {
            max_pending_swaps: 0,
            max_pending_swaps_120hz: None,
            max_pending_swaps_90hz: None,
            max_pending_swaps_72hz: None,
        }
    }
}

/// The interval below which a display counts as a 72 Hz one: 14 ms.
pub const HZ_72_INTERVAL_NANOS: u128 = 14_000_000;

/// The interval below which a display counts as a 90 Hz one: 11.5 ms.
pub const HZ_90_INTERVAL_NANOS: u128 = 11_500_000;

/// The interval below which a display counts as a 120 Hz one: 8.5 ms.
pub const HZ_120_INTERVAL_NANOS: u128 = 8_500_000;

impl RefreshRateSwapCaps {
    /// The override for a refresh interval, if there is one.
    pub open spec fn tier(&self, interval: nat) -> Option<u32> {
        if interval < HZ_120_INTERVAL_NANOS {
            self.max_pending_swaps_120hz
        } else if interval < HZ_90_INTERVAL_NANOS {
            self.max_pending_swaps_90hz
        } else if interval < HZ_72_INTERVAL_NANOS {
            self.max_pending_swaps_72hz
        } else {
            None
        }
    }

    /// The cap for a refresh interval.
    pub open spec fn cap(&self, interval: nat) -> u32 {
        match self.tier(interval) {
            Some(cap) => cap,
            None => self.max_pending_swaps,
        }
    }
}

/// The cap on pending swaps for a refresh interval.
pub fn max_pending_swaps_for_refresh_rate(interval: Duration, caps: &RefreshRateSwapCaps) -> (cap: u32)
    ensures
        cap == caps.cap(interval@),
{
    let nanos: u128 = interval.as_nanos();
    let tier: Option<u32> = if nanos < HZ_120_INTERVAL_NANOS {
        caps.max_pending_swaps_120hz
    } else if nanos < HZ_90_INTERVAL_NANOS {
        caps.max_pending_swaps_90hz
    } else if nanos < HZ_72_INTERVAL_NANOS {
        caps.max_pending_swaps_72hz
    } else {
        None
    };
    match tier {
        Some(cap) => cap,
        None => caps.max_pending_swaps,
    }
}

/// What became of a swap.
#[derive(Clone, Copy, Debug, PartialEq, Eq, Structural)]
pub enum SwapCompletionResult {
    Ack,
    Skipped,
    Failed,
}

/// Tells the scheduler that a swap is over.
#[derive(Clone, Copy, Debug, PartialEq, Eq, Structural)]
pub struct SwapCompletionFeedback {
    pub ready_time: Instant,
    pub latch_time: Instant,
    pub result: SwapCompletionResult,
    pub presented: bool,
    /// The swap that is over, on platforms that number their swaps.
    pub swap_id: Option<u64>,
}

/// Tells the scheduler when a frame was shown.
#[derive(Clone, Copy, Debug, PartialEq, Eq, Structural)]
pub struct PresentationFeedback {
    pub ready_time: Instant,
    pub latch_time: Instant,
    pub display_time: Instant,
    pub target_latch_time: Option<Instant>,
    pub interval: Option<Duration>,
    pub presented: bool,
    pub vsync: bool,
    pub hardware_completion: bool,
    /// The swap that was shown, on platforms that number their swaps.
    pub swap_id: Option<u64>,
}

/// What a request to draw led to.
#[derive(Clone, Copy, Debug, PartialEq, Eq, Structural)]
pub enum PlatformDrawResult {
    /// The frame was handed over for presentation, under a swap id on platforms
    /// that number their swaps.
    Submitted(Option<u64>),
    /// There was no room for the frame; it is to be drawn later.
    Deferred,
    /// There was nothing to draw, or it could not be drawn.
    Skipped,
}

} // verus!
