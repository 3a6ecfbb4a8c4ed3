//! Arithmetic on measures that comes out as it does in single precision: every
//! result is rounded to the nearest number of twenty-four bits.

use crate::brackets::palette::Measure;
use crate::rounding;
use crate::rounding::{divide, Parts};
use vstd::prelude::*;

verus! {

/// The first whole number that needs more bits than a single-precision number has.
pub const SINGLE_LIMIT: u128 = 16_777_216;

/// How far apart single-precision numbers of a size are, in units of a measure.
pub open spec fn single_spacing(size: nat) -> nat {
    rounding::spacing(size, SINGLE_LIMIT as nat)
}

/// The single-precision number nearest to a quotient, as far as it is a whole number
/// of units.
pub open spec fn nearest_quotient(dividend: nat, divisor: nat) -> nat {
    rounding::nearest_quotient(dividend, divisor, SINGLE_LIMIT as nat)
}

/// The single-precision number nearest to a number of units.
pub open spec fn nearest_single(size: nat) -> nat {
    nearest_quotient(size, 1)
}

/// The single-precision number nearest to a number of units, of either sign.
pub open spec fn rounded(value: int) -> int {
    if value < 0 {
        -(nearest_single((-value) as nat) as int)
    } else {
        nearest_single(value as nat) as int
    }
}

/// The most that measures sum up to: what is added to more than that is too small
/// to change it.
pub const LARGEST_SUM: u128 = 0x1_0000_0000_0000_0000_0000_00;

/// The sum of some values, rounded after each is added.
pub open spec fn rounded_sum(values: Seq<Measure>) -> int
    decreases values.len(),
{
    if values.len() == 0 {
        0
    } else {
        rounded(rounded_sum(values.drop_last()) + values.last())
    }
}

/// The mean of some values: their rounded sum divided by their rounded number,
/// rounded again, as far as measures go; `i64::MAX` if there is none.
pub open spec fn rounded_mean(values: Seq<Measure>) -> int {
    if values.len() == 0 {
        i64::MAX as int
    } else {
        vstd::math::min(
            nearest_quotient(rounded_sum(values) as nat, nearest_single(values.len())) as int,
            i64::MAX as int,
        )
    }
}

/// Divides and rounds to single precision.
fn divide_rounded(dividend: u128, divisor: u128) -> (quotient: u128)
    requires
        divisor > 0,
        dividend <= 2 * LARGEST_SUM,
        divisor <= 2 * LARGEST_SUM,
    ensures
        quotient == nearest_quotient(dividend as nat, divisor as nat),
{
    let parts: Parts = divide(dividend, divisor, SINGLE_LIMIT);
    parts.multiple * parts.spaced
}

proof fn lemma_spacing_under_power(size: nat, power: nat)
    requires
        power >= 24,
        size < vstd::arithmetic::power2::pow2(power),
    ensures
        16_777_216 * single_spacing(size) <= vstd::arithmetic::power2::pow2(power),
    decreases size,
{
    vstd::arithmetic::power2::lemma2_to64();
    if size >= 16_777_216 {
        assert(power > 24) by {
            if power == 24 {
                assert(vstd::arithmetic::power2::pow2(24) == 16_777_216);
            }
        }
        vstd::arithmetic::power2::lemma_pow2_unfold(power);
        lemma_spacing_under_power(size / 2, (power - 1) as nat);
    } else if power > 24 {
        vstd::arithmetic::power2::lemma_pow2_strictly_increases(24, power);
    }
}

proof fn lemma_spacing_of_power(size: nat, power: nat)
    requires
        vstd::arithmetic::power2::pow2(power + 23) <= size < vstd::arithmetic::power2::pow2(
            power + 24,
        ),
    ensures
        single_spacing(size) == vstd::arithmetic::power2::pow2(power),
    decreases power,
{
    vstd::arithmetic::power2::lemma2_to64();
    if power > 0 {
        vstd::arithmetic::power2::lemma_pow2_unfold(power);
        vstd::arithmetic::power2::lemma_pow2_unfold(power + 23);
        vstd::arithmetic::power2::lemma_pow2_unfold(power + 24);
        if power > 1 {
            vstd::arithmetic::power2::lemma_pow2_strictly_increases(24, power + 23);
        }
        lemma_spacing_of_power(size / 2, (power - 1) as nat);
    }
}

/// Adding a measure to a rounded sum does not lead out of the range of rounded sums.
proof fn lemma_sum_stays_in_range(sum: nat)
    requires
        sum <= LARGEST_SUM + i64::MAX,
    ensures
        nearest_single(sum) <= LARGEST_SUM,
{
    assert(vstd::arithmetic::power2::pow2(88) == LARGEST_SUM && vstd::arithmetic::power2::pow2(89)
        == 2 * LARGEST_SUM && vstd::arithmetic::power2::pow2(65) == 0x2_0000_0000_0000_0000) by {
        vstd::arithmetic::power2::lemma2_to64();
        vstd::arithmetic::power2::lemma_pow2_adds(64, 24);
        vstd::arithmetic::power2::lemma_pow2_unfold(89);
        vstd::arithmetic::power2::lemma_pow2_unfold(65);
    }
    let spacing = single_spacing(sum);
    assert(1 * spacing == spacing);
    assert(sum / 1 == sum);
    if sum < LARGEST_SUM {
        lemma_spacing_under_power(sum, 88);
        rounding::lemma_spacing_covers(sum, SINGLE_LIMIT as nat);
        let below = sum / spacing;
        assert(below < 16_777_216) by (nonlinear_arith)
            requires
                below == sum / spacing,
                sum < 16_777_216 * spacing,
                spacing >= 1,
                sum >= 0,
        ;
        assert((below + 1) * spacing <= 16_777_216 * spacing && below * spacing <= 16_777_216
            * spacing) by (nonlinear_arith)
            requires
                0 <= below < 16_777_216,
                spacing >= 1,
        ;
    } else {
        lemma_spacing_of_power(sum, 65);
        assert(spacing == 0x2_0000_0000_0000_0000);
        assert(sum / 0x2_0000_0000_0000_0000 == 8_388_608);
        assert(sum % 0x2_0000_0000_0000_0000 < 0x8000_0000_0000_0000);
    }
}

/// The rounded sum of values that are not negative is not negative and in range.
proof fn lemma_rounded_sum_in_range(values: Seq<Measure>)
    requires
        forall|i: int| 0 <= i < values.len() ==> 0 <= #[trigger] values[i],
    ensures
        0 <= rounded_sum(values) <= LARGEST_SUM,
    decreases values.len(),
{
    if values.len() > 0 {
        let rest = values.drop_last();
        assert forall|i: int| 0 <= i < rest.len() implies 0 <= #[trigger] rest[i] by {
            assert(rest[i] == values[i]);
        }
        lemma_rounded_sum_in_range(rest);
        assert(values.last() == values[values.len() - 1]);
        lemma_sum_stays_in_range((rounded_sum(rest) + values.last()) as nat);
    }
}

/// The mean of some measures that are not negative, in single precision.
pub fn mean_of(values: &Vec<Measure>) -> (mean: Measure)
    requires
        forall|i: int| 0 <= i < values@.len() ==> 0 <= #[trigger] values@[i],
    ensures
        mean == rounded_mean(values@),
{
    if values.len() == 0 {
        return i64::MAX;
    }
    let mut sum: u128 = 0;
    let mut i: usize = 0;
    while i < values.len()
        invariant
            i <= values@.len(),
            forall|j: int| 0 <= j < values@.len() ==> 0 <= #[trigger] values@[j],
            sum == rounded_sum(values@.take(i as int)),
            sum <= LARGEST_SUM,
        decreases values@.len() - i,
    {
        proof {
            let next = values@.take(i as int + 1);
            assert(next.drop_last() =~= values@.take(i as int));
            assert(next.last() == values@[i as int]);
            lemma_rounded_sum_in_range(next);
        }
        sum = divide_rounded(sum + values[i] as u128, 1);
        i = i + 1;
    }
    assert(values@.take(i as int) =~= values@);
    let count: u128 = divide_rounded(values.len() as u128, 1);
    proof {
        lemma_count_is_positive(values@.len());
        lemma_sum_stays_in_range(values@.len());
    }
    let mean: u128 = divide_rounded(sum, count);
    if mean > 0x7fff_ffff_ffff_ffff {
        i64::MAX
    } else {
        mean as i64
    }
}

proof fn lemma_count_is_positive(count: nat)
    requires
        count > 0,
    ensures
        nearest_single(count) > 0,
{
    rounding::lemma_spacing_covers(count, SINGLE_LIMIT as nat);
    let spacing = single_spacing(count);
    assert(1 * spacing == spacing);
    assert(count / 1 == count);
    let below = count / spacing;
    assert(below >= 1) by (nonlinear_arith)
        requires
            below == count / spacing,
            1 <= spacing <= count,
    ;
    assert(below * spacing >= 1 && (below + 1) * spacing >= 1) by (nonlinear_arith)
        requires
            below >= 1,
            spacing >= 1,
    ;
}

/// A sum or difference of two measures, rounded to single precision.
pub fn round_to_single(value: i128) -> (result: i128)
    requires
        -0x2_0000_0000_0000_0000 <= value <= 0x2_0000_0000_0000_0000,
    ensures
        result == rounded(value as int),
        -LARGEST_SUM <= result <= LARGEST_SUM,
{
    proof {
        lemma_sum_stays_in_range((if value < 0 {
            -value
        } else {
            value as int
        }) as nat);
    }
    if value < 0 {
        -(divide_rounded((-value) as u128, 1) as i128)
    } else {
        divide_rounded(value as u128, 1) as i128
    }
}

} // verus!
