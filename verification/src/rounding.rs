//! Rounding to binary fractions of a fixed number of bits, halfway to the even
//! one, over whole numbers. Such fractions are told by the first number that needs
//! more bits than they have: a power of two.

use vstd::arithmetic::{div_mod, power2};
use vstd::prelude::*;

verus! {

/// How far apart the fractions of a size are.
pub open spec fn spacing(size: nat, limit: nat) -> nat
    decreases size,
{
    if size < limit || size == 0 {
        1
    } else {
        2 * spacing(size / 2, limit)
    }
}

/// The fraction nearest to a quotient, as far as it is a whole number; of two
/// equally near ones, the even one.
pub open spec fn nearest_quotient(dividend: nat, divisor: nat, limit: nat) -> nat {
    let spaced = spacing(dividend / divisor, limit);
    let step = divisor * spaced;
    let below = dividend / step;
    let twice = 2 * (dividend % step);
    if twice > step || (twice == step && below % 2 == 1) {
        (below + 1) * spaced
    } else {
        below * spaced
    }
}

/// The fraction nearest to a whole number.
pub open spec fn nearest(size: nat, limit: nat) -> nat {
    nearest_quotient(size, 1, limit)
}

/// A limit that fractions can have.
pub open spec fn is_limit(limit: nat) -> bool {
    limit >= 2 && limit % 2 == 0
}

pub(crate) proof fn lemma_spacing_covers(size: nat, limit: nat)
    requires
        is_limit(limit),
    ensures
        spacing(size, limit) >= 1,
        size < limit * spacing(size, limit),
        spacing(size, limit) > 1 ==> (limit / 2) * spacing(size, limit) <= size,
        spacing(size, limit) > 1 ==> spacing(size, limit) <= size,
    decreases size,
{
    if size < limit {
        assert(limit * 1 == limit);
    } else {
        let half = size / 2;
        let kept = spacing(half, limit);
        lemma_spacing_covers(half, limit);
        assert(size < limit * (2 * kept)) by (nonlinear_arith)
            requires
                half < limit * kept,
                size <= 2 * half + 1,
        ;
        assert((limit / 2) * (2 * kept) <= size) by (nonlinear_arith)
            requires
                kept == 1 || (limit / 2) * kept <= half,
                2 * half <= size,
                limit % 2 == 0,
                limit <= size,
                limit >= 2,
        ;
        assert(2 * kept <= size);
    }
}

/// What a quotient is rounded to, as a multiple of the spacing.
pub open spec fn nearest_multiple(dividend: nat, divisor: nat, limit: nat) -> nat {
    let step = divisor * spacing(dividend / divisor, limit);
    let below = dividend / step;
    let twice = 2 * (dividend % step);
    if twice > step || (twice == step && below % 2 == 1) {
        below + 1
    } else {
        below
    }
}

/// The parts of a rounded quotient are in range.
pub(crate) proof fn lemma_parts(dividend: nat, divisor: nat, limit: nat)
    requires
        divisor > 0,
        is_limit(limit),
    ensures
        ({
            let spaced = spacing(dividend / divisor, limit);
            let step = divisor * spaced;
            let below = dividend / step;
            &&& spaced >= 1
            &&& step >= 1
            &&& spaced <= dividend + 1
            &&& step <= dividend + divisor
            &&& below * spaced <= dividend
            &&& below < limit
            &&& spaced > 1 ==> below >= limit / 2
            &&& nearest_quotient(dividend, divisor, limit) == nearest_multiple(
                dividend,
                divisor,
                limit,
            ) * spaced
        }),
{
    let whole = dividend / divisor;
    let spaced = spacing(whole, limit);
    let step = divisor * spaced;
    lemma_spacing_covers(whole, limit);
    assert(divisor * whole <= dividend < divisor * (whole + 1) && whole <= dividend)
        by (nonlinear_arith)
        requires
            divisor > 0,
            dividend >= 0,
            whole == dividend / divisor,
    ;
    assert(step <= dividend + divisor) by (nonlinear_arith)
        requires
            step == divisor * spaced,
            spaced <= whole || spaced == 1,
            divisor * whole <= dividend,
            divisor > 0,
            dividend >= 0,
    ;
    assert(step >= 1) by (nonlinear_arith)
        requires
            step == divisor * spaced,
            divisor >= 1,
            spaced >= 1,
    ;
    let below = dividend / step;
    div_mod::lemma_fundamental_div_mod(dividend as int, step as int);
    div_mod::lemma_mod_bound(dividend as int, step as int);
    assert(below * step <= dividend < (below + 1) * step) by (nonlinear_arith)
        requires
            dividend == step * below + dividend % step,
            0 <= dividend % step < step,
    ;
    assert(below * spaced <= below * step) by (nonlinear_arith)
        requires
            step == divisor * spaced,
            divisor >= 1,
            spaced >= 1,
            below >= 0,
    ;
    assert(below < limit) by (nonlinear_arith)
        requires
            below * step <= dividend,
            dividend < divisor * (whole + 1),
            whole + 1 <= limit * spaced,
            step == divisor * spaced,
            divisor >= 1,
            spaced >= 1,
    ;
    if spaced > 1 {
        let half = limit / 2;
        assert(half < below + 1) by (nonlinear_arith)
            requires
                dividend < (below + 1) * step,
                half * spaced <= whole,
                divisor * whole <= dividend,
                step == divisor * spaced,
                divisor >= 1,
                spaced >= 1,
        ;
    }
}

/// A fraction as its bits and how many zeros follow them.
pub struct Parts {
    pub multiple: u128,
    pub exponent: u32,
    /// Two to the power of the exponent.
    pub spaced: u128,
}

/// The fraction nearest to a quotient.
pub(crate) fn divide(dividend: u128, divisor: u128, limit: u128) -> (parts: Parts)
    requires
        divisor > 0,
        is_limit(limit as nat),
        4 * dividend <= u128::MAX,
        4 * divisor <= u128::MAX,
    ensures
        parts.multiple * parts.spaced == nearest_quotient(
            dividend as nat,
            divisor as nat,
            limit as nat,
        ),
        parts.multiple * parts.spaced <= 2 * dividend + 1,
        parts.spaced == power2::pow2(parts.exponent as nat),
        parts.exponent <= 128,
        parts.multiple <= limit,
        parts.exponent > 0 ==> parts.multiple >= limit / 2,
        parts.exponent == 0 && divisor == 1 ==> parts.multiple == dividend,
{
    let whole: u128 = dividend / divisor;
    let mut spaced: u128 = 1;
    let mut exponent: u32 = 0;
    let mut rest: u128 = whole;
    proof {
        power2::lemma2_to64();
        assert(1 * spacing(whole as nat, limit as nat) == spacing(whole as nat, limit as nat));
    }
    while rest >= limit
        invariant
            is_limit(limit as nat),
            1 <= spaced,
            spaced == power2::pow2(exponent as nat),
            spaced * spacing(rest as nat, limit as nat) == spacing(whole as nat, limit as nat),
            rest * spaced <= whole,
            4 * whole <= u128::MAX,
            exponent <= 127,
        decreases rest,
    {
        let half: u128 = rest / 2;
        proof {
            let before = spaced as int;
            let kept = spacing(half as nat, limit as nat) as int;
            assert(spacing(rest as nat, limit as nat) == 2 * kept);
            assert(before * (2 * kept) == (2 * before) * kept) by (nonlinear_arith);
            assert(half * (2 * before) <= rest * before) by (nonlinear_arith)
                requires
                    2 * half <= rest,
                    before >= 0,
            ;
            assert(2 * before <= rest * before) by (nonlinear_arith)
                requires
                    2 <= rest,
                    before >= 0,
            ;
            power2::lemma_pow2_unfold((exponent + 1) as nat);
            lemma_exponent_is_small(exponent as nat);
        }
        rest = half;
        spaced = spaced * 2;
        exponent = exponent + 1;
    }
    assert(spaced * 1 == spaced);
    proof {
        lemma_parts(dividend as nat, divisor as nat, limit as nat);
        if exponent > 0 {
            power2::lemma_pow2_strictly_increases(0, exponent as nat);
        }
    }
    let step: u128 = divisor * spaced;
    let below: u128 = dividend / step;
    let twice: u128 = 2 * (dividend % step);
    let multiple: u128 = if twice > step || (twice == step && below % 2 == 1) {
        below + 1
    } else {
        below
    };
    proof {
        assert(multiple * spaced <= below * spaced + spaced) by (nonlinear_arith)
            requires
                multiple <= below + 1,
                spaced >= 1,
        ;
        if exponent == 0 && divisor == 1 {
            assert(step == 1);
            assert(dividend / 1 == dividend && dividend % 1 == 0);
        }
    }
    Parts { multiple, exponent, spaced }
}

proof fn lemma_exponent_is_small(exponent: nat)
    requires
        2 * power2::pow2(exponent) <= 0x4000_0000_0000_0000_0000_0000_0000_0000,
    ensures
        exponent < 127,
{
    if exponent >= 127 {
        power2::lemma2_to64();
        power2::lemma2_to64_rest();
        power2::lemma_pow2_adds(64, 62);
        assert(0x1_0000_0000_0000_0000 * 0x4000_0000_0000_0000
            == 0x4000_0000_0000_0000_0000_0000_0000_0000);
        power2::lemma_pow2_strictly_increases(126, exponent);
    }
}

/// A factor of both sides of a quotient makes no difference.
pub(crate) proof fn lemma_common_factor(dividend: nat, divisor: nat, factor: nat, limit: nat)
    requires
        divisor > 0,
        factor > 0,
        is_limit(limit),
    ensures
        nearest_quotient(dividend * factor, divisor * factor, limit) == nearest_quotient(
            dividend,
            divisor,
            limit,
        ),
{
    lemma_parts(dividend, divisor, limit);
    lemma_scaled_sides(dividend, divisor, factor, spacing(dividend / divisor, limit));
}

/// Both sides of a quotient times a factor, and what is left of the one over so many
/// of the other.
proof fn lemma_scaled_sides(dividend: nat, divisor: nat, factor: nat, spaced: nat)
    requires
        divisor > 0,
        factor > 0,
        spaced > 0,
    ensures
        ({
            let step = divisor * spaced;
            let scaled = (divisor * factor) * spaced;
            &&& (dividend * factor) / (divisor * factor) == dividend / divisor
            &&& (dividend * factor) / scaled == dividend / step
            &&& (dividend * factor) % scaled == factor * (dividend % step)
            &&& 2 * ((dividend * factor) % scaled) > scaled <==> 2 * (dividend % step) > step
            &&& 2 * ((dividend * factor) % scaled) == scaled <==> 2 * (dividend % step) == step
        }),
{
    let step = divisor * spaced;
    let scaled = (divisor * factor) * spaced;
    assert(scaled == factor * step) by (nonlinear_arith)
        requires
            step == divisor * spaced,
            scaled == (divisor * factor) * spaced,
    ;
    assert(step > 0) by (nonlinear_arith)
        requires
            step == divisor * spaced,
            divisor > 0,
            spaced > 0,
    ;
    assert(dividend * factor == factor * dividend && divisor * factor == factor * divisor)
        by (nonlinear_arith);
    div_mod::lemma_div_multiples_vanish_quotient(
        factor as int,
        dividend as int,
        divisor as int,
    );
    div_mod::lemma_div_multiples_vanish_quotient(
        factor as int,
        dividend as int,
        step as int,
    );
    div_mod::lemma_truncate_middle(dividend as int, factor as int, step as int);
    let rest = dividend % step;
    assert((2 * (factor * rest) > factor * step <==> 2 * rest > step) && (2 * (factor * rest)
        == factor * step <==> 2 * rest == step)) by (nonlinear_arith)
        requires
            factor > 0,
    ;
}

/// Twice a quotient is rounded to twice what the quotient is rounded to, where the
/// fractions near it are no finer than whole numbers.
proof fn lemma_doubling(dividend: nat, divisor: nat, limit: nat)
    requires
        divisor > 0,
        is_limit(limit),
        divisor == 1 || dividend / divisor >= limit / 2,
    ensures
        nearest_quotient(2 * dividend, divisor, limit) == 2 * nearest_quotient(
            dividend,
            divisor,
            limit,
        ),
{
    let whole = dividend / divisor;
    let doubled = (2 * dividend) / divisor;
    let spaced = spacing(whole, limit);
    lemma_parts(dividend, divisor, limit);
    if whole >= limit / 2 {
        div_mod::lemma_div_denominator(2 * dividend as int, divisor as int, 2);
        div_mod::lemma_div_multiples_vanish_quotient(
            2,
            dividend as int,
            divisor as int,
        );
        assert(divisor * 2 == 2 * divisor);
        assert(doubled / 2 == whole);
        assert(doubled >= limit);
        assert(spacing(doubled, limit) == 2 * spaced);
        let step = divisor * spaced;
        assert(divisor * (2 * spaced) == 2 * step) by (nonlinear_arith)
            requires
                step == divisor * spaced,
        ;
        div_mod::lemma_div_multiples_vanish_quotient(
            2,
            dividend as int,
            step as int,
        );
        div_mod::lemma_truncate_middle(dividend as int, 2, step as int);
        let below = dividend / step;
        assert((2 * dividend) / (divisor * spacing(doubled, limit)) == below);
        assert((2 * dividend) % (divisor * spacing(doubled, limit)) == 2 * (dividend % step));
        assert(below * (2 * spaced) == 2 * (below * spaced) && (below + 1) * (2 * spaced) == 2 * ((
        below + 1) * spaced)) by (nonlinear_arith);
    } else {
        assert(dividend / 1 == dividend);
        lemma_small_numbers_are_kept(dividend, limit);
        lemma_small_numbers_are_kept(2 * dividend, limit);
    }
}

/// A whole number that needs no more bits than there are is not rounded.
pub(crate) proof fn lemma_small_numbers_are_kept(size: nat, limit: nat)
    requires
        size < limit,
    ensures
        nearest(size, limit) == size,
{
    assert(size / 1 == size && size % 1 == 0);
    assert(spacing(size / 1, limit) == 1);
    let step = 1 * spacing(size / 1, limit);
    assert(step == 1);
    assert(size / step == size && size % step == 0);
    assert(size * spacing(size / 1, limit) == size);
}

/// A quotient times a power of two is rounded to that many times what the quotient is
/// rounded to, where the fractions near it are no finer than whole numbers.
pub(crate) proof fn lemma_scaling(dividend: nat, divisor: nat, exponent: nat, limit: nat)
    requires
        divisor > 0,
        is_limit(limit),
        divisor == 1 || dividend / divisor >= limit / 2,
    ensures
        nearest_quotient(dividend * power2::pow2(exponent), divisor, limit) == nearest_quotient(
            dividend,
            divisor,
            limit,
        ) * power2::pow2(exponent),
    decreases exponent,
{
    power2::lemma2_to64();
    let base = nearest_quotient(dividend, divisor, limit);
    if exponent > 0 {
        let less = (exponent - 1) as nat;
        let scaled = dividend * power2::pow2(less);
        lemma_scaling(dividend, divisor, less, limit);
        power2::lemma_pow2_unfold(exponent);
        power2::lemma_pow2_pos(less);
        assert(dividend * (2 * power2::pow2(less)) == 2 * scaled && base * (2 * power2::pow2(less))
            == 2 * (base * power2::pow2(less))) by (nonlinear_arith)
            requires
                scaled == dividend * power2::pow2(less),
        ;
        assert(dividend <= scaled) by (nonlinear_arith)
            requires
                scaled == dividend * power2::pow2(less),
                power2::pow2(less) >= 1,
        ;
        div_mod::lemma_div_is_ordered(
            dividend as int,
            scaled as int,
            divisor as int,
        );
        lemma_doubling(scaled, divisor, limit);
    } else {
        assert(dividend * 1 == dividend && base * 1 == base);
    }
}

proof fn lemma_spacing_of(bits: nat, rest: nat, exponent: nat, limit: nat)
    requires
        is_limit(limit),
        limit / 2 <= bits < limit,
        rest < power2::pow2(exponent),
    ensures
        spacing(bits * power2::pow2(exponent) + rest, limit) == power2::pow2(exponent),
    decreases exponent,
{
    power2::lemma2_to64();
    if exponent > 0 {
        let less = (exponent - 1) as nat;
        let size = bits * power2::pow2(exponent) + rest;
        let half = bits * power2::pow2(less);
        power2::lemma_pow2_unfold(exponent);
        power2::lemma_pow2_pos(less);
        assert(bits * (2 * power2::pow2(less)) == 2 * half && half >= bits) by (nonlinear_arith)
            requires
                half == bits * power2::pow2(less),
                power2::pow2(less) >= 1,
        ;
        assert(size / 2 == half + rest / 2);
        lemma_spacing_of(bits, rest / 2, less, limit);
    } else {
        assert(bits * 1 == bits);
    }
}

/// What is less than half the spacing of a fraction is lost when it is added.
pub(crate) proof fn lemma_absorbs(bits: nat, exponent: nat, rest: nat, limit: nat)
    requires
        is_limit(limit),
        limit / 2 <= bits <= limit,
        2 * rest < power2::pow2(exponent),
    ensures
        nearest(bits * power2::pow2(exponent) + rest, limit) == bits * power2::pow2(exponent),
{
    let size = bits * power2::pow2(exponent) + rest;
    let (kept, more) = if bits < limit {
        (bits, exponent)
    } else {
        (limit / 2, exponent + 1)
    };
    power2::lemma_pow2_unfold(exponent + 1);
    let power = power2::pow2(more);
    assert(kept * power == bits * power2::pow2(exponent)) by (nonlinear_arith)
        requires
            (kept == bits && power == power2::pow2(exponent)) || (2 * kept == bits && power == 2
                * power2::pow2(exponent)),
    ;
    lemma_spacing_of(kept, rest, more, limit);
    div_mod::lemma_fundamental_div_mod_converse(
        size as int,
        power as int,
        kept as int,
        rest as int,
    );
    assert(size / 1 == size);
    assert(1 * power == power);
}

proof fn lemma_spacing_is_ordered(size: nat, larger: nat, limit: nat)
    requires
        size <= larger,
        is_limit(limit),
    ensures
        spacing(size, limit) == spacing(larger, limit) || 2 * spacing(size, limit) <= spacing(
            larger,
            limit,
        ),
    decreases larger,
{
    if larger >= limit {
        if size >= limit {
            lemma_spacing_is_ordered(size / 2, larger / 2, limit);
        } else {
            lemma_spacing_covers(larger / 2, limit);
        }
    }
}

/// A larger quotient is not rounded to less.
pub(crate) proof fn lemma_rounding_is_ordered(dividend: nat, larger: nat, divisor: nat, limit: nat)
    requires
        divisor > 0,
        dividend <= larger,
        is_limit(limit),
    ensures
        nearest_quotient(dividend, divisor, limit) <= nearest_quotient(larger, divisor, limit),
{
    let near = spacing(dividend / divisor, limit);
    let far = spacing(larger / divisor, limit);
    let first = nearest_multiple(dividend, divisor, limit);
    let second = nearest_multiple(larger, divisor, limit);
    lemma_parts(dividend, divisor, limit);
    lemma_parts(larger, divisor, limit);
    div_mod::lemma_div_is_ordered(
        dividend as int,
        larger as int,
        divisor as int,
    );
    lemma_spacing_is_ordered(dividend / divisor, larger / divisor, limit);
    if near == far {
        let step = divisor * near;
        div_mod::lemma_div_is_ordered(dividend as int, larger as int, step as int);
        if dividend / step == larger / step {
            div_mod::lemma_fundamental_div_mod(dividend as int, step as int);
            div_mod::lemma_fundamental_div_mod(larger as int, step as int);
            assert(dividend % step <= larger % step);
        }
        assert(first * near <= second * near) by (nonlinear_arith)
            requires
                first <= second,
                near >= 1,
        ;
    } else {
        assert(first * near <= second * far) by (nonlinear_arith)
            requires
                first <= limit,
                2 * near <= far,
                limit <= 2 * second,
        ;
    }
}

/// What a quotient is rounded to is off by no more than half the spacing there.
pub(crate) proof fn lemma_quotient_error(dividend: nat, divisor: nat, limit: nat)
    requires
        divisor > 0,
        is_limit(limit),
    ensures
        ({
            let spaced = spacing(dividend / divisor, limit);
            let off = 2 * (nearest_quotient(dividend, divisor, limit) * divisor - dividend);
            -(divisor * spaced) <= off <= divisor * spaced
        }),
{
    let spaced = spacing(dividend / divisor, limit);
    let step = divisor * spaced;
    lemma_parts(dividend, divisor, limit);
    div_mod::lemma_fundamental_div_mod(dividend as int, step as int);
    let below = dividend / step;
    assert((below * spaced) * divisor == step * below && ((below + 1) * spaced) * divisor == step
        * below + step) by (nonlinear_arith)
        requires
            step == divisor * spaced,
    ;
}

/// Two to a power.
pub(crate) fn power_of_two(exponent: u32) -> (power: u128)
    requires
        exponent <= 120,
    ensures
        power == power2::pow2(exponent as nat),
{
    let mut power: u128 = 1;
    let mut done: u32 = 0;
    proof {
        power2::lemma2_to64();
    }
    while done < exponent
        invariant
            done <= exponent <= 120,
            power == power2::pow2(done as nat),
        decreases exponent - done,
    {
        proof {
            power2::lemma_pow2_unfold((done + 1) as nat);
            lemma_small_power(done as nat);
        }
        power = power * 2;
        done = done + 1;
    }
    power
}

pub(crate) proof fn lemma_small_power(exponent: nat)
    requires
        exponent <= 120,
    ensures
        1 <= power2::pow2(exponent) <= 0x100_0000_0000_0000_0000_0000_0000_0000,
{
    power2::lemma2_to64();
    power2::lemma2_to64_rest();
    power2::lemma_pow2_adds(64, 56);
    power2::lemma_pow2_pos(exponent);
    if exponent < 120 {
        power2::lemma_pow2_strictly_increases(exponent, 120);
    }
}

} // verus!
