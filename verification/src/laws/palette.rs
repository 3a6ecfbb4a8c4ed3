//! What scoring, separating and thresholds come to, told by the measurements alone.

use crate::brackets::auto_mode::{
    AccentMeasurement, BracketColorizationPaletteAnalysis, BracketColorizationPaletteStrategy,
    LightnessStep,
};
use crate::brackets::palette::{
    Appearance, AutoBracketColorizationConfig, CandidateRank, MeasuredPalette, Measure,
    PaletteScore,
};
use crate::brackets::{auto_mode, palette, single};
use crate::rounding;
use vstd::prelude::*;

verus! {

/// The least distance of a palette's score is no more than the distance from any
/// accent to the one after it, the last being followed by the first, and is one of
/// those distances. The least contrast is no more than the contrast of any accent and
/// is one of those. A palette without neighbours, or without accents, has unbounded
/// ones.
pub proof fn law_scores_hold_the_least(measured: &MeasuredPalette)
    requires
        measured.well_formed(),
    ensures
        ({
            let n = measured.accents@.len() as int;
            let score = measured.spec_score();
            &&& n < 2 ==> score.min_adjacent_distance == i64::MAX
            &&& n >= 2 ==> forall|i: int|
                0 <= i < n ==> score.min_adjacent_distance <= (
                #[trigger] measured.distances@[i])@[(i + 1) % n]
            &&& n >= 2 ==> exists|i: int|
                0 <= i < n && score.min_adjacent_distance == (#[trigger] measured.distances@[i])@[(
                i + 1) % n]
            &&& n == 0 ==> score.min_background_contrast == i64::MAX
            &&& forall|i: int|
                0 <= i < n ==> score.min_background_contrast <= #[trigger] measured.contrasts@[i]
            &&& n >= 1 ==> exists|i: int|
                0 <= i < n && score.min_background_contrast == #[trigger] measured.contrasts@[i]
        }),
{
    let n = measured.accents@.len() as int;
    let score = measured.spec_score();
    lemma_least(measured.contrasts@);
    if n >= 2 {
        let adjacent = measured.adjacent_distances();
        lemma_least(adjacent);
        assert forall|i: int| 0 <= i < n implies #[trigger] adjacent[i] == measured.distances@[i]@[(i
            + 1) % n] by {
            lemma_next(i, n);
        }
        assert forall|i: int| 0 <= i < n implies score.min_adjacent_distance <= (
        #[trigger] measured.distances@[i])@[(i + 1) % n] by {
            assert(adjacent[i] == measured.distances@[i]@[(i + 1) % n]);
        }
        let at = choose|i: int| 0 <= i < adjacent.len() && adjacent[i] == palette::least(adjacent);
        assert(adjacent[at] == measured.distances@[at]@[(at + 1) % n]);
    }
}

proof fn lemma_next(i: int, n: int)
    requires
        0 <= i < n,
    ensures
        (i + 1) % n == if i + 1 < n {
            i + 1
        } else {
            0
        },
{
    if i + 1 < n {
        vstd::arithmetic::div_mod::lemma_small_mod((i + 1) as nat, n as nat);
    } else {
        vstd::arithmetic::div_mod::lemma_mod_self_0(n);
    }
}

pub(crate) proof fn lemma_least(values: Seq<Measure>)
    ensures
        forall|i: int| 0 <= i < values.len() ==> palette::least(values) <= #[trigger] values[i],
        values.len() > 0 ==> exists|i: int|
            0 <= i < values.len() && #[trigger] values[i] == palette::least(values),
        values.len() == 0 ==> palette::least(values) == i64::MAX,
{
    palette::law_least_is_minimum(values);
    if values.len() > 0 {
        if values.contains(palette::least(values)) {
            let i = choose|i: int| 0 <= i < values.len() && values[i] == palette::least(values);
            assert(values[i] == palette::least(values));
        } else {
            assert(values[0] == palette::least(values));
        }
    }
}

/// The sum of some values.
pub open spec fn plain_sum(values: Seq<Measure>) -> int
    decreases values.len(),
{
    if values.len() == 0 {
        0
    } else {
        values[0] + plain_sum(values.drop_first())
    }
}

proof fn lemma_plain_sum_from_behind(values: Seq<Measure>)
    requires
        values.len() > 0,
    ensures
        plain_sum(values) == plain_sum(values.drop_last()) + values.last(),
    decreases values.len(),
{
    if values.len() == 1 {
        assert(values.drop_first() =~= Seq::empty());
        assert(values.drop_last() =~= Seq::empty());
    } else {
        lemma_plain_sum_from_behind(values.drop_first());
        assert(values.drop_first().drop_last() =~= values.drop_last().drop_first());
    }
}

proof fn lemma_plain_sum_is_exact(values: Seq<Measure>, parts: Seq<nat>, exponent: nat)
    requires
        parts.len() == values.len(),
        forall|i: int|
            0 <= i < values.len() ==> #[trigger] values[i] == parts[i]
                * vstd::arithmetic::power2::pow2(exponent),
        plain_sum(values) < single::SINGLE_LIMIT * vstd::arithmetic::power2::pow2(exponent),
    ensures
        single::rounded_sum(values) == plain_sum(values),
        0 <= plain_sum(values),
        exists|whole: nat|
            plain_sum(values) == #[trigger] (whole * vstd::arithmetic::power2::pow2(exponent)),
    decreases values.len(),
{
    let unit = vstd::arithmetic::power2::pow2(exponent);
    vstd::arithmetic::power2::lemma_pow2_pos(exponent);
    if values.len() == 0 {
        assert(0 * unit == 0);
        assert(plain_sum(values) == (0nat * unit));
    } else {
        let rest = values.drop_last();
        let last = parts.last();
        lemma_plain_sum_from_behind(values);
        assert(values[values.len() - 1] == parts[values.len() - 1] * unit);
        assert(values.last() >= 0) by (nonlinear_arith)
            requires
                values.last() == last * unit,
        ;
        assert forall|i: int| 0 <= i < rest.len() implies #[trigger] rest[i] == parts.drop_last()[i]
            * unit by {
            assert(rest[i] == values[i]);
        }
        lemma_plain_sum_is_exact(rest, parts.drop_last(), exponent);
        let whole = choose|whole: nat| plain_sum(rest) == #[trigger] (whole * unit);
        let all = whole + last;
        assert(plain_sum(values) == (all * unit)) by (nonlinear_arith)
            requires
                plain_sum(values) == plain_sum(rest) + values.last(),
                plain_sum(rest) == whole * unit,
                values.last() == last * unit,
                all == whole + last,
        ;
        assert(all < single::SINGLE_LIMIT) by (nonlinear_arith)
            requires
                all * unit < single::SINGLE_LIMIT * unit,
                unit > 0,
        ;
        rounding::lemma_scaling(all, 1, exponent, single::SINGLE_LIMIT as nat);
        rounding::lemma_small_numbers_are_kept(all, single::SINGLE_LIMIT as nat);
    }
}

/// Where single-precision numbers hold the sum of some values exactly, their mean
/// times their number is off that sum by no more than half the spacing of such
/// numbers for each value: no value is left out and none counts twice.
pub proof fn law_means_weigh_every_value(values: Seq<Measure>, parts: Seq<nat>, exponent: nat)
    requires
        0 < values.len() < single::SINGLE_LIMIT,
        parts.len() == values.len(),
        forall|i: int|
            0 <= i < values.len() ==> #[trigger] values[i] == parts[i]
                * vstd::arithmetic::power2::pow2(exponent),
        plain_sum(values) < single::SINGLE_LIMIT * vstd::arithmetic::power2::pow2(exponent),
        plain_sum(values) < i64::MAX,
    ensures
        ({
            let off = 2 * (single::rounded_mean(values) * values.len() - plain_sum(values));
            let most = values.len() * vstd::arithmetic::power2::pow2(exponent);
            -most <= off <= most
        }),
{
    let count = values.len();
    let limit = single::SINGLE_LIMIT as nat;
    let unit = vstd::arithmetic::power2::pow2(exponent);
    vstd::arithmetic::power2::lemma_pow2_pos(exponent);
    lemma_plain_sum_is_exact(values, parts, exponent);
    let sum = plain_sum(values) as nat;
    rounding::lemma_small_numbers_are_kept(count, limit);
    let whole = choose|whole: nat| plain_sum(values) == #[trigger] (whole * unit);
    let spaced = rounding::spacing(sum / count, limit);
    rounding::lemma_parts(sum, count, limit);
    rounding::lemma_quotient_error(sum, count, limit);
    assert(sum / count <= sum) by (nonlinear_arith)
        requires
            count >= 1,
            sum >= 0,
    ;
    lemma_spacing_bounded(sum / count, exponent);
    let nearest = rounding::nearest_quotient(sum, count, limit);
    assert(count * spaced <= count * unit) by (nonlinear_arith)
        requires
            spaced <= unit,
            count >= 0,
    ;
    if nearest > i64::MAX {
        assert(sum <= count * sum) by (nonlinear_arith)
            requires
                count >= 1,
                sum >= 0,
        ;
        rounding::lemma_rounding_is_ordered(sum, count * sum, count, limit);
        assert(1 * count == count && sum * count == count * sum) by (nonlinear_arith);
        rounding::lemma_common_factor(sum, 1, count, limit);
        rounding::lemma_scaling(whole, 1, exponent, limit);
        assert(whole < limit) by (nonlinear_arith)
            requires
                whole * unit < limit * unit,
                unit > 0,
        ;
        rounding::lemma_small_numbers_are_kept(whole, limit);
        assert(nearest <= sum);
    }
}

proof fn lemma_spacing_bounded(size: nat, exponent: nat)
    requires
        size < single::SINGLE_LIMIT * vstd::arithmetic::power2::pow2(exponent),
    ensures
        rounding::spacing(size, single::SINGLE_LIMIT as nat) <= vstd::arithmetic::power2::pow2(
            exponent,
        ),
    decreases exponent,
{
    vstd::arithmetic::power2::lemma_pow2_pos(exponent);
    if size >= single::SINGLE_LIMIT {
        vstd::arithmetic::power2::lemma2_to64();
        if exponent > 0 {
            vstd::arithmetic::power2::lemma_pow2_unfold(exponent);
            lemma_spacing_bounded(size / 2, (exponent - 1) as nat);
        }
    }
}

/// Of two scores, one that is no better in its least and in its mean distance is not
/// better, as long as the other's distances are single-precision numbers.
pub proof fn law_better_scores_gain(left: PaletteScore, right: PaletteScore)
    requires
        palette::spec_score_is_better(left, right),
        single::rounded(right.min_adjacent_distance as int) == right.min_adjacent_distance,
        single::rounded(right.average_adjacent_distance as int) == right.average_adjacent_distance,
        right.min_adjacent_distance >= 0,
        right.average_adjacent_distance >= 0,
    ensures
        left.min_adjacent_distance > right.min_adjacent_distance || (
        left.average_adjacent_distance > right.average_adjacent_distance
            && left.min_adjacent_distance - right.min_adjacent_distance
            >= -2 * palette::SCORE_TOLERANCE),
{
    let limit = single::SINGLE_LIMIT as nat;
    rounding::lemma_rounding_is_ordered(
        right.min_adjacent_distance as nat,
        (right.min_adjacent_distance + palette::SCORE_TOLERANCE) as nat,
        1,
        limit,
    );
    rounding::lemma_rounding_is_ordered(
        right.average_adjacent_distance as nat,
        (right.average_adjacent_distance + palette::SCORE_TOLERANCE) as nat,
        1,
        limit,
    );
    let lost = right.min_adjacent_distance - left.min_adjacent_distance;
    if lost > 2 * palette::SCORE_TOLERANCE {
        rounding::lemma_rounding_is_ordered(
            2 * palette::SCORE_TOLERANCE as nat,
            lost as nat,
            1,
            limit,
        );
        lemma_twice_the_tolerance();
    }
}

proof fn lemma_twice_the_tolerance()
    ensures
        single::nearest_single(2 * palette::SCORE_TOLERANCE as nat) > palette::SCORE_TOLERANCE,
        single::nearest_single(4 * palette::SCORE_TOLERANCE as nat) > palette::SCORE_TOLERANCE,
{
    let limit = single::SINGLE_LIMIT as nat;
    vstd::arithmetic::power2::lemma2_to64();
    rounding::lemma_small_numbers_are_kept(13_743_895, limit);
    rounding::lemma_scaling(13_743_895, 1, 4, limit);
    rounding::lemma_scaling(13_743_895, 1, 5, limit);
}

/// A score with a least distance larger by twice the tolerance or more is better, and
/// so is one with the same least distance and a mean distance larger by that much, as
/// long as distances stay below a thousand.
pub proof fn law_clear_gains_are_better(left: PaletteScore, right: PaletteScore)
    requires
        0 <= right.min_adjacent_distance <= 1_099_511_627_776_000,
        0 <= right.average_adjacent_distance <= 1_099_511_627_776_000,
        left.min_adjacent_distance >= right.min_adjacent_distance + 2 * palette::SCORE_TOLERANCE
            || (left.min_adjacent_distance == right.min_adjacent_distance
            && left.average_adjacent_distance >= right.average_adjacent_distance + 2
            * palette::SCORE_TOLERANCE),
    ensures
        palette::spec_score_is_better(left, right),
{
    lemma_tolerance_is_felt(right.min_adjacent_distance);
    lemma_tolerance_is_felt(right.average_adjacent_distance);
    rounding::lemma_small_numbers_are_kept(0, single::SINGLE_LIMIT as nat);
}

proof fn lemma_tolerance_is_felt(value: Measure)
    requires
        0 <= value <= 1_099_511_627_776_000,
    ensures
        single::rounded(value + palette::SCORE_TOLERANCE) < value + 2 * palette::SCORE_TOLERANCE,
{
    let limit = single::SINGLE_LIMIT as nat;
    let sum = (value + palette::SCORE_TOLERANCE) as nat;
    let spaced = rounding::spacing(sum / 1, limit);
    rounding::lemma_quotient_error(sum, 1, limit);
    vstd::arithmetic::power2::lemma2_to64();
    assert(sum / 1 == sum);
    lemma_spacing_bounded(sum, 27);
    assert(1 * spaced == spaced);
}

/// How one accent ranks against another behind an order is told by its distance from
/// the end of the order, and where that is the same, from the start. Changing the
/// places changes the rank round.
pub proof fn law_candidates_are_ranked_by_distance(
    measured: &MeasuredPalette,
    last: usize,
    first: usize,
    left: usize,
    right: usize,
    rank: CandidateRank,
)
    requires
        palette::is_candidate_rank(measured, last, first, left, right, rank),
    ensures
        ({
            let nearness = measured.distances@[last as int]@[left as int]
                - measured.distances@[last as int]@[right as int];
            let spread = measured.distances@[first as int]@[left as int]
                - measured.distances@[first as int]@[right as int];
            &&& rank == CandidateRank::Better <==> nearness > 0 || (nearness == 0 && spread > 0)
            &&& rank == CandidateRank::Worse <==> nearness < 0 || (nearness == 0 && spread < 0)
            &&& palette::is_candidate_rank(
                measured,
                last,
                first,
                right,
                left,
                match rank {
                    CandidateRank::Better => CandidateRank::Worse,
                    CandidateRank::Worse => CandidateRank::Better,
                    CandidateRank::Same => CandidateRank::Same,
                },
            )
        }),
{
}

/// The separating order begins with the first accent and names every accent once.
/// Each later accent is at least as far from the one before it as any accent that is
/// not named yet; of equally far ones it is the furthest from the first accent, and of
/// those the one furthest down the palette.
pub proof fn law_separating_takes_the_furthest(measured: &MeasuredPalette, place: int, other: usize)
    requires
        measured.accents@.len() > 0,
        1 <= place < measured.accents@.len(),
        other < measured.accents@.len(),
        !measured.separating_order().take(place).contains(other),
    ensures
        ({
            let order = measured.separating_order();
            let row = measured.distances@[order[place - 1] as int]@;
            let from_first = measured.distances@[0]@;
            let taken = order[place] as int;
            &&& order.len() == measured.accents@.len()
            &&& order[0] == 0
            &&& order.no_duplicates()
            &&& row[taken] >= row[other as int]
            &&& row[taken] == row[other as int] ==> from_first[taken] >= from_first[other as int]
            &&& row[taken] == row[other as int] && from_first[taken] == from_first[other as int]
                ==> taken >= other
        }),
{
    palette::law_separating_order_exists(measured);
    let order = measured.separating_order();
    palette::law_separating_order_is_permutation(measured, order);
    assert(measured.continues(order.take(place), order[place]));
    assert(order.take(place).last() == order[place - 1]);
    assert(order.take(place).first() == order[0]);
}

/// A palette that was separated holds the accents, and what was measured of them, in
/// the separating order where its score is then better, and as they were otherwise.
pub proof fn law_separation_moves_whole_accents(
    measured: &MeasuredPalette,
    separated: &MeasuredPalette,
    i: int,
    j: int,
)
    requires
        measured.well_formed(),
        measured.accents@.len() > 0,
        measured.is_reordered(measured.separated_order(), separated),
        0 <= i < measured.accents@.len(),
        0 <= j < measured.accents@.len(),
    ensures
        ({
            let order = measured.separated_order();
            &&& separated.accents@.len() == measured.accents@.len()
            &&& order[0] == 0
            &&& order.no_duplicates()
            &&& separated.accents@[i] == measured.accents@[order[i] as int]
            &&& separated.contrasts@[i] == measured.contrasts@[order[i] as int]
            &&& separated.distances@[i]@[j] == measured.distances@[order[i] as int]@[order[j] as int]
            &&& separated.accents@.to_multiset() == measured.accents@.to_multiset()
            &&& order[i] != i ==> palette::spec_score_is_better(
                separated.spec_score(),
                measured.spec_score(),
            )
        }),
{
    palette::law_separated_order_fits(measured);
    palette::law_separated_accents_are_a_permutation(measured);
    palette::law_reordering_moves_the_score(measured, measured.separated_order(), separated);
    assert(separated.distance(i, j) == measured.distance(
        measured.separated_order()[i] as int,
        measured.separated_order()[j] as int,
    ));
    assert(measured.accents@.len() == measured.accents.len());
}

/// The thresholds of an appearance are those set for it: what is set for the other
/// appearance makes no difference, and light themes are reordered only from a band
/// below their threshold on.
pub proof fn law_thresholds_belong_to_an_appearance(
    config: AutoBracketColorizationConfig,
    other: AutoBracketColorizationConfig,
)
    ensures
        config.minimum_adjacent_oklab_light == other.minimum_adjacent_oklab_light ==> {
            &&& palette::spec_minimum_adjacent_distance(Appearance::Light, config)
                == palette::spec_minimum_adjacent_distance(Appearance::Light, other)
            &&& palette::spec_minimum_adjacent_intervention_distance(Appearance::Light, config)
                == palette::spec_minimum_adjacent_intervention_distance(Appearance::Light, other)
        },
        config.minimum_adjacent_oklab_dark == palette::spec_minimum_adjacent_distance(
            Appearance::Dark,
            config,
        ) == palette::spec_minimum_adjacent_intervention_distance(Appearance::Dark, config),
        config.minimum_adjacent_oklab_light == palette::spec_minimum_adjacent_distance(
            Appearance::Light,
            config,
        ),
        config.minimum_background_apca_light == palette::spec_minimum_background_contrast(
            Appearance::Light,
            config,
        ),
        config.minimum_background_apca_dark == palette::spec_minimum_background_contrast(
            Appearance::Dark,
            config,
        ),
        palette::spec_minimum_adjacent_intervention_distance(Appearance::Light, config) >= 0,
        config.minimum_adjacent_oklab_light <= palette::LIGHT_INTERVENTION_BAND
            ==> palette::spec_minimum_adjacent_intervention_distance(Appearance::Light, config)
            == 0,
        single::rounded(config.minimum_adjacent_oklab_light as int)
            == config.minimum_adjacent_oklab_light && config.minimum_adjacent_oklab_light >= 0
            ==> palette::spec_minimum_adjacent_intervention_distance(Appearance::Light, config)
            <= config.minimum_adjacent_oklab_light,
{
    let light = config.minimum_adjacent_oklab_light;
    if light > palette::LIGHT_INTERVENTION_BAND {
        rounding::lemma_rounding_is_ordered(
            (light - palette::LIGHT_INTERVENTION_BAND) as nat,
            light as nat,
            1,
            single::SINGLE_LIMIT as nat,
        );
    }
}

/// An accent with enough contrast keeps its colour, and so does one that no step helps.
/// Any other becomes the first step with enough contrast, in the direction in which
/// that step is nearer to the accent, the darker one where both are equally near.
pub proof fn law_accents_move_no_further_than_needed(
    accent: AccentMeasurement,
    minimum: Measure,
    darker: int,
    lighter: int,
)
    requires
        0 <= darker <= accent.darker@.len(),
        0 <= lighter <= accent.lighter@.len(),
        forall|i: int| 0 <= i < darker ==> (#[trigger] accent.darker@[i]).contrast < minimum,
        forall|i: int| 0 <= i < lighter ==> (#[trigger] accent.lighter@[i]).contrast < minimum,
        darker < accent.darker@.len() ==> accent.darker@[darker].contrast >= minimum,
        lighter < accent.lighter@.len() ==> accent.lighter@[lighter].contrast >= minimum,
    ensures
        ({
            let has_darker = darker < accent.darker@.len();
            let has_lighter = lighter < accent.lighter@.len();
            let color = accent.adjusted(minimum);
            &&& accent.contrast >= minimum || (!has_darker && !has_lighter) ==> color
                == accent.color
            &&& accent.contrast < minimum && has_darker && !has_lighter ==> color
                == accent.darker@[darker].color
            &&& accent.contrast < minimum && !has_darker && has_lighter ==> color
                == accent.lighter@[lighter].color
            &&& accent.contrast < minimum && has_darker && has_lighter ==> color == if
                accent.lighter@[lighter].distance < accent.darker@[darker].distance {
                accent.lighter@[lighter].color
            } else {
                accent.darker@[darker].color
            }
        }),
{
    lemma_first_passing(accent.darker@, minimum, darker);
    lemma_first_passing(accent.lighter@, minimum, lighter);
}

proof fn lemma_first_passing(steps: Seq<LightnessStep>, minimum: Measure, place: int)
    requires
        0 <= place <= steps.len(),
        forall|i: int| 0 <= i < place ==> (#[trigger] steps[i]).contrast < minimum,
        place < steps.len() ==> steps[place].contrast >= minimum,
    ensures
        auto_mode::first_passing(steps, minimum) == if place < steps.len() {
            Some(steps[place])
        } else {
            None
        },
    decreases steps.len(),
{
    if steps.len() > 0 && place > 0 {
        let rest = steps.drop_first();
        assert(steps[0].contrast < minimum);
        assert forall|i: int| 0 <= i < place - 1 implies (#[trigger] rest[i]).contrast < minimum by {
            assert(rest[i] == steps[i + 1]);
        }
        lemma_first_passing(rest, minimum, place - 1);
    }
}

/// Every accent of an adjusted palette comes from the accent in its place, whatever
/// stands beside it.
pub proof fn law_accents_are_adjusted_one_by_one(
    accents: Seq<AccentMeasurement>,
    minimum: Measure,
    place: int,
)
    requires
        0 <= place < accents.len(),
    ensures
        auto_mode::adjusted_accents(accents, minimum).len() == accents.len(),
        auto_mode::colors(accents).len() == accents.len(),
        auto_mode::colors(accents)[place] == accents[place].color,
        auto_mode::adjusted_accents(accents, minimum)[place] == auto_mode::adjusted_accents(
            seq![accents[place]],
            minimum,
        )[0],
        auto_mode::adjusted_accents(seq![accents[place]], minimum)[0] == accents[place].adjusted(
            minimum,
        ),
{
}

/// What an analysis of auto mode reports holds of the accents that it was made from.
/// It reports the thresholds of its appearance. A palette that it calls strong has no
/// two neighbours closer than the threshold, one that it calls small has fewer than
/// three accents, and one that it reordered had neighbours closer than the distance
/// from which nothing is done and has none any more.
pub proof fn law_strategies_say_what_was_found(
    analysis: BracketColorizationPaletteAnalysis,
    original: &MeasuredPalette,
    adjusted: &MeasuredPalette,
    config: AutoBracketColorizationConfig,
)
    requires
        original.well_formed(),
        adjusted.well_formed(),
        adjusted.accents@.len() == original.accents@.len(),
        analysis.is_auto_analysis(original, adjusted, analysis.appearance, config),
    ensures
        ({
            let n = original.accents@.len() as int;
            let (threshold, floor) = match analysis.appearance {
                Appearance::Light => (
                    config.minimum_adjacent_oklab_light,
                    config.minimum_background_apca_light,
                ),
                Appearance::Dark => (
                    config.minimum_adjacent_oklab_dark,
                    config.minimum_background_apca_dark,
                ),
            };
            let start = palette::spec_minimum_adjacent_intervention_distance(
                analysis.appearance,
                config,
            );
            let order = adjusted.separated_order();
            let moved = adjusted.accents@ != original.accents@;
            &&& analysis.adjacent_threshold == Some(threshold)
            &&& analysis.background_threshold == Some(floor)
            &&& analysis.original_palette@ == original.accents@
            &&& analysis.original_score == original.spec_score()
            &&& match analysis.strategy {
                BracketColorizationPaletteStrategy::ThemeOrder => false,
                BracketColorizationPaletteStrategy::PreservedSmallPalette => {
                    &&& n < 3
                    &&& !moved
                    &&& !analysis.changed
                    &&& analysis.final_palette@ == original.accents@
                    &&& analysis.final_score == original.spec_score()
                },
                BracketColorizationPaletteStrategy::PreservedStrongPalette => {
                    &&& n >= 3
                    &&& !moved
                    &&& !analysis.changed
                    &&& analysis.final_palette@ == original.accents@
                    &&& analysis.final_score == original.spec_score()
                    &&& forall|i: int|
                        0 <= i < n ==> (#[trigger] adjusted.distances@[i])@[(i + 1) % n]
                            >= threshold
                },
                BracketColorizationPaletteStrategy::PreservedWeakPalette => {
                    &&& n >= 3
                    &&& !moved
                    &&& !analysis.changed
                    &&& analysis.final_palette@ == original.accents@
                    &&& analysis.final_score == original.spec_score()
                    &&& exists|i: int|
                        0 <= i < n && (#[trigger] adjusted.distances@[i])@[(i + 1) % n] < threshold
                },
                BracketColorizationPaletteStrategy::AdjustedBackgroundPalette => {
                    &&& moved
                    &&& analysis.changed
                    &&& analysis.final_palette@ == adjusted.accents@
                    &&& analysis.final_score == adjusted.spec_score()
                },
                _ => {
                    &&& n >= 3
                    &&& analysis.changed
                    &&& moved == (analysis.strategy
                        == BracketColorizationPaletteStrategy::AdjustedBackgroundAndReorderedPalette)
                    &&& exists|i: int|
                        0 <= i < n && (#[trigger] adjusted.distances@[i])@[(i + 1) % n] < start
                    &&& forall|i: int|
                        0 <= i < n ==> adjusted.distances@[(#[trigger] order[i]) as int]@[order[(i
                            + 1) % n] as int] >= start
                    &&& forall|i: int|
                        0 <= i < n ==> #[trigger] analysis.final_palette@[i]
                            == adjusted.accents@[order[i] as int]
                },
            }
        }),
{
    let n = original.accents@.len() as int;
    law_scores_hold_the_least(adjusted);
    if n > 0 {
        palette::law_separated_order_fits(adjusted);
    }
    if auto_mode::reorders(adjusted, analysis.appearance, config) {
        let order = adjusted.separated_order();
        let adjacent = adjusted.adjacent_distances_in(order);
        lemma_least(adjacent);
        assert forall|i: int| 0 <= i < n implies adjusted.distances@[(
        #[trigger] order[i]) as int]@[order[(i + 1) % n] as int]
            >= palette::spec_minimum_adjacent_intervention_distance(
            analysis.appearance,
            config,
        ) by {
            lemma_next(i, n);
            assert(adjacent[i] >= palette::least(adjacent));
        }
    }
}

/// Auto mode does not put up with what it can mend: of three or more accents, with two
/// neighbours closer than both the threshold and the distance from which nothing is
/// done, whose separated order keeps all neighbours at that distance, the separated
/// order is what it ends with.
pub proof fn law_weak_palettes_are_reordered(
    analysis: BracketColorizationPaletteAnalysis,
    original: &MeasuredPalette,
    adjusted: &MeasuredPalette,
    config: AutoBracketColorizationConfig,
    weak: int,
)
    requires
        adjusted.well_formed(),
        adjusted.accents@.len() >= 3,
        analysis.is_auto_analysis(original, adjusted, analysis.appearance, config),
        0 <= weak < adjusted.accents@.len(),
        adjusted.distances@[weak]@[(weak + 1) % (adjusted.accents@.len() as int)]
            < palette::spec_minimum_adjacent_distance(analysis.appearance, config),
        adjusted.distances@[weak]@[(weak + 1) % (adjusted.accents@.len() as int)]
            < palette::spec_minimum_adjacent_intervention_distance(analysis.appearance, config),
        forall|i: int|
            0 <= i < adjusted.accents@.len() ==> adjusted.distances@[(
            #[trigger] adjusted.separated_order()[i]) as int]@[adjusted.separated_order()[(i + 1) % (
            adjusted.accents@.len() as int)] as int]
                >= palette::spec_minimum_adjacent_intervention_distance(
                analysis.appearance,
                config,
            ),
    ensures
        analysis.changed,
        analysis.final_palette@.len() == adjusted.accents@.len(),
        forall|i: int|
            0 <= i < adjusted.accents@.len() ==> #[trigger] analysis.final_palette@[i]
                == adjusted.accents@[adjusted.separated_order()[i] as int],
{
    let n = adjusted.accents@.len() as int;
    let order = adjusted.separated_order();
    law_scores_hold_the_least(adjusted);
    palette::law_separated_order_fits(adjusted);
    let adjacent = adjusted.adjacent_distances_in(order);
    lemma_least(adjacent);
    let at = choose|i: int| 0 <= i < adjacent.len() && #[trigger] adjacent[i] == palette::least(adjacent);
    lemma_next(at, n);
    assert(adjusted.distances@[order[at] as int]@[order[(at + 1) % n] as int]
        >= palette::spec_minimum_adjacent_intervention_distance(analysis.appearance, config));
}

/// Where the sums and differences have single-precision numbers of their own, a score is
/// better exactly if its least distance is larger by more than the tolerance, a ten
/// thousandth, or if the least distances differ by no more than that and its mean
/// distance is larger by more.
pub proof fn law_better_means_more_than_the_tolerance(left: PaletteScore, right: PaletteScore)
    requires
        single::rounded(left.min_adjacent_distance - right.min_adjacent_distance)
            == left.min_adjacent_distance - right.min_adjacent_distance,
        single::rounded(right.min_adjacent_distance + 109_951_160) == right.min_adjacent_distance
            + 109_951_160,
        single::rounded(right.average_adjacent_distance + 109_951_160)
            == right.average_adjacent_distance + 109_951_160,
    ensures
        ({
            let nearer = left.min_adjacent_distance - right.min_adjacent_distance;
            let spread = left.average_adjacent_distance - right.average_adjacent_distance;
            palette::spec_score_is_better(left, right) <==> nearer > 109_951_160 || (-109_951_160
                <= nearer <= 109_951_160 && spread > 109_951_160)
        }),
{
}

/// A palette whose separating order scores better is put in that order, and any other
/// stays as it is.
pub proof fn law_better_orders_are_taken(measured: &MeasuredPalette, reordered: &MeasuredPalette)
    requires
        measured.well_formed(),
        measured.accents@.len() > 0,
        measured.is_reordered(measured.separating_order(), reordered),
    ensures
        palette::spec_score_is_better(reordered.spec_score(), measured.spec_score())
            ==> measured.separated_order() == measured.separating_order(),
        !palette::spec_score_is_better(reordered.spec_score(), measured.spec_score())
            ==> forall|place: int|
            0 <= place < measured.accents@.len() ==> #[trigger] measured.separated_order()[place]
                == place,
{
    palette::law_separating_order_exists(measured);
    palette::law_reordering_moves_the_score(measured, measured.separating_order(), reordered);
    assert(measured.accents@.len() == measured.accents.len());
}

} // verus!
