//! The palette used for bracket depths, and the rules by which auto mode
//! keeps, adjusts or reorders a theme's accents.
//!
//! Colour arithmetic is the caller's: it measures contrasts and distances and
//! hands them in as [`Measure`] values. Every decision taken on those
//! measurements is made, and proved, here.

use crate::brackets::single;
use crate::laws;
use crate::brackets::single::{mean_of, round_to_single};
use vstd::prelude::*;

verus! {

/// A contrast, distance or threshold in fixed point, with forty fractional
/// bits. Every single-precision value from `2^-17` up to `2^22` has an exact
/// image; `i64::MAX` stands for an unbounded value.
pub type Measure = i64;

/// `0.0001`, the smallest gain that makes one ordering better than another.
pub const SCORE_TOLERANCE: i64 = 109_951_160;

/// `0.005`, how far below the light threshold a palette may fall before it is
/// reordered.
pub const LIGHT_INTERVENTION_BAND: i64 = 5_497_558_016;

/// A colour by the bits of its four single-precision channels. Colours are
/// compared and moved here, never computed with.
#[derive(Clone, Copy, Debug, PartialEq, Eq, Structural)]
pub struct Hsla {
    pub h: u32,
    pub s: u32,
    pub l: u32,
    pub a: u32,
}

/// Whether a theme is light or dark.
#[derive(Clone, Copy, Debug, PartialEq, Eq, Structural)]
pub enum Appearance {
    Light,
    Dark,
}

/// Where the bracket colours come from.
#[derive(Clone, Copy, Debug, PartialEq, Eq, Structural)]
pub enum BracketColorizationMode {
    /// The theme's accents in the theme's order.
    Theme,
    /// The theme's accents after the automatic adjustments.
    Auto,
}

/// How far apart neighbouring accents are, and how far each is from the
/// background.
#[derive(Clone, Copy, Debug, PartialEq, Eq, Structural)]
pub struct PaletteScore {
    pub min_adjacent_distance: Measure,
    pub average_adjacent_distance: Measure,
    pub min_background_contrast: Measure,
    pub average_background_contrast: Measure,
}

/// The thresholds of auto mode.
#[derive(Clone, Copy, Debug, PartialEq, Eq, Structural)]
pub struct AutoBracketColorizationConfig {
    pub minimum_background_apca_light: Measure,
    pub minimum_background_apca_dark: Measure,
    pub minimum_adjacent_oklab_light: Measure,
    pub minimum_adjacent_oklab_dark: Measure,
    pub lightness_clamp_min: Measure,
    pub lightness_clamp_max: Measure,
}

impl AutoBracketColorizationConfig {
    /// The thresholds that apply unless the caller chooses others: contrast 35
    /// and distance 0.10 for light themes, contrast 30 and distance 0.08 for
    /// dark ones, and lightness between 0.18 and 0.92.
    pub open spec fn spec_default() -> Self {
        AutoBracketColorizationConfig {
            minimum_background_apca_light: 38_482_906_972_160,
            minimum_background_apca_dark: 32_985_348_833_280,
            minimum_adjacent_oklab_light: 109_951_164_416,
            minimum_adjacent_oklab_dark: 87_960_928_256,
            lightness_clamp_min: 197_912_100_864,
            lightness_clamp_max: 1_011_550_715_904,
        }
    }
}

impl Default for AutoBracketColorizationConfig {
    fn default() -> (config: Self)
        ensures
            config == AutoBracketColorizationConfig::spec_default(),
    {
        AutoBracketColorizationConfig {
            minimum_background_apca_light: 38_482_906_972_160,
            minimum_background_apca_dark: 32_985_348_833_280,
            minimum_adjacent_oklab_light: 109_951_164_416,
            minimum_adjacent_oklab_dark: 87_960_928_256,
            lightness_clamp_min: 197_912_100_864,
            lightness_clamp_max: 1_011_550_715_904,
        }
    }
}

/// The closest that two neighbouring accents may be.
pub fn minimum_adjacent_distance(
    appearance: Appearance,
    config: AutoBracketColorizationConfig,
) -> (distance: Measure)
    ensures
        distance == spec_minimum_adjacent_distance(appearance, config),
{
    match appearance {
        Appearance::Light => config.minimum_adjacent_oklab_light,
        Appearance::Dark => config.minimum_adjacent_oklab_dark,
    }
}

pub open spec fn spec_minimum_adjacent_distance(
    appearance: Appearance,
    config: AutoBracketColorizationConfig,
) -> Measure {
    match appearance {
        Appearance::Light => config.minimum_adjacent_oklab_light,
        Appearance::Dark => config.minimum_adjacent_oklab_dark,
    }
}

/// The distance below which auto mode tries another order. Light themes get a
/// narrow band under their threshold in which nothing is done; where it starts is
/// rounded to single precision.
pub fn minimum_adjacent_intervention_distance(
    appearance: Appearance,
    config: AutoBracketColorizationConfig,
) -> (distance: Measure)
    ensures
        distance == spec_minimum_adjacent_intervention_distance(appearance, config),
{
    match appearance {
        Appearance::Light => if config.minimum_adjacent_oklab_light > LIGHT_INTERVENTION_BAND {
            let start: i128 = round_to_single(
                config.minimum_adjacent_oklab_light as i128 - LIGHT_INTERVENTION_BAND as i128,
            );
            if start > i64::MAX as i128 {
                i64::MAX
            } else {
                start as i64
            }
        } else {
            0
        },
        Appearance::Dark => config.minimum_adjacent_oklab_dark,
    }
}

pub open spec fn spec_minimum_adjacent_intervention_distance(
    appearance: Appearance,
    config: AutoBracketColorizationConfig,
) -> int {
    match appearance {
        Appearance::Light => if config.minimum_adjacent_oklab_light > LIGHT_INTERVENTION_BAND {
            vstd::math::min(
                single::rounded(config.minimum_adjacent_oklab_light - LIGHT_INTERVENTION_BAND),
                i64::MAX as int,
            )
        } else {
            0
        },
        Appearance::Dark => config.minimum_adjacent_oklab_dark as int,
    }
}

/// The least contrast an accent may have with the background.
pub fn minimum_background_contrast(
    appearance: Appearance,
    config: AutoBracketColorizationConfig,
) -> (contrast: Measure)
    ensures
        contrast == spec_minimum_background_contrast(appearance, config),
{
    match appearance {
        Appearance::Light => config.minimum_background_apca_light,
        Appearance::Dark => config.minimum_background_apca_dark,
    }
}

pub open spec fn spec_minimum_background_contrast(
    appearance: Appearance,
    config: AutoBracketColorizationConfig,
) -> Measure {
    match appearance {
        Appearance::Light => config.minimum_background_apca_light,
        Appearance::Dark => config.minimum_background_apca_dark,
    }
}

/// A palette together with what was measured of it: the contrast of each
/// accent with the background, and the distance between each two accents.
#[derive(Clone, Debug)]
pub struct MeasuredPalette {
    pub accents: Vec<Hsla>,
    pub contrasts: Vec<Measure>,
    pub distances: Vec<Vec<Measure>>,
}

/// The least value of `values`, or `i64::MAX` if there is none.
pub open spec fn least(values: Seq<Measure>) -> Measure
    decreases values.len(),
{
    if values.len() == 0 {
        i64::MAX
    } else {
        let rest = least(values.drop_last());
        if values.last() < rest {
            values.last()
        } else {
            rest
        }
    }
}

/// `least` is below every value and is one of them.
pub proof fn law_least_is_minimum(values: Seq<Measure>)
    ensures
        forall|i: int| 0 <= i < values.len() ==> least(values) <= #[trigger] values[i],
        values.len() > 0 ==> values.contains(least(values)) || least(values) == i64::MAX,
    decreases values.len(),
{
    if values.len() > 0 {
        let rest = values.drop_last();
        law_least_is_minimum(rest);
        assert forall|i: int| 0 <= i < values.len() implies least(values) <= #[trigger] values[i] by {
            if i < rest.len() {
                assert(rest[i] == values[i]);
            }
        }
        if values.last() < least(rest) {
            assert(values[values.len() - 1] == least(values));
        } else if rest.len() > 0 && rest.contains(least(rest)) {
            let i = choose|i: int| 0 <= i < rest.len() && rest[i] == least(rest);
            assert(values[i] == least(values));
        }
    }
}

/// The least of some measurements; unbounded for an empty list.
fn least_of(values: &Vec<Measure>) -> (result: Measure)
    ensures
        result == least(values@),
{
    let mut least_seen: i64 = i64::MAX;
    let mut i: usize = 0;
    while i < values.len()
        invariant
            i <= values@.len(),
            least_seen == least(values@.take(i as int)),
        decreases values@.len() - i,
    {
        proof {
            let next = values@.take(i as int + 1);
            assert(next.drop_last() =~= values@.take(i as int));
            assert(next.last() == values@[i as int]);
        }
        if values[i] < least_seen {
            least_seen = values[i];
        }
        i = i + 1;
    }
    assert(values@.take(i as int) =~= values@);
    least_seen
}

impl MeasuredPalette {
    pub open spec fn well_formed(&self) -> bool {
        &&& self.contrasts@.len() == self.accents@.len()
        &&& self.distances@.len() == self.accents@.len()
        &&& forall|i: int|
            0 <= i < self.accents@.len() ==> (#[trigger] self.distances@[i])@.len()
                == self.accents@.len()
        &&& forall|i: int| 0 <= i < self.accents@.len() ==> 0 <= #[trigger] self.contrasts@[i]
        &&& forall|i: int, j: int|
            0 <= i < self.accents@.len() && 0 <= j < self.accents@.len() ==> 0
                <= #[trigger] self.distance(i, j)
    }

    /// The measured distance between accents `i` and `j`.
    pub open spec fn distance(&self, i: int, j: int) -> Measure {
        self.distances@[i]@[j]
    }

    /// The distances between each accent and the next, the last wrapping
    /// round to the first. A single accent has no neighbour.
    pub open spec fn adjacent_distances(&self) -> Seq<Measure> {
        let n = self.accents@.len();
        if n < 2 {
            Seq::empty()
        } else {
            Seq::new(n, |i: int| self.distance(i, if i + 1 < n { i + 1 } else { 0 }))
        }
    }

    /// The score of the palette in its present order.
    pub open spec fn spec_score(&self) -> PaletteScore {
        PaletteScore {
            min_adjacent_distance: least(self.adjacent_distances()),
            average_adjacent_distance: single::rounded_mean(self.adjacent_distances()) as i64,
            min_background_contrast: least(self.contrasts@),
            average_background_contrast: single::rounded_mean(self.contrasts@) as i64,
        }
    }
}

/// Scores a palette: the least and the mean distance between neighbours round
/// the cycle, and the least and the mean contrast with the background.
pub fn palette_score(palette: &MeasuredPalette) -> (score: PaletteScore)
    requires
        palette.well_formed(),
    ensures
        score == palette.spec_score(),
        ({
            let n = palette.accents@.len() as int;
            &&& n >= 2 ==> forall|i: int|
                0 <= i < n ==> score.min_adjacent_distance <= (#[trigger] palette.distances@[i])@[(i
                    + 1) % n]
            &&& n >= 2 ==> exists|i: int|
                0 <= i < n && score.min_adjacent_distance == (#[trigger] palette.distances@[i])@[(i
                    + 1) % n]
        }),
{
    proof {
        laws::palette::law_scores_hold_the_least(palette);
    }
    let n: usize = palette.accents.len();
    let mut adjacent: Vec<Measure> = Vec::new();
    if n >= 2 {
        let mut i: usize = 0;
        while i < n
            invariant
                palette.well_formed(),
                n == palette.accents@.len(),
                2 <= n,
                i <= n,
                adjacent@ == palette.adjacent_distances().take(i as int),
            decreases n - i,
        {
            let next: usize = if i + 1 < n {
                i + 1
            } else {
                0
            };
            assert(palette.distances@[i as int]@.len() == n);
            let distance: Measure = palette.distances[i][next];
            proof {
                assert(distance == palette.distance(i as int, next as int));
                assert(palette.adjacent_distances().take(i as int + 1) =~= palette.adjacent_distances().take(
                    i as int,
                ).push(distance));
            }
            adjacent.push(distance);
            i = i + 1;
        }
        assert(palette.adjacent_distances().take(n as int) =~= palette.adjacent_distances());
    }
    assert(adjacent@ =~= palette.adjacent_distances());
    assert forall|i: int| 0 <= i < adjacent@.len() implies 0 <= #[trigger] adjacent@[i] by {
        assert(0 <= palette.distance(i, if i + 1 < n { i + 1 } else { 0 }));
    }
    PaletteScore {
        min_adjacent_distance: least_of(&adjacent),
        average_adjacent_distance: mean_of(&adjacent),
        min_background_contrast: least_of(&palette.contrasts),
        average_background_contrast: mean_of(&palette.contrasts),
    }
}

/// A measure exceeds another by more than the tolerance, added in single precision.
pub open spec fn clearly_exceeds(left: Measure, right: Measure) -> bool {
    left > single::rounded(right + SCORE_TOLERANCE)
}

/// One score beats another by a clearly larger least distance, or, where the
/// least distances agree, by a clearly larger mean distance.
pub open spec fn spec_score_is_better(left: PaletteScore, right: PaletteScore) -> bool {
    let gain = single::rounded(left.min_adjacent_distance - right.min_adjacent_distance);
    ||| clearly_exceeds(left.min_adjacent_distance, right.min_adjacent_distance)
    ||| -SCORE_TOLERANCE <= gain <= SCORE_TOLERANCE && clearly_exceeds(
        left.average_adjacent_distance,
        right.average_adjacent_distance,
    )
}

fn exceeds_clearly(left: Measure, right: Measure) -> (exceeds: bool)
    ensures
        exceeds == clearly_exceeds(left, right),
{
    left as i128 > round_to_single(right as i128 + SCORE_TOLERANCE as i128)
}

/// Whether `left` is a better palette score than `right`.
pub fn palette_score_is_better(left: PaletteScore, right: PaletteScore) -> (better: bool)
    ensures
        better == spec_score_is_better(left, right),
{
    let gain: i128 = round_to_single(
        left.min_adjacent_distance as i128 - right.min_adjacent_distance as i128,
    );
    let tolerance: i128 = SCORE_TOLERANCE as i128;
    exceeds_clearly(left.min_adjacent_distance, right.min_adjacent_distance) || (-tolerance <= gain
        && gain <= tolerance && exceeds_clearly(
        left.average_adjacent_distance,
        right.average_adjacent_distance,
    ))
}

impl MeasuredPalette {
    /// Candidate `left` is strictly worse than candidate `right` after an
    /// order that starts at `first` and so far ends at `last`: it is closer to
    /// `last`, or equally close to it and closer to `first`.
    pub open spec fn candidate_worse(&self, last: int, first: int, left: int, right: int) -> bool {
        self.distance(last, left) < self.distance(last, right) || (self.distance(last, left)
            == self.distance(last, right) && self.distance(first, left) < self.distance(first, right))
    }

    /// `next` continues `order`: it is not in it yet, no other unused accent is
    /// better, and of equally good ones it is the one furthest down the
    /// palette.
    pub open spec fn continues(&self, order: Seq<usize>, next: usize) -> bool {
        &&& next < self.accents@.len()
        &&& !order.contains(next)
        &&& forall|other: usize|
            #![trigger order.contains(other)]
            other < self.accents@.len() && !order.contains(other) ==> if other <= next {
                !self.candidate_worse(
                    order.last() as int,
                    order.first() as int,
                    next as int,
                    other as int,
                )
            } else {
                self.candidate_worse(
                    order.last() as int,
                    order.first() as int,
                    other as int,
                    next as int,
                )
            }
    }

    /// `order` begins with the first accent and each later entry continues
    /// what stands before it.
    pub open spec fn is_separating_prefix(&self, order: Seq<usize>) -> bool {
        &&& 0 < order.len() <= self.accents@.len()
        &&& order[0] == 0
        &&& forall|k: int|
            1 <= k < order.len() ==> self.continues(order.take(k), #[trigger] order[k])
    }

    /// `order` is a separating order of the whole palette.
    pub open spec fn is_separating_order(&self, order: Seq<usize>) -> bool {
        self.is_separating_prefix(order) && order.len() == self.accents@.len()
    }

    /// The separating order of a palette.
    pub open spec fn separating_order(&self) -> Seq<usize> {
        choose|order: Seq<usize>| self.is_separating_order(order)
    }

    /// The accents in another order.
    pub open spec fn permuted_accents(&self, order: Seq<usize>) -> Seq<Hsla> {
        Seq::new(order.len(), |i: int| self.accents@[order[i] as int])
    }

    /// `other` is this palette with its entries, and what was measured of
    /// them, moved to another order.
    pub open spec fn is_reordered(&self, order: Seq<usize>, other: &MeasuredPalette) -> bool {
        &&& other.well_formed()
        &&& other.accents@ == self.permuted_accents(order)
        &&& forall|i: int|
            0 <= i < order.len() ==> #[trigger] other.contrasts@[i] == self.contrasts@[order[i] as int]
        &&& forall|i: int, j: int|
            0 <= i < order.len() && 0 <= j < order.len() ==> #[trigger] other.distance(i, j)
                == self.distance(order[i] as int, order[j] as int)
    }
}

/// How one accent compares with another as the continuation of an order.
#[derive(Clone, Copy, Debug, PartialEq, Eq, Structural)]
pub enum CandidateRank {
    Worse,
    Same,
    Better,
}

/// Compares two accents as continuations of an order that starts at `first`
/// and ends at `last`, and tells how `left` ranks against `right`.
pub fn compare_candidates(
    palette: &MeasuredPalette,
    last: usize,
    first: usize,
    left: usize,
    right: usize,
) -> (rank: CandidateRank)
    requires
        palette.well_formed(),
        last < palette.accents@.len(),
        first < palette.accents@.len(),
        left < palette.accents@.len(),
        right < palette.accents@.len(),
    ensures
        is_candidate_rank(palette, last, first, left, right, rank),
{
    let last_row: &Vec<Measure> = &palette.distances[last];
    let first_row: &Vec<Measure> = &palette.distances[first];
    if last_row[left] < last_row[right] {
        CandidateRank::Worse
    } else if last_row[left] > last_row[right] {
        CandidateRank::Better
    } else if first_row[left] < first_row[right] {
        CandidateRank::Worse
    } else if first_row[left] > first_row[right] {
        CandidateRank::Better
    } else {
        CandidateRank::Same
    }
}

pub open spec fn is_candidate_rank(
    palette: &MeasuredPalette,
    last: usize,
    first: usize,
    left: usize,
    right: usize,
    rank: CandidateRank,
) -> bool {
    let (last, first, left, right) = (last as int, first as int, left as int, right as int);
    match rank {
        CandidateRank::Worse => palette.candidate_worse(last, first, left, right),
        CandidateRank::Better => palette.candidate_worse(last, first, right, left),
        CandidateRank::Same => !palette.candidate_worse(last, first, left, right)
            && !palette.candidate_worse(last, first, right, left),
    }
}

/// Two separating orders of one palette are equal: the accents and their
/// distances determine the order.
pub proof fn law_separating_order_is_unique(
    palette: &MeasuredPalette,
    left: Seq<usize>,
    right: Seq<usize>,
)
    requires
        palette.is_separating_prefix(left),
        palette.is_separating_prefix(right),
        left.len() == right.len(),
    ensures
        left == right,
{
    lemma_prefixes_agree(palette, left, right, left.len() as int);
    assert(left.take(left.len() as int) =~= left);
    assert(right.take(left.len() as int) =~= right);
}

proof fn lemma_prefixes_agree(
    palette: &MeasuredPalette,
    left: Seq<usize>,
    right: Seq<usize>,
    k: int,
)
    requires
        palette.is_separating_prefix(left),
        palette.is_separating_prefix(right),
        left.len() == right.len(),
        0 <= k <= left.len(),
    ensures
        left.take(k) == right.take(k),
    decreases k,
{
    if k == 0 {
        assert(left.take(0) =~= right.take(0));
    } else {
        lemma_prefixes_agree(palette, left, right, k - 1);
        let prefix = left.take(k - 1);
        if k > 1 {
            assert(palette.continues(prefix, left[k - 1]));
            assert(palette.continues(right.take(k - 1), right[k - 1]));
            assert(!prefix.contains(left[k - 1]));
            assert(!prefix.contains(right[k - 1]));
        }
        assert(left[k - 1] == right[k - 1]);
        assert(left.take(k) =~= prefix.push(left[k - 1]));
        assert(right.take(k) =~= right.take(k - 1).push(right[k - 1]));
    }
}

/// A separating order names each accent exactly once.
pub proof fn law_separating_order_is_permutation(palette: &MeasuredPalette, order: Seq<usize>)
    requires
        palette.is_separating_prefix(order),
    ensures
        order.no_duplicates(),
        forall|k: int| 0 <= k < order.len() ==> #[trigger] order[k] < palette.accents@.len(),
{
    assert forall|k: int| 0 <= k < order.len() implies #[trigger] order[k]
        < palette.accents@.len() by {
        if k > 0 {
            assert(palette.continues(order.take(k), order[k]));
        }
    }
    assert forall|i: int, j: int| 0 <= i < j < order.len() implies order[i] != order[j] by {
        assert(palette.continues(order.take(j), order[j]));
        assert(order.take(j)[i] == order[i]);
    }
}

/// Among the unused accents below `index`, one that none of them beats and
/// that is the last such, if any is unused.
proof fn lemma_best_candidate(palette: &MeasuredPalette, order: Seq<usize>, index: usize) -> (best:
    Option<usize>)
    requires
        index <= palette.accents@.len(),
    ensures
        best is None ==> forall|other: usize|
            #![trigger order.contains(other)]
            other < index ==> order.contains(other),
        best matches Some(b) ==> {
            &&& b < index
            &&& !order.contains(b)
            &&& forall|other: usize|
                #![trigger order.contains(other)]
                other < index && !order.contains(other) ==> if other <= b {
                    !palette.candidate_worse(
                        order.last() as int,
                        order.first() as int,
                        b as int,
                        other as int,
                    )
                } else {
                    palette.candidate_worse(
                        order.last() as int,
                        order.first() as int,
                        other as int,
                        b as int,
                    )
                }
        },
    decreases index,
{
    if index == 0 {
        None
    } else {
        let candidate = (index - 1) as usize;
        let before = lemma_best_candidate(palette, order, candidate);
        if order.contains(candidate) {
            before
        } else if before is None || !palette.candidate_worse(
            order.last() as int,
            order.first() as int,
            candidate as int,
            before->0 as int,
        ) {
            Some(candidate)
        } else {
            before
        }
    }
}

proof fn lemma_separating_prefix_exists(palette: &MeasuredPalette, length: nat) -> (order: Seq<usize>)
    requires
        1 <= length <= palette.accents@.len(),
    ensures
        palette.is_separating_prefix(order),
        order.len() == length,
    decreases length,
{
    if length == 1 {
        seq![0usize]
    } else {
        let before = lemma_separating_prefix_exists(palette, (length - 1) as nat);
        assert(palette.accents@.len() == palette.accents.len());
        let best = lemma_best_candidate(palette, before, palette.accents.len());
        lemma_some_accent_is_unused(palette, before);
        let next = best->0;
        assert(palette.continues(before, next));
        let order = before.push(next);
        assert forall|k: int| 1 <= k < order.len() implies palette.continues(
            order.take(k),
            #[trigger] order[k],
        ) by {
            assert(order.take(k) =~= before.take(k));
            if k == before.len() {
                assert(before.take(k) =~= before);
            } else {
                assert(order[k] == before[k]);
            }
        }
        order
    }
}

/// Every palette that is not empty has a separating order.
pub proof fn law_separating_order_exists(palette: &MeasuredPalette)
    requires
        palette.accents@.len() > 0,
    ensures
        palette.is_separating_order(palette.separating_order()),
{
    let order = lemma_separating_prefix_exists(palette, palette.accents@.len());
    assert(palette.is_separating_order(order));
}

/// Finds the separating order: from the first accent on, always the unused
/// accent furthest from the one before it.
fn find_separating_order(palette: &MeasuredPalette) -> (order: Vec<usize>)
    requires
        palette.well_formed(),
        palette.accents@.len() > 0,
    ensures
        palette.is_separating_order(order@),
        order@ == palette.separating_order(),
{
    let n: usize = palette.accents.len();
    let mut used: Vec<bool> = Vec::new();
    let mut filled: usize = 0;
    while filled < n
        invariant
            filled <= n,
            used@.len() == filled,
            forall|i: int| 0 <= i < filled ==> !#[trigger] used@[i],
        decreases n - filled,
    {
        used.push(false);
        filled = filled + 1;
    }
    let mut order: Vec<usize> = Vec::new();
    order.push(0);
    used[0] = true;
    assert(order@[0] == 0);
    while order.len() < n
        invariant
            palette.well_formed(),
            n == palette.accents@.len(),
            used@.len() == n,
            palette.is_separating_prefix(order@),
            forall|i: usize| i < n ==> #[trigger] used@[i as int] == order@.contains(i),
        decreases n - order@.len(),
    {
        proof {
            law_separating_order_is_permutation(palette, order@);
        }
        let last: usize = order[order.len() - 1];
        let first: usize = order[0];
        let mut best: Option<usize> = None;
        let mut index: usize = 0;
        while index < n
            invariant
                palette.well_formed(),
                n == palette.accents@.len(),
                used@.len() == n,
                index <= n,
                last < n,
                first < n,
                forall|i: usize| i < n ==> #[trigger] used@[i as int] == order@.contains(i),
                best is None ==> forall|other: usize|
                    #![trigger order@.contains(other)]
                    other < index ==> order@.contains(other),
                best matches Some(b) ==> {
                    &&& b < index
                    &&& !order@.contains(b)
                    &&& forall|other: usize|
                        #![trigger order@.contains(other)]
                        other < index && !order@.contains(other) ==> if other <= b {
                            !palette.candidate_worse(last as int, first as int, b as int, other as int)
                        } else {
                            palette.candidate_worse(last as int, first as int, other as int, b as int)
                        }
                },
            decreases n - index,
        {
            assert(used@[index as int] == order@.contains(index));
            if !used[index] {
                match best {
                    None => {
                        best = Some(index);
                    },
                    Some(current) => {
                        match compare_candidates(palette, last, first, current, index) {
                            CandidateRank::Better => {},
                            _ => {
                                best = Some(index);
                            },
                        }
                    },
                }
            }
            index = index + 1;
        }
        match best {
            Some(next) => {
                let ghost before = order@;
                assert(palette.continues(before, next));
                used[next] = true;
                order.push(next);
                proof {
                    assert forall|k: int| 1 <= k < order@.len() implies palette.continues(
                        order@.take(k),
                        #[trigger] order@[k],
                    ) by {
                        assert(order@.take(k) =~= before.take(k));
                        if k == before.len() {
                            assert(before.take(k) =~= before);
                        } else {
                            assert(order@[k] == before[k]);
                        }
                    }
                    assert(order@[0] == before[0]);
                    assert forall|i: usize| i < n implies #[trigger] used@[i as int]
                        == order@.contains(i) by {
                        if before.contains(i) {
                            let k = choose|k: int| 0 <= k < before.len() && before[k] == i;
                            assert(order@[k] == i);
                        }
                        if i == next {
                            assert(order@[before.len() as int] == i);
                        }
                        if order@.contains(i) && i != next {
                            let k = choose|k: int| 0 <= k < order@.len() && order@[k] == i;
                            assert(before[k] == i);
                        }
                    }
                }
            },
            None => {
                proof {
                    lemma_some_accent_is_unused(palette, order@);
                }
            },
        }
    }
    proof {
        assert(palette.is_separating_order(order@));
        law_separating_order_is_unique(palette, order@, palette.separating_order());
    }
    order
}

/// An order shorter than the palette leaves some accent out.
proof fn lemma_some_accent_is_unused(palette: &MeasuredPalette, order: Seq<usize>)
    requires
        palette.is_separating_prefix(order),
        order.len() < palette.accents@.len(),
    ensures
        exists|i: usize| i < palette.accents@.len() && !#[trigger] order.contains(i),
{
    law_separating_order_is_permutation(palette, order);
    if forall|i: usize| i < palette.accents@.len() ==> #[trigger] order.contains(i) {
        let n = palette.accents@.len() as int;
        assert(n == palette.accents.len());
        let all = vstd::set_lib::set_int_range(0, n);
        vstd::set_lib::lemma_int_range(0, n);
        let named = order.map_values(|v: usize| v as int);
        assert(all.subset_of(named.to_set())) by {
            assert forall|x: int| all.contains(x) implies named.to_set().contains(x) by {
                assert(order.contains(x as usize));
                let k = choose|k: int| 0 <= k < order.len() && order[k] == x as usize;
                assert(named[k] == x);
            }
        }
        vstd::seq_lib::seq_to_set_is_finite(named);
        named.lemma_cardinality_of_set();
        vstd::set_lib::lemma_len_subset(all, named.to_set());
        assert(false);
    }
}

/// The order that leaves a palette of `n` accents as it is.
pub open spec fn identity_order(n: nat) -> Seq<usize> {
    Seq::new(n, |i: int| i as usize)
}

impl MeasuredPalette {
    /// The distances between neighbours once the accents stand in `order`.
    pub open spec fn adjacent_distances_in(&self, order: Seq<usize>) -> Seq<Measure> {
        let n = order.len();
        if n < 2 {
            Seq::empty()
        } else {
            Seq::new(
                n,
                |i: int|
                    self.distance(
                        order[i] as int,
                        order[if i + 1 < n { i + 1 } else { 0 }] as int,
                    ),
            )
        }
    }

    pub open spec fn contrasts_in(&self, order: Seq<usize>) -> Seq<Measure> {
        Seq::new(order.len(), |i: int| self.contrasts@[order[i] as int])
    }

    /// The score of the accents once they stand in `order`.
    pub open spec fn score_in(&self, order: Seq<usize>) -> PaletteScore {
        PaletteScore {
            min_adjacent_distance: least(self.adjacent_distances_in(order)),
            average_adjacent_distance: single::rounded_mean(self.adjacent_distances_in(order)) as i64,
            min_background_contrast: least(self.contrasts_in(order)),
            average_background_contrast: single::rounded_mean(self.contrasts_in(order)) as i64,
        }
    }

    /// The order that separation settles on: the separating order where it
    /// scores better than the palette as it stands, and else the latter.
    pub open spec fn separated_order(&self) -> Seq<usize> {
        if spec_score_is_better(self.score_in(self.separating_order()), self.spec_score()) {
            self.separating_order()
        } else {
            identity_order(self.accents@.len())
        }
    }

    /// Moves the accents, and what was measured of them, to another order.
    fn reorder(&self, order: &Vec<usize>) -> (result: MeasuredPalette)
        requires
            self.well_formed(),
            order@.len() == self.accents@.len(),
            forall|i: int| 0 <= i < order@.len() ==> #[trigger] order@[i] < self.accents@.len(),
        ensures
            self.is_reordered(order@, &result),
    {
        let n: usize = order.len();
        let mut accents: Vec<Hsla> = Vec::new();
        let mut contrasts: Vec<Measure> = Vec::new();
        let mut distances: Vec<Vec<Measure>> = Vec::new();
        let mut i: usize = 0;
        while i < n
            invariant
                self.well_formed(),
                n == order@.len(),
                n == self.accents@.len(),
                i <= n,
                forall|k: int| 0 <= k < n ==> #[trigger] order@[k] < n,
                accents@ == self.permuted_accents(order@).take(i as int),
                contrasts@.len() == i,
                distances@.len() == i,
                forall|k: int|
                    0 <= k < i ==> #[trigger] contrasts@[k] == self.contrasts@[order@[k] as int],
                forall|k: int| 0 <= k < i ==> (#[trigger] distances@[k])@.len() == n,
                forall|k: int, j: int|
                    0 <= k < i && 0 <= j < n ==> #[trigger] distances@[k]@[j] == self.distance(
                        order@[k] as int,
                        order@[j] as int,
                    ),
            decreases n - i,
        {
            assert(order@[i as int] < n);
            let source: usize = order[i];
            accents.push(self.accents[source]);
            contrasts.push(self.contrasts[source]);
            let mut row: Vec<Measure> = Vec::new();
            let mut j: usize = 0;
            while j < n
                invariant
                    self.well_formed(),
                    n == order@.len(),
                    n == self.accents@.len(),
                    i < n,
                    j <= n,
                    source == order@[i as int],
                    source < n,
                    forall|k: int| 0 <= k < n ==> #[trigger] order@[k] < n,
                    row@.len() == j,
                    forall|k: int|
                        0 <= k < j ==> #[trigger] row@[k] == self.distance(
                            source as int,
                            order@[k] as int,
                        ),
                decreases n - j,
            {
                assert(order@[j as int] < n);
                assert(self.distances@[source as int]@.len() == n);
                row.push(self.distances[source][order[j]]);
                j = j + 1;
            }
            distances.push(row);
            assert(accents@ =~= self.permuted_accents(order@).take(i as int + 1));
            i = i + 1;
        }
        let result: MeasuredPalette = MeasuredPalette { accents, contrasts, distances };
        proof {
            assert(result.accents@ =~= self.permuted_accents(order@));
            assert forall|k: int| 0 <= k < n implies 0 <= #[trigger] result.contrasts@[k] by {
                assert(0 <= self.contrasts@[order@[k] as int]);
            }
            assert forall|k: int, j: int| 0 <= k < n && 0 <= j < n implies #[trigger] result.distance(
                k,
                j,
            ) == self.distance(order@[k] as int, order@[j] as int) && 0 <= result.distance(k, j) by {
                assert(result.distances@[k]@[j] == self.distance(order@[k] as int, order@[j] as int));
                assert(0 <= self.distance(order@[k] as int, order@[j] as int));
            }
        }
        result
    }
}

/// A reordered palette scores what the original scores in that order.
pub proof fn law_reordering_moves_the_score(
    palette: &MeasuredPalette,
    order: Seq<usize>,
    reordered: &MeasuredPalette,
)
    requires
        palette.well_formed(),
        order.len() == palette.accents@.len(),
        palette.is_reordered(order, reordered),
    ensures
        reordered.spec_score() == palette.score_in(order),
{
    assert(reordered.accents@.len() == order.len());
    assert(reordered.adjacent_distances() =~= palette.adjacent_distances_in(order)) by {
        let n = order.len() as int;
        assert forall|i: int| 0 <= i < reordered.adjacent_distances().len() implies #[trigger] reordered.adjacent_distances()[i]
            == palette.adjacent_distances_in(order)[i] by {
            let next = if i + 1 < n { i + 1 } else { 0 };
            assert(reordered.distance(i, next) == palette.distance(order[i] as int, order[next] as int));
        }
    }
    assert(reordered.contrasts@ =~= palette.contrasts_in(order));
}

/// Arranges a palette so that neighbours are far apart: greedily from its first
/// accent on, and only where that beats the order it came in.
pub fn maximize_adjacent_separation(palette: &MeasuredPalette) -> (separated: MeasuredPalette)
    requires
        palette.well_formed(),
        palette.accents@.len() > 0,
    ensures
        palette.is_reordered(palette.separated_order(), &separated),
{
    let order: Vec<usize> = find_separating_order(palette);
    proof {
        law_separating_order_is_permutation(palette, order@);
    }
    let reordered: MeasuredPalette = palette.reorder(&order);
    proof {
        law_reordering_moves_the_score(palette, order@, &reordered);
    }
    if palette_score_is_better(palette_score(&reordered), palette_score(palette)) {
        reordered
    } else {
        let mut unchanged: Vec<usize> = Vec::new();
        let mut i: usize = 0;
        while i < palette.accents.len()
            invariant
                i <= palette.accents@.len(),
                unchanged@ == identity_order(i as nat),
            decreases palette.accents@.len() - i,
        {
            unchanged.push(i);
            i = i + 1;
            assert(unchanged@ =~= identity_order(i as nat));
        }
        palette.reorder(&unchanged)
    }
}

/// The order that separation settles on names each accent exactly once and
/// begins with the first one.
pub proof fn law_separated_order_fits(palette: &MeasuredPalette)
    requires
        palette.accents@.len() > 0,
    ensures
        palette.separated_order().len() == palette.accents@.len(),
        palette.separated_order().no_duplicates(),
        palette.separated_order()[0] == 0,
        forall|k: int|
            0 <= k < palette.accents@.len() ==> #[trigger] palette.separated_order()[k]
                < palette.accents@.len(),
{
    law_separating_order_exists(palette);
    law_separating_order_is_permutation(palette, palette.separating_order());
    assert(palette.accents@.len() == palette.accents.len());
}

/// Separation keeps the accents: each occurs as often as before, and the first
/// stays first.
pub proof fn law_separated_accents_are_a_permutation(palette: &MeasuredPalette)
    requires
        palette.accents@.len() > 0,
    ensures
        palette.permuted_accents(palette.separated_order()).to_multiset()
            == palette.accents@.to_multiset(),
        palette.permuted_accents(palette.separated_order())[0] == palette.accents@[0],
{
    law_separated_order_fits(palette);
    lemma_permutation_keeps_multiset(palette.accents@, palette.separated_order());
    assert(palette.permuted_accents(palette.separated_order()) =~= Seq::new(
        palette.separated_order().len(),
        |i: int| palette.accents@[palette.separated_order()[i] as int],
    ));
}

/// Picking every position of a sequence once keeps its multiset.
proof fn lemma_permutation_keeps_multiset<A>(values: Seq<A>, order: Seq<usize>)
    requires
        order.len() == values.len(),
        order.no_duplicates(),
        forall|k: int| 0 <= k < order.len() ==> #[trigger] order[k] < values.len(),
    ensures
        Seq::new(order.len(), |i: int| values[order[i] as int]).to_multiset()
            == values.to_multiset(),
    decreases values.len(),
{
    broadcast use vstd::seq_lib::group_to_multiset_ensures;

    let picked = Seq::new(order.len(), |i: int| values[order[i] as int]);
    if values.len() == 0 {
        assert(picked =~= values);
    } else {
        let last = order.last() as int;
        let rest = values.remove(last);
        let moved = Seq::new(
            (order.len() - 1) as nat,
            |i: int| if order[i] > last { (order[i] - 1) as usize } else { order[i] },
        );
        assert forall|k: int| 0 <= k < moved.len() implies #[trigger] moved[k] < rest.len() by {
            assert(order[k] < values.len());
            assert(order[k] != order[order.len() - 1]);
        }
        assert forall|i: int, j: int| 0 <= i < j < moved.len() implies moved[i] != moved[j] by {
            assert(order[i] != order[j]);
            assert(order[i] != order[order.len() - 1]);
            assert(order[j] != order[order.len() - 1]);
        }
        lemma_permutation_keeps_multiset(rest, moved);
        let picked_rest = Seq::new(moved.len(), |i: int| rest[moved[i] as int]);
        assert(picked.drop_last() =~= picked_rest) by {
            assert forall|i: int| 0 <= i < picked_rest.len() implies picked.drop_last()[i]
                == #[trigger] picked_rest[i] by {
                assert(order[i] < values.len());
                assert(order[i] != order[order.len() - 1]);
            }
        }
        assert(picked =~= picked.drop_last().push(values[last]));
        assert(picked.to_multiset() == picked_rest.to_multiset().insert(values[last]));
        assert(values.to_multiset() =~= rest.to_multiset().insert(values[last])) by {
            assert(values.remove(last).to_multiset() =~= values.to_multiset().remove(values[last]));
            assert(values.contains(values[last]));
        }
    }
}

} // verus!
