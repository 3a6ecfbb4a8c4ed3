//! Auto mode: lifts accents that are too close to the background, then
//! reorders the palette where that makes neighbours clearly distinct.

use crate::brackets::palette::{
    maximize_adjacent_separation, minimum_adjacent_distance, minimum_adjacent_intervention_distance,
    minimum_background_contrast, palette_score, Appearance, AutoBracketColorizationConfig,
    BracketColorizationMode, Hsla, MeasuredPalette, Measure, PaletteScore,
};
use crate::brackets::palette;
use vstd::prelude::*;

verus! {

/// One step of an accent towards a lighter or darker one of the same hue.
#[derive(Clone, Copy, Debug, PartialEq, Eq, Structural)]
pub struct LightnessStep {
    pub color: Hsla,
    /// The step's contrast with the background.
    pub contrast: Measure,
    /// The step's distance from the accent it started from.
    pub distance: Measure,
}

/// An accent, its contrast with the background, and the steps that lead from
/// it to the darkest and to the lightest colour allowed, nearest first. A
/// direction in which the accent already is at its limit has no steps.
#[derive(Clone, Debug)]
pub struct AccentMeasurement {
    pub color: Hsla,
    pub contrast: Measure,
    pub darker: Vec<LightnessStep>,
    pub lighter: Vec<LightnessStep>,
}

/// The first step with enough contrast.
pub open spec fn first_passing(steps: Seq<LightnessStep>, minimum: Measure) -> Option<LightnessStep>
    decreases steps.len(),
{
    if steps.len() == 0 {
        None
    } else if steps[0].contrast >= minimum {
        Some(steps[0])
    } else {
        first_passing(steps.drop_first(), minimum)
    }
}

/// Finds the step nearest to the accent that has enough contrast.
pub fn adjusted_lightness_candidate(steps: &Vec<LightnessStep>, minimum: Measure) -> (candidate:
    Option<LightnessStep>)
    ensures
        candidate == first_passing(steps@, minimum),
{
    let mut i: usize = 0;
    assert(steps@.skip(0) =~= steps@);
    while i < steps.len()
        invariant
            i <= steps@.len(),
            first_passing(steps@, minimum) == first_passing(steps@.skip(i as int), minimum),
        decreases steps@.len() - i,
    {
        if steps[i].contrast >= minimum {
            return Some(steps[i]);
        }
        assert(steps@.skip(i as int).drop_first() =~= steps@.skip(i as int + 1));
        i = i + 1;
    }
    None
}

impl AccentMeasurement {
    /// The accent as it is used: itself where its contrast is enough, else the
    /// nearer of the darker and the lighter colour that have enough, else
    /// itself.
    pub open spec fn adjusted(&self, minimum: Measure) -> Hsla {
        if self.contrast >= minimum {
            self.color
        } else {
            match (first_passing(self.darker@, minimum), first_passing(self.lighter@, minimum)) {
                (Some(darker), Some(lighter)) => if darker.distance <= lighter.distance {
                    darker.color
                } else {
                    lighter.color
                },
                (Some(darker), None) => darker.color,
                (None, Some(lighter)) => lighter.color,
                (None, None) => self.color,
            }
        }
    }
}

/// Moves an accent just far enough from the background.
pub fn adjust_color_for_background(accent: &AccentMeasurement, minimum: Measure) -> (color: Hsla)
    ensures
        color == accent.adjusted(minimum),
{
    if accent.contrast >= minimum {
        return accent.color;
    }
    let darker: Option<LightnessStep> = adjusted_lightness_candidate(&accent.darker, minimum);
    let lighter: Option<LightnessStep> = adjusted_lightness_candidate(&accent.lighter, minimum);
    match (darker, lighter) {
        (Some(darker), Some(lighter)) => if darker.distance <= lighter.distance {
            darker.color
        } else {
            lighter.color
        },
        (Some(darker), None) => darker.color,
        (None, Some(lighter)) => lighter.color,
        (None, None) => accent.color,
    }
}

/// The accents as the theme has them.
pub open spec fn colors(accents: Seq<AccentMeasurement>) -> Seq<Hsla> {
    accents.map_values(|accent: AccentMeasurement| accent.color)
}

/// The accents after each has been moved away from the background as needed.
pub open spec fn adjusted_accents(accents: Seq<AccentMeasurement>, minimum: Measure) -> Seq<Hsla> {
    accents.map_values(|accent: AccentMeasurement| accent.adjusted(minimum))
}

/// A palette measured anew is what some accents become once each that is too close
/// to the background was moved away from it.
pub open spec fn is_adjusted(
    adjusted: &MeasuredPalette,
    accents: Seq<AccentMeasurement>,
    appearance: Appearance,
    config: AutoBracketColorizationConfig,
) -> bool {
    &&& adjusted.well_formed()
    &&& adjusted.accents@ == adjusted_accents(
        accents,
        palette::spec_minimum_background_contrast(appearance, config),
    )
}

/// Adjusts every accent of a palette that is too close to the background.
pub fn adjust_background_failures(accents: &Vec<AccentMeasurement>, minimum: Measure) -> (adjusted:
    Vec<Hsla>)
    ensures
        adjusted@ == adjusted_accents(accents@, minimum),
{
    let mut adjusted: Vec<Hsla> = Vec::new();
    let mut i: usize = 0;
    while i < accents.len()
        invariant
            i <= accents@.len(),
            adjusted@ == adjusted_accents(accents@, minimum).take(i as int),
        decreases accents@.len() - i,
    {
        adjusted.push(adjust_color_for_background(&accents[i], minimum));
        i = i + 1;
        assert(adjusted@ =~= adjusted_accents(accents@, minimum).take(i as int));
    }
    assert(adjusted@ =~= adjusted_accents(accents@, minimum));
    adjusted
}

/// Accents with enough contrast keep their colour; the palette keeps its length.
pub proof fn law_passing_accents_are_kept(accents: Seq<AccentMeasurement>, minimum: Measure)
    ensures
        adjusted_accents(accents, minimum).len() == accents.len(),
        forall|i: int|
            0 <= i < accents.len() && accents[i].contrast >= minimum
                ==> #[trigger] adjusted_accents(accents, minimum)[i] == accents[i].color,
{
}

/// Where some step of an accent has enough contrast, the adjusted colour is the
/// accent with enough contrast or a step with enough contrast.
pub proof fn law_adjusted_accent_passes(accent: AccentMeasurement, minimum: Measure)
    requires
        accent.contrast >= minimum || first_passing(accent.darker@, minimum) is Some
            || first_passing(accent.lighter@, minimum) is Some,
    ensures
        ({
            ||| accent.contrast >= minimum && accent.adjusted(minimum) == accent.color
            ||| exists|i: int|
                0 <= i < accent.darker@.len() && (#[trigger] accent.darker@[i]).contrast >= minimum
                    && accent.darker@[i].color == accent.adjusted(minimum)
            ||| exists|i: int|
                0 <= i < accent.lighter@.len() && (#[trigger] accent.lighter@[i]).contrast
                    >= minimum && accent.lighter@[i].color == accent.adjusted(minimum)
        }),
{
    lemma_first_passing_is_a_step(accent.darker@, minimum);
    lemma_first_passing_is_a_step(accent.lighter@, minimum);
}

proof fn lemma_first_passing_is_a_step(steps: Seq<LightnessStep>, minimum: Measure)
    ensures
        first_passing(steps, minimum) matches Some(step) ==> step.contrast >= minimum && exists|i: int|
            0 <= i < steps.len() && #[trigger] steps[i] == step,
    decreases steps.len(),
{
    if steps.len() > 0 && steps[0].contrast < minimum {
        let rest = steps.drop_first();
        lemma_first_passing_is_a_step(rest, minimum);
        if first_passing(rest, minimum) is Some {
            let step = first_passing(rest, minimum)->0;
            let i = choose|i: int| 0 <= i < rest.len() && #[trigger] rest[i] == step;
            assert(steps[i + 1] == step);
        }
    }
}

/// What auto mode decided for a palette.
#[derive(Clone, Copy, Debug, PartialEq, Eq, Structural)]
pub enum BracketColorizationPaletteStrategy {
    ThemeOrder,
    PreservedSmallPalette,
    PreservedStrongPalette,
    PreservedWeakPalette,
    AdjustedBackgroundPalette,
    ReorderedWeakPalette,
    AdjustedBackgroundAndReorderedPalette,
}

/// The palette of a mode, with how it came about.
#[derive(Clone, Debug)]
pub struct BracketColorizationPaletteAnalysis {
    pub mode: BracketColorizationMode,
    pub appearance: Appearance,
    pub original_palette: Vec<Hsla>,
    pub final_palette: Vec<Hsla>,
    pub original_score: PaletteScore,
    pub final_score: PaletteScore,
    pub adjacent_threshold: Option<Measure>,
    pub background_threshold: Option<Measure>,
    pub changed: bool,
    pub strategy: BracketColorizationPaletteStrategy,
}

/// Auto mode reorders an adjusted palette of three or more accents whose
/// neighbours are too close, where the reordered one reaches the distance that
/// the adjusted one misses.
pub open spec fn reorders(
    adjusted: &MeasuredPalette,
    appearance: Appearance,
    config: AutoBracketColorizationConfig,
) -> bool {
    let threshold = palette::spec_minimum_adjacent_distance(appearance, config);
    let intervention = palette::spec_minimum_adjacent_intervention_distance(
        appearance,
        config,
    );
    &&& adjusted.accents@.len() >= 3
    &&& adjusted.spec_score().min_adjacent_distance < threshold
    &&& adjusted.spec_score().min_adjacent_distance < intervention
    &&& adjusted.score_in(adjusted.separated_order()).min_adjacent_distance >= intervention
}

/// The accents that auto mode ends with.
pub open spec fn auto_palette(
    adjusted: &MeasuredPalette,
    appearance: Appearance,
    config: AutoBracketColorizationConfig,
) -> Seq<Hsla> {
    if reorders(adjusted, appearance, config) {
        adjusted.permuted_accents(adjusted.separated_order())
    } else {
        adjusted.accents@
    }
}

/// The strategy that auto mode reports.
pub open spec fn auto_strategy(
    accents: Seq<Hsla>,
    adjusted: &MeasuredPalette,
    appearance: Appearance,
    config: AutoBracketColorizationConfig,
) -> BracketColorizationPaletteStrategy {
    let threshold = palette::spec_minimum_adjacent_distance(appearance, config);
    if reorders(adjusted, appearance, config) {
        if adjusted.accents@ == accents {
            BracketColorizationPaletteStrategy::ReorderedWeakPalette
        } else {
            BracketColorizationPaletteStrategy::AdjustedBackgroundAndReorderedPalette
        }
    } else if adjusted.accents@ != accents {
        BracketColorizationPaletteStrategy::AdjustedBackgroundPalette
    } else if accents.len() < 3 {
        BracketColorizationPaletteStrategy::PreservedSmallPalette
    } else if adjusted.spec_score().min_adjacent_distance >= threshold {
        BracketColorizationPaletteStrategy::PreservedStrongPalette
    } else {
        BracketColorizationPaletteStrategy::PreservedWeakPalette
    }
}

fn same_accents(left: &Vec<Hsla>, right: &Vec<Hsla>) -> (same: bool)
    ensures
        same == (left@ == right@),
{
    if left.len() != right.len() {
        return false;
    }
    let mut i: usize = 0;
    while i < left.len()
        invariant
            left@.len() == right@.len(),
            i <= left@.len(),
            forall|k: int| 0 <= k < i ==> left@[k] == right@[k],
        decreases left@.len() - i,
    {
        if left[i] != right[i] {
            return false;
        }
        i = i + 1;
    }
    assert(left@ =~= right@);
    true
}

fn copy_accents(accents: &Vec<Hsla>) -> (copy: Vec<Hsla>)
    ensures
        copy@ == accents@,
{
    let mut copy: Vec<Hsla> = Vec::new();
    let mut i: usize = 0;
    while i < accents.len()
        invariant
            i <= accents@.len(),
            copy@ == accents@.take(i as int),
        decreases accents@.len() - i,
    {
        copy.push(accents[i]);
        i = i + 1;
        assert(copy@ =~= accents@.take(i as int));
    }
    assert(copy@ =~= accents@);
    copy
}

/// The accents that brackets are coloured with: those of the theme, or the ones that
/// auto mode ends with, given the adjusted accents measured anew.
pub fn bracket_colorization_accents(
    accents: &Vec<AccentMeasurement>,
    adjusted: &MeasuredPalette,
    appearance: Appearance,
    mode: BracketColorizationMode,
) -> (palette: Vec<Hsla>)
    requires
        mode == BracketColorizationMode::Auto ==> is_adjusted(
            adjusted,
            accents@,
            appearance,
            AutoBracketColorizationConfig::spec_default(),
        ),
    ensures
        palette@ == match mode {
            BracketColorizationMode::Theme => colors(accents@),
            BracketColorizationMode::Auto => auto_palette(
                adjusted,
                appearance,
                AutoBracketColorizationConfig::spec_default(),
            ),
        },
{
    match mode {
        BracketColorizationMode::Theme => colors_of(accents),
        BracketColorizationMode::Auto => compute_auto_bracket_palette(
            accents,
            adjusted,
            appearance,
            AutoBracketColorizationConfig::default(),
        ),
    }
}

fn colors_of(accents: &Vec<AccentMeasurement>) -> (colors_found: Vec<Hsla>)
    ensures
        colors_found@ == colors(accents@),
{
    let mut colors_found: Vec<Hsla> = Vec::new();
    let mut i: usize = 0;
    while i < accents.len()
        invariant
            i <= accents@.len(),
            colors_found@ == colors(accents@).take(i as int),
        decreases accents@.len() - i,
    {
        colors_found.push(accents[i].color);
        i = i + 1;
        assert(colors_found@ =~= colors(accents@).take(i as int));
    }
    assert(colors_found@ =~= colors(accents@));
    colors_found
}

/// The accents that auto mode ends with: each is moved away from the background as
/// needed, and then, going by the adjusted accents measured anew, they are reordered
/// where that makes neighbours clearly distinct.
pub fn compute_auto_bracket_palette(
    accents: &Vec<AccentMeasurement>,
    adjusted: &MeasuredPalette,
    appearance: Appearance,
    config: AutoBracketColorizationConfig,
) -> (palette: Vec<Hsla>)
    requires
        is_adjusted(adjusted, accents@, appearance, config),
    ensures
        palette@ == auto_palette(adjusted, appearance, config),
        palette@.to_multiset() == adjusted_accents(
            accents@,
            palette::spec_minimum_background_contrast(appearance, config),
        ).to_multiset(),
{
    let background_threshold: Measure = minimum_background_contrast(appearance, config);
    let moved: Vec<Hsla> = adjust_background_failures(accents, background_threshold);
    let threshold: Measure = minimum_adjacent_distance(appearance, config);
    let intervention: Measure = minimum_adjacent_intervention_distance(appearance, config);
    if moved.len() < 3 {
        return moved;
    }
    let score: PaletteScore = palette_score(adjusted);
    if score.min_adjacent_distance >= threshold || score.min_adjacent_distance >= intervention {
        return moved;
    }
    let separated: MeasuredPalette = maximize_adjacent_separation(adjusted);
    proof {
        palette::law_separated_order_fits(adjusted);
        palette::law_reordering_moves_the_score(
            adjusted,
            adjusted.separated_order(),
            &separated,
        );
        palette::law_separated_accents_are_a_permutation(adjusted);
    }
    if palette_score(&separated).min_adjacent_distance >= intervention {
        separated.accents
    } else {
        moved
    }
}

impl BracketColorizationPaletteAnalysis {
    /// The analysis of auto mode, from the original accents and the adjusted ones.
    pub open spec fn is_auto_analysis(
        &self,
        original: &MeasuredPalette,
        adjusted: &MeasuredPalette,
        appearance: Appearance,
        config: AutoBracketColorizationConfig,
    ) -> bool {
        let adjusted_changed = adjusted.accents@ != original.accents@;
        let reordered = reorders(adjusted, appearance, config);
        &&& self.mode == BracketColorizationMode::Auto
        &&& self.appearance == appearance
        &&& self.original_palette@ == original.accents@
        &&& self.final_palette@ == auto_palette(adjusted, appearance, config)
        &&& self.original_score == original.spec_score()
        &&& self.final_score == if reordered {
            adjusted.score_in(adjusted.separated_order())
        } else if adjusted_changed {
            adjusted.spec_score()
        } else {
            original.spec_score()
        }
        &&& self.adjacent_threshold == Some(
            palette::spec_minimum_adjacent_distance(appearance, config),
        )
        &&& self.background_threshold == Some(
            palette::spec_minimum_background_contrast(appearance, config),
        )
        &&& self.changed == (reordered || adjusted_changed)
        &&& self.strategy == auto_strategy(original.accents@, adjusted, appearance, config)
    }

    /// The palette that auto mode ends with holds the adjusted accents and no others,
    /// in their order unless it reports that it reordered them, and an adjustment is
    /// reported exactly where an accent was moved. Where every accent has enough
    /// contrast, the accents are those of the theme.
    pub open spec fn adjusts_then_reorders(
        &self,
        accents: Seq<AccentMeasurement>,
        adjusted: &MeasuredPalette,
        appearance: Appearance,
        config: AutoBracketColorizationConfig,
    ) -> bool {
        let minimum = palette::spec_minimum_background_contrast(appearance, config);
        let moved = adjusted_accents(accents, minimum);
        let reordered = self.strategy == BracketColorizationPaletteStrategy::ReorderedWeakPalette
            || self.strategy
            == BracketColorizationPaletteStrategy::AdjustedBackgroundAndReorderedPalette;
        let reports_adjustment = self.strategy
            == BracketColorizationPaletteStrategy::AdjustedBackgroundPalette || self.strategy
            == BracketColorizationPaletteStrategy::AdjustedBackgroundAndReorderedPalette;
        &&& self.final_palette@ == if reordered {
            adjusted.permuted_accents(adjusted.separated_order())
        } else {
            moved
        }
        &&& self.final_palette@.to_multiset() == moved.to_multiset()
        &&& reports_adjustment <==> exists|i: int|
            0 <= i < accents.len() && (#[trigger] accents[i]).adjusted(minimum)
                != accents[i].color
        &&& (forall|i: int|
            0 <= i < accents.len() ==> (#[trigger] accents[i]).contrast >= minimum)
            ==> !reports_adjustment && self.final_palette@.to_multiset() == colors(
            accents,
        ).to_multiset()
    }

    /// The analysis of theme mode.
    pub open spec fn is_theme_analysis(
        &self,
        original: &MeasuredPalette,
        appearance: Appearance,
    ) -> bool {
        &&& self.mode == BracketColorizationMode::Theme
        &&& self.appearance == appearance
        &&& self.original_palette@ == original.accents@
        &&& self.final_palette@ == original.accents@
        &&& self.original_score == original.spec_score()
        &&& self.final_score == original.spec_score()
        &&& self.adjacent_threshold is None
        &&& self.background_threshold is None
        &&& !self.changed
        &&& self.strategy == BracketColorizationPaletteStrategy::ThemeOrder
    }
}

/// Analyses a palette under the default thresholds.
pub fn analyze_bracket_colorization_palette(
    accents: &Vec<AccentMeasurement>,
    original: &MeasuredPalette,
    adjusted: &MeasuredPalette,
    appearance: Appearance,
    mode: BracketColorizationMode,
) -> (analysis: BracketColorizationPaletteAnalysis)
    requires
        original.well_formed(),
        original.accents@ == colors(accents@),
        mode == BracketColorizationMode::Auto ==> is_adjusted(
            adjusted,
            accents@,
            appearance,
            AutoBracketColorizationConfig::spec_default(),
        ),
    ensures
        match mode {
            BracketColorizationMode::Theme => analysis.is_theme_analysis(original, appearance),
            BracketColorizationMode::Auto => analysis.is_auto_analysis(
                original,
                adjusted,
                appearance,
                AutoBracketColorizationConfig::spec_default(),
            ) && analysis.adjusts_then_reorders(
                accents@,
                adjusted,
                appearance,
                AutoBracketColorizationConfig::spec_default(),
            ),
        },
{
    analyze_bracket_colorization_palette_with_config(
        accents,
        original,
        adjusted,
        appearance,
        mode,
        AutoBracketColorizationConfig::default(),
    )
}

/// Analyses a palette: in theme mode it is kept, in auto mode it is judged by
/// the given thresholds.
pub fn analyze_bracket_colorization_palette_with_config(
    accents: &Vec<AccentMeasurement>,
    original: &MeasuredPalette,
    adjusted: &MeasuredPalette,
    appearance: Appearance,
    mode: BracketColorizationMode,
    config: AutoBracketColorizationConfig,
) -> (analysis: BracketColorizationPaletteAnalysis)
    requires
        original.well_formed(),
        original.accents@ == colors(accents@),
        mode == BracketColorizationMode::Auto ==> is_adjusted(
            adjusted,
            accents@,
            appearance,
            config,
        ),
    ensures
        match mode {
            BracketColorizationMode::Theme => analysis.is_theme_analysis(original, appearance),
            BracketColorizationMode::Auto => analysis.is_auto_analysis(
                original,
                adjusted,
                appearance,
                config,
            ) && analysis.adjusts_then_reorders(
                accents@,
                adjusted,
                appearance,
                config,
            ),
        },
{
    match mode {
        BracketColorizationMode::Theme => {
            let score: PaletteScore = palette_score(original);
            BracketColorizationPaletteAnalysis {
                mode,
                appearance,
                original_palette: copy_accents(&original.accents),
                final_palette: copy_accents(&original.accents),
                original_score: score,
                final_score: score,
                adjacent_threshold: None,
                background_threshold: None,
                changed: false,
                strategy: BracketColorizationPaletteStrategy::ThemeOrder,
            }
        },
        BracketColorizationMode::Auto => auto_bracket_colorization_analysis(
            accents,
            original,
            adjusted,
            appearance,
            config,
        ),
    }
}

/// Analyses a palette in auto mode: the accents are moved away from the background,
/// and then, going by the adjusted accents measured anew, they are kept or reordered.
pub fn auto_bracket_colorization_analysis(
    accents: &Vec<AccentMeasurement>,
    original: &MeasuredPalette,
    adjusted: &MeasuredPalette,
    appearance: Appearance,
    config: AutoBracketColorizationConfig,
) -> (analysis: BracketColorizationPaletteAnalysis)
    requires
        original.well_formed(),
        original.accents@ == colors(accents@),
        is_adjusted(adjusted, accents@, appearance, config),
    ensures
        analysis.is_auto_analysis(original, adjusted, appearance, config),
        analysis.adjusts_then_reorders(accents@, adjusted, appearance, config),
{
    let original_score: PaletteScore = palette_score(original);
    let threshold: Measure = minimum_adjacent_distance(appearance, config);
    let intervention: Measure = minimum_adjacent_intervention_distance(appearance, config);
    let background_threshold: Measure = minimum_background_contrast(appearance, config);
    let adjusted_score: PaletteScore = palette_score(adjusted);
    let moved: Vec<Hsla> = adjust_background_failures(accents, background_threshold);
    let adjusted_changed: bool = !same_accents(&moved, &original.accents);

    let kept: Option<BracketColorizationPaletteStrategy> = if original.accents.len() < 3 {
        Some(BracketColorizationPaletteStrategy::PreservedSmallPalette)
    } else if adjusted_score.min_adjacent_distance >= threshold {
        Some(BracketColorizationPaletteStrategy::PreservedStrongPalette)
    } else if adjusted_score.min_adjacent_distance >= intervention {
        Some(BracketColorizationPaletteStrategy::PreservedWeakPalette)
    } else {
        None
    };
    if let Some(strategy) = kept {
        let analysis: BracketColorizationPaletteAnalysis = build_analysis(
            appearance,
            original,
            original_score,
            moved,
            adjusted_score,
            adjusted_changed,
            threshold,
            background_threshold,
            strategy,
        );
        proof {
            law_auto_mode_adjusts_then_reorders(
                analysis,
                accents@,
                original,
                adjusted,
                appearance,
                config,
            );
        }
        return analysis;
    }
    let separated: MeasuredPalette = maximize_adjacent_separation(adjusted);
    proof {
        palette::law_separated_order_fits(adjusted);
        palette::law_reordering_moves_the_score(
            adjusted,
            adjusted.separated_order(),
            &separated,
        );
    }
    let separated_score: PaletteScore = palette_score(&separated);
    let analysis: BracketColorizationPaletteAnalysis = if separated_score.min_adjacent_distance
        >= intervention {
        BracketColorizationPaletteAnalysis {
            mode: BracketColorizationMode::Auto,
            appearance,
            original_palette: copy_accents(&original.accents),
            final_palette: separated.accents,
            original_score,
            final_score: separated_score,
            adjacent_threshold: Some(threshold),
            background_threshold: Some(background_threshold),
            changed: true,
            strategy: if adjusted_changed {
                BracketColorizationPaletteStrategy::AdjustedBackgroundAndReorderedPalette
            } else {
                BracketColorizationPaletteStrategy::ReorderedWeakPalette
            },
        }
    } else {
        build_analysis(
            appearance,
            original,
            original_score,
            moved,
            adjusted_score,
            adjusted_changed,
            threshold,
            background_threshold,
            BracketColorizationPaletteStrategy::PreservedWeakPalette,
        )
    };
    proof {
        law_auto_mode_adjusts_then_reorders(
            analysis,
            accents@,
            original,
            adjusted,
            appearance,
            config,
        );
    }
    analysis
}

/// The analysis of a palette that is not reordered: the adjusted accents and
/// score where an accent was adjusted, else the original ones under `strategy`.
fn build_analysis(
    appearance: Appearance,
    original: &MeasuredPalette,
    original_score: PaletteScore,
    moved: Vec<Hsla>,
    adjusted_score: PaletteScore,
    adjusted_changed: bool,
    adjacent_threshold: Measure,
    background_threshold: Measure,
    strategy: BracketColorizationPaletteStrategy,
) -> (analysis: BracketColorizationPaletteAnalysis)
    ensures
        analysis.mode == BracketColorizationMode::Auto,
        analysis.appearance == appearance,
        analysis.original_palette@ == original.accents@,
        analysis.final_palette@ == if adjusted_changed {
            moved@
        } else {
            original.accents@
        },
        analysis.original_score == original_score,
        analysis.final_score == if adjusted_changed {
            adjusted_score
        } else {
            original_score
        },
        analysis.adjacent_threshold == Some(adjacent_threshold),
        analysis.background_threshold == Some(background_threshold),
        analysis.changed == adjusted_changed,
        analysis.strategy == if adjusted_changed {
            BracketColorizationPaletteStrategy::AdjustedBackgroundPalette
        } else {
            strategy
        },
{
    BracketColorizationPaletteAnalysis {
        mode: BracketColorizationMode::Auto,
        appearance,
        original_palette: copy_accents(&original.accents),
        final_palette: if adjusted_changed {
            moved
        } else {
            copy_accents(&original.accents)
        },
        original_score,
        final_score: if adjusted_changed {
            adjusted_score
        } else {
            original_score
        },
        adjacent_threshold: Some(adjacent_threshold),
        background_threshold: Some(background_threshold),
        changed: adjusted_changed,
        strategy: if adjusted_changed {
            BracketColorizationPaletteStrategy::AdjustedBackgroundPalette
        } else {
            strategy
        },
    }
}

/// An analysis that reports no change ends with the palette it began with, and
/// every analysis keeps the number of accents.
pub proof fn law_unchanged_analysis_keeps_palette(
    analysis: BracketColorizationPaletteAnalysis,
    original: &MeasuredPalette,
    adjusted: &MeasuredPalette,
    appearance: Appearance,
    config: AutoBracketColorizationConfig,
)
    requires
        original.well_formed(),
        adjusted.well_formed(),
        adjusted.accents@.len() == original.accents@.len(),
        analysis.is_theme_analysis(original, appearance) || analysis.is_auto_analysis(
            original,
            adjusted,
            appearance,
            config,
        ),
    ensures
        !analysis.changed ==> analysis.final_palette@ == original.accents@,
        analysis.final_palette@.len() == original.accents@.len(),
{
    if adjusted.accents@.len() > 0 {
        palette::law_separated_order_fits(adjusted);
    }
}

/// Auto mode reorders only to turn a palette that is too close into one that is
/// far enough apart: the reordered palette reaches the intervention distance
/// that the palette before it missed, and holds the same accents.
pub proof fn law_reordering_crosses_the_threshold(
    analysis: BracketColorizationPaletteAnalysis,
    original: &MeasuredPalette,
    adjusted: &MeasuredPalette,
    appearance: Appearance,
    config: AutoBracketColorizationConfig,
)
    requires
        adjusted.well_formed(),
        analysis.is_auto_analysis(original, adjusted, appearance, config),
        analysis.strategy == BracketColorizationPaletteStrategy::ReorderedWeakPalette
            || analysis.strategy
            == BracketColorizationPaletteStrategy::AdjustedBackgroundAndReorderedPalette,
    ensures
        analysis.changed,
        adjusted.spec_score().min_adjacent_distance
            < palette::spec_minimum_adjacent_intervention_distance(
            appearance,
            config,
        ) <= analysis.final_score.min_adjacent_distance,
        analysis.final_palette@.to_multiset() == adjusted.accents@.to_multiset(),
{
    palette::law_separated_accents_are_a_permutation(adjusted);
}

/// Auto mode first moves the accents that are too close to the background, then
/// measures the palette again, then reorders what came out: every analysis that goes
/// by the adjusted accents of a palette ends with those.
pub proof fn law_auto_mode_adjusts_then_reorders(
    analysis: BracketColorizationPaletteAnalysis,
    accents: Seq<AccentMeasurement>,
    original: &MeasuredPalette,
    adjusted: &MeasuredPalette,
    appearance: Appearance,
    config: AutoBracketColorizationConfig,
)
    requires
        original.accents@ == colors(accents),
        is_adjusted(adjusted, accents, appearance, config),
        analysis.is_auto_analysis(original, adjusted, appearance, config),
    ensures
        analysis.adjusts_then_reorders(accents, adjusted, appearance, config),
{
    let minimum = palette::spec_minimum_background_contrast(appearance, config);
    let moved = adjusted_accents(accents, minimum);
    if reorders(adjusted, appearance, config) {
        palette::law_separated_accents_are_a_permutation(adjusted);
    }
    if adjusted.accents@ != original.accents@ {
        let i = choose|i: int| 0 <= i < accents.len() && moved[i] != colors(accents)[i];
        assert(exists|i: int| 0 <= i < accents.len() && moved[i] != colors(accents)[i]) by {
            if forall|i: int| 0 <= i < accents.len() ==> moved[i] == colors(accents)[i] {
                assert(moved =~= colors(accents));
            }
        }
        assert(accents[i].adjusted(minimum) != accents[i].color);
    } else {
        assert forall|i: int| 0 <= i < accents.len() implies (#[trigger] accents[i]).adjusted(
            minimum,
        ) == accents[i].color by {
            assert(moved[i] == colors(accents)[i]);
        }
    }
    if forall|i: int| 0 <= i < accents.len() ==> (#[trigger] accents[i]).contrast >= minimum {
        assert(moved =~= colors(accents));
    }
}

} // verus!
