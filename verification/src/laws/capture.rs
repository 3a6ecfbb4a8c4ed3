//! What a command line asks for, and what is captured then.

use crate::brackets::auto_mode::BracketColorizationPaletteStrategy;
use crate::brackets::palette::{AutoBracketColorizationConfig, Measure};
use crate::capture::options::{
    Argument, Flag, Options, OptionsError, OptionsErrorView, OptionsView,
};
use crate::capture::plan::{AutoTreatment, CapturePaths, Shot, ShotAccents};
use crate::capture::{labels, options, plan};
use crate::laws;
use crate::text;
use vstd::prelude::*;

verus! {

/// A flag sets the option that bears its name to its value and leaves every other as it
/// was. It is refused exactly where its value is not what it takes.
pub proof fn law_flags_set_their_own_options(before: OptionsView, flag: Flag, value: Argument)
    ensures
        ({
            let list = options::parsed_list(options::threshold_parts(value.text@), value.list@);
            let takes_list = flag is StackUpstreamApcaThresholds
                || flag is StackAutoBackgroundApcaThresholds
                || flag is StackAutoAdjacentOklabThresholds;
            match before.with(flag, value) {
                Ok(after) => {
                    let config = after.auto_config;
                    let old_config = before.auto_config;
                    &&& takes_list ==> list is Ok
                    &&& !takes_list && !(flag is OutputDir) ==> value.number is Some
                    &&& after.theme_paths == before.theme_paths
                    &&& after.output_directory == if flag is OutputDir {
                        Some(value.text@)
                    } else {
                        before.output_directory
                    }
                    &&& after.upstream_apca_threshold == if flag is UpstreamApcaThreshold {
                        value.number->0
                    } else {
                        before.upstream_apca_threshold
                    }
                    &&& config.minimum_background_apca_light == if flag
                        is AutoBackgroundApcaLightThreshold {
                        value.number->0
                    } else {
                        old_config.minimum_background_apca_light
                    }
                    &&& config.minimum_background_apca_dark == if flag
                        is AutoBackgroundApcaDarkThreshold {
                        value.number->0
                    } else {
                        old_config.minimum_background_apca_dark
                    }
                    &&& config.minimum_adjacent_oklab_light == if flag
                        is AutoAdjacentOklabLightThreshold {
                        value.number->0
                    } else {
                        old_config.minimum_adjacent_oklab_light
                    }
                    &&& config.minimum_adjacent_oklab_dark == if flag
                        is AutoAdjacentOklabDarkThreshold {
                        value.number->0
                    } else {
                        old_config.minimum_adjacent_oklab_dark
                    }
                    &&& config.lightness_clamp_min == old_config.lightness_clamp_min
                    &&& config.lightness_clamp_max == old_config.lightness_clamp_max
                    &&& after.stacked_upstream_apca_thresholds == if flag
                        is StackUpstreamApcaThresholds {
                        list->Ok_0
                    } else {
                        before.stacked_upstream_apca_thresholds
                    }
                    &&& after.stacked_auto_background_apca_thresholds == if flag
                        is StackAutoBackgroundApcaThresholds {
                        list->Ok_0
                    } else {
                        before.stacked_auto_background_apca_thresholds
                    }
                    &&& after.stacked_auto_adjacent_oklab_thresholds == if flag
                        is StackAutoAdjacentOklabThresholds {
                        list->Ok_0
                    } else {
                        before.stacked_auto_adjacent_oklab_thresholds
                    }
                },
                Err(error) => {
                    ||| takes_list && list == Err::<Seq<Measure>, OptionsErrorView>(error)
                    ||| !takes_list && !(flag is OutputDir) && value.number is None && error
                        == OptionsErrorView::NotANumber(flag)
                },
            }
        }),
{
}

/// A list of thresholds is read where each of its parts is a number, as these numbers
/// in their order; the first part that is none is the error.
pub proof fn law_lists_are_read_part_by_part(
    parts: Seq<Seq<char>>,
    numbers: Seq<Option<Measure>>,
)
    requires
        parts.len() == numbers.len(),
    ensures
        match options::parsed_list(parts, numbers) {
            Ok(list) => list.len() == parts.len() && forall|place: int|
                0 <= place < list.len() ==> #[trigger] numbers[place] == Some(list[place]),
            Err(error) => exists|place: int|
                0 <= place < parts.len() && #[trigger] numbers[place] is None && error
                    == OptionsErrorView::NotAThreshold(parts[place]) && forall|earlier: int|
                    0 <= earlier < place ==> #[trigger] numbers[earlier] is Some,
        },
    decreases parts.len(),
{
    if parts.len() > 0 {
        let fewer = numbers.drop_last();
        let last = parts.len() - 1;
        law_lists_are_read_part_by_part(parts.drop_last(), fewer);
        match options::parsed_list(parts.drop_last(), fewer) {
            Ok(before) => {
                assert forall|place: int| 0 <= place < last implies #[trigger] numbers[place]
                    == Some(before[place]) by {
                    assert(fewer[place] == numbers[place]);
                }
                if numbers[last] is None {
                    assert(options::parsed_list(parts, numbers) == Err::<
                        Seq<Measure>,
                        OptionsErrorView,
                    >(OptionsErrorView::NotAThreshold(parts[last])));
                }
            },
            Err(error) => {
                let place = choose|place: int|
                    0 <= place < fewer.len() && #[trigger] fewer[place] is None && error
                        == OptionsErrorView::NotAThreshold(parts.drop_last()[place]) && forall|
                        earlier: int,
                    |
                        0 <= earlier < place ==> #[trigger] fewer[earlier] is Some;
                assert(numbers[place] is None);
                assert forall|earlier: int| 0 <= earlier < place implies #[trigger] numbers[earlier]
                    is Some by {
                    assert(fewer[earlier] == numbers[earlier]);
                }
            },
        }
    }
}

/// The parts of a list of thresholds hold no comma, are not empty, and have no white
/// space at their ends.
pub proof fn law_threshold_parts_are_clean(list: Seq<char>, index: int)
    requires
        0 <= index < options::threshold_parts(list).len(),
    ensures
        ({
            let part = options::threshold_parts(list)[index];
            &&& part.len() > 0
            &&& !text::is_white_space(part[0])
            &&& !text::is_white_space(part.last())
            &&& !part.contains(',')
        }),
{
    let pieces = text::pieces(list, ',');
    let trimmed = pieces.map_values(|piece: Seq<char>| text::trimmed(piece));
    let nonempty = |piece: Seq<char>| piece.len() > 0;
    let part = options::threshold_parts(list)[index];
    trimmed.lemma_filter_contains_rev(nonempty, part);
    trimmed.filter_lemma(nonempty);
    assert(nonempty(options::threshold_parts(list)[index]));
    let place = choose|place: int| 0 <= place < trimmed.len() && trimmed[place] == part;
    assert(part == text::trimmed(pieces[place]));
    laws::text::law_trimming_takes_white_space_alone(pieces[place]);
    laws::text::law_join_undoes_split(list, ',');
    let (start, end) = choose|start: int, end: int| #[trigger]
        laws::text::is_trimmed_to(pieces[place], start, end);
    if part.contains(',') {
        let at = choose|at: int| 0 <= at < part.len() && part[at] == ',';
        assert(pieces[place][start + at] == ',');
        assert(pieces[place].contains(','));
    }
}

/// Arguments that name no flag are theme files, in their order, and everything else is
/// as it was. Without a theme file the command line is refused.
pub proof fn law_other_arguments_are_theme_files(before: OptionsView, arguments: Seq<Argument>)
    requires
        forall|place: int|
            0 <= place < arguments.len() ==> Flag::spec_named((#[trigger] arguments[place]).text@)
                is None,
    ensures
        match before.read(arguments) {
            Ok(after) => {
                &&& after.theme_paths == before.theme_paths + Seq::new(
                    arguments.len(),
                    |place: int| arguments[place].text@,
                )
                &&& after.theme_paths.len() > 0
                &&& after.output_directory == before.output_directory
                &&& after.upstream_apca_threshold == before.upstream_apca_threshold
                &&& after.auto_config == before.auto_config
                &&& after.stacked_upstream_apca_thresholds
                    == before.stacked_upstream_apca_thresholds
                &&& after.stacked_auto_background_apca_thresholds
                    == before.stacked_auto_background_apca_thresholds
                &&& after.stacked_auto_adjacent_oklab_thresholds
                    == before.stacked_auto_adjacent_oklab_thresholds
            },
            Err(error) => error == OptionsErrorView::Usage && before.theme_paths.len()
                + arguments.len() == 0,
        },
    decreases arguments.len(),
{
    if arguments.len() > 0 {
        let rest = arguments.skip(1);
        assert forall|place: int| 0 <= place < rest.len() implies Flag::spec_named(
            (#[trigger] rest[place]).text@,
        ) is None by {
            assert(rest[place] == arguments[place + 1]);
        }
        let next = OptionsView {
            theme_paths: before.theme_paths.push(arguments[0].text@),
            ..before
        };
        law_other_arguments_are_theme_files(next, rest);
        assert(next.theme_paths + Seq::new(rest.len(), |place: int| rest[place].text@)
            =~= before.theme_paths + Seq::new(
            arguments.len(),
            |place: int| arguments[place].text@,
        ));
    } else {
        assert(before.theme_paths + Seq::new(
            arguments.len(),
            |place: int| arguments[place].text@,
        ) =~= before.theme_paths);
    }
}

/// A flag takes the argument behind it, whatever that is, and reading goes on behind
/// both; a flag at the end is refused.
pub proof fn law_flags_take_the_next_argument(
    before: OptionsView,
    flag: Flag,
    named: Argument,
    value: Argument,
    rest: Seq<Argument>,
)
    requires
        Flag::spec_named(named.text@) == Some(flag),
    ensures
        before.read(seq![named]) == Err::<OptionsView, OptionsErrorView>(
            OptionsErrorView::MissingValue(flag),
        ),
        before.read(seq![named, value] + rest) == match before.with(flag, value) {
            Ok(after) => after.read(rest),
            Err(error) => Err(error),
        },
{
    assert((seq![named, value] + rest).skip(2) =~= rest);
}

/// Before any argument is read there are no theme files, no directory and no stacks,
/// and the thresholds are those for light and dark themes that are known to work: a
/// contrast of 35 and 30 and a distance of a tenth and eight hundredths, counted in
/// parts of which 2 to the power of 40 make one.
pub proof fn law_options_start_with_known_thresholds()
    ensures
        ({
            let start = OptionsView::initial();
            let config = start.auto_config;
            &&& start.theme_paths.len() == 0
            &&& start.output_directory is None
            &&& start.upstream_apca_threshold == 55 * 1_099_511_627_776
            &&& start.stacked_upstream_apca_thresholds.len() == 0
            &&& start.stacked_auto_background_apca_thresholds.len() == 0
            &&& start.stacked_auto_adjacent_oklab_thresholds.len() == 0
            &&& config.minimum_background_apca_light == 35 * 1_099_511_627_776
            &&& config.minimum_background_apca_dark == 30 * 1_099_511_627_776
            &&& is_nearly(config.minimum_adjacent_oklab_light, 10)
            &&& is_nearly(config.minimum_adjacent_oklab_dark, 8)
            &&& is_nearly(config.lightness_clamp_min, 18)
            &&& is_nearly(config.lightness_clamp_max, 92)
        }),
{
}

/// A measure is so many hundredths, up to the precision of a single-precision number.
pub open spec fn is_nearly(value: Measure, hundredths: int) -> bool {
    -3_276_800 <= 100 * value - hundredths * 1_099_511_627_776 <= 3_276_800
}

/// Flags are written as they are documented.
pub proof fn law_flags_are_written_by_name()
    ensures
        Flag::OutputDir.spec_name() == "--output-dir"@,
        Flag::UpstreamApcaThreshold.spec_name() == "--upstream-apca-threshold"@,
        Flag::StackUpstreamApcaThresholds.spec_name() == "--stack-upstream-apca-thresholds"@,
        Flag::AutoBackgroundApcaLightThreshold.spec_name()
            == "--auto-background-apca-light-threshold"@,
        Flag::AutoBackgroundApcaDarkThreshold.spec_name()
            == "--auto-background-apca-dark-threshold"@,
        Flag::AutoAdjacentOklabLightThreshold.spec_name()
            == "--auto-adjacent-oklab-light-threshold"@,
        Flag::AutoAdjacentOklabDarkThreshold.spec_name()
            == "--auto-adjacent-oklab-dark-threshold"@,
        Flag::StackAutoBackgroundApcaThresholds.spec_name()
            == "--stack-auto-background-apca-thresholds"@,
        Flag::StackAutoAdjacentOklabThresholds.spec_name()
            == "--stack-auto-adjacent-oklab-thresholds"@,
{
}

/// An argument names a flag exactly if it is written as that flag is.
pub proof fn law_only_names_are_flags(argument: Seq<char>)
    ensures
        Flag::spec_named(argument) matches Some(flag) ==> argument == flag.spec_name(),
{
}

/// A refused command line is answered by what was expected, of which flag.
pub proof fn law_refusals_name_the_flag(flag: Flag, part: Seq<char>)
    ensures
        OptionsErrorView::MissingValue(flag).message() == match flag {
            Flag::OutputDir => "expected directory after "@,
            Flag::StackUpstreamApcaThresholds => "expected comma-separated thresholds after "@,
            Flag::StackAutoBackgroundApcaThresholds => "expected comma-separated thresholds after "@,
            Flag::StackAutoAdjacentOklabThresholds => "expected comma-separated thresholds after "@,
            _ => "expected threshold after "@,
        } + flag.spec_name(),
        OptionsErrorView::NotANumber(flag).message() == "failed to parse "@ + flag.spec_name()
            + " as a number"@,
        OptionsErrorView::NotAThreshold(part).message() == "failed to parse APCA threshold `"@
            + part + "`"@,
        OptionsErrorView::Usage.message()
            == "usage: cargo run -p zed --features visual-tests --bin zed_bracket_contrast_capture -- [--output-dir <dir>] [--upstream-apca-threshold <value>] [--stack-upstream-apca-thresholds <comma-separated-values>] [--auto-background-apca-light-threshold <value>] [--auto-background-apca-dark-threshold <value>] [--auto-adjacent-oklab-light-threshold <value>] [--auto-adjacent-oklab-dark-threshold <value>] [--stack-auto-background-apca-thresholds <comma-separated-values>] [--stack-auto-adjacent-oklab-thresholds <comma-separated-values>] <theme.json> [theme.json ...]"@,
{
}

/// The first three images show the theme as it is, each accent adjusted on its own, and
/// auto mode; behind them come the stacks, one image for each threshold.
pub proof fn law_comparisons_are_captured_first(
    upstream: Measure,
    auto: AutoTreatment,
    stacked_upstream: Seq<Measure>,
    stacked_background: Seq<(Measure, AutoTreatment)>,
    stacked_adjacent: Seq<(Measure, AutoTreatment)>,
    place: int,
)
    ensures
        ({
            let shots = plan::planned_shots(
                upstream,
                auto,
                stacked_upstream,
                stacked_background,
                stacked_adjacent,
            );
            let background_start = 3 + stacked_upstream.len();
            let adjacent_start = background_start + stacked_background.len();
            &&& shots.len() == adjacent_start + stacked_adjacent.len()
            &&& shots[0] == Shot::RawTheme
            &&& shots[1] == Shot::Upstream(upstream)
            &&& shots[2] == Shot::Auto(auto)
            &&& 0 <= place < stacked_upstream.len() ==> shots[3 + place]
                == Shot::StackedUpstream(stacked_upstream[place])
            &&& 0 <= place < stacked_background.len() ==> shots[background_start + place]
                == Shot::StackedBackground(
                stacked_background[place].0,
                stacked_background[place].1,
            )
            &&& 0 <= place < stacked_adjacent.len() ==> shots[adjacent_start + place]
                == Shot::StackedAdjacent(stacked_adjacent[place].0, stacked_adjacent[place].1)
        }),
{
}

/// A stack is there exactly if it has images, and shows the theme as it is before them.
pub proof fn law_stacks_begin_with_the_theme(stack: Option<Vec<usize>>, first: nat, count: nat)
    requires
        first + count <= usize::MAX,
        plan::is_stack(stack, first, count),
    ensures
        stack is Some == (count > 0),
        stack matches Some(places) ==> {
            &&& places@.len() == count + 1
            &&& places@[0] == 0
            &&& forall|place: int|
                0 < place <= count ==> #[trigger] places@[place] == first + place - 1
        },
{
}

/// Images show the accents that their kind says: a stack by contrast changes the
/// thresholds for contrast alone, a stack by distance those for distance.
pub proof fn law_shots_use_their_own_thresholds(
    threshold: Measure,
    treatment: AutoTreatment,
    config: AutoBracketColorizationConfig,
)
    ensures
        Shot::RawTheme.spec_accents(config) == ShotAccents::Theme,
        Shot::Upstream(threshold).spec_accents(config) == ShotAccents::PerAccent(threshold),
        Shot::StackedUpstream(threshold).spec_accents(config) == ShotAccents::PerAccent(threshold),
        Shot::Auto(treatment).spec_accents(config) == ShotAccents::Auto(config),
        ({
            &&& Shot::StackedBackground(threshold, treatment).spec_accents(config) matches
                ShotAccents::Auto(changed)
            &&& changed.minimum_background_apca_light == threshold
            &&& changed.minimum_background_apca_dark == threshold
            &&& changed.minimum_adjacent_oklab_light == config.minimum_adjacent_oklab_light
            &&& changed.minimum_adjacent_oklab_dark == config.minimum_adjacent_oklab_dark
            &&& changed.lightness_clamp_min == config.lightness_clamp_min
            &&& changed.lightness_clamp_max == config.lightness_clamp_max
        }),
        ({
            &&& Shot::StackedAdjacent(threshold, treatment).spec_accents(config) matches
                ShotAccents::Auto(changed)
            &&& changed.minimum_background_apca_light == config.minimum_background_apca_light
            &&& changed.minimum_background_apca_dark == config.minimum_background_apca_dark
            &&& changed.minimum_adjacent_oklab_light == threshold
            &&& changed.minimum_adjacent_oklab_dark == threshold
            &&& changed.lightness_clamp_min == config.lightness_clamp_min
            &&& changed.lightness_clamp_max == config.lightness_clamp_max
        }),
{
}

/// What was done to a palette, in a few words: whether accents were adjusted, and
/// whether they were reordered.
pub open spec fn treatment_words(adjusted: bool, reordered: bool) -> Seq<char> {
    if adjusted && reordered {
        "minimal per-accent background fix + adjacency reorder"@
    } else if reordered {
        "adjacency reorder only"@
    } else if adjusted {
        "minimal per-accent background fix only"@
    } else {
        "unchanged"@
    }
}

/// A threshold in words, with some digits behind the point.
pub open spec fn threshold_words(threshold: Option<Measure>, places: nat) -> Seq<char> {
    if threshold is Some {
        labels::measure_text(threshold->0, places)
    } else {
        "n/a"@
    }
}

/// The caption of auto mode tells what was done, and then the threshold for contrast
/// with one digit behind the point and that for distance with two.
pub open spec fn auto_words(treatment: AutoTreatment) -> Seq<char> {
    let strategy = treatment.strategy;
    "Proposed Auto Behavior - "@ + treatment_words(
        strategy is AdjustedBackgroundPalette || strategy is AdjustedBackgroundAndReorderedPalette,
        strategy is ReorderedWeakPalette || strategy is AdjustedBackgroundAndReorderedPalette,
    ) + " [APCA "@ + threshold_words(treatment.background_threshold, 1) + " | OKLab "@
        + threshold_words(treatment.adjacent_threshold, 2) + "]"@
}

/// Captions tell how an image was made, and failures which image of which theme is
/// missing, at which threshold.
pub proof fn law_captions_tell_what_is_shown(
    threshold: Measure,
    treatment: AutoTreatment,
    theme: Seq<char>,
)
    ensures
        Shot::RawTheme.spec_caption() == "Raw Theme Order - unchanged"@,
        Shot::Upstream(threshold).spec_caption() == "Current Upstream Behavior - APCA "@
            + labels::measure_text(threshold, 1) + " per-accent adjustment"@,
        Shot::StackedUpstream(threshold).spec_caption() == Shot::Upstream(threshold).spec_caption(),
        Shot::Auto(treatment).spec_caption() == auto_words(treatment),
        Shot::StackedBackground(threshold, treatment).spec_caption() == auto_words(treatment),
        Shot::StackedAdjacent(threshold, treatment).spec_caption() == auto_words(treatment),
        Shot::RawTheme.spec_failure(theme) == "failed to capture theme-mode screenshot for "@
            + theme,
        Shot::Upstream(threshold).spec_failure(theme)
            == "failed to capture upstream screenshot for "@ + theme,
        Shot::Auto(treatment).spec_failure(theme) == "failed to capture auto-mode screenshot for "@
            + theme,
        Shot::StackedUpstream(threshold).spec_failure(theme)
            == "failed to capture APCA-threshold comparison screenshot for "@ + theme + " at "@
            + labels::measure_text(threshold, 1),
        Shot::StackedBackground(threshold, treatment).spec_failure(theme)
            == "failed to capture auto background-threshold comparison for "@ + theme + " at "@
            + labels::measure_text(threshold, 1),
        Shot::StackedAdjacent(threshold, treatment).spec_failure(theme)
            == "failed to capture auto adjacent-threshold comparison for "@ + theme + " at "@
            + labels::measure_text(threshold, 2),
{
}

/// The caption stands in the first comment of the program that is shown, and the rest of
/// the program is the same under every caption.
pub proof fn law_programs_show_their_caption(caption: Seq<char>, other: Seq<char>)
    ensures
        ({
            let shown = plan::demo_source_text(caption);
            let shown_other = plan::demo_source_text(other);
            let start = "fn main() {\n    // "@.len() as int;
            &&& shown.take(start) == "fn main() {\n    // "@
            &&& shown.subrange(start, start + caption.len()) == caption
            &&& shown.skip(start + caption.len()) == shown_other.skip(start + other.len())
            &&& shown.skip(start + caption.len())
                == "\n\n    // Direct adjacent brackets\n    [[[[[[[[[[[[[[[[[[[]]]]]]]]]]]]]]]]]]]\n\n    // Mixed delimiters at nearby depths\n    let _ = vec![(Some([1, 2, 3]), Ok::<_, ()>({ [4, 5, 6] }))];\n\n    // Multiline nesting\n    let _value = foo(\n        bar(\n            baz([\n                alpha({ beta(gamma([delta(), epsilon()])) }),\n                zeta([eta({ theta(iota()) })]),\n            ]),\n        ),\n    );\n\n    if true {\n        while let Some(value) = maybe_call(vec![Some((1, [2, 3, 4]))]) {\n            println!(\"{value:?}\");\n        }\n    }\n}\n"@
        }),
{
    let shown = plan::demo_source_text(caption);
    let shown_other = plan::demo_source_text(other);
    let start = "fn main() {\n    // "@.len() as int;
    assert(shown.take(start) =~= "fn main() {\n    // "@);
    assert(shown.subrange(start, start + caption.len()) =~= caption);
    assert(shown.skip(start + caption.len()) =~= shown_other.skip(start + other.len()));
    assert(shown.skip(start + caption.len())
        =~= "\n\n    // Direct adjacent brackets\n    [[[[[[[[[[[[[[[[[[[]]]]]]]]]]]]]]]]]]]\n\n    // Mixed delimiters at nearby depths\n    let _ = vec![(Some([1, 2, 3]), Ok::<_, ()>({ [4, 5, 6] }))];\n\n    // Multiline nesting\n    let _value = foo(\n        bar(\n            baz([\n                alpha({ beta(gamma([delta(), epsilon()])) }),\n                zeta([eta({ theta(iota()) })]),\n            ]),\n        ),\n    );\n\n    if true {\n        while let Some(value) = maybe_call(vec![Some((1, [2, 3, 4]))]) {\n            println!(\"{value:?}\");\n        }\n    }\n}\n"@);
}

/// What auto mode did is told by strategy.
pub proof fn law_strategies_are_told_apart()
    ensures
        labels::strategy_text(BracketColorizationPaletteStrategy::ThemeOrder) == "theme order"@,
        labels::strategy_text(BracketColorizationPaletteStrategy::PreservedSmallPalette)
            == "palette too small to reorder"@,
        labels::strategy_text(BracketColorizationPaletteStrategy::PreservedStrongPalette)
            == "contrast already sufficient"@,
        labels::strategy_text(BracketColorizationPaletteStrategy::PreservedWeakPalette)
            == "weak palette kept in theme order"@,
        labels::strategy_text(BracketColorizationPaletteStrategy::AdjustedBackgroundPalette)
            == "adjusted only the background-failing accents"@,
        labels::strategy_text(BracketColorizationPaletteStrategy::ReorderedWeakPalette)
            == "reordered weak palette"@,
        labels::strategy_text(
            BracketColorizationPaletteStrategy::AdjustedBackgroundAndReorderedPalette,
        ) == "adjusted background-failing accents, then reordered"@,
{
}

/// The entry of a colour in a palette is its place, counted from one, and the colour;
/// in a mapping it is the first place where the colour stood in the other palette.
pub proof fn law_places_are_counted_from_one(
    place: int,
    color: labels::RgbaBytes,
    original: Seq<crate::brackets::palette::Hsla>,
    moved: crate::brackets::palette::Hsla,
)
    requires
        0 <= place,
    ensures
        labels::palette_entry_text(place, color) == "`"@ + text::decimal((place + 1) as nat) + ":"@
            + labels::color_text(color) + "`"@,
        (forall|index: int| 0 <= index < original.len() ==> #[trigger] original[index] != moved)
            ==> labels::place_text(original, moved) == "?"@,
        place < original.len() && original[place] == moved && (forall|index: int|
            0 <= index < place ==> #[trigger] original[index] != moved) ==> labels::place_text(
            original,
            moved,
        ) == text::decimal((place + 1) as nat),
{
    if place < original.len() && original[place] == moved {
        assert(original.contains(moved));
        original.index_of_first_ensures(moved);
    }
}

/// Palettes and mappings are listed entry by entry, with commas between them.
pub proof fn law_listings_grow_by_entries(
    palette: Seq<labels::RgbaBytes>,
    color: labels::RgbaBytes,
    original: Seq<crate::brackets::palette::Hsla>,
    others: Seq<crate::brackets::palette::Hsla>,
    moved: crate::brackets::palette::Hsla,
)
    ensures
        labels::palette_text(Seq::empty()).len() == 0,
        labels::palette_text(palette.push(color)) == if palette.len() == 0 {
            labels::palette_entry_text(0, color)
        } else {
            labels::palette_text(palette) + ", "@ + labels::palette_entry_text(
                palette.len() as int,
                color,
            )
        },
        labels::order_mapping_text(original, Seq::empty()).len() == 0,
        labels::order_mapping_text(original, others.push(moved)) == if others.len() == 0 {
            labels::place_text(original, moved)
        } else {
            labels::order_mapping_text(original, others) + ", "@ + labels::place_text(
                original,
                moved,
            )
        },
{
    let more = palette.push(color);
    let entries = Seq::new(palette.len(), |i: int| labels::palette_entry_text(i, palette[i]));
    let all = Seq::new(more.len(), |i: int| labels::palette_entry_text(i, more[i]));
    assert(all.drop_last() =~= entries);
    let moves = others.push(moved);
    let places = Seq::new(others.len(), |i: int| labels::place_text(original, others[i]));
    let all_places = Seq::new(moves.len(), |i: int| labels::place_text(original, moves[i]));
    assert(all_places.drop_last() =~= places);
}

/// The images of a theme are announced under short names: four that are always there,
/// and behind them the stacks that are there.
pub proof fn law_images_are_announced_by_name(paths: CapturePaths)
    ensures
        ({
            let lines = paths.announcement();
            let upstream = laws::report::one_if(paths.upstream_threshold_stack is Some);
            let contrast = laws::report::one_if(paths.auto_background_threshold_stack is Some);
            let distance = laws::report::one_if(paths.auto_adjacent_threshold_stack is Some);
            &&& lines.len() == 4 + upstream + contrast + distance
            &&& lines[0] == "theme  : "@ + paths.raw_theme@
            &&& lines[1] == "upstream: "@ + paths.upstream@
            &&& lines[2] == "auto   : "@ + paths.auto_mode@
            &&& lines[3] == "compare: "@ + paths.comparison@
            &&& paths.upstream_threshold_stack matches Some(path) ==> lines[4] == "apca   : "@
                + path@
            &&& paths.auto_background_threshold_stack matches Some(path) ==> lines[4 + upstream]
                == "auto-bg: "@ + path@
            &&& paths.auto_adjacent_threshold_stack matches Some(path) ==> lines[4 + upstream
                + contrast] == "auto-adj: "@ + path@
        }),
{
}

/// Images are named by what they show, behind the family and the theme.
pub proof fn law_names_end_in_what_is_shown(
    family: Seq<char>,
    theme: Seq<char>,
    suffix: Seq<char>,
)
    ensures
        plan::capture_name(family, theme, suffix) == crate::capture::slug::slug_of(family) + "-"@
            + crate::capture::slug::slug_of(theme) + "-"@ + suffix + ".png"@,
{
}

/// Options are read by their own names.
pub proof fn law_options_are_read_by_name(read: Options, place: int)
    ensures
        read@.theme_paths.len() == read.theme_paths@.len(),
        0 <= place < read.theme_paths@.len() ==> read@.theme_paths[place]
            == read.theme_paths@[place]@,
        read@.output_directory is Some == read.output_directory is Some,
        read.output_directory matches Some(directory) ==> read@.output_directory == Some(
            directory@,
        ),
        read@.upstream_apca_threshold == read.upstream_apca_threshold,
        read@.stacked_upstream_apca_thresholds == read.stacked_upstream_apca_thresholds@,
        read@.auto_config == read.auto_config,
        read@.stacked_auto_background_apca_thresholds
            == read.stacked_auto_background_apca_thresholds@,
        read@.stacked_auto_adjacent_oklab_thresholds
            == read.stacked_auto_adjacent_oklab_thresholds@,
{
}

/// Errors are read by their own names.
pub proof fn law_errors_are_read_by_name(flag: Flag, part: String)
    ensures
        OptionsError::MissingValue(flag)@ == OptionsErrorView::MissingValue(flag),
        OptionsError::NotANumber(flag)@ == OptionsErrorView::NotANumber(flag),
        OptionsError::NotAThreshold(part)@ == OptionsErrorView::NotAThreshold(part@),
        OptionsError::Usage@ == OptionsErrorView::Usage,
{
}

/// A stack has a name exactly if there are thresholds to stack, and that is the name of
/// an image that shows the stack.
pub proof fn law_stacks_are_named_where_they_are(
    name: Option<String>,
    stacked: Seq<Measure>,
    family: Seq<char>,
    theme: Seq<char>,
    suffix: Seq<char>,
)
    requires
        plan::is_stack_name(name, stacked, family, theme, suffix),
    ensures
        name is Some == (stacked.len() > 0),
        name matches Some(name) ==> name@ == plan::capture_name(family, theme, suffix),
{
}

/// To settle is to run the tasks in the foreground, those in the background, and those
/// in the foreground again.
pub proof fn law_settling_runs_all_tasks()
    ensures
        plan::settle_round().len() == 3,
        plan::settle_round()[0] is RunUntilParked,
        plan::settle_round()[1] is RunBackgroundUntilParked,
        plan::settle_round()[2] is RunUntilParked,
{
}

/// The images of a stack lie behind the theme as it is, one after the other.
pub proof fn law_stacked_places_follow_one_another(first: nat, count: nat, place: int)
    requires
        first + count <= usize::MAX,
        0 <= place < count,
    ensures
        plan::stack_places(first, count).len() == count + 1,
        plan::stack_places(first, count)[0] == 0,
        plan::stack_places(first, count)[place + 1] == first + place,
{
}

} // verus!
