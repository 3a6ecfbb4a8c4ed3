//! What the report on captures says, told by what was captured.

use crate::brackets::palette::{AutoBracketColorizationConfig, Measure};
use crate::capture::labels;
use crate::capture::plan::CapturePaths;
use crate::capture::report;
use crate::capture::report::ThemeCaptureResult;
use vstd::prelude::*;

verus! {

/// A line of a list: a label, and a value in code quotes.
pub open spec fn listed(label: Seq<char>, value: Seq<char>) -> Seq<char> {
    "- "@ + label + ": `"@ + value + "`\n"@
}

/// A line begins with a text.
pub open spec fn begins(line: Seq<char>, start: Seq<char>) -> bool {
    line.len() >= start.len() && line.take(start.len() as int) == start
}

/// One where something is there, nothing where it is not.
pub open spec fn one_if(there: bool) -> int {
    if there {
        1
    } else {
        0
    }
}

/// The images of a theme are listed under their own names: the four that are always
/// there, and behind them the stacks that are there, the one of the current behaviour
/// first, then the one by contrast, then the one by distance.
pub proof fn law_images_are_listed_by_name(paths: CapturePaths)
    ensures
        ({
            let lines = report::image_lines(paths);
            let upstream = one_if(paths.upstream_threshold_stack is Some);
            let contrast = one_if(paths.auto_background_threshold_stack is Some);
            let distance = one_if(paths.auto_adjacent_threshold_stack is Some);
            &&& lines.len() == 6 + upstream + contrast + distance
            &&& lines[0] == listed("Raw theme capture"@, paths.raw_theme@)
            &&& lines[1] == listed("Upstream capture"@, paths.upstream@)
            &&& lines[2] == listed("Auto capture"@, paths.auto_mode@)
            &&& lines[3] == listed("Comparison capture"@, paths.comparison@)
            &&& lines[4] == "\n"@
            &&& paths.upstream_threshold_stack matches Some(path) ==> lines[5] == listed(
                "Upstream APCA threshold stack capture"@,
                path@,
            )
            &&& paths.auto_background_threshold_stack matches Some(path) ==> lines[5 + upstream]
                == listed("Auto background APCA stack capture"@, path@)
            &&& paths.auto_adjacent_threshold_stack matches Some(path) ==> lines[5 + upstream
                + contrast] == listed("Auto adjacent OKLab stack capture"@, path@)
            &&& lines.last() == "\n"@
        }),
{
}

/// The section on a theme tells what was done, what was measured, what was captured
/// and which palettes there are, in this order.
pub proof fn law_sections_hold_every_part(result: ThemeCaptureResult, place: int)
    ensures
        ({
            let lines = report::section(result);
            let images = report::image_lines(result.paths);
            let palettes = report::palette_lines(result);
            &&& lines.len() == 21 + images.len() + palettes.len()
            &&& 0 <= place < 9 ==> lines[place] == report::treatment_lines(result)[place]
            &&& 0 <= place < 12 ==> lines[9 + place] == report::score_lines(
                result.analysis,
            )[place]
            &&& 0 <= place < images.len() ==> lines[21 + place] == images[place]
            &&& 0 <= place < palettes.len() ==> lines[21 + images.len() + place]
                == palettes[place]
        }),
{
}

/// The section on a theme has a line on the stack by contrast exactly if there is such
/// a stack, and on the stack by distance exactly if there is such a stack, and each
/// shows the path of its own stack.
pub proof fn law_stacks_are_listed_where_they_are(result: ThemeCaptureResult)
    ensures
        ({
            let lines = report::section(result);
            let contrast = "- Auto background APCA stack capture: `"@;
            let distance = "- Auto adjacent OKLab stack capture: `"@;
            let upstream = "- Upstream APCA threshold stack capture: `"@;
            &&& match result.paths.auto_background_threshold_stack {
                Some(path) => lines.contains(contrast + path@ + "`\n"@),
                None => true,
            }
            &&& match result.paths.auto_adjacent_threshold_stack {
                Some(path) => lines.contains(distance + path@ + "`\n"@),
                None => true,
            }
            &&& match result.paths.upstream_threshold_stack {
                Some(path) => lines.contains(upstream + path@ + "`\n"@),
                None => true,
            }
            &&& forall|place: int|
                0 <= place < lines.len() && #[trigger] begins(lines[place], contrast) ==> (
                result.paths.auto_background_threshold_stack matches Some(path) && lines[place]
                    == contrast + path@ + "`\n"@)
            &&& forall|place: int|
                0 <= place < lines.len() && #[trigger] begins(lines[place], distance) ==> (
                result.paths.auto_adjacent_threshold_stack matches Some(path) && lines[place]
                    == distance + path@ + "`\n"@)
            &&& forall|place: int|
                0 <= place < lines.len() && #[trigger] begins(lines[place], upstream) ==> (
                result.paths.upstream_threshold_stack matches Some(path) && lines[place]
                    == upstream + path@ + "`\n"@)
        }),
{
    let lines = report::section(result);
    let paths = result.paths;
    let images = report::image_lines(paths);
    law_images_are_listed_by_name(paths);
    lemma_stack_lines(paths);
    let first = 26 + one_if(paths.upstream_threshold_stack is Some);
    let second = first + one_if(paths.auto_background_threshold_stack is Some);
    law_sections_hold_every_part(result, 5);
    law_sections_hold_every_part(result, first - 21);
    law_sections_hold_every_part(result, second - 21);
    if paths.upstream_threshold_stack is Some {
        assert(lines[26] == images[5]);
    }
    if paths.auto_background_threshold_stack is Some {
        assert(lines[first] == images[first - 21]);
    }
    if paths.auto_adjacent_threshold_stack is Some {
        assert(lines[second] == images[second - 21]);
    }
    assert forall|place: int| 0 <= place < lines.len() implies #[trigger] tells_of_stacks(
        lines[place],
        paths,
    ) by {
        if place < 9 {
            law_sections_hold_every_part(result, place);
            lemma_treatment_marks(result, place);
            lemma_others(lines[place]);
        } else if place < 21 {
            law_sections_hold_every_part(result, place - 9);
            lemma_score_marks(result, place - 9);
            lemma_others(lines[place]);
        } else if place < 21 + images.len() {
            law_sections_hold_every_part(result, place - 21);
            lemma_images_tell(paths, place - 21);
        } else {
            law_sections_hold_every_part(result, place - 21 - images.len());
            lemma_palette_marks(result, place - 21 - images.len());
            lemma_others(lines[place]);
        }
    }
    assert forall|place: int|
        0 <= place < lines.len() && #[trigger] begins(
            lines[place],
            "- Auto background APCA stack capture: `"@,
        ) implies (paths.auto_background_threshold_stack matches Some(path) && lines[place]
        == "- Auto background APCA stack capture: `"@ + path@ + "`\n"@) by {
        assert(tells_of_stacks(lines[place], paths));
    }
    assert forall|place: int|
        0 <= place < lines.len() && #[trigger] begins(
            lines[place],
            "- Auto adjacent OKLab stack capture: `"@,
        ) implies (paths.auto_adjacent_threshold_stack matches Some(path) && lines[place]
        == "- Auto adjacent OKLab stack capture: `"@ + path@ + "`\n"@) by {
        assert(tells_of_stacks(lines[place], paths));
    }
    assert forall|place: int|
        0 <= place < lines.len() && #[trigger] begins(
            lines[place],
            "- Upstream APCA threshold stack capture: `"@,
        ) implies (paths.upstream_threshold_stack matches Some(path) && lines[place]
        == "- Upstream APCA threshold stack capture: `"@ + path@ + "`\n"@) by {
        assert(tells_of_stacks(lines[place], paths));
    }
}

/// If a line is on a stack, there is such a stack, and the line shows its path.
spec fn tells_of_stacks(line: Seq<char>, paths: CapturePaths) -> bool {
    &&& begins(line, "- Auto background APCA stack capture: `"@) ==> (
    paths.auto_background_threshold_stack matches Some(path) && line
        == "- Auto background APCA stack capture: `"@ + path@ + "`\n"@)
    &&& begins(line, "- Auto adjacent OKLab stack capture: `"@) ==> (
    paths.auto_adjacent_threshold_stack matches Some(path) && line
        == "- Auto adjacent OKLab stack capture: `"@ + path@ + "`\n"@)
    &&& begins(line, "- Upstream APCA threshold stack capture: `"@) ==> (
    paths.upstream_threshold_stack matches Some(path) && line
        == "- Upstream APCA threshold stack capture: `"@ + path@ + "`\n"@)
}

proof fn lemma_stack_lines(paths: CapturePaths)
    ensures
        paths.auto_background_threshold_stack matches Some(path) ==> listed(
            "Auto background APCA stack capture"@,
            path@,
        ) == "- Auto background APCA stack capture: `"@ + path@ + "`\n"@,
        paths.auto_adjacent_threshold_stack matches Some(path) ==> listed(
            "Auto adjacent OKLab stack capture"@,
            path@,
        ) == "- Auto adjacent OKLab stack capture: `"@ + path@ + "`\n"@,
        paths.upstream_threshold_stack matches Some(path) ==> listed(
            "Upstream APCA threshold stack capture"@,
            path@,
        ) == "- Upstream APCA threshold stack capture: `"@ + path@ + "`\n"@,
{
    lemma_list_marks();
    assert("- "@ + "Auto background APCA stack capture"@ + ": `"@
        =~= "- Auto background APCA stack capture: `"@) by {
        reveal_strlit("- Auto background APCA stack capture: `");
        reveal_strlit("Auto background APCA stack capture");
    }
    assert("- "@ + "Auto adjacent OKLab stack capture"@ + ": `"@
        =~= "- Auto adjacent OKLab stack capture: `"@) by {
        reveal_strlit("- Auto adjacent OKLab stack capture: `");
        reveal_strlit("Auto adjacent OKLab stack capture");
    }
    assert("- "@ + "Upstream APCA threshold stack capture"@ + ": `"@
        =~= "- Upstream APCA threshold stack capture: `"@) by {
        reveal_strlit("- Upstream APCA threshold stack capture: `");
        reveal_strlit("Upstream APCA threshold stack capture");
    }
}

proof fn lemma_stack_marks()
    ensures
        "- Auto background APCA stack capture: `"@.len() == 39,
        "- Auto background APCA stack capture: `"@[0] == '-',
        "- Auto background APCA stack capture: `"@[2] == 'A',
        "- Auto background APCA stack capture: `"@[3] == 'u',
        "- Auto background APCA stack capture: `"@[7] == 'b',
        "- Auto adjacent OKLab stack capture: `"@.len() == 38,
        "- Auto adjacent OKLab stack capture: `"@[0] == '-',
        "- Auto adjacent OKLab stack capture: `"@[2] == 'A',
        "- Auto adjacent OKLab stack capture: `"@[3] == 'u',
        "- Auto adjacent OKLab stack capture: `"@[7] == 'a',
        "- Upstream APCA threshold stack capture: `"@.len() == 42,
        "- Upstream APCA threshold stack capture: `"@[0] == '-',
        "- Upstream APCA threshold stack capture: `"@[2] == 'U',
        "- Upstream APCA threshold stack capture: `"@[11] == 'A',
{
    reveal_strlit("- Auto background APCA stack capture: `");
    reveal_strlit("- Auto adjacent OKLab stack capture: `");
    reveal_strlit("- Upstream APCA threshold stack capture: `");
}

proof fn lemma_others(line: Seq<char>)
    requires
        is_other(line),
    ensures
        !begins(line, "- Auto background APCA stack capture: `"@),
        !begins(line, "- Auto adjacent OKLab stack capture: `"@),
        !begins(line, "- Upstream APCA threshold stack capture: `"@),
{
    lemma_stack_marks();
    lemma_marks(line, "- Auto background APCA stack capture: `"@);
    lemma_marks(line, "- Auto adjacent OKLab stack capture: `"@);
    lemma_marks(line, "- Upstream APCA threshold stack capture: `"@);
}

proof fn lemma_images_tell(paths: CapturePaths, place: int)
    requires
        0 <= place < report::image_lines(paths).len(),
    ensures
        tells_of_stacks(report::image_lines(paths)[place], paths),
{
    let line = report::image_lines(paths)[place];
    law_images_are_listed_by_name(paths);
    lemma_stack_lines(paths);
    lemma_stack_marks();
    lemma_image_marks(paths);
    lemma_list_marks();
    lemma_marks(line, "- Auto background APCA stack capture: `"@);
    lemma_marks(line, "- Auto adjacent OKLab stack capture: `"@);
    lemma_marks(line, "- Upstream APCA threshold stack capture: `"@);
    let first = 5 + one_if(paths.upstream_threshold_stack is Some);
    let second = first + one_if(paths.auto_background_threshold_stack is Some);
    if place == 0 || place == 3 {
        lemma_others(line);
    } else if place < 3 {
    } else if place == 4 || place == report::image_lines(paths).len() - 1 {
        assert(line.len() == 1);
    } else if place < first {
        let path = paths.upstream_threshold_stack->0@;
        assert(line[2] == "- Upstream APCA threshold stack capture: `"@[2]);
    } else if place < second {
        assert(line[7] == "- Auto background APCA stack capture: `"@[7]);
        assert(line[2] == "- Auto background APCA stack capture: `"@[2]);
    } else {
        assert(line[7] == "- Auto adjacent OKLab stack capture: `"@[7]);
        assert(line[2] == "- Auto adjacent OKLab stack capture: `"@[2]);
    }
}

proof fn lemma_marks(line: Seq<char>, start: Seq<char>)
    ensures
        begins(line, start) ==> forall|index: int|
            0 <= index < start.len() ==> #[trigger] start[index] == line[index],
{
    if begins(line, start) {
        assert forall|index: int| 0 <= index < start.len() implies #[trigger] start[index]
            == line[index] by {
            assert(line.take(start.len() as int)[index] == line[index]);
        }
    }
}

proof fn lemma_list_marks()
    ensures
        "- "@.len() == 2,
        "- "@[0] == '-',
        "- "@[1] == ' ',
        ": `"@.len() == 3,
        ": `"@[0] == ':',
        ": `"@[1] == ' ',
        ": `"@[2] == '`',
        "\n"@.len() == 1,
{
    reveal_strlit("- ");
    reveal_strlit(": `");
    reveal_strlit("\n");
}

/// A line is not on a stack: it is too short, is no list item, or its label begins
/// otherwise.
spec fn is_other(line: Seq<char>) -> bool {
    line.len() < 20 || line[0] != '-' || !((line[2] == 'A' && line[3] == 'u') || (line[2] == 'U'
        && line[11] == 'A'))
}

proof fn lemma_listed(label: Seq<char>, value: Seq<char>)
    requires
        label.len() >= 8,
        !((label[0] == 'A' && label[1] == 'u') || label[0] == 'U'),
    ensures
        is_other(report::item(label, value)),
{
    lemma_list_marks();
}

proof fn lemma_treatment_marks(result: ThemeCaptureResult, place: int)
    requires
        0 <= place < 9,
    ensures
        is_other(report::treatment_lines(result)[place]),
{
    reveal_strlit("## ");
    reveal_strlit("Appearance");
    reveal_strlit("Editor background");
    reveal_strlit("Strategy");
    reveal_strlit("Reordered");
    reveal_strlit("Background-adjusted");
    reveal_strlit("Changed colors");
    reveal_strlit("Adjacent threshold");
    reveal_strlit("Background threshold");
    let lines = report::treatment_lines(result);
    let analysis = result.analysis;
    lemma_listed("Appearance"@, labels::appearance_text(result.appearance));
    lemma_listed("Editor background"@, labels::color_text(result.editor_background));
    lemma_listed("Strategy"@, labels::strategy_text(analysis.strategy));
    lemma_listed(
        "Reordered"@,
        labels::yes_or_no_text(labels::spec_strategy_reordered(analysis.strategy)),
    );
    lemma_listed(
        "Background-adjusted"@,
        labels::yes_or_no_text(labels::spec_strategy_adjusted_background(analysis.strategy)),
    );
    lemma_listed("Changed colors"@, labels::yes_or_no_text(analysis.changed));
    lemma_listed(
        "Adjacent threshold"@,
        labels::optional_measure_text(analysis.adjacent_threshold, 3),
    );
    lemma_listed(
        "Background threshold"@,
        labels::optional_measure_text(analysis.background_threshold, 3),
    );
    assert(lines[0][0] == '#');
}

proof fn lemma_score_marks(result: ThemeCaptureResult, place: int)
    requires
        0 <= place < 12,
    ensures
        is_other(report::score_lines(result.analysis)[place]),
{
    let analysis = result.analysis;
    let before = analysis.original_score;
    let after = analysis.final_score;
    reveal_strlit("Original min adjacent distance");
    reveal_strlit("Final min adjacent distance");
    reveal_strlit("Original threshold result");
    reveal_strlit("Final threshold result");
    reveal_strlit("Original min background contrast");
    reveal_strlit("Final min background contrast");
    reveal_strlit("Original background threshold result");
    reveal_strlit("Final background threshold result");
    reveal_strlit("Original average adjacent distance");
    reveal_strlit("Final average adjacent distance");
    reveal_strlit("Original average background contrast");
    reveal_strlit("Final average background contrast");
    lemma_listed(
        "Original min adjacent distance"@,
        labels::measure_text(before.min_adjacent_distance, 3),
    );
    lemma_listed(
        "Final min adjacent distance"@,
        labels::measure_text(after.min_adjacent_distance, 3),
    );
    lemma_listed(
        "Original threshold result"@,
        labels::threshold_result_text(before.min_adjacent_distance, analysis.adjacent_threshold),
    );
    lemma_listed(
        "Final threshold result"@,
        labels::threshold_result_text(after.min_adjacent_distance, analysis.adjacent_threshold),
    );
    lemma_listed(
        "Original min background contrast"@,
        labels::measure_text(before.min_background_contrast, 3),
    );
    lemma_listed(
        "Final min background contrast"@,
        labels::measure_text(after.min_background_contrast, 3),
    );
    lemma_listed(
        "Original background threshold result"@,
        labels::threshold_result_text(
            before.min_background_contrast,
            analysis.background_threshold,
        ),
    );
    lemma_listed(
        "Final background threshold result"@,
        labels::threshold_result_text(after.min_background_contrast, analysis.background_threshold),
    );
    lemma_listed(
        "Original average adjacent distance"@,
        labels::measure_text(before.average_adjacent_distance, 3),
    );
    lemma_listed(
        "Final average adjacent distance"@,
        labels::measure_text(after.average_adjacent_distance, 3),
    );
    lemma_listed(
        "Original average background contrast"@,
        labels::measure_text(before.average_background_contrast, 3),
    );
    lemma_listed(
        "Final average background contrast"@,
        labels::measure_text(after.average_background_contrast, 3),
    );
}

proof fn lemma_image_marks(paths: CapturePaths)
    ensures
        ({
            let lines = report::image_lines(paths);
            &&& is_other(lines[0])
            &&& lines[1].len() < 20 || lines[1][11] != 'A'
            &&& lines[1].len() < 20 || lines[1][2] == 'U'
            &&& lines[2].len() < 20 || lines[2][7] == 'c'
            &&& lines[2].len() < 20 || lines[2][2] == 'A'
            &&& is_other(lines[3])
        }),
{
    lemma_list_marks();
    reveal_strlit("Raw theme capture");
    reveal_strlit("Upstream capture");
    reveal_strlit("Auto capture");
    reveal_strlit("Comparison capture");
    lemma_listed("Raw theme capture"@, paths.raw_theme@);
    lemma_listed("Comparison capture"@, paths.comparison@);
}

proof fn lemma_palette_marks(result: ThemeCaptureResult, place: int)
    requires
        0 <= place < 6,
    ensures
        is_other(report::palette_lines(result)[place]),
{
    lemma_list_marks();
    reveal_strlit("### Palettes\n\n");
    reveal_strlit("- Original order: ");
    reveal_strlit("- Final order: ");
    reveal_strlit("Final order mapped to original indices");
    reveal_strlit(
        "> Passing the APCA floor or the OKLab adjacent-distance floor does not by itself guarantee a good bracket palette. Use the saved captures as the final check.\n\n",
    );
    lemma_listed(
        "Final order mapped to original indices"@,
        labels::order_mapping_text(
            result.analysis.original_palette@,
            result.analysis.final_palette@,
        ),
    );
    let lines = report::palette_lines(result);
    assert(lines[1][2] == 'O');
    assert(lines[2][2] == 'F');
}

/// What was done to a theme is listed under its name: whether its accents were
/// reordered, adjusted and changed, and the thresholds for distance and contrast.
pub proof fn law_treatments_are_listed_by_name(result: ThemeCaptureResult)
    ensures
        ({
            let lines = report::treatment_lines(result);
            let analysis = result.analysis;
            &&& lines.len() == 9
            &&& lines[0] == "## "@ + result.name@ + "\n\n"@
            &&& lines[1] == listed(
                "Appearance"@,
                if result.appearance is Light {
                    "light"@
                } else {
                    "dark"@
                },
            )
            &&& lines[2] == listed(
                "Editor background"@,
                labels::color_text(result.editor_background),
            )
            &&& lines[3] == listed("Strategy"@, labels::strategy_text(analysis.strategy))
            &&& lines[4] == listed(
                "Reordered"@,
                if analysis.strategy is ReorderedWeakPalette
                    || analysis.strategy is AdjustedBackgroundAndReorderedPalette {
                    "yes"@
                } else {
                    "no"@
                },
            )
            &&& lines[5] == listed(
                "Background-adjusted"@,
                if analysis.strategy is AdjustedBackgroundPalette
                    || analysis.strategy is AdjustedBackgroundAndReorderedPalette {
                    "yes"@
                } else {
                    "no"@
                },
            )
            &&& lines[6] == listed(
                "Changed colors"@,
                if analysis.changed {
                    "yes"@
                } else {
                    "no"@
                },
            )
            &&& lines[7] == listed(
                "Adjacent threshold"@,
                match analysis.adjacent_threshold {
                    Some(threshold) => labels::measure_text(threshold, 3),
                    None => "n/a"@,
                },
            )
            &&& lines[8] == listed(
                "Background threshold"@,
                match analysis.background_threshold {
                    Some(threshold) => labels::measure_text(threshold, 3),
                    None => "n/a"@,
                },
            )
        }),
{
}

/// A value against its threshold, in words: it passes exactly if it is not below.
pub open spec fn judged(value: Measure, threshold: Option<Measure>) -> Seq<char> {
    if threshold is None {
        "n/a"@
    } else if value < threshold->0 {
        "fail"@
    } else {
        "pass"@
    }
}

/// The measures of a theme are listed by name, each before and after: distances
/// against the threshold for distance, contrasts against that for contrast.
pub proof fn law_measures_are_listed_by_name(result: ThemeCaptureResult)
    ensures
        ({
            let analysis = result.analysis;
            let lines = report::score_lines(analysis);
            let before = analysis.original_score;
            let after = analysis.final_score;
            &&& lines.len() == 12
            &&& lines[0] == listed(
                "Original min adjacent distance"@,
                labels::measure_text(before.min_adjacent_distance, 3),
            )
            &&& lines[1] == listed(
                "Final min adjacent distance"@,
                labels::measure_text(after.min_adjacent_distance, 3),
            )
            &&& lines[2] == listed(
                "Original threshold result"@,
                judged(before.min_adjacent_distance, analysis.adjacent_threshold),
            )
            &&& lines[3] == listed(
                "Final threshold result"@,
                judged(after.min_adjacent_distance, analysis.adjacent_threshold),
            )
            &&& lines[4] == listed(
                "Original min background contrast"@,
                labels::measure_text(before.min_background_contrast, 3),
            )
            &&& lines[5] == listed(
                "Final min background contrast"@,
                labels::measure_text(after.min_background_contrast, 3),
            )
            &&& lines[6] == listed(
                "Original background threshold result"@,
                judged(before.min_background_contrast, analysis.background_threshold),
            )
            &&& lines[7] == listed(
                "Final background threshold result"@,
                judged(after.min_background_contrast, analysis.background_threshold),
            )
            &&& lines[8] == listed(
                "Original average adjacent distance"@,
                labels::measure_text(before.average_adjacent_distance, 3),
            )
            &&& lines[9] == listed(
                "Final average adjacent distance"@,
                labels::measure_text(after.average_adjacent_distance, 3),
            )
            &&& lines[10] == listed(
                "Original average background contrast"@,
                labels::measure_text(before.average_background_contrast, 3),
            )
            &&& lines[11] == listed(
                "Final average background contrast"@,
                labels::measure_text(after.average_background_contrast, 3),
            )
        }),
{
}

/// The palettes of a theme are listed by name, the original before the final, and then
/// where the colours of the final one stood in the original.
pub proof fn law_palettes_are_listed_by_name(result: ThemeCaptureResult)
    ensures
        ({
            let lines = report::palette_lines(result);
            &&& lines.len() == 6
            &&& lines[0] == "### Palettes\n\n"@
            &&& lines[1] == "- Original order: "@ + labels::palette_text(result.original_colors@)
                + "\n"@
            &&& lines[2] == "- Final order: "@ + labels::palette_text(result.final_colors@)
                + "\n"@
            &&& lines[3] == listed(
                "Final order mapped to original indices"@,
                labels::order_mapping_text(
                    result.analysis.original_palette@,
                    result.analysis.final_palette@,
                ),
            )
            &&& lines[4] == "\n"@
            &&& lines[5]
                == "> Passing the APCA floor or the OKLab adjacent-distance floor does not by itself guarantee a good bracket palette. Use the saved captures as the final check.\n\n"@
        }),
{
}

/// The head of the report names the family, the files and the thresholds, those of
/// light themes before those of dark ones.
pub proof fn law_heads_name_the_thresholds(
    theme_path: Seq<char>,
    family: Seq<char>,
    output_directory: Seq<char>,
    upstream_threshold: Measure,
    config: AutoBracketColorizationConfig,
)
    ensures
        ({
            let lines = report::report_head(
                theme_path,
                family,
                output_directory,
                upstream_threshold,
                config,
            );
            &&& lines.len() == 8
            &&& lines[0] == "# Bracket Contrast Capture: "@ + family + "\n\n"@
            &&& lines[1] == listed("Theme file"@, theme_path)
            &&& lines[2] == listed("Output directory"@, output_directory)
            &&& lines[3] == listed(
                "Upstream APCA threshold"@,
                labels::measure_text(upstream_threshold, 1),
            )
            &&& lines[4] == "- Auto background APCA floors: `light="@ + labels::measure_text(
                config.minimum_background_apca_light,
                1,
            ) + "`, `dark="@ + labels::measure_text(config.minimum_background_apca_dark, 1)
                + "`\n"@
            &&& lines[5] == "- Auto adjacent OKLab floors: `light="@ + labels::measure_text(
                config.minimum_adjacent_oklab_light,
                3,
            ) + "`, `dark="@ + labels::measure_text(config.minimum_adjacent_oklab_dark, 3)
                + "`\n"@
            &&& lines[6]
                == "- Notes: This report scores bracket-vs-background using absolute APCA Lc and adjacent bracket separation using OKLab distance. Use the saved captures as the final visual check.\n"@
            &&& lines[7] == "\n"@
        }),
{
}

/// The lines of a report follow one another without anything between them.
pub proof fn law_lines_follow_one_another(lines: Seq<Seq<char>>, more: Seq<Seq<char>>, line: Seq<char>)
    ensures
        report::concatenated(Seq::empty()).len() == 0,
        report::concatenated(seq![line]) == line,
        report::concatenated(lines + more) == report::concatenated(lines) + report::concatenated(
            more,
        ),
    decreases more.len(),
{
    assert(seq![line].drop_last() =~= Seq::<Seq<char>>::empty());
    reveal_with_fuel(report::concatenated, 2);
    assert(report::concatenated(seq![line]) =~= line);
    if more.len() == 0 {
        assert(lines + more =~= lines);
        assert(report::concatenated(lines) + report::concatenated(more) =~= report::concatenated(
            lines,
        ));
    } else {
        law_lines_follow_one_another(lines, more.drop_last(), line);
        assert((lines + more).drop_last() =~= lines + more.drop_last());
        assert(report::concatenated(lines + more) =~= report::concatenated(lines)
            + report::concatenated(more));
    }
}

/// Themes are reported in their order, each by its own section.
pub proof fn law_themes_are_reported_in_order(
    results: Seq<ThemeCaptureResult>,
    result: ThemeCaptureResult,
)
    ensures
        report::sections(Seq::empty()).len() == 0,
        report::sections(results.push(result)) == report::sections(results) + report::section(
            result,
        ),
{
    assert(results.push(result).drop_last() =~= results);
}

} // verus!
