//! The report on a theme family's bracket colours.

use crate::brackets::auto_mode::BracketColorizationPaletteAnalysis;
use crate::brackets::palette::{Appearance, AutoBracketColorizationConfig, Measure};
use crate::capture::labels;
use crate::capture::labels::RgbaBytes;
use crate::capture::plan::CapturePaths;
use crate::text;
use vstd::prelude::*;

verus! {

/// What was captured of one theme.
#[derive(Clone, Debug)]
pub struct ThemeCaptureResult {
    pub name: String,
    pub appearance: Appearance,
    pub editor_background: RgbaBytes,
    pub analysis: BracketColorizationPaletteAnalysis,
    /// The colours of the analysis' original palette, as they are written.
    pub original_colors: Vec<RgbaBytes>,
    /// The colours of the analysis' final palette, as they are written.
    pub final_colors: Vec<RgbaBytes>,
    pub paths: CapturePaths,
}

/// The texts one after the other.
pub open spec fn concatenated(parts: Seq<Seq<char>>) -> Seq<char>
    decreases parts.len(),
{
    if parts.len() == 0 {
        Seq::empty()
    } else {
        concatenated(parts.drop_last()) + parts.last()
    }
}

/// A list item with a value in code quotes.
pub open spec fn item(label: Seq<char>, value: Seq<char>) -> Seq<char> {
    "- "@ + label + ": `"@ + value + "`\n"@
}

/// A list item for an image that may be missing.
pub open spec fn optional_item(label: Seq<char>, path: Option<String>) -> Seq<Seq<char>> {
    match path {
        Some(path) => seq![item(label, path@)],
        None => Seq::empty(),
    }
}

/// The head of the report.
pub open spec fn report_head(
    theme_path: Seq<char>,
    family: Seq<char>,
    output_directory: Seq<char>,
    upstream_threshold: Measure,
    config: AutoBracketColorizationConfig,
) -> Seq<Seq<char>> {
    seq![
        "# Bracket Contrast Capture: "@ + family + "\n\n"@,
        item("Theme file"@, theme_path),
        item("Output directory"@, output_directory),
        item("Upstream APCA threshold"@, labels::measure_text(upstream_threshold, 1)),
        "- Auto background APCA floors: `light="@ + labels::measure_text(
            config.minimum_background_apca_light,
            1,
        ) + "`, `dark="@ + labels::measure_text(config.minimum_background_apca_dark, 1) + "`\n"@,
        "- Auto adjacent OKLab floors: `light="@ + labels::measure_text(
            config.minimum_adjacent_oklab_light,
            3,
        ) + "`, `dark="@ + labels::measure_text(config.minimum_adjacent_oklab_dark, 3) + "`\n"@,
        "- Notes: This report scores bracket-vs-background using absolute APCA Lc and adjacent bracket separation using OKLab distance. Use the saved captures as the final visual check.\n"@,
        "\n"@,
    ]
}

/// What auto mode did to a theme.
pub open spec fn treatment_lines(result: ThemeCaptureResult) -> Seq<Seq<char>> {
    let analysis = result.analysis;
    seq![
        "## "@ + result.name@ + "\n\n"@,
        item("Appearance"@, labels::appearance_text(result.appearance)),
        item("Editor background"@, labels::color_text(result.editor_background)),
        item("Strategy"@, labels::strategy_text(analysis.strategy)),
        item(
            "Reordered"@,
            labels::yes_or_no_text(labels::spec_strategy_reordered(analysis.strategy)),
        ),
        item(
            "Background-adjusted"@,
            labels::yes_or_no_text(labels::spec_strategy_adjusted_background(analysis.strategy)),
        ),
        item("Changed colors"@, labels::yes_or_no_text(analysis.changed)),
        item("Adjacent threshold"@, labels::optional_measure_text(analysis.adjacent_threshold, 3)),
        item(
            "Background threshold"@,
            labels::optional_measure_text(analysis.background_threshold, 3),
        ),
    ]
}

/// What was measured of a theme before and after.
pub open spec fn score_lines(analysis: BracketColorizationPaletteAnalysis) -> Seq<Seq<char>> {
    let before = analysis.original_score;
    let after = analysis.final_score;
    seq![
        item(
            "Original min adjacent distance"@,
            labels::measure_text(before.min_adjacent_distance, 3),
        ),
        item("Final min adjacent distance"@, labels::measure_text(after.min_adjacent_distance, 3)),
        item(
            "Original threshold result"@,
            labels::threshold_result_text(before.min_adjacent_distance, analysis.adjacent_threshold),
        ),
        item(
            "Final threshold result"@,
            labels::threshold_result_text(after.min_adjacent_distance, analysis.adjacent_threshold),
        ),
        item(
            "Original min background contrast"@,
            labels::measure_text(before.min_background_contrast, 3),
        ),
        item(
            "Final min background contrast"@,
            labels::measure_text(after.min_background_contrast, 3),
        ),
        item(
            "Original background threshold result"@,
            labels::threshold_result_text(
                before.min_background_contrast,
                analysis.background_threshold,
            ),
        ),
        item(
            "Final background threshold result"@,
            labels::threshold_result_text(
                after.min_background_contrast,
                analysis.background_threshold,
            ),
        ),
        item(
            "Original average adjacent distance"@,
            labels::measure_text(before.average_adjacent_distance, 3),
        ),
        item(
            "Final average adjacent distance"@,
            labels::measure_text(after.average_adjacent_distance, 3),
        ),
        item(
            "Original average background contrast"@,
            labels::measure_text(before.average_background_contrast, 3),
        ),
        item(
            "Final average background contrast"@,
            labels::measure_text(after.average_background_contrast, 3),
        ),
    ]
}

/// The images captured of a theme.
pub open spec fn image_lines(paths: CapturePaths) -> Seq<Seq<char>> {
    seq![
        item("Raw theme capture"@, paths.raw_theme@),
        item("Upstream capture"@, paths.upstream@),
        item("Auto capture"@, paths.auto_mode@),
        item("Comparison capture"@, paths.comparison@),
        "\n"@,
    ] + optional_item("Upstream APCA threshold stack capture"@, paths.upstream_threshold_stack)
        + optional_item(
        "Auto background APCA stack capture"@,
        paths.auto_background_threshold_stack,
    ) + optional_item(
        "Auto adjacent OKLab stack capture"@,
        paths.auto_adjacent_threshold_stack,
    ) + seq!["\n"@]
}

/// The palettes of a theme.
pub open spec fn palette_lines(result: ThemeCaptureResult) -> Seq<Seq<char>> {
    seq![
        "### Palettes\n\n"@,
        "- Original order: "@ + labels::palette_text(result.original_colors@) + "\n"@,
        "- Final order: "@ + labels::palette_text(result.final_colors@) + "\n"@,
        item(
            "Final order mapped to original indices"@,
            labels::order_mapping_text(
                result.analysis.original_palette@,
                result.analysis.final_palette@,
            ),
        ),
        "\n"@,
        "> Passing the APCA floor or the OKLab adjacent-distance floor does not by itself guarantee a good bracket palette. Use the saved captures as the final check.\n\n"@,
    ]
}

/// The section of the report on one theme.
pub open spec fn section(result: ThemeCaptureResult) -> Seq<Seq<char>> {
    treatment_lines(result) + score_lines(result.analysis) + image_lines(result.paths)
        + palette_lines(result)
}

/// The sections on each theme.
pub open spec fn sections(results: Seq<ThemeCaptureResult>) -> Seq<Seq<char>>
    decreases results.len(),
{
    if results.len() == 0 {
        Seq::empty()
    } else {
        sections(results.drop_last()) + section(results.last())
    }
}

fn push_part(parts: &mut Vec<Vec<char>>, part: Vec<char>)
    ensures
        text::texts(final(parts)@) == text::texts(old(parts)@).push(part@),
{
    let ghost added = part@;
    parts.push(part);
    assert(text::texts(parts@) =~= text::texts(old(parts)@).push(added));
}

fn push_words(parts: &mut Vec<Vec<char>>, words: &str)
    ensures
        text::texts(final(parts)@) == text::texts(old(parts)@).push(words@),
{
    push_part(parts, text::chars_of(words));
}

fn push_item(parts: &mut Vec<Vec<char>>, label: &str, value: &Vec<char>)
    ensures
        text::texts(final(parts)@) == text::texts(old(parts)@).push(item(label@, value@)),
{
    let mut part: Vec<char> = text::chars_of("- ");
    text::push_text(&mut part, label);
    text::push_text(&mut part, ": `");
    text::push_chars(&mut part, value);
    text::push_text(&mut part, "`\n");
    push_part(parts, part);
}

fn push_text_item(parts: &mut Vec<Vec<char>>, label: &str, value: &str)
    ensures
        text::texts(final(parts)@) == text::texts(old(parts)@).push(item(label@, value@)),
{
    let chars: Vec<char> = text::chars_of(value);
    push_item(parts, label, &chars);
}

fn push_measure_item(parts: &mut Vec<Vec<char>>, label: &str, value: Measure, places: u8)
    requires
        places <= 3,
    ensures
        text::texts(final(parts)@) == text::texts(old(parts)@).push(
            item(label@, labels::measure_text(value, places as nat)),
        ),
{
    let mut chars: Vec<char> = Vec::new();
    labels::push_measure(&mut chars, value, places);
    assert(chars@ =~= labels::measure_text(value, places as nat));
    push_item(parts, label, &chars);
}

fn push_optional_item(parts: &mut Vec<Vec<char>>, label: &str, path: &Option<String>)
    ensures
        text::texts(final(parts)@) == text::texts(old(parts)@) + optional_item(label@, *path),
{
    match path {
        Some(path) => push_text_item(parts, label, path.as_str()),
        None => {},
    }
    assert(text::texts(parts@) =~= text::texts(old(parts)@) + optional_item(label@, *path));
}

fn push_floors(
    parts: &mut Vec<Vec<char>>,
    label: &str,
    light: Measure,
    dark: Measure,
    places: u8,
)
    requires
        places <= 3,
    ensures
        text::texts(final(parts)@) == text::texts(old(parts)@).push(
            label@ + labels::measure_text(light, places as nat) + "`, `dark="@
                + labels::measure_text(dark, places as nat) + "`\n"@,
        ),
{
    let mut part: Vec<char> = text::chars_of(label);
    labels::push_measure(&mut part, light, places);
    text::push_text(&mut part, "`, `dark=");
    labels::push_measure(&mut part, dark, places);
    text::push_text(&mut part, "`\n");
    push_part(parts, part);
}

fn push_named(parts: &mut Vec<Vec<char>>, before: &str, name: &str, after: &str)
    ensures
        text::texts(final(parts)@) == text::texts(old(parts)@).push(before@ + name@ + after@),
{
    let mut part: Vec<char> = text::chars_of(before);
    text::push_text(&mut part, name);
    text::push_text(&mut part, after);
    push_part(parts, part);
}

fn push_head(
    parts: &mut Vec<Vec<char>>,
    theme_path: &str,
    family: &str,
    output_directory: &str,
    upstream_threshold: Measure,
    config: AutoBracketColorizationConfig,
)
    ensures
        text::texts(final(parts)@) == text::texts(old(parts)@) + report_head(
            theme_path@,
            family@,
            output_directory@,
            upstream_threshold,
            config,
        ),
{
    push_named(parts, "# Bracket Contrast Capture: ", family, "\n\n");
    push_text_item(parts, "Theme file", theme_path);
    push_text_item(parts, "Output directory", output_directory);
    push_measure_item(parts, "Upstream APCA threshold", upstream_threshold, 1);
    push_floors(
        parts,
        "- Auto background APCA floors: `light=",
        config.minimum_background_apca_light,
        config.minimum_background_apca_dark,
        1,
    );
    push_floors(
        parts,
        "- Auto adjacent OKLab floors: `light=",
        config.minimum_adjacent_oklab_light,
        config.minimum_adjacent_oklab_dark,
        3,
    );
    push_words(
        parts,
        "- Notes: This report scores bracket-vs-background using absolute APCA Lc and adjacent bracket separation using OKLab distance. Use the saved captures as the final visual check.\n",
    );
    push_words(parts, "\n");
    assert(text::texts(parts@) =~= text::texts(old(parts)@) + report_head(
        theme_path@,
        family@,
        output_directory@,
        upstream_threshold,
        config,
    ));
}

fn push_treatment(parts: &mut Vec<Vec<char>>, result: &ThemeCaptureResult)
    ensures
        text::texts(final(parts)@) == text::texts(old(parts)@) + treatment_lines(*result),
{
    let analysis: &BracketColorizationPaletteAnalysis = &result.analysis;
    push_named(parts, "## ", result.name.as_str(), "\n\n");
    push_text_item(parts, "Appearance", labels::appearance_label(result.appearance));
    let mut background: Vec<char> = Vec::new();
    labels::push_color(&mut background, result.editor_background);
    assert(background@ =~= labels::color_text(result.editor_background));
    push_item(parts, "Editor background", &background);
    push_text_item(parts, "Strategy", labels::strategy_label(analysis.strategy));
    push_text_item(
        parts,
        "Reordered",
        labels::yes_or_no(labels::strategy_reordered(analysis.strategy)),
    );
    push_text_item(
        parts,
        "Background-adjusted",
        labels::yes_or_no(labels::strategy_adjusted_background(analysis.strategy)),
    );
    push_text_item(parts, "Changed colors", labels::yes_or_no(analysis.changed));
    let mut adjacent: Vec<char> = Vec::new();
    labels::push_optional_measure(&mut adjacent, analysis.adjacent_threshold, 3);
    assert(adjacent@ =~= labels::optional_measure_text(analysis.adjacent_threshold, 3));
    push_item(parts, "Adjacent threshold", &adjacent);
    let mut contrast: Vec<char> = Vec::new();
    labels::push_optional_measure(&mut contrast, analysis.background_threshold, 3);
    assert(contrast@ =~= labels::optional_measure_text(analysis.background_threshold, 3));
    push_item(parts, "Background threshold", &contrast);
    assert(text::texts(parts@) =~= text::texts(old(parts)@) + treatment_lines(*result));
}

fn push_scores(parts: &mut Vec<Vec<char>>, analysis: &BracketColorizationPaletteAnalysis)
    ensures
        text::texts(final(parts)@) == text::texts(old(parts)@) + score_lines(*analysis),
{
    push_measure_item(
        parts,
        "Original min adjacent distance",
        analysis.original_score.min_adjacent_distance,
        3,
    );
    push_measure_item(
        parts,
        "Final min adjacent distance",
        analysis.final_score.min_adjacent_distance,
        3,
    );
    push_text_item(
        parts,
        "Original threshold result",
        labels::threshold_result(
            analysis.original_score.min_adjacent_distance,
            analysis.adjacent_threshold,
        ),
    );
    push_text_item(
        parts,
        "Final threshold result",
        labels::threshold_result(
            analysis.final_score.min_adjacent_distance,
            analysis.adjacent_threshold,
        ),
    );
    push_measure_item(
        parts,
        "Original min background contrast",
        analysis.original_score.min_background_contrast,
        3,
    );
    push_measure_item(
        parts,
        "Final min background contrast",
        analysis.final_score.min_background_contrast,
        3,
    );
    push_text_item(
        parts,
        "Original background threshold result",
        labels::threshold_result(
            analysis.original_score.min_background_contrast,
            analysis.background_threshold,
        ),
    );
    push_text_item(
        parts,
        "Final background threshold result",
        labels::threshold_result(
            analysis.final_score.min_background_contrast,
            analysis.background_threshold,
        ),
    );
    push_measure_item(
        parts,
        "Original average adjacent distance",
        analysis.original_score.average_adjacent_distance,
        3,
    );
    push_measure_item(
        parts,
        "Final average adjacent distance",
        analysis.final_score.average_adjacent_distance,
        3,
    );
    push_measure_item(
        parts,
        "Original average background contrast",
        analysis.original_score.average_background_contrast,
        3,
    );
    push_measure_item(
        parts,
        "Final average background contrast",
        analysis.final_score.average_background_contrast,
        3,
    );
    assert(text::texts(parts@) =~= text::texts(old(parts)@) + score_lines(*analysis));
}

fn push_images(parts: &mut Vec<Vec<char>>, paths: &CapturePaths)
    ensures
        text::texts(final(parts)@) == text::texts(old(parts)@) + image_lines(*paths),
{
    push_text_item(parts, "Raw theme capture", paths.raw_theme.as_str());
    push_text_item(parts, "Upstream capture", paths.upstream.as_str());
    push_text_item(parts, "Auto capture", paths.auto_mode.as_str());
    push_text_item(parts, "Comparison capture", paths.comparison.as_str());
    push_words(parts, "\n");
    push_optional_item(
        parts,
        "Upstream APCA threshold stack capture",
        &paths.upstream_threshold_stack,
    );
    push_optional_item(
        parts,
        "Auto background APCA stack capture",
        &paths.auto_background_threshold_stack,
    );
    push_optional_item(
        parts,
        "Auto adjacent OKLab stack capture",
        &paths.auto_adjacent_threshold_stack,
    );
    push_words(parts, "\n");
    assert(text::texts(parts@) =~= text::texts(old(parts)@) + image_lines(*paths));
}

fn push_palettes(parts: &mut Vec<Vec<char>>, result: &ThemeCaptureResult)
    ensures
        text::texts(final(parts)@) == text::texts(old(parts)@) + palette_lines(*result),
{
    let original: String = labels::format_palette(&result.original_colors);
    let changed: String = labels::format_palette(&result.final_colors);
    let mapping: String = labels::format_order_mapping(
        &result.analysis.original_palette,
        &result.analysis.final_palette,
    );
    push_words(parts, "### Palettes\n\n");
    push_named(parts, "- Original order: ", original.as_str(), "\n");
    push_named(parts, "- Final order: ", changed.as_str(), "\n");
    push_text_item(parts, "Final order mapped to original indices", mapping.as_str());
    push_words(parts, "\n");
    push_words(
        parts,
        "> Passing the APCA floor or the OKLab adjacent-distance floor does not by itself guarantee a good bracket palette. Use the saved captures as the final check.\n\n",
    );
    assert(text::texts(parts@) =~= text::texts(old(parts)@) + palette_lines(*result));
}

fn push_section(parts: &mut Vec<Vec<char>>, result: &ThemeCaptureResult)
    ensures
        text::texts(final(parts)@) == text::texts(old(parts)@) + section(*result),
{
    push_treatment(parts, result);
    push_scores(parts, &result.analysis);
    push_images(parts, &result.paths);
    push_palettes(parts, result);
    assert(text::texts(parts@) =~= text::texts(old(parts)@) + section(*result));
}

fn concatenate(parts: &Vec<Vec<char>>) -> (text: Vec<char>)
    ensures
        text@ == concatenated(text::texts(parts@)),
{
    let mut all: Vec<char> = Vec::new();
    let mut i: usize = 0;
    assert(text::texts(parts@).take(0) =~= Seq::empty());
    while i < parts.len()
        invariant
            i <= parts@.len(),
            all@ == concatenated(text::texts(parts@).take(i as int)),
        decreases parts@.len() - i,
    {
        assert(text::texts(parts@).take(i as int + 1).drop_last() =~= text::texts(parts@).take(
            i as int,
        ));
        text::push_chars(&mut all, &parts[i]);
        i = i + 1;
    }
    assert(text::texts(parts@).take(i as int) =~= text::texts(parts@));
    all
}

/// Writes the report on a theme family: a head with the thresholds used, then a
/// section on each theme.
pub fn format_capture_report(
    theme_path: &str,
    theme_family_name: &str,
    results: &Vec<ThemeCaptureResult>,
    output_directory: &str,
    upstream_apca_threshold: Measure,
    auto_config: AutoBracketColorizationConfig,
) -> (report: String)
    ensures
        report@ == concatenated(
            report_head(
                theme_path@,
                theme_family_name@,
                output_directory@,
                upstream_apca_threshold,
                auto_config,
            ) + sections(results@),
        ),
{
    let mut parts: Vec<Vec<char>> = Vec::new();
    push_head(
        &mut parts,
        theme_path,
        theme_family_name,
        output_directory,
        upstream_apca_threshold,
        auto_config,
    );
    let ghost head = report_head(
        theme_path@,
        theme_family_name@,
        output_directory@,
        upstream_apca_threshold,
        auto_config,
    );
    let mut i: usize = 0;
    assert(results@.take(0) =~= Seq::empty());
    assert(text::texts(parts@) =~= head + sections(results@.take(0)));
    while i < results.len()
        invariant
            i <= results@.len(),
            text::texts(parts@) == head + sections(results@.take(i as int)),
        decreases results@.len() - i,
    {
        assert(results@.take(i as int + 1).drop_last() =~= results@.take(i as int));
        push_section(&mut parts, &results[i]);
        i = i + 1;
        assert(text::texts(parts@) =~= head + sections(results@.take(i as int)));
    }
    assert(results@.take(i as int) =~= results@);
    let chars: Vec<char> = concatenate(&parts);
    text::string_of(&chars)
}

} // verus!
