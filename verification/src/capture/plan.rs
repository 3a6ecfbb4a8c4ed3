//! What is captured of a theme, under which names, and how the capture is
//! announced.

use crate::brackets::auto_mode::BracketColorizationPaletteStrategy;
use crate::brackets::palette::{AutoBracketColorizationConfig, Measure};
use crate::capture::{labels, slug};
use crate::text;
use vstd::prelude::*;

verus! {

/// The program that is shown in a capture, with `label` in its first comment.
pub open spec fn demo_source_text(label: Seq<char>) -> Seq<char> {
    "fn main() {\n    // "@ + label
        + "\n\n    // Direct adjacent brackets\n    [[[[[[[[[[[[[[[[[[[]]]]]]]]]]]]]]]]]]]\n\n    // Mixed delimiters at nearby depths\n    let _ = vec![(Some([1, 2, 3]), Ok::<_, ()>({ [4, 5, 6] }))];\n\n    // Multiline nesting\n    let _value = foo(\n        bar(\n            baz([\n                alpha({ beta(gamma([delta(), epsilon()])) }),\n                zeta([eta({ theta(iota()) })]),\n            ]),\n        ),\n    );\n\n    if true {\n        while let Some(value) = maybe_call(vec![Some((1, [2, 3, 4]))]) {\n            println!(\"{value:?}\");\n        }\n    }\n}\n"@
}

/// Writes the program that is shown in a capture.
pub fn demo_source(label: &str) -> (source: String)
    ensures
        source@ == demo_source_text(label@),
{
    let mut chars: Vec<char> = text::chars_of("fn main() {\n    // ");
    text::push_text(&mut chars, label);
    text::push_text(
        &mut chars,
        "\n\n    // Direct adjacent brackets\n    [[[[[[[[[[[[[[[[[[[]]]]]]]]]]]]]]]]]]]\n\n    // Mixed delimiters at nearby depths\n    let _ = vec![(Some([1, 2, 3]), Ok::<_, ()>({ [4, 5, 6] }))];\n\n    // Multiline nesting\n    let _value = foo(\n        bar(\n            baz([\n                alpha({ beta(gamma([delta(), epsilon()])) }),\n                zeta([eta({ theta(iota()) })]),\n            ]),\n        ),\n    );\n\n    if true {\n        while let Some(value) = maybe_call(vec![Some((1, [2, 3, 4]))]) {\n            println!(\"{value:?}\");\n        }\n    }\n}\n",
    );
    text::string_of(&chars)
}

/// Where captures go: to the directory asked for, else next to the theme file,
/// else to the current directory.
pub fn output_directory(requested: &Option<String>, theme_directory: &Option<String>) -> (directory:
    String)
    ensures
        directory@ == match (*requested, *theme_directory) {
            (Some(requested), _) => requested@,
            (None, Some(theme_directory)) => theme_directory@,
            (None, None) => "."@,
        },
{
    match (requested, theme_directory) {
        (Some(requested), _) => requested.clone(),
        (None, Some(theme_directory)) => theme_directory.clone(),
        (None, None) => {
            let chars: Vec<char> = text::chars_of(".");
            text::string_of(&chars)
        },
    }
}

/// The name of a capture: the slugs of the family and of the theme, and what the
/// capture shows.
pub open spec fn capture_name(family: Seq<char>, theme: Seq<char>, suffix: Seq<char>) -> Seq<char> {
    slug::slug_of(family) + "-"@ + slug::slug_of(theme) + "-"@ + suffix + ".png"@
}

fn capture_file_name(family: &str, theme: &str, suffix: &str) -> (name: String)
    ensures
        name@ == capture_name(family@, theme@, suffix@),
{
    let family_slug: String = slug::slugify(family);
    let theme_slug: String = slug::slugify(theme);
    let mut chars: Vec<char> = text::chars_of(family_slug.as_str());
    text::push_text(&mut chars, "-");
    text::push_text(&mut chars, theme_slug.as_str());
    text::push_text(&mut chars, "-");
    text::push_text(&mut chars, suffix);
    text::push_text(&mut chars, ".png");
    text::string_of(&chars)
}

/// The name of the report on a theme family.
pub fn report_file_name(family: &str) -> (name: String)
    ensures
        name@ == slug::slug_of(family@) + "-bracket-contrast-report.md"@,
{
    let family_slug: String = slug::slugify(family);
    let mut chars: Vec<char> = text::chars_of(family_slug.as_str());
    text::push_text(&mut chars, "-bracket-contrast-report.md");
    text::string_of(&chars)
}

/// The names of the images captured of one theme.
#[derive(Clone, Debug)]
pub struct CaptureFileNames {
    pub raw_theme: String,
    pub upstream: String,
    pub auto_mode: String,
    pub comparison: String,
    pub upstream_threshold_stack: Option<String>,
    pub auto_background_threshold_stack: Option<String>,
    pub auto_adjacent_threshold_stack: Option<String>,
}

/// A stack has a name exactly if there are thresholds to stack.
pub open spec fn is_stack_name(
    name: Option<String>,
    stacked: Seq<Measure>,
    family: Seq<char>,
    theme: Seq<char>,
    suffix: Seq<char>,
) -> bool {
    match name {
        Some(name) => stacked.len() > 0 && name@ == capture_name(family, theme, suffix),
        None => stacked.len() == 0,
    }
}

fn stack_name(stacked: &Vec<Measure>, family: &str, theme: &str, suffix: &str) -> (name: Option<
    String,
>)
    ensures
        is_stack_name(name, stacked@, family@, theme@, suffix@),
{
    if stacked.len() > 0 {
        Some(capture_file_name(family, theme, suffix))
    } else {
        None
    }
}

impl CaptureFileNames {
    /// Names the images of one theme.
    pub fn new(
        family: &str,
        theme: &str,
        stacked_upstream: &Vec<Measure>,
        stacked_background: &Vec<Measure>,
        stacked_adjacent: &Vec<Measure>,
    ) -> (names: Self)
        ensures
            names.raw_theme@ == capture_name(family@, theme@, "theme"@),
            names.upstream@ == capture_name(family@, theme@, "upstream"@),
            names.auto_mode@ == capture_name(family@, theme@, "auto"@),
            names.comparison@ == capture_name(family@, theme@, "comparison"@),
            is_stack_name(
                names.upstream_threshold_stack,
                stacked_upstream@,
                family@,
                theme@,
                "upstream-apca-thresholds"@,
            ),
            is_stack_name(
                names.auto_background_threshold_stack,
                stacked_background@,
                family@,
                theme@,
                "auto-background-apca-thresholds"@,
            ),
            is_stack_name(
                names.auto_adjacent_threshold_stack,
                stacked_adjacent@,
                family@,
                theme@,
                "auto-adjacent-oklab-thresholds"@,
            ),
    {
        CaptureFileNames {
            raw_theme: capture_file_name(family, theme, "theme"),
            upstream: capture_file_name(family, theme, "upstream"),
            auto_mode: capture_file_name(family, theme, "auto"),
            comparison: capture_file_name(family, theme, "comparison"),
            upstream_threshold_stack: stack_name(
                stacked_upstream,
                family,
                theme,
                "upstream-apca-thresholds",
            ),
            auto_background_threshold_stack: stack_name(
                stacked_background,
                family,
                theme,
                "auto-background-apca-thresholds",
            ),
            auto_adjacent_threshold_stack: stack_name(
                stacked_adjacent,
                family,
                theme,
                "auto-adjacent-oklab-thresholds",
            ),
        }
    }
}

/// What auto mode did to a palette, as far as a caption tells.
#[derive(Clone, Copy, Debug, PartialEq, Eq, Structural)]
pub struct AutoTreatment {
    pub strategy: BracketColorizationPaletteStrategy,
    pub background_threshold: Option<Measure>,
    pub adjacent_threshold: Option<Measure>,
}

/// One image to capture.
#[derive(Clone, Copy, Debug, PartialEq, Eq, Structural)]
pub enum Shot {
    /// The theme's accents as they are.
    RawTheme,
    /// Each accent adjusted on its own.
    Upstream(Measure),
    /// Auto mode.
    Auto(AutoTreatment),
    /// Each accent adjusted on its own, as part of a stack.
    StackedUpstream(Measure),
    /// Auto mode under another background threshold, as part of a stack.
    StackedBackground(Measure, AutoTreatment),
    /// Auto mode under another distance threshold, as part of a stack.
    StackedAdjacent(Measure, AutoTreatment),
}

impl AutoTreatment {
    pub open spec fn caption(self) -> Seq<char> {
        labels::auto_behavior_text(
            self.strategy,
            self.background_threshold,
            self.adjacent_threshold,
        )
    }
}

impl Shot {
    /// The caption of an image.
    pub open spec fn spec_caption(self) -> Seq<char> {
        match self {
            Shot::RawTheme => "Raw Theme Order - unchanged"@,
            Shot::Upstream(threshold) => labels::upstream_behavior_text(threshold),
            Shot::StackedUpstream(threshold) => labels::upstream_behavior_text(threshold),
            Shot::Auto(treatment) => treatment.caption(),
            Shot::StackedBackground(_, treatment) => treatment.caption(),
            Shot::StackedAdjacent(_, treatment) => treatment.caption(),
        }
    }

    /// The message for an image that could not be captured.
    pub open spec fn spec_failure(self, theme: Seq<char>) -> Seq<char> {
        match self {
            Shot::RawTheme => "failed to capture theme-mode screenshot for "@ + theme,
            Shot::Upstream(_) => "failed to capture upstream screenshot for "@ + theme,
            Shot::Auto(_) => "failed to capture auto-mode screenshot for "@ + theme,
            Shot::StackedUpstream(threshold) => "failed to capture APCA-threshold comparison screenshot for "@
                + theme + " at "@ + labels::measure_text(threshold, 1),
            Shot::StackedBackground(threshold, _) => "failed to capture auto background-threshold comparison for "@
                + theme + " at "@ + labels::measure_text(threshold, 1),
            Shot::StackedAdjacent(threshold, _) => "failed to capture auto adjacent-threshold comparison for "@
                + theme + " at "@ + labels::measure_text(threshold, 2),
        }
    }

    /// The caption of an image.
    pub fn caption(self) -> (caption: String)
        ensures
            caption@ == self.spec_caption(),
    {
        match self {
            Shot::RawTheme => {
                let chars: Vec<char> = text::chars_of("Raw Theme Order - unchanged");
                text::string_of(&chars)
            },
            Shot::Upstream(threshold) => labels::upstream_behavior_label(threshold),
            Shot::StackedUpstream(threshold) => labels::upstream_behavior_label(threshold),
            Shot::Auto(treatment) => labels::auto_behavior_label(
                treatment.strategy,
                treatment.background_threshold,
                treatment.adjacent_threshold,
            ),
            Shot::StackedBackground(_, treatment) => labels::auto_behavior_label(
                treatment.strategy,
                treatment.background_threshold,
                treatment.adjacent_threshold,
            ),
            Shot::StackedAdjacent(_, treatment) => labels::auto_behavior_label(
                treatment.strategy,
                treatment.background_threshold,
                treatment.adjacent_threshold,
            ),
        }
    }

    /// The program shown in an image.
    pub fn source(self) -> (source: String)
        ensures
            source@ == demo_source_text(self.spec_caption()),
    {
        let caption: String = self.caption();
        demo_source(caption.as_str())
    }

    /// The message for an image that could not be captured.
    pub fn failure(self, theme: &str) -> (message: String)
        ensures
            message@ == self.spec_failure(theme@),
    {
        let mut chars: Vec<char> = Vec::new();
        match self {
            Shot::RawTheme => text::push_text(
                &mut chars,
                "failed to capture theme-mode screenshot for ",
            ),
            Shot::Upstream(_) => text::push_text(
                &mut chars,
                "failed to capture upstream screenshot for ",
            ),
            Shot::Auto(_) => text::push_text(
                &mut chars,
                "failed to capture auto-mode screenshot for ",
            ),
            Shot::StackedUpstream(_) => text::push_text(
                &mut chars,
                "failed to capture APCA-threshold comparison screenshot for ",
            ),
            Shot::StackedBackground(_, _) => text::push_text(
                &mut chars,
                "failed to capture auto background-threshold comparison for ",
            ),
            Shot::StackedAdjacent(_, _) => text::push_text(
                &mut chars,
                "failed to capture auto adjacent-threshold comparison for ",
            ),
        }
        text::push_text(&mut chars, theme);
        match self {
            Shot::StackedUpstream(threshold) => {
                text::push_text(&mut chars, " at ");
                labels::push_measure(&mut chars, threshold, 1);
            },
            Shot::StackedBackground(threshold, _) => {
                text::push_text(&mut chars, " at ");
                labels::push_measure(&mut chars, threshold, 1);
            },
            Shot::StackedAdjacent(threshold, _) => {
                text::push_text(&mut chars, " at ");
                labels::push_measure(&mut chars, threshold, 2);
            },
            _ => {},
        }
        assert(chars@ =~= self.spec_failure(theme@));
        text::string_of(&chars)
    }
}

/// The thresholds of a background stack: the given one for either appearance.
pub fn background_stack_config(config: AutoBracketColorizationConfig, threshold: Measure) -> (result:
    AutoBracketColorizationConfig)
    ensures
        result == (AutoBracketColorizationConfig {
            minimum_background_apca_light: threshold,
            minimum_background_apca_dark: threshold,
            ..config
        }),
{
    AutoBracketColorizationConfig {
        minimum_background_apca_light: threshold,
        minimum_background_apca_dark: threshold,
        ..config
    }
}

/// The thresholds of a distance stack: the given one for either appearance.
pub fn adjacent_stack_config(config: AutoBracketColorizationConfig, threshold: Measure) -> (result:
    AutoBracketColorizationConfig)
    ensures
        result == (AutoBracketColorizationConfig {
            minimum_adjacent_oklab_light: threshold,
            minimum_adjacent_oklab_dark: threshold,
            ..config
        }),
{
    AutoBracketColorizationConfig {
        minimum_adjacent_oklab_light: threshold,
        minimum_adjacent_oklab_dark: threshold,
        ..config
    }
}

/// The images of one theme in the order in which they are captured: the three of
/// the comparison, then one per threshold of each stack.
pub open spec fn planned_shots(
    upstream: Measure,
    auto: AutoTreatment,
    stacked_upstream: Seq<Measure>,
    stacked_background: Seq<(Measure, AutoTreatment)>,
    stacked_adjacent: Seq<(Measure, AutoTreatment)>,
) -> Seq<Shot> {
    seq![Shot::RawTheme, Shot::Upstream(upstream), Shot::Auto(auto)] + stacked_upstream.map_values(
        |threshold: Measure| Shot::StackedUpstream(threshold),
    ) + stacked_background.map_values(
        |entry: (Measure, AutoTreatment)| Shot::StackedBackground(entry.0, entry.1),
    ) + stacked_adjacent.map_values(
        |entry: (Measure, AutoTreatment)| Shot::StackedAdjacent(entry.0, entry.1),
    )
}

/// Plans the images of one theme. Each stacked threshold of auto mode comes with
/// what auto mode did under it.
pub fn plan_shots(
    upstream: Measure,
    auto: AutoTreatment,
    stacked_upstream: &Vec<Measure>,
    stacked_background: &Vec<(Measure, AutoTreatment)>,
    stacked_adjacent: &Vec<(Measure, AutoTreatment)>,
) -> (shots: Vec<Shot>)
    ensures
        shots@ == planned_shots(
            upstream,
            auto,
            stacked_upstream@,
            stacked_background@,
            stacked_adjacent@,
        ),
{
    let mut shots: Vec<Shot> = Vec::new();
    shots.push(Shot::RawTheme);
    shots.push(Shot::Upstream(upstream));
    shots.push(Shot::Auto(auto));
    let ghost first = seq![Shot::RawTheme, Shot::Upstream(upstream), Shot::Auto(auto)];
    let ghost second = stacked_upstream@.map_values(
        |threshold: Measure| Shot::StackedUpstream(threshold),
    );
    let ghost third = stacked_background@.map_values(
        |entry: (Measure, AutoTreatment)| Shot::StackedBackground(entry.0, entry.1),
    );
    let ghost fourth = stacked_adjacent@.map_values(
        |entry: (Measure, AutoTreatment)| Shot::StackedAdjacent(entry.0, entry.1),
    );
    let mut i: usize = 0;
    assert(shots@ =~= first + second.take(0));
    while i < stacked_upstream.len()
        invariant
            i <= stacked_upstream@.len(),
            second == stacked_upstream@.map_values(
                |threshold: Measure| Shot::StackedUpstream(threshold),
            ),
            shots@ == first + second.take(i as int),
        decreases stacked_upstream@.len() - i,
    {
        shots.push(Shot::StackedUpstream(stacked_upstream[i]));
        i = i + 1;
        assert(shots@ =~= first + second.take(i as int));
    }
    assert(second.take(i as int) =~= second);
    let mut j: usize = 0;
    assert(shots@ =~= first + second + third.take(0));
    while j < stacked_background.len()
        invariant
            j <= stacked_background@.len(),
            third == stacked_background@.map_values(
                |entry: (Measure, AutoTreatment)| Shot::StackedBackground(entry.0, entry.1),
            ),
            shots@ == first + second + third.take(j as int),
        decreases stacked_background@.len() - j,
    {
        shots.push(Shot::StackedBackground(stacked_background[j].0, stacked_background[j].1));
        j = j + 1;
        assert(shots@ =~= first + second + third.take(j as int));
    }
    assert(third.take(j as int) =~= third);
    let mut k: usize = 0;
    assert(shots@ =~= first + second + third + fourth.take(0));
    while k < stacked_adjacent.len()
        invariant
            k <= stacked_adjacent@.len(),
            fourth == stacked_adjacent@.map_values(
                |entry: (Measure, AutoTreatment)| Shot::StackedAdjacent(entry.0, entry.1),
            ),
            shots@ == first + second + third + fourth.take(k as int),
        decreases stacked_adjacent@.len() - k,
    {
        shots.push(Shot::StackedAdjacent(stacked_adjacent[k].0, stacked_adjacent[k].1));
        k = k + 1;
        assert(shots@ =~= first + second + third + fourth.take(k as int));
    }
    assert(fourth.take(k as int) =~= fourth);
    shots
}

/// The accents that an image is captured with.
#[derive(Clone, Copy, Debug, PartialEq, Eq, Structural)]
pub enum ShotAccents {
    /// Those of the theme.
    Theme,
    /// Those of the theme, each brought to a contrast on its own.
    PerAccent(Measure),
    /// Those that auto mode makes of the theme's under some thresholds.
    Auto(AutoBracketColorizationConfig),
}

impl Shot {
    /// The accents that an image is captured with, where auto mode has some
    /// thresholds unless a stack has others.
    pub open spec fn spec_accents(self, config: AutoBracketColorizationConfig) -> ShotAccents {
        match self {
            Shot::RawTheme => ShotAccents::Theme,
            Shot::Upstream(threshold) => ShotAccents::PerAccent(threshold),
            Shot::StackedUpstream(threshold) => ShotAccents::PerAccent(threshold),
            Shot::Auto(_) => ShotAccents::Auto(config),
            Shot::StackedBackground(threshold, _) => ShotAccents::Auto(
                AutoBracketColorizationConfig {
                    minimum_background_apca_light: threshold,
                    minimum_background_apca_dark: threshold,
                    ..config
                },
            ),
            Shot::StackedAdjacent(threshold, _) => ShotAccents::Auto(
                AutoBracketColorizationConfig {
                    minimum_adjacent_oklab_light: threshold,
                    minimum_adjacent_oklab_dark: threshold,
                    ..config
                },
            ),
        }
    }

    /// The accents that an image is captured with.
    pub fn accents(self, config: AutoBracketColorizationConfig) -> (accents: ShotAccents)
        ensures
            accents == self.spec_accents(config),
    {
        match self {
            Shot::RawTheme => ShotAccents::Theme,
            Shot::Upstream(threshold) => ShotAccents::PerAccent(threshold),
            Shot::StackedUpstream(threshold) => ShotAccents::PerAccent(threshold),
            Shot::Auto(_) => ShotAccents::Auto(config),
            Shot::StackedBackground(threshold, _) => ShotAccents::Auto(
                background_stack_config(config, threshold),
            ),
            Shot::StackedAdjacent(threshold, _) => ShotAccents::Auto(
                adjacent_stack_config(config, threshold),
            ),
        }
    }
}

/// The images that are put side by side, by their places among the planned ones.
#[derive(Clone, Debug)]
pub struct StitchPlan {
    pub comparison: Vec<usize>,
    pub upstream_threshold_stack: Option<Vec<usize>>,
    pub auto_background_threshold_stack: Option<Vec<usize>>,
    pub auto_adjacent_threshold_stack: Option<Vec<usize>>,
}

/// The places of a stack: that of the theme as it is, then those of the stack itself.
pub open spec fn stack_places(first: nat, count: nat) -> Seq<usize> {
    seq![0usize] + Seq::new(count, |place: int| (first + place) as usize)
}

/// A stack is there exactly if it has images.
pub open spec fn is_stack(stack: Option<Vec<usize>>, first: nat, count: nat) -> bool {
    match stack {
        Some(places) => count > 0 && places@ == stack_places(first, count),
        None => count == 0,
    }
}

fn stack_from(first: usize, count: usize) -> (stack: Option<Vec<usize>>)
    requires
        first + count <= usize::MAX,
    ensures
        is_stack(stack, first as nat, count as nat),
{
    if count == 0 {
        return None;
    }
    let mut places: Vec<usize> = Vec::new();
    places.push(0);
    let mut place: usize = 0;
    assert(places@ =~= stack_places(first as nat, 0));
    while place < count
        invariant
            place <= count,
            first + count <= usize::MAX,
            places@ == stack_places(first as nat, place as nat),
        decreases count - place,
    {
        places.push(first + place);
        place = place + 1;
        assert(places@ =~= stack_places(first as nat, place as nat));
    }
    Some(places)
}

/// Plans which of the images of one theme are put side by side: the first three for
/// the comparison, and each stack behind the theme as it is.
pub fn plan_stitches(
    stacked_upstream: usize,
    stacked_background: usize,
    stacked_adjacent: usize,
) -> (stitches: StitchPlan)
    requires
        3 + stacked_upstream + stacked_background + stacked_adjacent <= usize::MAX,
    ensures
        stitches.comparison@ == seq![0usize, 1usize, 2usize],
        is_stack(stitches.upstream_threshold_stack, 3, stacked_upstream as nat),
        is_stack(
            stitches.auto_background_threshold_stack,
            (3 + stacked_upstream) as nat,
            stacked_background as nat,
        ),
        is_stack(
            stitches.auto_adjacent_threshold_stack,
            (3 + stacked_upstream + stacked_background) as nat,
            stacked_adjacent as nat,
        ),
{
    let mut comparison: Vec<usize> = Vec::new();
    comparison.push(0);
    comparison.push(1);
    comparison.push(2);
    let background_start: usize = 3 + stacked_upstream;
    let adjacent_start: usize = background_start + stacked_background;
    StitchPlan {
        comparison,
        upstream_threshold_stack: stack_from(3, stacked_upstream),
        auto_background_threshold_stack: stack_from(background_start, stacked_background),
        auto_adjacent_threshold_stack: stack_from(adjacent_start, stacked_adjacent),
    }
}

/// Each stack shows the theme as it is first, and then, in their order, the images
/// that were captured under its thresholds; no other image is in a stack.
pub proof fn law_stacks_show_their_shots(
    upstream: Measure,
    auto: AutoTreatment,
    stacked_upstream: Seq<Measure>,
    stacked_background: Seq<(Measure, AutoTreatment)>,
    stacked_adjacent: Seq<(Measure, AutoTreatment)>,
    place: int,
)
    requires
        3 + stacked_upstream.len() + stacked_background.len() + stacked_adjacent.len()
            <= usize::MAX,
    ensures
        ({
            let shots = planned_shots(
                upstream,
                auto,
                stacked_upstream,
                stacked_background,
                stacked_adjacent,
            );
            let background_start = 3 + stacked_upstream.len();
            let adjacent_start = background_start + stacked_background.len();
            let first = stack_places(3, stacked_upstream.len());
            let second = stack_places(background_start, stacked_background.len());
            let third = stack_places(adjacent_start, stacked_adjacent.len());
            &&& shots.len() == adjacent_start + stacked_adjacent.len()
            &&& shots[first[0] as int] == Shot::RawTheme
            &&& shots[second[0] as int] == Shot::RawTheme
            &&& shots[third[0] as int] == Shot::RawTheme
            &&& 0 <= place < stacked_upstream.len() ==> shots[first[place + 1] as int]
                == Shot::StackedUpstream(stacked_upstream[place])
            &&& 0 <= place < stacked_background.len() ==> shots[second[place + 1] as int]
                == Shot::StackedBackground(stacked_background[place].0, stacked_background[place].1)
            &&& 0 <= place < stacked_adjacent.len() ==> shots[third[place + 1] as int]
                == Shot::StackedAdjacent(stacked_adjacent[place].0, stacked_adjacent[place].1)
        }),
{
}

/// The paths of the images captured of one theme, as they are shown.
#[derive(Clone, Debug)]
pub struct CapturePaths {
    pub raw_theme: String,
    pub upstream: String,
    pub auto_mode: String,
    pub comparison: String,
    pub upstream_threshold_stack: Option<String>,
    pub auto_background_threshold_stack: Option<String>,
    pub auto_adjacent_threshold_stack: Option<String>,
}

/// A line for a path that may be missing.
pub open spec fn optional_line(label: Seq<char>, path: Option<String>) -> Seq<Seq<char>> {
    match path {
        Some(path) => seq![label + path@],
        None => Seq::empty(),
    }
}

impl CapturePaths {
    /// The lines that announce the images of one theme.
    pub open spec fn announcement(&self) -> Seq<Seq<char>> {
        seq![
            "theme  : "@ + self.raw_theme@,
            "upstream: "@ + self.upstream@,
            "auto   : "@ + self.auto_mode@,
            "compare: "@ + self.comparison@,
        ] + optional_line("apca   : "@, self.upstream_threshold_stack) + optional_line(
            "auto-bg: "@,
            self.auto_background_threshold_stack,
        ) + optional_line("auto-adj: "@, self.auto_adjacent_threshold_stack)
    }

    /// Announces the images of one theme.
    pub fn announce(&self) -> (lines: Vec<Vec<char>>)
        ensures
            text::texts(lines@) == self.announcement(),
    {
        let mut lines: Vec<Vec<char>> = Vec::new();
        push_line(&mut lines, "theme  : ", self.raw_theme.as_str());
        push_line(&mut lines, "upstream: ", self.upstream.as_str());
        push_line(&mut lines, "auto   : ", self.auto_mode.as_str());
        push_line(&mut lines, "compare: ", self.comparison.as_str());
        push_optional_line(&mut lines, "apca   : ", &self.upstream_threshold_stack);
        push_optional_line(&mut lines, "auto-bg: ", &self.auto_background_threshold_stack);
        push_optional_line(&mut lines, "auto-adj: ", &self.auto_adjacent_threshold_stack);
        assert(text::texts(lines@) =~= self.announcement());
        lines
    }
}

fn push_line(lines: &mut Vec<Vec<char>>, label: &str, value: &str)
    ensures
        text::texts(final(lines)@) == text::texts(old(lines)@).push(label@ + value@),
{
    let mut line: Vec<char> = text::chars_of(label);
    text::push_text(&mut line, value);
    let ghost added = line@;
    lines.push(line);
    assert(text::texts(lines@) =~= text::texts(old(lines)@).push(added));
}

fn push_optional_line(lines: &mut Vec<Vec<char>>, label: &str, path: &Option<String>)
    ensures
        text::texts(final(lines)@) == text::texts(old(lines)@) + optional_line(label@, *path),
{
    match path {
        Some(path) => push_line(lines, label, path.as_str()),
        None => {},
    }
    assert(text::texts(lines@) =~= text::texts(old(lines)@) + optional_line(label@, *path));
}

/// One step of waiting for the editor to settle before a capture.
#[derive(Clone, Copy, Debug, PartialEq, Eq, Structural)]
pub enum SettleStep {
    /// Run the foreground tasks until none can go on.
    RunUntilParked,
    /// Run the background tasks until none can go on.
    RunBackgroundUntilParked,
    /// Let this many milliseconds pass.
    AdvanceClock(u64),
}

/// Running everything until nothing can go on.
pub open spec fn settle_round() -> Seq<SettleStep> {
    seq![
        SettleStep::RunUntilParked,
        SettleStep::RunBackgroundUntilParked,
        SettleStep::RunUntilParked,
    ]
}

/// The steps to wait for the editor to settle: four rounds, with a fifth of a
/// second between each two.
pub fn wait_for_ui_stabilization() -> (steps: Vec<SettleStep>)
    ensures
        steps@ == settle_round().push(SettleStep::AdvanceClock(200)) + settle_round().push(
            SettleStep::AdvanceClock(200),
        ) + settle_round().push(SettleStep::AdvanceClock(200)) + settle_round(),
{
    let mut steps: Vec<SettleStep> = Vec::new();
    let ghost round = settle_round().push(SettleStep::AdvanceClock(200));
    let mut i: u32 = 0;
    while i < 3
        invariant
            i <= 3,
            round == settle_round().push(SettleStep::AdvanceClock(200)),
            i == 0 ==> steps@ == Seq::<SettleStep>::empty(),
            i == 1 ==> steps@ == round,
            i == 2 ==> steps@ == round + round,
            i == 3 ==> steps@ == round + round + round,
        decreases 3 - i,
    {
        let ghost before = steps@;
        steps.push(SettleStep::RunUntilParked);
        steps.push(SettleStep::RunBackgroundUntilParked);
        steps.push(SettleStep::RunUntilParked);
        steps.push(SettleStep::AdvanceClock(200));
        assert(steps@ =~= before + round);
        i = i + 1;
    }
    steps.push(SettleStep::RunUntilParked);
    steps.push(SettleStep::RunBackgroundUntilParked);
    steps.push(SettleStep::RunUntilParked);
    assert(steps@ =~= round + round + round + settle_round());
    steps
}

} // verus!
