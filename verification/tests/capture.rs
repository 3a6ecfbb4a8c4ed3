use editor_platform::brackets::auto_mode::{
    BracketColorizationPaletteAnalysis, BracketColorizationPaletteStrategy,
};
use editor_platform::brackets::palette::{
    Appearance, AutoBracketColorizationConfig, BracketColorizationMode, Hsla, Measure,
    PaletteScore,
};
use editor_platform::capture::frames::{
    content_bounds, dense_column_end, dense_column_start, sample_background_color,
    stitch_images_horizontally, trim_screenshot, RgbaImage,
};
use editor_platform::capture::labels::{
    analysis_palette_overrides, auto_behavior_label, format_color, format_order_mapping,
    format_palette, push_measure, strategy_label, strategy_treatments_label, threshold_result,
    upstream_behavior_label, RgbaBytes,
};
use editor_platform::capture::options::{
    split_threshold_list, Argument, Flag, Options, OptionsError, UPSTREAM_MINIMUM_APCA_CONTRAST,
};
use editor_platform::capture::plan::{
    adjacent_stack_config, background_stack_config, demo_source, output_directory, plan_shots,
    plan_stitches, report_file_name, wait_for_ui_stabilization, AutoTreatment, CaptureFileNames,
    CapturePaths, SettleStep, Shot, ShotAccents,
};
use editor_platform::capture::report::{format_capture_report, ThemeCaptureResult};
use editor_platform::capture::slug::slugify;
use editor_platform::text::{chars_of, is_text, join, push_decimal, split, string_of, trim};

fn units(value: f64) -> Measure {
    (value * 1_099_511_627_776.0) as i64
}

fn rgba(red: u8, green: u8, blue: u8, alpha: u8) -> RgbaBytes {
    RgbaBytes { red, green, blue, alpha }
}

fn hsla(h: u32) -> Hsla {
    Hsla { h, s: 0, l: 0, a: 0 }
}

fn argument(text: &str) -> Argument {
    let number = |text: &str| text.parse::<f32>().ok().map(|value| units(value as f64));
    Argument {
        text: text.to_string(),
        number: number(text),
        list: split_threshold_list(text).iter().map(|part| number(part)).collect(),
    }
}

fn parse(texts: &[&str]) -> Result<Options, OptionsError> {
    Options::parse(&texts.iter().map(|text| argument(text)).collect())
}

fn measure(value: f64, places: u8) -> String {
    let mut chars = Vec::new();
    push_measure(&mut chars, units(value), places);
    string_of(&chars)
}

#[test]
fn slugs_are_clean_and_stay() {
    for (name, slug) in [
        ("One Dark Pro", "one-dark-pro"),
        ("  Solarized (Light)!", "solarized-light"),
        ("caf\u{e9}", "caf"),
        ("---", ""),
        ("", ""),
        ("A1", "a1"),
    ] {
        assert_eq!(slugify(name), slug);
        assert_eq!(slugify(slug), slug);
    }
}

#[test]
fn text_is_split_and_joined() {
    let pieces = split(&chars_of("a,,b"), ',');
    assert_eq!(pieces, vec![vec!['a'], vec![], vec!['b']]);
    assert_eq!(string_of(&join(&pieces, ",")), "a,,b");
    assert_eq!(string_of(&trim(&chars_of(" \t x y\u{2003}"))), "x y");
    assert!(is_text(&chars_of("word"), "word"));
    assert!(!is_text(&chars_of("word"), "words"));
    let mut digits = Vec::new();
    push_decimal(&mut digits, 0);
    push_decimal(&mut digits, 1_234_567_890);
    assert_eq!(string_of(&digits), "01234567890");
}

#[test]
fn measures_are_rounded_to_even() {
    assert_eq!(measure(0.0, 1), "0.0");
    assert_eq!(measure(35.0, 1), "35.0");
    assert_eq!(measure(0.25, 1), "0.2");
    assert_eq!(measure(0.75, 1), "0.8");
    assert_eq!(measure(0.125, 2), "0.12");
    assert_eq!(measure(0.0625, 3), "0.062");
    assert_eq!(measure(-1.5, 3), "-1.500");
    assert_eq!(measure(9.96, 1), "10.0");
    let mut chars = Vec::new();
    push_measure(&mut chars, i64::MAX, 3);
    assert_eq!(string_of(&chars), format!("{:.3}", f32::MAX));
}

#[test]
fn colors_and_palettes_are_listed() {
    let palette = vec![rgba(255, 0, 10, 255), rgba(1, 2, 3, 128)];
    assert_eq!(format_color(palette[0]), "#FF000A");
    assert_eq!(format_palette(&palette), "`1:#FF000A`, `2:#01020380`");
    assert_eq!(format_palette(&vec![]), "");
    assert_eq!(
        analysis_palette_overrides(&palette),
        vec!["#FF000A".to_string(), "#01020380".to_string()]
    );
    assert_eq!(
        format_order_mapping(
            &vec![hsla(1), hsla(2), hsla(1)],
            &vec![hsla(2), hsla(1), hsla(9)]
        ),
        "2, 1, ?"
    );
}

#[test]
fn strategies_are_captioned() {
    let strategy = BracketColorizationPaletteStrategy::AdjustedBackgroundAndReorderedPalette;
    assert_eq!(
        strategy_treatments_label(strategy),
        "minimal per-accent background fix + adjacency reorder"
    );
    assert_eq!(
        strategy_label(strategy),
        "adjusted background-failing accents, then reordered"
    );
    assert_eq!(
        auto_behavior_label(strategy, Some(units(35.0)), None),
        "Proposed Auto Behavior - minimal per-accent background fix + adjacency reorder [APCA 35.0 | OKLab n/a]"
    );
    assert_eq!(
        auto_behavior_label(
            BracketColorizationPaletteStrategy::PreservedStrongPalette,
            None,
            Some(units(0.1))
        ),
        "Proposed Auto Behavior - unchanged [APCA n/a | OKLab 0.10]"
    );
    assert_eq!(
        upstream_behavior_label(units(55.0)),
        "Current Upstream Behavior - APCA 55.0 per-accent adjustment"
    );
    assert_eq!(threshold_result(5, Some(5)), "pass");
    assert_eq!(threshold_result(4, Some(5)), "fail");
    assert_eq!(threshold_result(4, None), "n/a");
}

#[test]
fn options_have_defaults() {
    let options = parse(&["a.json", "b.json"]).expect("themes are named");
    assert_eq!(options.theme_paths, vec!["a.json".to_string(), "b.json".to_string()]);
    assert_eq!(options.output_directory, None);
    assert_eq!(options.upstream_apca_threshold, UPSTREAM_MINIMUM_APCA_CONTRAST);
    assert_eq!(options.upstream_apca_threshold, units(55.0));
    assert_eq!(options.auto_config, AutoBracketColorizationConfig::default());
    assert!(options.stacked_upstream_apca_thresholds.is_empty());
}

#[test]
fn options_take_values() {
    let options = parse(&[
        "--output-dir",
        "out",
        "--upstream-apca-threshold",
        "60",
        "theme.json",
        "--stack-upstream-apca-thresholds",
        "10, 20 ,,30",
        "--auto-background-apca-light-threshold",
        "1.5",
        "--auto-background-apca-dark-threshold",
        "2.5",
        "--auto-adjacent-oklab-light-threshold",
        "0.5",
        "--auto-adjacent-oklab-dark-threshold",
        "0.25",
        "--stack-auto-background-apca-thresholds",
        "40",
        "--stack-auto-adjacent-oklab-thresholds",
        "",
    ])
    .expect("all values are numbers");
    assert_eq!(options.output_directory, Some("out".to_string()));
    assert_eq!(options.upstream_apca_threshold, units(60.0));
    assert_eq!(
        options.stacked_upstream_apca_thresholds,
        vec![units(10.0), units(20.0), units(30.0)]
    );
    assert_eq!(options.auto_config.minimum_background_apca_light, units(1.5));
    assert_eq!(options.auto_config.minimum_background_apca_dark, units(2.5));
    assert_eq!(options.auto_config.minimum_adjacent_oklab_light, units(0.5));
    assert_eq!(options.auto_config.minimum_adjacent_oklab_dark, units(0.25));
    assert_eq!(options.stacked_auto_background_apca_thresholds, vec![units(40.0)]);
    assert!(options.stacked_auto_adjacent_oklab_thresholds.is_empty());
}

#[test]
fn refused_options_say_why() {
    let missing = parse(&["a.json", "--output-dir"]).err().expect("the directory is missing");
    assert!(matches!(missing, OptionsError::MissingValue(Flag::OutputDir)));
    assert_eq!(missing.message(), "expected directory after --output-dir");
    assert_eq!(
        parse(&["--upstream-apca-threshold"]).err().map(|error| error.message()),
        Some("expected threshold after --upstream-apca-threshold".to_string())
    );
    assert_eq!(
        parse(&["--stack-upstream-apca-thresholds"]).err().map(|error| error.message()),
        Some("expected comma-separated thresholds after --stack-upstream-apca-thresholds".to_string())
    );
    let word = parse(&["--auto-adjacent-oklab-dark-threshold", "x"]).err().expect("no number");
    assert!(matches!(
        word,
        OptionsError::NotANumber(Flag::AutoAdjacentOklabDarkThreshold)
    ));
    assert_eq!(
        word.message(),
        "failed to parse --auto-adjacent-oklab-dark-threshold as a number"
    );
    assert_eq!(
        parse(&["--stack-auto-adjacent-oklab-thresholds", "1, x, y"])
            .err()
            .map(|error| error.message()),
        Some("failed to parse APCA threshold `x`".to_string())
    );
    let nothing = parse(&[]).err().expect("no theme is named");
    assert!(matches!(nothing, OptionsError::Usage));
    assert!(nothing.message().starts_with("usage: "));
}

#[test]
fn captures_are_named_after_family_and_theme() {
    let names = CaptureFileNames::new("One Half", "One Half Dark", &vec![1], &vec![], &vec![2]);
    assert_eq!(names.raw_theme, "one-half-one-half-dark-theme.png");
    assert_eq!(names.upstream, "one-half-one-half-dark-upstream.png");
    assert_eq!(names.auto_mode, "one-half-one-half-dark-auto.png");
    assert_eq!(names.comparison, "one-half-one-half-dark-comparison.png");
    assert!(names.upstream_threshold_stack.is_some());
    assert_eq!(names.auto_background_threshold_stack, None);
    assert!(names.auto_adjacent_threshold_stack.is_some());
    assert_eq!(report_file_name("One Half"), "one-half-bracket-contrast-report.md");
    assert_eq!(
        output_directory(&Some("a".to_string()), &Some("b".to_string())),
        "a"
    );
    assert_eq!(output_directory(&None, &Some("b".to_string())), "b");
    assert_eq!(output_directory(&None, &None), ".");
}

fn treatment() -> AutoTreatment {
    AutoTreatment {
        strategy: BracketColorizationPaletteStrategy::ReorderedWeakPalette,
        background_threshold: Some(units(30.0)),
        adjacent_threshold: Some(units(0.08)),
    }
}

#[test]
fn shots_are_planned_in_order() {
    let shots = plan_shots(
        units(55.0),
        treatment(),
        &vec![units(10.0)],
        &vec![(units(20.0), treatment())],
        &vec![(units(0.5), treatment())],
    );
    assert_eq!(
        shots,
        vec![
            Shot::RawTheme,
            Shot::Upstream(units(55.0)),
            Shot::Auto(treatment()),
            Shot::StackedUpstream(units(10.0)),
            Shot::StackedBackground(units(20.0), treatment()),
            Shot::StackedAdjacent(units(0.5), treatment()),
        ]
    );
    assert_eq!(shots[0].caption(), "Raw Theme Order - unchanged");
    assert_eq!(
        shots[2].caption(),
        "Proposed Auto Behavior - adjacency reorder only [APCA 30.0 | OKLab 0.08]"
    );
    assert_eq!(shots[3].source(), demo_source(&upstream_behavior_label(units(10.0))));
    assert_eq!(shots[0].failure("T"), "failed to capture theme-mode screenshot for T");
    assert_eq!(
        shots[4].failure("T"),
        "failed to capture auto background-threshold comparison for T at 20.0"
    );
    assert_eq!(
        shots[5].failure("T"),
        "failed to capture auto adjacent-threshold comparison for T at 0.50"
    );
    assert!(demo_source("label").starts_with("fn main() {\n    // label\n\n    // Direct"));
    let config = AutoBracketColorizationConfig::default();
    assert_eq!(background_stack_config(config, 7).minimum_background_apca_dark, 7);
    assert_eq!(
        background_stack_config(config, 7).minimum_adjacent_oklab_dark,
        config.minimum_adjacent_oklab_dark
    );
    assert_eq!(adjacent_stack_config(config, 7).minimum_adjacent_oklab_light, 7);
}

#[test]
fn stacks_show_their_shots() {
    let stitches = plan_stitches(2, 0, 1);
    assert_eq!(stitches.comparison, vec![0, 1, 2]);
    assert_eq!(stitches.upstream_threshold_stack, Some(vec![0, 3, 4]));
    assert_eq!(stitches.auto_background_threshold_stack, None);
    assert_eq!(stitches.auto_adjacent_threshold_stack, Some(vec![0, 5]));
}

#[test]
fn shots_choose_their_accents() {
    let config = AutoBracketColorizationConfig::default();
    assert_eq!(Shot::RawTheme.accents(config), ShotAccents::Theme);
    assert_eq!(Shot::Upstream(7).accents(config), ShotAccents::PerAccent(7));
    assert_eq!(Shot::StackedUpstream(8).accents(config), ShotAccents::PerAccent(8));
    assert_eq!(Shot::Auto(treatment()).accents(config), ShotAccents::Auto(config));
    assert_eq!(
        Shot::StackedBackground(9, treatment()).accents(config),
        ShotAccents::Auto(background_stack_config(config, 9))
    );
    assert_eq!(
        Shot::StackedAdjacent(9, treatment()).accents(config),
        ShotAccents::Auto(adjacent_stack_config(config, 9))
    );
}

#[test]
fn the_editor_settles_in_four_rounds() {
    let steps = wait_for_ui_stabilization();
    assert_eq!(steps.len(), 15);
    assert_eq!(
        steps[..4],
        [
            SettleStep::RunUntilParked,
            SettleStep::RunBackgroundUntilParked,
            SettleStep::RunUntilParked,
            SettleStep::AdvanceClock(200),
        ]
    );
    assert_eq!(steps[14], SettleStep::RunUntilParked);
}

fn paths(stack: Option<&str>) -> CapturePaths {
    CapturePaths {
        raw_theme: "raw.png".to_string(),
        upstream: "up.png".to_string(),
        auto_mode: "auto.png".to_string(),
        comparison: "cmp.png".to_string(),
        upstream_threshold_stack: stack.map(str::to_string),
        auto_background_threshold_stack: None,
        auto_adjacent_threshold_stack: None,
    }
}

#[test]
fn captures_are_announced() {
    let lines: Vec<String> = paths(Some("stack.png"))
        .announce()
        .iter()
        .map(|line| string_of(line))
        .collect();
    assert_eq!(
        lines,
        vec![
            "theme  : raw.png",
            "upstream: up.png",
            "auto   : auto.png",
            "compare: cmp.png",
            "apca   : stack.png",
        ]
    );
}

#[test]
fn reports_have_a_section_for_each_theme() {
    let score = |distance, contrast| PaletteScore {
        min_adjacent_distance: units(distance),
        average_adjacent_distance: units(distance),
        min_background_contrast: units(contrast),
        average_background_contrast: units(contrast),
    };
    let result = ThemeCaptureResult {
        name: "Dark".to_string(),
        appearance: Appearance::Dark,
        editor_background: rgba(0, 0, 0, 255),
        analysis: BracketColorizationPaletteAnalysis {
            mode: BracketColorizationMode::Auto,
            appearance: Appearance::Dark,
            strategy: BracketColorizationPaletteStrategy::ReorderedWeakPalette,
            original_palette: vec![hsla(1), hsla(2)],
            final_palette: vec![hsla(2), hsla(1)],
            original_score: score(0.05, 40.0),
            final_score: score(0.5, 40.0),
            changed: true,
            adjacent_threshold: Some(units(0.08)),
            background_threshold: Some(units(30.0)),
        },
        original_colors: vec![rgba(1, 1, 1, 255), rgba(2, 2, 2, 255)],
        final_colors: vec![rgba(2, 2, 2, 255), rgba(1, 1, 1, 255)],
        paths: paths(Some("stack.png")),
    };
    let report = format_capture_report(
        "themes/t.json",
        "Family",
        &vec![result],
        "out",
        units(55.0),
        AutoBracketColorizationConfig::default(),
    );
    let expected = "# Bracket Contrast Capture: Family

- Theme file: `themes/t.json`
- Output directory: `out`
- Upstream APCA threshold: `55.0`
- Auto background APCA floors: `light=35.0`, `dark=30.0`
- Auto adjacent OKLab floors: `light=0.100`, `dark=0.080`
- Notes: This report scores bracket-vs-background using absolute APCA Lc and adjacent bracket separation using OKLab distance. Use the saved captures as the final visual check.

## Dark

- Appearance: `dark`
- Editor background: `#000000`
- Strategy: `reordered weak palette`
- Reordered: `yes`
- Background-adjusted: `no`
- Changed colors: `yes`
- Adjacent threshold: `0.080`
- Background threshold: `30.000`
- Original min adjacent distance: `0.050`
- Final min adjacent distance: `0.500`
- Original threshold result: `fail`
- Final threshold result: `pass`
- Original min background contrast: `40.000`
- Final min background contrast: `40.000`
- Original background threshold result: `pass`
- Final background threshold result: `pass`
- Original average adjacent distance: `0.050`
- Final average adjacent distance: `0.500`
- Original average background contrast: `40.000`
- Final average background contrast: `40.000`
- Raw theme capture: `raw.png`
- Upstream capture: `up.png`
- Auto capture: `auto.png`
- Comparison capture: `cmp.png`

- Upstream APCA threshold stack capture: `stack.png`

### Palettes

- Original order: `1:#010101`, `2:#020202`
- Final order: `1:#020202`, `2:#010101`
- Final order mapped to original indices: `2, 1`

> Passing the APCA floor or the OKLab adjacent-distance floor does not by itself guarantee a good bracket palette. Use the saved captures as the final check.

";
    assert_eq!(report, expected);
}

fn image(width: u32, height: u32, pixel: RgbaBytes) -> RgbaImage {
    RgbaImage::filled(width, height, pixel)
}

#[test]
fn stitched_images_stand_apart() {
    let red = rgba(200, 0, 0, 255);
    let blue = rgba(0, 0, 200, 255);
    let clear = rgba(9, 9, 9, 0);
    let half = rgba(255, 255, 255, 128);
    let stitched = stitch_images_horizontally(&vec![
        image(3, 2, red),
        image(2, 4, blue),
        image(1, 1, clear),
        image(1, 1, half),
    ]);
    assert_eq!((stitched.width, stitched.height), (3 + 24 + 2 + 24 + 1 + 24 + 1, 4));
    assert_eq!(stitched.get_pixel(2, 1), red);
    assert_eq!(stitched.get_pixel(10, 3), red);
    assert_eq!(stitched.get_pixel(27, 3), blue);
    assert_eq!(stitched.get_pixel(53, 0), red);
    let mut mixed = image::Rgba([200, 0, 0, 255]);
    image::Pixel::blend(&mut mixed, &image::Rgba([255, 255, 255, 128]));
    let [r, g, b, a] = mixed.0;
    assert_ne!(rgba(r, g, b, a), red);
    assert_eq!(stitched.get_pixel(78, 0), rgba(r, g, b, a));
    let nothing = stitch_images_horizontally(&vec![]);
    assert_eq!((nothing.width, nothing.height), (0, 0));
}

fn with_block(mut image: RgbaImage, left: u32, top: u32, right: u32, bottom: u32) -> RgbaImage {
    for y in top..=bottom {
        for x in left..=right {
            let place = ((y * image.width + x) * 4) as usize;
            image.data[place..place + 4].copy_from_slice(&[255, 255, 255, 255]);
        }
    }
    image
}

#[test]
fn captures_are_cut_down_to_their_content() {
    let black = rgba(0, 0, 0, 255);
    let screenshot = with_block(image(200, 150, black), 60, 50, 79, 59);
    assert_eq!(sample_background_color(&screenshot), black);
    assert_eq!(content_bounds(&screenshot, black), Some((59, 50, 80, 59)));
    let trimmed = trim_screenshot(&screenshot, 24);
    assert_eq!((trimmed.width, trimmed.height), (22 + 48, 10 + 48));
    assert_eq!(trimmed.get_pixel(25, 24), rgba(255, 255, 255, 255));
    assert_eq!(trimmed.get_pixel(24, 24), black);

    let empty = image(30, 20, black);
    assert_eq!(content_bounds(&empty, black), None);
    let kept = trim_screenshot(&empty, 24);
    assert_eq!((kept.width, kept.height), (30, 20));

    let corner = with_block(image(100, 100, black), 0, 0, 15, 15);
    let trimmed = trim_screenshot(&corner, 24);
    assert_eq!((trimmed.width, trimmed.height), (20 + 24, 16 + 24));
}

#[test]
fn dense_runs_of_columns_are_found() {
    let mut counts = vec![0; 30];
    for count in &mut counts[10..18] {
        *count = 8;
    }
    assert_eq!(dense_column_start(&counts), Some(10));
    assert_eq!(dense_column_end(&counts), Some(17));
    counts[25] = 64;
    assert_eq!(dense_column_end(&counts), Some(29));
    assert_eq!(dense_column_start(&vec![100; 7]), None);
    assert_eq!(dense_column_end(&vec![100; 7]), None);
}
