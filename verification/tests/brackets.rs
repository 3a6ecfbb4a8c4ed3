use editor_platform::brackets::auto_mode::{
    adjust_background_failures, adjust_color_for_background, adjusted_lightness_candidate,
    analyze_bracket_colorization_palette, analyze_bracket_colorization_palette_with_config,
    bracket_colorization_accents, compute_auto_bracket_palette, AccentMeasurement,
    BracketColorizationPaletteAnalysis, BracketColorizationPaletteStrategy, LightnessStep,
};
use editor_platform::brackets::palette::{
    maximize_adjacent_separation, minimum_adjacent_distance,
    minimum_adjacent_intervention_distance, minimum_background_contrast, palette_score,
    palette_score_is_better, Appearance, AutoBracketColorizationConfig, BracketColorizationMode,
    Hsla, MeasuredPalette, Measure, PaletteScore,
};
use palette::{FromColor, IntoColor, LinSrgba, Oklab, Oklch, Srgba};

#[derive(Clone, Copy, Debug, PartialEq)]
struct Color {
    h: f32,
    s: f32,
    l: f32,
    a: f32,
}

fn hsla(h: f32, s: f32, l: f32, a: f32) -> Color {
    Color { h, s, l, a }
}

fn to_rgb(color: Color) -> (f32, f32, f32) {
    let c = (1.0 - (2.0 * color.l - 1.0).abs()) * color.s;
    let x = c * (1.0 - ((color.h * 6.0) % 2.0 - 1.0).abs());
    let m = color.l - c / 2.0;
    let cm = c + m;
    let xm = x + m;
    let (r, g, b) = match (color.h * 6.0).floor() as i32 {
        0 | 6 => (cm, xm, m),
        1 => (xm, cm, m),
        2 => (m, cm, xm),
        3 => (m, xm, cm),
        4 => (xm, m, cm),
        _ => (cm, m, xm),
    };
    (r.clamp(0.0, 1.0), g.clamp(0.0, 1.0), b.clamp(0.0, 1.0))
}

fn from_rgb(r: f32, g: f32, b: f32, a: f32) -> Color {
    let max = r.max(g.max(b));
    let min = r.min(g.min(b));
    let delta = max - min;
    let l = (max + min) / 2.0;
    let s = if l == 0.0 || l == 1.0 {
        0.0
    } else if l < 0.5 {
        delta / (2.0 * l)
    } else {
        delta / (2.0 - 2.0 * l)
    };
    let h = if delta == 0.0 {
        0.0
    } else if max == r {
        ((g - b) / delta).rem_euclid(6.0) / 6.0
    } else if max == g {
        ((b - r) / delta + 2.0) / 6.0
    } else {
        ((r - g) / delta + 4.0) / 6.0
    };
    Color { h, s, l, a }
}

fn from_hex(hex: &str) -> Color {
    let part = |start: usize| u8::from_str_radix(&hex[start..start + 2], 16).unwrap() as f32 / 255.0;
    from_rgb(part(1), part(3), part(5), 1.0)
}

fn color_to_oklab(color: Color) -> Oklab {
    let (r, g, b) = to_rgb(color);
    let linear: LinSrgba = Srgba::new(r, g, b, color.a).into_linear();
    Oklab::from_color(linear)
}

fn color_to_oklch(color: Color) -> Oklch {
    let (r, g, b) = to_rgb(color);
    let linear: LinSrgba = Srgba::new(r, g, b, color.a).into_linear();
    Oklch::from_color(linear)
}

fn oklch_to_hsla(color: Oklch, alpha: f32) -> Color {
    let linear: LinSrgba = color.into_color();
    let rgba: Srgba = Srgba::from_linear(linear);
    let (r, g, b, _) = rgba.into_components();
    from_rgb(r.clamp(0.0, 1.0), g.clamp(0.0, 1.0), b.clamp(0.0, 1.0), alpha)
}

fn perceptual_distance(left: Oklab, right: Oklab) -> f32 {
    let l = left.l - right.l;
    let a = left.a - right.a;
    let b = left.b - right.b;
    (l * l + a * a + b * b).sqrt()
}

fn luminance(color: Color) -> f32 {
    let (r, g, b) = to_rgb(color);
    let y = 0.2126729 * r.powf(2.4) + 0.7151522 * g.powf(2.4) + 0.0721750 * b.powf(2.4);
    if y > 0.022 {
        y
    } else {
        y + (0.022 - y).powf(1.414)
    }
}

fn background_contrast(foreground: Color, background: Color) -> f32 {
    let text = luminance(foreground);
    let back = luminance(background);
    if (back - text).abs() < 0.0005 {
        return 0.0;
    }
    let contrast = if back > text {
        let difference = (back.powf(0.56) - text.powf(0.57)) * 1.14;
        if difference < 0.1 {
            0.0
        } else {
            difference - 0.027
        }
    } else {
        let difference = (back.powf(0.65) - text.powf(0.62)) * 1.14;
        if difference > -0.1 {
            0.0
        } else {
            difference + 0.027
        }
    };
    (contrast * 100.0).abs()
}

fn units(value: f32) -> Measure {
    (value as f64 * 1_099_511_627_776.0) as i64
}

fn single(value: Measure) -> f32 {
    (value as f64 / 1_099_511_627_776.0) as f32
}

fn to_bits(color: Color) -> Hsla {
    Hsla {
        h: color.h.to_bits(),
        s: color.s.to_bits(),
        l: color.l.to_bits(),
        a: color.a.to_bits(),
    }
}

fn from_bits(color: Hsla) -> Color {
    Color {
        h: f32::from_bits(color.h),
        s: f32::from_bits(color.s),
        l: f32::from_bits(color.l),
        a: f32::from_bits(color.a),
    }
}

fn all_bits(colors: &[Color]) -> Vec<Hsla> {
    colors.iter().map(|&color| to_bits(color)).collect()
}

fn measured(accents: &[Color], background: Color) -> MeasuredPalette {
    MeasuredPalette {
        accents: all_bits(accents),
        contrasts: accents
            .iter()
            .map(|&accent| units(background_contrast(accent, background)))
            .collect(),
        distances: accents
            .iter()
            .map(|&left| {
                accents
                    .iter()
                    .map(|&right| {
                        units(perceptual_distance(color_to_oklab(left), color_to_oklab(right)))
                    })
                    .collect()
            })
            .collect(),
    }
}

fn steps(color: Color, background: Color, target_lightness: f32) -> Vec<LightnessStep> {
    let original = color_to_oklch(color);
    let delta = target_lightness - original.l;
    if delta.abs() <= f32::EPSILON {
        return Vec::new();
    }
    (1..=128)
        .map(|step| {
            let candidate = oklch_to_hsla(
                Oklch::new(
                    (original.l + delta * (step as f32 / 128.0)).clamp(0.0, 1.0),
                    original.chroma,
                    original.hue,
                ),
                color.a,
            );
            LightnessStep {
                color: to_bits(candidate),
                contrast: units(background_contrast(candidate, background)),
                distance: units(perceptual_distance(
                    color_to_oklab(color),
                    color_to_oklab(candidate),
                )),
            }
        })
        .collect()
}

const CLAMP_MIN: f32 = 0.18;
const CLAMP_MAX: f32 = 0.92;

fn accent(color: Color, background: Color) -> AccentMeasurement {
    AccentMeasurement {
        color: to_bits(color),
        contrast: units(background_contrast(color, background)),
        darker: steps(color, background, CLAMP_MIN),
        lighter: steps(color, background, CLAMP_MAX),
    }
}

fn measurements(accents: &[Color], background: Color) -> Vec<AccentMeasurement> {
    accents.iter().map(|&color| accent(color, background)).collect()
}

fn adjusted(
    accents: &[Color],
    appearance: Appearance,
    background: Color,
    config: AutoBracketColorizationConfig,
) -> MeasuredPalette {
    let minimum = minimum_background_contrast(appearance, config);
    let colors: Vec<Color> = adjust_background_failures(&measurements(accents, background), minimum)
        .into_iter()
        .map(from_bits)
        .collect();
    measured(&colors, background)
}

fn analyze(
    accents: &[Color],
    appearance: Appearance,
    background: Color,
    mode: BracketColorizationMode,
    config: AutoBracketColorizationConfig,
) -> BracketColorizationPaletteAnalysis {
    analyze_bracket_colorization_palette_with_config(
        &measurements(accents, background),
        &measured(accents, background),
        &adjusted(accents, appearance, background, config),
        appearance,
        mode,
        config,
    )
}

fn light_editor_background() -> Color {
    hsla(0.0, 0.0, 0.98, 1.0)
}

fn dark_editor_background() -> Color {
    hsla(0.0, 0.0, 0.12, 1.0)
}

#[derive(Clone, Copy, Debug, PartialEq, Eq)]
enum BackgroundFailureSeverity {
    NearMiss,
    ModerateFail,
    SevereFail,
}

fn background_failure_severity(
    current_contrast: f32,
    minimum_background_contrast: f32,
    has_passing_candidate: bool,
) -> Option<BackgroundFailureSeverity> {
    if current_contrast >= minimum_background_contrast {
        return None;
    }
    if !has_passing_candidate {
        return Some(BackgroundFailureSeverity::SevereFail);
    }
    let contrast_deficit = minimum_background_contrast - current_contrast;
    if contrast_deficit <= 5.0 {
        Some(BackgroundFailureSeverity::NearMiss)
    } else if contrast_deficit <= 15.0 {
        Some(BackgroundFailureSeverity::ModerateFail)
    } else {
        Some(BackgroundFailureSeverity::SevereFail)
    }
}

fn weak_accents() -> Vec<Color> {
    vec![
        hsla(0.0, 1.0, 0.68, 1.0),
        hsla(0.02, 1.0, 0.68, 1.0),
        hsla(0.34, 1.0, 0.68, 1.0),
        hsla(0.36, 1.0, 0.68, 1.0),
    ]
}

#[test]
fn test_theme_bracket_colorization_mode_preserves_theme_order() {
    let accents = vec![
        hsla(0.0, 1.0, 0.5, 1.0),
        hsla(0.08, 1.0, 0.5, 1.0),
        hsla(0.66, 1.0, 0.5, 1.0),
        hsla(0.40, 1.0, 0.5, 1.0),
    ];
    let config = AutoBracketColorizationConfig::default();
    let changed = adjusted(&accents, Appearance::Light, light_editor_background(), config);

    let analysis = analyze_bracket_colorization_palette(
        &measurements(&accents, light_editor_background()),
        &measured(&accents, light_editor_background()),
        &changed,
        Appearance::Light,
        BracketColorizationMode::Theme,
    );
    let palette = bracket_colorization_accents(
        &measurements(&accents, light_editor_background()),
        &changed,
        Appearance::Light,
        BracketColorizationMode::Theme,
    );

    assert_eq!(
        analysis.strategy,
        BracketColorizationPaletteStrategy::ThemeOrder
    );
    assert!(!analysis.changed);
    assert_eq!(palette, all_bits(&accents));
}

#[test]
fn test_auto_bracket_colorization_mode_reorders_weak_palette() {
    let accents = measured(&weak_accents(), dark_editor_background());

    let original_score = palette_score(&accents);
    let reordered = maximize_adjacent_separation(&accents);
    let reordered_score = palette_score(&reordered);

    assert_ne!(reordered.accents, accents.accents);
    assert!(reordered_score.min_adjacent_distance > original_score.min_adjacent_distance);
}

#[test]
fn test_auto_bracket_colorization_mode_does_not_reorder_without_crossing_threshold() {
    let accents = weak_accents();
    let reordered = maximize_adjacent_separation(&measured(&accents, dark_editor_background()));
    let reordered_score = palette_score(&reordered);
    let config = AutoBracketColorizationConfig {
        minimum_background_apca_light: 0,
        minimum_background_apca_dark: 0,
        minimum_adjacent_oklab_light: reordered_score.min_adjacent_distance + units(0.001),
        minimum_adjacent_oklab_dark: reordered_score.min_adjacent_distance + units(0.001),
        ..AutoBracketColorizationConfig::default()
    };

    let analysis = analyze(
        &accents,
        Appearance::Dark,
        dark_editor_background(),
        BracketColorizationMode::Auto,
        config,
    );

    assert_eq!(
        analysis.strategy,
        BracketColorizationPaletteStrategy::PreservedWeakPalette
    );
    assert!(!analysis.changed);
    assert_eq!(analysis.final_palette, all_bits(&accents));
    assert!(
        analysis.final_score.min_adjacent_distance
            < analysis.adjacent_threshold.unwrap_or_default()
    );
}

#[test]
fn test_auto_bracket_colorization_mode_reorders_when_threshold_is_crossed() {
    let accents = weak_accents();
    let original = measured(&accents, dark_editor_background());
    let original_score = palette_score(&original);
    let reordered = maximize_adjacent_separation(&original);
    let reordered_score = palette_score(&reordered);
    let config = AutoBracketColorizationConfig {
        minimum_background_apca_light: 0,
        minimum_background_apca_dark: 0,
        minimum_adjacent_oklab_light: reordered_score.min_adjacent_distance - units(0.001),
        minimum_adjacent_oklab_dark: reordered_score.min_adjacent_distance - units(0.001),
        ..AutoBracketColorizationConfig::default()
    };

    let analysis = analyze(
        &accents,
        Appearance::Dark,
        dark_editor_background(),
        BracketColorizationMode::Auto,
        config,
    );

    assert!(original_score.min_adjacent_distance < config.minimum_adjacent_oklab_dark);
    assert!(reordered_score.min_adjacent_distance >= config.minimum_adjacent_oklab_dark);
    assert_eq!(
        analysis.strategy,
        BracketColorizationPaletteStrategy::ReorderedWeakPalette
    );
    assert!(analysis.changed);
    assert_eq!(analysis.final_palette, reordered.accents);
}

#[test]
fn test_auto_bracket_colorization_mode_keeps_reorder_that_crosses_intervention_band() {
    let accents = weak_accents();
    let original = measured(&accents, light_editor_background());
    let original_score = palette_score(&original);
    let reordered = maximize_adjacent_separation(&original);
    let reordered_score = palette_score(&reordered);
    let config = AutoBracketColorizationConfig {
        minimum_background_apca_light: 0,
        minimum_background_apca_dark: 0,
        minimum_adjacent_oklab_light: reordered_score.min_adjacent_distance + units(0.003),
        minimum_adjacent_oklab_dark: reordered_score.min_adjacent_distance + units(0.003),
        ..AutoBracketColorizationConfig::default()
    };

    assert!(
        original_score.min_adjacent_distance
            < minimum_adjacent_intervention_distance(Appearance::Light, config)
    );
    assert!(
        reordered_score.min_adjacent_distance
            < minimum_adjacent_distance(Appearance::Light, config)
    );
    assert!(
        reordered_score.min_adjacent_distance
            >= minimum_adjacent_intervention_distance(Appearance::Light, config)
    );

    let analysis = analyze(
        &accents,
        Appearance::Light,
        light_editor_background(),
        BracketColorizationMode::Auto,
        config,
    );

    assert_eq!(
        analysis.strategy,
        BracketColorizationPaletteStrategy::ReorderedWeakPalette
    );
    assert!(analysis.changed);
    assert_eq!(analysis.final_palette, reordered.accents);
    assert!(
        analysis.final_score.min_adjacent_distance
            < analysis.adjacent_threshold.unwrap_or_default()
    );
}

#[test]
fn test_compute_auto_bracket_palette_reorders_after_background_adjustment() {
    let candidate_palettes = [
        vec![
            hsla(0.0, 1.0, 0.24, 1.0),
            hsla(0.02, 1.0, 0.24, 1.0),
            hsla(0.34, 1.0, 0.24, 1.0),
            hsla(0.36, 1.0, 0.24, 1.0),
        ],
        vec![
            hsla(0.0, 0.9, 0.28, 1.0),
            hsla(0.02, 0.9, 0.28, 1.0),
            hsla(0.34, 0.9, 0.28, 1.0),
            hsla(0.36, 0.9, 0.28, 1.0),
        ],
        vec![
            hsla(0.58, 1.0, 0.28, 1.0),
            hsla(0.60, 1.0, 0.28, 1.0),
            hsla(0.12, 1.0, 0.28, 1.0),
            hsla(0.14, 1.0, 0.28, 1.0),
        ],
    ];
    let appearances_and_backgrounds = [
        (Appearance::Dark, dark_editor_background()),
        (Appearance::Light, light_editor_background()),
    ];
    let background_thresholds = [30.0, 35.0, 45.0, 55.0, 70.0, 80.0];
    let adjacency_thresholds = [0.06, 0.08, 0.10, 0.12];

    for accents in candidate_palettes {
        for (appearance, background) in appearances_and_backgrounds {
            for minimum_contrast in background_thresholds {
                for minimum_distance in adjacency_thresholds {
                    let config = AutoBracketColorizationConfig {
                        minimum_background_apca_light: units(minimum_contrast),
                        minimum_background_apca_dark: units(minimum_contrast),
                        minimum_adjacent_oklab_light: units(minimum_distance),
                        minimum_adjacent_oklab_dark: units(minimum_distance),
                        ..AutoBracketColorizationConfig::default()
                    };

                    let analysis = analyze(
                        &accents,
                        appearance,
                        background,
                        BracketColorizationMode::Auto,
                        config,
                    );

                    if analysis.strategy
                        != BracketColorizationPaletteStrategy::AdjustedBackgroundAndReorderedPalette
                    {
                        continue;
                    }

                    let palette = compute_auto_bracket_palette(
                        &measurements(&accents, background),
                        &adjusted(&accents, appearance, background, config),
                        appearance,
                        config,
                    );

                    assert_eq!(palette, analysis.final_palette);
                    return;
                }
            }
        }
    }

    panic!("expected to find a palette where auto mode reorders after background adjustment");
}

#[test]
fn averages_come_out_as_in_single_precision() {
    let palettes = [
        weak_accents(),
        vec![hsla(0.0, 1.0, 0.5, 1.0), hsla(0.3, 0.7, 0.4, 1.0), hsla(0.6, 0.9, 0.3, 1.0)],
        (0..97).map(|i| hsla(i as f32 / 97.0, 0.8, 0.35 + i as f32 / 400.0, 1.0)).collect(),
    ];
    for accents in palettes {
        for background in [light_editor_background(), dark_editor_background()] {
            let score = palette_score(&measured(&accents, background));
            let contrasts: Vec<f32> =
                accents.iter().map(|&accent| background_contrast(accent, background)).collect();
            let distances: Vec<f32> = (0..accents.len())
                .map(|i| {
                    perceptual_distance(
                        color_to_oklab(accents[i]),
                        color_to_oklab(accents[(i + 1) % accents.len()]),
                    )
                })
                .collect();
            let contrast = contrasts.iter().sum::<f32>() / contrasts.len() as f32;
            let distance = distances.iter().sum::<f32>() / distances.len() as f32;
            assert_eq!(score.average_background_contrast, units(contrast));
            assert_eq!(score.average_adjacent_distance, units(distance));
        }
    }
}

#[test]
fn gains_are_told_as_in_single_precision() {
    let score = |least: f32, average: f32| PaletteScore {
        min_adjacent_distance: units(least),
        average_adjacent_distance: units(average),
        min_background_contrast: 0,
        average_background_contrast: 0,
    };
    let is_better = |left: (f32, f32), right: (f32, f32)| {
        left.0 > right.0 + 0.0001
            || ((left.0 - right.0).abs() <= 0.0001 && left.1 > right.1 + 0.0001)
    };
    let mut better = 0;
    for base in [0.0f32, 0.013, 0.1, 0.25, 0.7, 1.5] {
        let mut near = base + 0.0001;
        for _ in 0..6 {
            near = f32::from_bits(near.to_bits() - 1);
        }
        for _ in 0..12 {
            near = f32::from_bits(near.to_bits() + 1);
            for (left, right) in [
                ((near, 0.5), (base, 0.5)),
                ((base, near), (base, base)),
                ((base, 0.6), (near, 0.5)),
            ] {
                let expected = is_better(left, right);
                better += expected as usize;
                assert_eq!(
                    palette_score_is_better(score(left.0, left.1), score(right.0, right.1)),
                    expected
                );
            }
        }
    }
    assert!(better > 0 && better < 6 * 12 * 3);
    let none = PaletteScore { min_adjacent_distance: i64::MAX, ..score(0.0, 0.0) };
    assert!(!palette_score_is_better(none, none));
    assert!(palette_score_is_better(none, score(1.0, 1.0)));
}

#[test]
fn auto_mode_ends_with_the_adjusted_accents() {
    let accents = weak_accents();
    for minimum in [0.0, 30.0, 70.0, 1_000.0] {
        let config = AutoBracketColorizationConfig {
            minimum_background_apca_light: units(minimum),
            minimum_background_apca_dark: units(minimum),
            ..AutoBracketColorizationConfig::default()
        };
        let background = light_editor_background();
        let analysis = analyze(
            &accents,
            Appearance::Light,
            background,
            BracketColorizationMode::Auto,
            config,
        );
        let moved = adjusted(&accents, Appearance::Light, background, config).accents;
        let reports_adjustment = matches!(
            analysis.strategy,
            BracketColorizationPaletteStrategy::AdjustedBackgroundPalette
                | BracketColorizationPaletteStrategy::AdjustedBackgroundAndReorderedPalette
        );
        assert_eq!(reports_adjustment, moved != all_bits(&accents));
        assert_eq!(analysis.final_palette.len(), moved.len());
        assert!(moved.iter().all(|color| analysis.final_palette.contains(color)));
    }
}

#[test]
fn test_auto_bracket_colorization_mode_preserves_strong_palette() {
    let accents = vec![
        hsla(0.0, 1.0, 0.78, 1.0),
        hsla(0.16, 1.0, 0.78, 1.0),
        hsla(0.33, 1.0, 0.78, 1.0),
        hsla(0.66, 1.0, 0.78, 1.0),
    ];
    let config = AutoBracketColorizationConfig {
        minimum_background_apca_light: 0,
        minimum_background_apca_dark: 0,
        ..AutoBracketColorizationConfig::default()
    };

    let analysis = analyze(
        &accents,
        Appearance::Dark,
        dark_editor_background(),
        BracketColorizationMode::Auto,
        config,
    );

    assert_eq!(
        analysis.strategy,
        BracketColorizationPaletteStrategy::PreservedStrongPalette
    );
    assert!(!analysis.changed);
    assert_eq!(analysis.final_palette, all_bits(&accents));
}

fn accents_with_one_failure() -> Vec<Color> {
    vec![
        hsla(0.58, 1.0, 0.28, 1.0),
        hsla(0.12, 1.0, 0.28, 1.0),
        hsla(0.22, 0.9, 0.76, 1.0),
    ]
}

#[test]
fn test_auto_bracket_colorization_mode_adjusts_only_lightness_for_background_failures() {
    let accents = accents_with_one_failure();
    let analysis = analyze(
        &accents,
        Appearance::Light,
        light_editor_background(),
        BracketColorizationMode::Auto,
        AutoBracketColorizationConfig::default(),
    );
    let original = color_to_oklch(accents[2]);
    let adjusted = color_to_oklch(from_bits(analysis.final_palette[2]));

    assert!(analysis.changed);
    assert!((original.chroma - adjusted.chroma).abs() < 0.0001);
    assert!(
        (original.hue.into_positive_degrees() - adjusted.hue.into_positive_degrees()).abs() < 0.001
    );
    assert_ne!(original.l, adjusted.l);
}

#[test]
fn test_auto_bracket_colorization_scores_use_appearance_specific_thresholds() {
    let config = AutoBracketColorizationConfig::default();

    assert_eq!(
        minimum_background_contrast(Appearance::Light, config),
        config.minimum_background_apca_light
    );
    assert_eq!(
        minimum_background_contrast(Appearance::Dark, config),
        config.minimum_background_apca_dark
    );
    assert_eq!(
        minimum_adjacent_distance(Appearance::Light, config),
        config.minimum_adjacent_oklab_light
    );
    assert_eq!(
        minimum_adjacent_distance(Appearance::Dark, config),
        config.minimum_adjacent_oklab_dark
    );
    assert_eq!(
        minimum_adjacent_intervention_distance(Appearance::Light, config),
        units(single(config.minimum_adjacent_oklab_light) - 0.005)
    );
    assert_eq!(
        minimum_adjacent_intervention_distance(Appearance::Dark, config),
        config.minimum_adjacent_oklab_dark
    );
}

#[test]
fn bands_start_at_single_precision_numbers() {
    for light in [0.004f32, 0.005, 0.1, 0.123_456_78, 1.0, 35.0, 4_000_000.0] {
        let config = AutoBracketColorizationConfig {
            minimum_adjacent_oklab_light: units(light),
            ..AutoBracketColorizationConfig::default()
        };
        assert_eq!(
            minimum_adjacent_intervention_distance(Appearance::Light, config),
            units((light - 0.005).max(0.0))
        );
    }
    let unbounded = AutoBracketColorizationConfig {
        minimum_adjacent_oklab_light: i64::MAX,
        ..AutoBracketColorizationConfig::default()
    };
    assert_eq!(
        minimum_adjacent_intervention_distance(Appearance::Light, unbounded),
        i64::MAX
    );
}

#[test]
fn default_thresholds_are_those_of_single_precision() {
    let config = AutoBracketColorizationConfig::default();
    assert_eq!(config.minimum_background_apca_light, units(35.0));
    assert_eq!(config.minimum_background_apca_dark, units(30.0));
    assert_eq!(config.minimum_adjacent_oklab_light, units(0.10));
    assert_eq!(config.minimum_adjacent_oklab_dark, units(0.08));
    assert_eq!(config.lightness_clamp_min, units(CLAMP_MIN));
    assert_eq!(config.lightness_clamp_max, units(CLAMP_MAX));
}

#[test]
fn test_auto_bracket_colorization_mode_adjusts_background_failures_without_reordering() {
    let accents = accents_with_one_failure();
    let analysis = analyze(
        &accents,
        Appearance::Light,
        light_editor_background(),
        BracketColorizationMode::Auto,
        AutoBracketColorizationConfig::default(),
    );

    assert_eq!(
        analysis.strategy,
        BracketColorizationPaletteStrategy::AdjustedBackgroundPalette
    );
    assert!(analysis.changed);
    assert_eq!(analysis.final_palette.len(), accents.len());
    assert_eq!(analysis.final_palette[0], to_bits(accents[0]));
    assert_eq!(analysis.final_palette[1], to_bits(accents[1]));
    assert_ne!(analysis.final_palette[2], to_bits(accents[2]));
    assert!(
        analysis.final_score.min_background_contrast
            >= analysis.background_threshold.unwrap_or_default()
    );
}

#[test]
fn test_auto_bracket_colorization_mode_preserves_light_near_miss_palette() {
    let accents = vec![
        from_hex("#CC241D"),
        from_hex("#98971A"),
        from_hex("#D79921"),
        from_hex("#458588"),
        from_hex("#B16286"),
        from_hex("#689D6A"),
        from_hex("#D65D0E"),
    ];
    let background = from_hex("#FBF1C7");

    let analysis = analyze(
        &accents,
        Appearance::Light,
        background,
        BracketColorizationMode::Auto,
        AutoBracketColorizationConfig::default(),
    );

    assert_eq!(
        analysis.strategy,
        BracketColorizationPaletteStrategy::PreservedWeakPalette
    );
    assert!(!analysis.changed);
    assert_eq!(analysis.final_palette, all_bits(&accents));
    assert!(analysis.original_score.min_adjacent_distance < units(0.10));
    assert!(analysis.original_score.min_adjacent_distance >= units(0.095));
}

#[test]
fn test_adjust_color_for_background_prefers_closest_passing_candidate() {
    let backgrounds = [
        hsla(0.0, 0.0, 0.15, 1.0),
        hsla(0.0, 0.0, 0.30, 1.0),
        hsla(0.0, 0.0, 0.50, 1.0),
        hsla(0.0, 0.0, 0.70, 1.0),
        hsla(0.0, 0.0, 0.85, 1.0),
    ];
    let minimum_background_contrasts = [10.0, 15.0, 20.0, 25.0, 30.0, 35.0];

    for background in backgrounds {
        let away_from_background_is_lighter = background.l <= 0.5;
        for minimum_contrast in minimum_background_contrasts {
            for hue in [0.0, 0.08, 0.16, 0.33, 0.58, 0.75] {
                for saturation in [0.4, 0.7, 1.0] {
                    for lightness in [0.22, 0.30, 0.38, 0.46, 0.54, 0.62, 0.70] {
                        let color = hsla(hue, saturation, lightness, 1.0);
                        if background_contrast(color, background) >= minimum_contrast {
                            continue;
                        }

                        let measurement = accent(color, background);
                        let minimum = units(minimum_contrast);
                        let darker_candidate =
                            adjusted_lightness_candidate(&measurement.darker, minimum);
                        let lighter_candidate =
                            adjusted_lightness_candidate(&measurement.lighter, minimum);
                        let (Some(darker_candidate), Some(lighter_candidate)) =
                            (darker_candidate, lighter_candidate)
                        else {
                            continue;
                        };

                        let closest_candidate =
                            if darker_candidate.distance <= lighter_candidate.distance {
                                darker_candidate.color
                            } else {
                                lighter_candidate.color
                            };
                        let away_from_background_candidate = if away_from_background_is_lighter {
                            lighter_candidate.color
                        } else {
                            darker_candidate.color
                        };

                        if closest_candidate == away_from_background_candidate {
                            continue;
                        }

                        assert_eq!(
                            adjust_color_for_background(&measurement, minimum),
                            closest_candidate
                        );
                        return;
                    }
                }
            }
        }
    }

    panic!(
        "expected to find a color where the closest passing candidate differs from the away-from-background candidate"
    );
}

#[test]
fn test_auto_bracket_colorization_rescues_severe_background_failure() {
    let color = hsla(0.22, 0.9, 0.76, 1.0);
    let minimum_contrast = 35.0;
    let measurement = accent(color, light_editor_background());
    let darker_candidate =
        adjusted_lightness_candidate(&measurement.darker, units(minimum_contrast));
    let lighter_candidate =
        adjusted_lightness_candidate(&measurement.lighter, units(minimum_contrast));
    let analysis = analyze(
        &[color],
        Appearance::Light,
        light_editor_background(),
        BracketColorizationMode::Auto,
        AutoBracketColorizationConfig::default(),
    );
    let original_contrast = background_contrast(color, light_editor_background());

    assert!(original_contrast < 20.0);
    assert_eq!(
        background_failure_severity(
            original_contrast,
            minimum_contrast,
            darker_candidate.is_some() || lighter_candidate.is_some(),
        ),
        Some(BackgroundFailureSeverity::SevereFail)
    );
    assert!(analysis.changed);
    assert!(
        analysis.final_score.min_background_contrast
            >= analysis.background_threshold.unwrap_or_default()
    );
}

#[test]
fn test_adjust_color_for_background_returns_original_when_clamped_out() {
    let color = hsla(0.58, 1.0, 0.47, 1.0);
    let background = hsla(0.0, 0.0, 0.50, 1.0);
    let minimum_contrast = 200.0;
    let measurement = accent(color, background);
    let darker_candidate =
        adjusted_lightness_candidate(&measurement.darker, units(minimum_contrast));
    let lighter_candidate =
        adjusted_lightness_candidate(&measurement.lighter, units(minimum_contrast));

    assert_eq!(
        background_failure_severity(
            background_contrast(color, background),
            minimum_contrast,
            darker_candidate.is_some() || lighter_candidate.is_some(),
        ),
        Some(BackgroundFailureSeverity::SevereFail)
    );
    assert_eq!(
        adjust_color_for_background(&measurement, units(minimum_contrast)),
        to_bits(color)
    );
}
