use editor_platform::geometry::{Bounds, Pixels, Point, Size, UNITS_PER_PIXEL};
use editor_platform::window::button_layout::{WindowButton, WindowButtonLayout};
use editor_platform::window::decorations::{
    Decorations, Tiling, WindowControls, WindowDecorations,
};
use editor_platform::window::display::{default_bounds, guess_compositor, DisplayId};
use editor_platform::window::options::{
    CursorStyle, TextRenderingMode, TitlebarOptions, WindowAppearance, WindowBackgroundAppearance,
    WindowBounds, WindowKind, WindowOptions,
};
use editor_platform::window::prompt::PromptButton;
use std::collections::HashSet;

#[test]
fn test_window_button_layout_parse_standard() {
    let layout = WindowButtonLayout::parse("close,minimize:maximize").unwrap();
    assert_eq!(
        layout.left,
        [
            Some(WindowButton::Close),
            Some(WindowButton::Minimize),
            None
        ]
    );
    assert_eq!(layout.right, [Some(WindowButton::Maximize), None, None]);
}

#[test]
fn test_window_button_layout_parse_right_only() {
    let layout = WindowButtonLayout::parse("minimize,maximize,close").unwrap();
    assert_eq!(layout.left, [None, None, None]);
    assert_eq!(
        layout.right,
        [
            Some(WindowButton::Minimize),
            Some(WindowButton::Maximize),
            Some(WindowButton::Close)
        ]
    );
}

#[test]
fn test_window_button_layout_parse_left_only() {
    let layout = WindowButtonLayout::parse("close,minimize,maximize:").unwrap();
    assert_eq!(
        layout.left,
        [
            Some(WindowButton::Close),
            Some(WindowButton::Minimize),
            Some(WindowButton::Maximize)
        ]
    );
    assert_eq!(layout.right, [None, None, None]);
}

#[test]
fn test_window_button_layout_parse_with_whitespace() {
    let layout = WindowButtonLayout::parse(" close , minimize : maximize ").unwrap();
    assert_eq!(
        layout.left,
        [
            Some(WindowButton::Close),
            Some(WindowButton::Minimize),
            None
        ]
    );
    assert_eq!(layout.right, [Some(WindowButton::Maximize), None, None]);
}

#[test]
fn test_window_button_layout_parse_empty() {
    let layout = WindowButtonLayout::parse("").unwrap();
    assert_eq!(layout.left, [None, None, None]);
    assert_eq!(layout.right, [None, None, None]);
}

#[test]
fn test_window_button_layout_parse_intentionally_empty() {
    let layout = WindowButtonLayout::parse(":").unwrap();
    assert_eq!(layout.left, [None, None, None]);
    assert_eq!(layout.right, [None, None, None]);
}

#[test]
fn test_window_button_layout_parse_invalid_buttons() {
    let layout = WindowButtonLayout::parse("close,invalid,minimize:maximize,foo").unwrap();
    assert_eq!(
        layout.left,
        [
            Some(WindowButton::Close),
            Some(WindowButton::Minimize),
            None
        ]
    );
    assert_eq!(layout.right, [Some(WindowButton::Maximize), None, None]);
}

#[test]
fn test_window_button_layout_parse_deduplicates_same_side_buttons() {
    let layout = WindowButtonLayout::parse("close,close,minimize").unwrap();
    assert_eq!(
        layout.right,
        [
            Some(WindowButton::Close),
            Some(WindowButton::Minimize),
            None
        ]
    );
    assert_eq!(layout.format(), ":close,minimize");
}

#[test]
fn test_window_button_layout_parse_deduplicates_buttons_across_sides() {
    let layout = WindowButtonLayout::parse("close:maximize,close,minimize").unwrap();
    assert_eq!(layout.left, [Some(WindowButton::Close), None, None]);
    assert_eq!(
        layout.right,
        [
            Some(WindowButton::Maximize),
            Some(WindowButton::Minimize),
            None
        ]
    );

    let button_ids: Vec<_> = layout
        .left
        .iter()
        .chain(layout.right.iter())
        .flatten()
        .map(WindowButton::id)
        .collect();
    let unique_button_ids = button_ids.iter().copied().collect::<HashSet<_>>();
    assert_eq!(unique_button_ids.len(), button_ids.len());
    assert_eq!(layout.format(), "close:maximize,minimize");
}

#[test]
fn test_window_button_layout_parse_gnome_style() {
    let layout = WindowButtonLayout::parse("close").unwrap();
    assert_eq!(layout.left, [None, None, None]);
    assert_eq!(layout.right, [Some(WindowButton::Close), None, None]);
}

#[test]
fn test_window_button_layout_parse_elementary_style() {
    let layout = WindowButtonLayout::parse("close:maximize").unwrap();
    assert_eq!(layout.left, [Some(WindowButton::Close), None, None]);
    assert_eq!(layout.right, [Some(WindowButton::Maximize), None, None]);
}

#[test]
fn test_window_button_layout_round_trip() {
    let cases = [
        "close:minimize,maximize",
        "minimize,maximize,close:",
        ":close",
        "close:",
        "close:maximize",
        ":",
    ];

    for case in cases {
        let layout = WindowButtonLayout::parse(case).unwrap();
        assert_eq!(layout.format(), case, "Round-trip failed for: {}", case);
    }
}

#[test]
fn test_window_button_layout_linux_default() {
    let layout = WindowButtonLayout::linux_default();
    assert_eq!(layout.left, [None, None, None]);
    assert_eq!(
        layout.right,
        [
            Some(WindowButton::Minimize),
            Some(WindowButton::Maximize),
            Some(WindowButton::Close)
        ]
    );

    let round_tripped = WindowButtonLayout::parse(&layout.format()).unwrap();
    assert_eq!(round_tripped, layout);
}

#[test]
fn test_window_button_layout_parse_all_invalid() {
    assert!(WindowButtonLayout::parse("asdfghjkl").is_err());
}

#[test]
fn refused_layouts_name_what_was_not_recognized() {
    let error = WindowButtonLayout::parse("a\"b,foo:bar").unwrap_err();
    assert_eq!(
        error.message(),
        "button layout string \"a\\\"b,foo:bar\" contains no valid buttons (unrecognized: a\"b, foo, bar)"
    );
}

#[test]
fn compositor_is_the_first_with_a_named_display() {
    let none: Option<String> = None;
    let blank = Some(String::new());
    let named = Some(String::from("wayland-0"));
    let x11 = Some(String::from(":0"));
    assert_eq!(guess_compositor(true, &named, &x11), "Headless");
    assert_eq!(guess_compositor(false, &named, &x11), "Wayland");
    assert_eq!(guess_compositor(false, &blank, &x11), "X11");
    assert_eq!(guess_compositor(false, &none, &x11), "X11");
    assert_eq!(guess_compositor(false, &none, &blank), "Headless");
    assert_eq!(guess_compositor(false, &none, &none), "Headless");
}

#[test]
fn displays_are_known_by_their_numbers() {
    assert_eq!(DisplayId::new(7), DisplayId::from(7u64));
    assert_eq!(u64::from(DisplayId::new(9)), 9);
}

fn px(pixels: i64) -> Pixels {
    Pixels(pixels * UNITS_PER_PIXEL)
}

fn rectangle(x: i64, y: i64, width: i64, height: i64) -> Bounds<Pixels> {
    Bounds {
        origin: Point { x: px(x), y: px(y) },
        size: Size {
            width: px(width),
            height: px(height),
        },
    }
}

#[test]
fn windows_open_in_the_middle_of_their_display() {
    let display = rectangle(100, 50, 1000, 800);
    let usual = Size {
        width: px(1536),
        height: px(600),
    };
    assert_eq!(default_bounds(display, usual), rectangle(100, 150, 1000, 600));
    let small = Size {
        width: px(200),
        height: px(100),
    };
    assert_eq!(
        WindowBounds::centered(small, Some(display)),
        WindowBounds::Windowed(rectangle(500, 400, 200, 100))
    );
    assert_eq!(
        WindowBounds::centered(small, None),
        WindowBounds::Windowed(rectangle(0, 0, 200, 100))
    );
}

#[test]
fn displays_left_of_the_first_have_a_middle_too() {
    let small = Size {
        width: px(3),
        height: px(100),
    };
    let far = rectangle(-3_000_000, -400_000, 1_000, 800);
    assert_eq!(
        WindowBounds::centered(small, Some(far)),
        WindowBounds::Windowed(Bounds {
            origin: Point {
                x: Pixels(-2_999_502 * UNITS_PER_PIXEL + UNITS_PER_PIXEL / 2),
                y: px(-399_650),
            },
            size: small,
        })
    );
    assert_eq!(default_bounds(far, small), WindowBounds::centered(small, Some(far)).get_bounds());
}

#[test]
fn window_bounds_give_back_what_they_hold() {
    let bounds = rectangle(1, 2, 3, 4);
    assert_eq!(WindowBounds::Windowed(bounds).get_bounds(), bounds);
    assert_eq!(WindowBounds::Maximized(bounds).get_bounds(), bounds);
    assert_eq!(WindowBounds::Fullscreen(bounds).get_bounds(), bounds);
    assert_eq!(
        WindowBounds::default(),
        WindowBounds::Windowed(rectangle(0, 0, 0, 0))
    );
}

#[test]
fn defaults_of_windows() {
    assert_eq!(WindowDecorations::default(), WindowDecorations::Server);
    assert_eq!(Decorations::default(), Decorations::Server);
    assert!(!Tiling::default().is_tiled());
    assert!(Tiling::tiled().is_tiled());
    assert!(Tiling {
        bottom: true,
        ..Tiling::default()
    }
    .is_tiled());
    let controls = WindowControls::default();
    assert!(controls.fullscreen && controls.maximize && controls.minimize && controls.window_menu);
    let options = WindowOptions::default();
    assert!(options.window_bounds.is_none());
    assert!(options.titlebar.is_some());
    assert!(options.focus && options.show);
    assert!(options.is_movable && options.is_resizable && options.is_minimizable);
    assert_eq!(options.kind, WindowKind::Normal);
    assert_eq!(
        options.window_background,
        WindowBackgroundAppearance::default()
    );
    assert_eq!(
        WindowBackgroundAppearance::default(),
        WindowBackgroundAppearance::Opaque
    );
    assert_eq!(WindowAppearance::default(), WindowAppearance::Light);
    assert_eq!(TextRenderingMode::default(), TextRenderingMode::PlatformDefault);
    assert_eq!(CursorStyle::default(), CursorStyle::Arrow);
    assert!(TitlebarOptions::default().title.is_none());
}

#[test]
fn words_stand_for_buttons_whatever_their_case() {
    assert_eq!(
        PromptButton::from_text("oK"),
        PromptButton::Okay(String::from("OK"))
    );
    assert_eq!(
        PromptButton::from_text("CANCEL"),
        PromptButton::Cancel(String::from("Cancel"))
    );
    assert_eq!(
        PromptButton::from_text("Discard"),
        PromptButton::Other(String::from("Discard"))
    );
    assert_eq!(
        PromptButton::from_lowercase("Yes", "cancel"),
        PromptButton::Cancel(String::from("Cancel"))
    );
}

#[test]
fn buttons_keep_their_labels() {
    let ok = PromptButton::ok(String::from("Go"));
    let cancel = PromptButton::cancel(String::from("Stop"));
    let other = PromptButton::new(String::from("Later"));
    assert_eq!(ok.label(), "Go");
    assert_eq!(cancel.label(), "Stop");
    assert_eq!(other.label(), "Later");
    assert!(cancel.is_cancel());
    assert!(!ok.is_cancel());
    assert!(!other.is_cancel());
}
