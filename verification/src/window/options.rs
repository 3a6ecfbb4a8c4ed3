//! What a window opens with.

use crate::capture::frames::RgbaImage;
use crate::geometry::{Bounds, Pixels, Point, Size};
use crate::window::decorations::WindowDecorations;
use crate::window::display;
use crate::window::display::{center_in, DisplayId};
use vstd::prelude::*;

verus! {

/// How a window opens, and the bounds that it goes back to.
#[derive(Clone, Copy, Debug, PartialEq, Eq, Structural)]
pub enum WindowBounds {
    Windowed(Bounds<Pixels>),
    Maximized(Bounds<Pixels>),
    Fullscreen(Bounds<Pixels>),
}

/// The rectangle without extent at the origin.
pub open spec fn no_bounds() -> Bounds<Pixels> {
    Bounds {
        origin: Point { x: Pixels(0), y: Pixels(0) },
        size: Size { width: Pixels(0), height: Pixels(0) },
    }
}

impl Default for WindowBounds {
    fn default() -> (bounds: Self)
        ensures
            bounds == WindowBounds::Windowed(no_bounds()),
    {
        WindowBounds::Windowed(
            Bounds {
                origin: Point { x: Pixels(0), y: Pixels(0) },
                size: Size { width: Pixels(0), height: Pixels(0) },
            },
        )
    }
}

impl WindowBounds {
    /// The bounds that the window goes back to.
    pub open spec fn inner(&self) -> Bounds<Pixels> {
        match self {
            WindowBounds::Windowed(bounds) => *bounds,
            WindowBounds::Maximized(bounds) => *bounds,
            WindowBounds::Fullscreen(bounds) => *bounds,
        }
    }

    /// The bounds that the window goes back to.
    pub fn get_bounds(&self) -> (bounds: Bounds<Pixels>)
        ensures
            bounds == self.inner(),
    {
        match self {
            WindowBounds::Windowed(bounds) => *bounds,
            WindowBounds::Maximized(bounds) => *bounds,
            WindowBounds::Fullscreen(bounds) => *bounds,
        }
    }

    /// A window of a size in the middle of the main display, at the origin where there
    /// is no display.
    pub fn centered(size: Size<Pixels>, main_display: Option<Bounds<Pixels>>) -> (bounds: Self)
        requires
            main_display matches Some(bounds) ==> display::is_placeable(bounds, size),
        ensures
            bounds == WindowBounds::Windowed(
                match main_display {
                    Some(bounds) => display::centered_in(bounds, size),
                    None => Bounds { origin: Point { x: Pixels(0), y: Pixels(0) }, size },
                },
            ),
    {
        let bounds: Bounds<Pixels> = match main_display {
            Some(bounds) => center_in(bounds, size),
            None => Bounds { origin: Point { x: Pixels(0), y: Pixels(0) }, size },
        };
        WindowBounds::Windowed(bounds)
    }
}

/// The title bar of a window.
#[derive(Clone, Debug)]
pub struct TitlebarOptions {
    pub title: Option<String>,
    /// The title bar of the platform is hidden.
    pub appears_transparent: bool,
    /// Where the buttons are, on platforms that let them be moved.
    pub traffic_light_position: Option<Point<Pixels>>,
}

impl TitlebarOptions {
    /// A title bar that nothing is asked of.
    pub open spec fn is_plain(&self) -> bool {
        &&& self.title is None
        &&& !self.appears_transparent
        &&& self.traffic_light_position is None
    }
}

impl Default for TitlebarOptions {
    fn default() -> (options: Self)
        ensures
            options.is_plain(),
    {
        TitlebarOptions { title: None, appears_transparent: false, traffic_light_position: None }
    }
}

/// What a window is for.
#[derive(Clone, Copy, Debug, PartialEq, Eq, Structural)]
pub enum WindowKind {
    Normal,
    /// Above all other windows.
    PopUp,
    /// Above the window it belongs to.
    Floating,
    /// Above the window it belongs to, which waits for it.
    Dialog,
}

/// Whether the platform is light or dark.
#[derive(Clone, Copy, Debug, PartialEq, Eq, Structural)]
pub enum WindowAppearance {
    Light,
    VibrantLight,
    Dark,
    VibrantDark,
}

impl Default for WindowAppearance {
    fn default() -> (appearance: Self)
        ensures
            appearance == WindowAppearance::Light,
    {
        WindowAppearance::Light
    }
}

/// What is seen behind the content of a window.
#[derive(Clone, Copy, Debug, PartialEq, Eq, Structural)]
pub enum WindowBackgroundAppearance {
    Opaque,
    Transparent,
    Blurred,
    MicaBackdrop,
    MicaAltBackdrop,
}

impl Default for WindowBackgroundAppearance {
    fn default() -> (appearance: Self)
        ensures
            appearance == WindowBackgroundAppearance::Opaque,
    {
        WindowBackgroundAppearance::Opaque
    }
}

/// How glyphs are drawn.
#[derive(Clone, Copy, Debug, PartialEq, Eq, Structural)]
pub enum TextRenderingMode {
    PlatformDefault,
    Subpixel,
    Grayscale,
}

impl Default for TextRenderingMode {
    fn default() -> (mode: Self)
        ensures
            mode == TextRenderingMode::PlatformDefault,
    {
        TextRenderingMode::PlatformDefault
    }
}

/// What the program asks of a new window.
#[derive(Clone, Debug)]
pub struct WindowOptions {
    /// How it opens; like the last one where nothing is said.
    pub window_bounds: Option<WindowBounds>,
    pub titlebar: Option<TitlebarOptions>,
    pub focus: bool,
    pub show: bool,
    pub kind: WindowKind,
    pub is_movable: bool,
    pub is_resizable: bool,
    pub is_minimizable: bool,
    /// The display that it opens on; the main one where nothing is said.
    pub display_id: Option<DisplayId>,
    pub window_background: WindowBackgroundAppearance,
    /// By which desktops group windows.
    pub app_id: Option<String>,
    pub window_min_size: Option<Size<Pixels>>,
    pub window_decorations: Option<WindowDecorations>,
    pub icon: Option<RgbaImage>,
    /// Windows of one name open as tabs of one window.
    pub tabbing_identifier: Option<String>,
}

impl Default for WindowOptions {
    fn default() -> (options: Self)
        ensures
            options.window_bounds is None,
            options.titlebar matches Some(titlebar) && titlebar.is_plain(),
            options.focus,
            options.show,
            options.kind == WindowKind::Normal,
            options.is_movable,
            options.is_resizable,
            options.is_minimizable,
            options.display_id is None,
            options.window_background == WindowBackgroundAppearance::Opaque,
            options.app_id is None,
            options.window_min_size is None,
            options.window_decorations is None,
            options.icon is None,
            options.tabbing_identifier is None,
    {
        WindowOptions {
            window_bounds: None,
            titlebar: Some(
                TitlebarOptions {
                    title: None,
                    appears_transparent: false,
                    traffic_light_position: None,
                },
            ),
            focus: true,
            show: true,
            kind: WindowKind::Normal,
            is_movable: true,
            is_resizable: true,
            is_minimizable: true,
            display_id: None,
            window_background: WindowBackgroundAppearance::Opaque,
            icon: None,
            app_id: None,
            window_min_size: None,
            window_decorations: None,
            tabbing_identifier: None,
        }
    }
}

/// What the platform is asked for a new window.
#[derive(Clone, Debug)]
pub struct WindowParams {
    pub bounds: Bounds<Pixels>,
    pub titlebar: Option<TitlebarOptions>,
    pub kind: WindowKind,
    pub is_movable: bool,
    pub is_resizable: bool,
    pub is_minimizable: bool,
    pub focus: bool,
    pub show: bool,
    pub icon: Option<RgbaImage>,
    pub display_id: Option<DisplayId>,
    pub window_min_size: Option<Size<Pixels>>,
    pub tabbing_identifier: Option<String>,
}

/// The shape of the pointer.
#[derive(Clone, Copy, Debug, PartialEq, Eq, Hash, Structural)]
pub enum CursorStyle {
    Arrow,
    IBeam,
    Crosshair,
    ClosedHand,
    OpenHand,
    PointingHand,
    ResizeLeft,
    ResizeRight,
    ResizeLeftRight,
    ResizeUp,
    ResizeDown,
    ResizeUpDown,
    ResizeUpLeftDownRight,
    ResizeUpRightDownLeft,
    ResizeColumn,
    ResizeRow,
    IBeamCursorForVerticalLayout,
    OperationNotAllowed,
    DragLink,
    DragCopy,
    ContextualMenu,
}

impl Default for CursorStyle {
    fn default() -> (style: Self)
        ensures
            style == CursorStyle::Arrow,
    {
        CursorStyle::Arrow
    }
}

} // verus!
