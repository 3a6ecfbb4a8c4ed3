//! The frame round a window: who draws it, what it offers, and which of its edges
//! lie against others.

use vstd::prelude::*;

verus! {

/// The part of a window by which it is resized.
#[derive(Clone, Copy, Debug, PartialEq, Eq, Structural)]
pub enum ResizeEdge {
    Top,
    TopRight,
    Right,
    BottomRight,
    Bottom,
    BottomLeft,
    Left,
    TopLeft,
}

/// Who is asked to draw the frame of a window.
#[derive(Clone, Copy, Debug, PartialEq, Eq, Hash, Structural)]
pub enum WindowDecorations {
    Server,
    Client,
}

impl Default for WindowDecorations {
    fn default() -> (decorations: Self)
        ensures
            decorations == WindowDecorations::Server,
    {
        WindowDecorations::Server
    }
}

/// Which edges of a window lie against others.
#[derive(Clone, Copy, Debug, PartialEq, Eq, Hash, Structural)]
pub struct Tiling {
    pub top: bool,
    pub left: bool,
    pub right: bool,
    pub bottom: bool,
}

impl Default for Tiling {
    fn default() -> (tiling: Self)
        ensures
            tiling == (Tiling { top: false, left: false, right: false, bottom: false }),
    {
        Tiling { top: false, left: false, right: false, bottom: false }
    }
}

impl Tiling {
    /// Every edge lies against another.
    pub fn tiled() -> (tiling: Self)
        ensures
            tiling == (Tiling { top: true, left: true, right: true, bottom: true }),
    {
        Tiling { top: true, left: true, right: true, bottom: true }
    }

    /// Whether some edge lies against another.
    pub fn is_tiled(&self) -> (tiled: bool)
        ensures
            tiled == (self.top || self.left || self.right || self.bottom),
    {
        self.top || self.left || self.right || self.bottom
    }
}

/// Who draws the frame of a window.
#[derive(Clone, Copy, Debug, PartialEq, Eq, Hash, Structural)]
pub enum Decorations {
    Server,
    Client { tiling: Tiling },
}

impl Default for Decorations {
    fn default() -> (decorations: Self)
        ensures
            decorations == Decorations::Server,
    {
        Decorations::Server
    }
}

/// What a platform can do with a window.
#[derive(Clone, Copy, Debug, PartialEq, Eq, Hash, Structural)]
pub struct WindowControls {
    pub fullscreen: bool,
    pub maximize: bool,
    pub minimize: bool,
    pub window_menu: bool,
}

impl Default for WindowControls {
    /// Everything, unless the platform says otherwise.
    fn default() -> (controls: Self)
        ensures
            controls == (WindowControls {
                fullscreen: true,
                maximize: true,
                minimize: true,
                window_menu: true,
            }),
    {
        WindowControls { fullscreen: true, maximize: true, minimize: true, window_menu: true }
    }
}

} // verus!
