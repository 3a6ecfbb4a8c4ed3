//! Displays: how they are known, where windows open on them, and who composes
//! them.

use crate::geometry;
use crate::geometry::{Bounds, DevicePixels, Pixels, Point, Size};
use vstd::prelude::*;

verus! {

/// How hot the machine runs.
#[derive(Clone, Copy, Debug, PartialEq, Eq, Structural)]
pub enum ThermalState {
    Nominal,
    /// What can wait should.
    Fair,
    /// What takes much of the machine should be less.
    Serious,
    /// Everything should be as little as possible.
    Critical,
}

/// What is known about a screen that can be captured.
#[derive(Clone, Debug)]
pub struct SourceMetadata {
    pub id: u64,
    pub label: Option<String>,
    pub is_main: Option<bool>,
    pub resolution: Size<DevicePixels>,
}

/// A stream of what a screen shows.
pub trait ScreenCaptureStream {
    type Error;

    /// What is known about the screen.
    fn metadata(&self) -> Result<SourceMetadata, Self::Error>;
}

/// A display.
#[derive(Clone, Copy, Debug, PartialEq, Eq, Hash, Structural)]
pub struct DisplayId(pub u64);

impl DisplayId {
    /// The display that the platform knows by a number.
    pub fn new(id: u64) -> (display: Self)
        ensures
            display == DisplayId(id),
    {
        DisplayId(id)
    }
}

impl From<u64> for DisplayId {
    fn from(id: u64) -> (display: Self) {
        DisplayId(id)
    }
}

impl vstd::std_specs::convert::FromSpecImpl<u64> for DisplayId {
    open spec fn obeys_from_spec() -> bool {
        true
    }

    open spec fn from_spec(id: u64) -> DisplayId {
        DisplayId(id)
    }
}

impl From<DisplayId> for u64 {
    fn from(display: DisplayId) -> (id: u64) {
        display.0
    }
}

impl vstd::std_specs::convert::FromSpecImpl<DisplayId> for u64 {
    open spec fn obeys_from_spec() -> bool {
        true
    }

    open spec fn from_spec(display: DisplayId) -> u64 {
        display.0
    }
}

/// Half of a length, down to a whole unit.
pub open spec fn half(length: i64) -> int {
    length as int / 2
}

/// Where a window of a size opens that is no larger than the display: in its
/// middle.
pub open spec fn centered_in(display: Bounds<Pixels>, size: Size<Pixels>) -> Bounds<Pixels> {
    Bounds {
        origin: Point {
            x: Pixels((display.origin.x.0 + half(display.size.width.0) - half(size.width.0)) as i64),
            y: Pixels(
                (display.origin.y.0 + half(display.size.height.0) - half(size.height.0)) as i64,
            ),
        },
        size,
    }
}

/// A size cut down to that of a display.
pub open spec fn clipped_size(wanted: Size<Pixels>, display: Size<Pixels>) -> Size<Pixels> {
    Size {
        width: Pixels(geometry::least(wanted.width.0 as int, display.width.0 as int) as i64),
        height: Pixels(geometry::least(wanted.height.0 as int, display.height.0 as int) as i64),
    }
}

/// The corner of a window in the middle of a display has coordinates.
pub open spec fn is_placeable(display: Bounds<Pixels>, size: Size<Pixels>) -> bool {
    &&& i64::MIN <= display.origin.x.0 + half(display.size.width.0) - half(size.width.0)
        <= i64::MAX
    &&& i64::MIN <= display.origin.y.0 + half(display.size.height.0) - half(size.height.0)
        <= i64::MAX
}

fn half_length(length: i64) -> (result: i128)
    ensures
        result == half(length),
{
    let length: i128 = length as i128;
    if length >= 0 {
        length / 2
    } else {
        -((1 - length) / 2)
    }
}

/// A window of a size in the middle of a display.
pub fn center_in(display: Bounds<Pixels>, size: Size<Pixels>) -> (bounds: Bounds<Pixels>)
    requires
        is_placeable(display, size),
    ensures
        bounds == centered_in(display, size),
{
    let x: i128 = display.origin.x.0 as i128 + half_length(display.size.width.0) - half_length(
        size.width.0,
    );
    let y: i128 = display.origin.y.0 as i128 + half_length(display.size.height.0) - half_length(
        size.height.0,
    );
    Bounds { origin: Point { x: Pixels(x as i64), y: Pixels(y as i64) }, size }
}

/// Where a window opens on a display unless it is told otherwise: in the middle, in
/// its usual size or that of the display, whichever is less.
pub fn default_bounds(display: Bounds<Pixels>, window_size: Size<Pixels>) -> (bounds: Bounds<Pixels>)
    requires
        is_placeable(display, clipped_size(window_size, display.size)),
    ensures
        bounds == centered_in(display, clipped_size(window_size, display.size)),
{
    let width: i64 = if window_size.width.0 < display.size.width.0 {
        window_size.width.0
    } else {
        display.size.width.0
    };
    let height: i64 = if window_size.height.0 < display.size.height.0 {
        window_size.height.0
    } else {
        display.size.height.0
    };
    center_in(display, Size { width: Pixels(width), height: Pixels(height) })
}

/// A window that opens in the usual place lies on its display.
pub proof fn law_default_bounds_lie_on_the_display(display: Bounds<Pixels>, window_size: Size<Pixels>)
    requires
        is_placeable(display, clipped_size(window_size, display.size)),
        display.size.width.0 >= 0,
        display.size.height.0 >= 0,
        window_size.width.0 >= 0,
        window_size.height.0 >= 0,
    ensures
        ({
            let bounds = centered_in(display, clipped_size(window_size, display.size));
            &&& display.origin.x.0 <= bounds.origin.x.0
            &&& display.origin.y.0 <= bounds.origin.y.0
            &&& bounds.origin.x.0 + bounds.size.width.0 <= display.origin.x.0
                + display.size.width.0
            &&& bounds.origin.y.0 + bounds.size.height.0 <= display.origin.y.0
                + display.size.height.0
        }),
{
}

/// A display of a compositor is named and not empty.
pub open spec fn is_named(display: Option<String>) -> bool {
    display matches Some(name) && name@.len() > 0
}

fn has_name(display: &Option<String>) -> (named: bool)
    ensures
        named == is_named(*display),
{
    match display {
        Some(name) => !is_blank(name),
        None => false,
    }
}

fn is_blank(name: &String) -> (blank: bool)
    ensures
        blank == (name@.len() == 0),
{
    crate::text::chars_of(name.as_str()).len() == 0
}

/// The compositor that is going to be used: none where that is asked for, else the
/// first whose display is named.
pub fn guess_compositor(
    headless: bool,
    wayland_display: &Option<String>,
    x11_display: &Option<String>,
) -> (compositor: &'static str)
    ensures
        compositor@ == if headless {
            "Headless"@
        } else if is_named(*wayland_display) {
            "Wayland"@
        } else if is_named(*x11_display) {
            "X11"@
        } else {
            "Headless"@
        },
{
    if headless {
        return "Headless";
    }
    if has_name(wayland_display) {
        "Wayland"
    } else if has_name(x11_display) {
        "X11"
    } else {
        "Headless"
    }
}

} // verus!
