//! Damage: the part of a surface that has to be drawn again.

use crate::geometry::{Bounds, DevicePixels, Point, ScaledPixels, Size, UNITS_PER_PIXEL};
use vstd::prelude::*;

verus! {

/// The whole pixels at or below a fractional length.
pub open spec fn floor_pixels(units: int) -> int {
    units / (UNITS_PER_PIXEL as int)
}

/// The whole pixels at or above a fractional length.
pub open spec fn ceil_pixels(units: int) -> int {
    -(-units / (UNITS_PER_PIXEL as int))
}

/// A fractional length is that of a sum of two lengths.
spec fn is_length(units: int) -> bool {
    2 * i64::MIN <= units <= 2 * i64::MAX
}

fn floor_to_pixel(units: i128) -> (pixels: i32)
    requires
        is_length(units as int),
    ensures
        pixels == floor_pixels(units as int),
        -16_777_216 <= pixels <= 16_777_216,
{
    let whole: i128 = if units >= 0 {
        units / 1_099_511_627_776
    } else {
        -((-units + 1_099_511_627_775) / 1_099_511_627_776)
    };
    whole as i32
}

fn ceil_to_pixel(units: i128) -> (pixels: i32)
    requires
        is_length(units as int),
    ensures
        pixels == ceil_pixels(units as int),
        -16_777_216 <= pixels <= 16_777_216,
{
    let whole: i128 = if units >= 0 {
        (units + 1_099_511_627_775) / 1_099_511_627_776
    } else {
        -(-units / 1_099_511_627_776)
    };
    whole as i32
}

/// A surface from its upper left pixel on.
pub fn full_texture_bounds(size: Size<DevicePixels>) -> (bounds: Bounds<DevicePixels>)
    ensures
        bounds == Bounds::spec_at_origin(size),
{
    Bounds::at_origin(size)
}

/// A length from one edge to another, none where they cross.
pub open spec fn extent(from: int, to: int) -> int {
    if to > from {
        to - from
    } else {
        0
    }
}

/// The rectangle of whole pixels round a fractional rectangle.
pub open spec fn encloses(pixels: Bounds<DevicePixels>, damage: Bounds<ScaledPixels>) -> bool {
    let left = floor_pixels(damage.origin.x.0 as int);
    let top = floor_pixels(damage.origin.y.0 as int);
    &&& pixels.left() == left
    &&& pixels.top() == top
    &&& pixels.size.width.0 == extent(left, ceil_pixels(damage.origin.x.0 + damage.size.width.0))
    &&& pixels.size.height.0 == extent(top, ceil_pixels(damage.origin.y.0 + damage.size.height.0))
}

/// The rectangle of whole pixels round a fractional rectangle.
pub fn scaled_damage_to_device_bounds(damage: Bounds<ScaledPixels>) -> (pixels: Bounds<DevicePixels>)
    ensures
        encloses(pixels, damage),
        -16_777_216 <= pixels.left() <= 16_777_216,
        -16_777_216 <= pixels.top() <= 16_777_216,
        pixels.right() <= 16_777_216,
        pixels.bottom() <= 16_777_216,
{
    let left: i32 = floor_to_pixel(damage.origin.x.0 as i128);
    let top: i32 = floor_to_pixel(damage.origin.y.0 as i128);
    let right: i32 = ceil_to_pixel(damage.origin.x.0 as i128 + damage.size.width.0 as i128);
    let bottom: i32 = ceil_to_pixel(damage.origin.y.0 as i128 + damage.size.height.0 as i128);
    let width: i32 = if right > left {
        right - left
    } else {
        0
    };
    let height: i32 = if bottom > top {
        bottom - top
    } else {
        0
    };
    Bounds {
        origin: Point { x: DevicePixels(left), y: DevicePixels(top) },
        size: Size { width: DevicePixels(width), height: DevicePixels(height) },
    }
}

/// The part of damage that lies on a surface.
pub open spec fn clamped_to(damage: Bounds<DevicePixels>, viewport_size: Size<DevicePixels>) -> Bounds<
    DevicePixels,
> {
    damage.intersection(&Bounds::spec_at_origin(viewport_size))
}

/// The part of damage that lies on a surface.
pub fn clamp_damage(damage: Bounds<DevicePixels>, viewport_size: Size<DevicePixels>) -> (clamped:
    Bounds<DevicePixels>)
    requires
        damage.can_intersect(&Bounds::spec_at_origin(viewport_size)),
    ensures
        clamped.is_intersection(&damage, &Bounds::spec_at_origin(viewport_size)),
        clamped == clamped_to(damage, viewport_size),
{
    damage.intersect(&full_texture_bounds(viewport_size))
}

/// The damage of a scene in the pixels of a surface: the pixels round it that
/// lie on the surface, if there are any.
pub fn scene_damage(damage: Option<Bounds<ScaledPixels>>, viewport_size: Size<DevicePixels>) -> (clamped:
    Option<Bounds<DevicePixels>>)
    requires
        viewport_size.width.0 >= i32::MIN + 16_777_216,
        viewport_size.height.0 >= i32::MIN + 16_777_216,
    ensures
        match damage {
            None => clamped is None,
            Some(damage) => exists|pixels: Bounds<DevicePixels>, common: Bounds<DevicePixels>|
                {
                    &&& #[trigger] encloses(pixels, damage)
                    &&& #[trigger] common.is_intersection(
                        &pixels,
                        &Bounds::spec_at_origin(viewport_size),
                    )
                    &&& clamped == if common.spec_is_empty() {
                        None
                    } else {
                        Some(common)
                    }
                },
        },
        clamped matches Some(clamped) ==> within(clamped, viewport_size) && !clamped.spec_is_empty(),
{
    match damage {
        None => None,
        Some(damage) => {
            let pixels: Bounds<DevicePixels> = scaled_damage_to_device_bounds(damage);
            let common: Bounds<DevicePixels> = clamp_damage(pixels, viewport_size);
            if common.is_empty() {
                None
            } else {
                Some(common)
            }
        },
    }
}

/// A rectangle lies on a surface.
pub open spec fn within(damage: Bounds<DevicePixels>, viewport_size: Size<DevicePixels>) -> bool {
    &&& 0 <= damage.left()
    &&& 0 <= damage.top()
    &&& damage.right() <= viewport_size.width.0
    &&& damage.bottom() <= viewport_size.height.0
    &&& damage.size.width.0 >= 0
    &&& damage.size.height.0 >= 0
}

/// What a buffer has to draw again once a frame that was drawn to it failed: what
/// it had to draw anyway and what the frame would have drawn.
pub fn restore_failed_buffer_damage(
    buffer_damage: &mut Bounds<DevicePixels>,
    submitted_damage: Bounds<DevicePixels>,
)
    requires
        submitted_damage.spec_is_empty() || old(buffer_damage).can_unite(&submitted_damage),
    ensures
        if submitted_damage.spec_is_empty() {
            *final(buffer_damage) == *old(buffer_damage)
        } else {
            *final(buffer_damage) == old(buffer_damage).hull(&submitted_damage)
        },
{
    if submitted_damage.is_empty() {
        return;
    }
    *buffer_damage = buffer_damage.union(&submitted_damage);
}

/// The rectangle that drawing is cut off at.
#[derive(Clone, Copy, Debug, PartialEq, Eq, Structural)]
pub struct ScissorRect {
    pub x: u64,
    pub y: u64,
    pub width: u64,
    pub height: u64,
}

/// A length, none where it is negative.
pub open spec fn not_negative(length: i32) -> u64 {
    if length > 0 {
        length as u64
    } else {
        0
    }
}

fn clamp_length(length: i32) -> (clamped: u64)
    ensures
        clamped == not_negative(length),
{
    if length > 0 {
        length as u64
    } else {
        0
    }
}

/// The rectangle that drawing is cut off at for some damage.
pub open spec fn cut_off_at(damage: Bounds<DevicePixels>) -> ScissorRect {
    ScissorRect {
        x: not_negative(damage.origin.x.0),
        y: not_negative(damage.origin.y.0),
        width: not_negative(damage.size.width.0),
        height: not_negative(damage.size.height.0),
    }
}

/// The rectangle that drawing is cut off at for some damage.
pub fn scissor_for_damage(damage: Bounds<DevicePixels>) -> (scissor: ScissorRect)
    ensures
        scissor == cut_off_at(damage),
{
    ScissorRect {
        x: clamp_length(damage.origin.x.0),
        y: clamp_length(damage.origin.y.0),
        width: clamp_length(damage.size.width.0),
        height: clamp_length(damage.size.height.0),
    }
}

/// How the passes over a surface start.
#[derive(Clone, Copy, Debug, PartialEq, Eq, Structural)]
pub struct RedrawPlan {
    /// What is drawn.
    pub damage: Bounds<DevicePixels>,
    /// What is on the surface is kept where nothing is drawn.
    pub keep_contents: bool,
}

/// What is drawn for some damage: all of the surface where no damage is given or
/// none of it lies there.
pub open spec fn redraw_plan(
    plan: RedrawPlan,
    damage: Option<Bounds<DevicePixels>>,
    viewport_size: Size<DevicePixels>,
) -> bool {
    let full = Bounds::spec_at_origin(viewport_size);
    &&& plan.keep_contents == (plan.damage != full)
    &&& match damage {
        None => plan.damage == full,
        Some(damage) => exists|common: Bounds<DevicePixels>| #[trigger]
            common.is_intersection(&damage, &full) && plan.damage == if common.spec_is_empty() {
                full
            } else {
                common
            },
    }
}

/// What is drawn for some damage of a surface.
pub fn plan_redraw(damage: Option<Bounds<DevicePixels>>, viewport_size: Size<DevicePixels>) -> (plan:
    RedrawPlan)
    requires
        damage matches Some(damage) ==> damage.can_intersect(&Bounds::spec_at_origin(viewport_size)),
    ensures
        redraw_plan(plan, damage, viewport_size),
{
    let full: Bounds<DevicePixels> = full_texture_bounds(viewport_size);
    let drawn: Bounds<DevicePixels> = match damage {
        None => full,
        Some(damage) => {
            let common: Bounds<DevicePixels> = clamp_damage(damage, viewport_size);
            if common.is_empty() {
                full
            } else {
                common
            }
        },
    };
    RedrawPlan { damage: drawn, keep_contents: drawn != full }
}

/// Damage that lies on a surface stays as it is.
pub proof fn law_damage_on_the_surface_is_kept(
    damage: Bounds<DevicePixels>,
    viewport_size: Size<DevicePixels>,
    clamped: Bounds<DevicePixels>,
)
    requires
        within(damage, viewport_size),
        clamped.is_intersection(&damage, &Bounds::spec_at_origin(viewport_size)),
    ensures
        clamped == damage,
{
}

/// The pixels round a fractional rectangle cover every point of it.
pub proof fn law_enclosing_pixels_cover_the_damage(
    pixels: Bounds<DevicePixels>,
    damage: Bounds<ScaledPixels>,
    x: int,
    y: int,
)
    requires
        encloses(pixels, damage),
        damage.origin.x.0 <= x < damage.origin.x.0 + damage.size.width.0,
        damage.origin.y.0 <= y < damage.origin.y.0 + damage.size.height.0,
    ensures
        pixels.covers(floor_pixels(x), floor_pixels(y)),
{
}

} // verus!
