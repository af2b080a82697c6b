//! The zone's window: how large it is on a given display, and how it
//! follows the pointer while it is dragged about by the primary button.

use vstd::prelude::*;
use crate::error::ZoneError;
use crate::ratio::{toward_zero, Ratio};

verus! {

/// Width of the window in pixels at scale one.
pub const WINDOW_DEFAULT_WIDTH: u32 = 80;

/// Height of the window in pixels at scale one.
pub const WINDOW_DEFAULT_HEIGHT: u32 = 80;

/// The display resolution, in dots per inch, at which the scale is one.
pub const DEFAULT_DPI: u16 = 96;

/// The number of the primary pointer button.
pub const PRIMARY_BUTTON: u32 = 1;

/// The bit of a pointer event's modifier state that is set while the
/// primary button is held.
pub const PRIMARY_BUTTON_HELD: u32 = 256;

/// How many units of a [`PointerPosition`] make a pixel.
pub const POINTER_UNIT: i64 = 65536;

/// The display scale at a resolution of `resolution` dots per inch: the
/// resolution over [`DEFAULT_DPI`].
///
/// Fails with `InvalidArgument` when the resolution denotes no number or
/// its denominator is too large for the scale to be carried.
pub fn dpi_scale(resolution: Ratio) -> (result: Result<Ratio, ZoneError>)
    ensures
        match result {
            Ok(scale) => {
                &&& resolution.is_valid()
                &&& resolution.denom * DEFAULT_DPI <= u16::MAX
                &&& scale.numer == resolution.numer
                &&& scale.denom == resolution.denom * DEFAULT_DPI
            },
            Err(e) => {
                &&& e == ZoneError::InvalidArgument
                &&& !resolution.is_valid() || resolution.denom * DEFAULT_DPI > u16::MAX
            },
        },
{
    if resolution.denom == 0 {
        return Err(ZoneError::InvalidArgument);
    }
    match resolution.denom.checked_mul(DEFAULT_DPI) {
        Some(denom) => Ok(Ratio { numer: resolution.numer, denom }),
        None => Err(ZoneError::InvalidArgument),
    }
}

/// The size of the window at `scale`: the default size times the scale,
/// each side rounded up to whole pixels.
///
/// Fails with `InvalidArgument` when the scale denotes no number.
pub fn window_size(scale: Ratio) -> (result: Result<(i32, i32), ZoneError>)
    ensures
        match result {
            Ok((width, height)) => {
                &&& scale.is_valid()
                &&& width == scale.ceil_times(WINDOW_DEFAULT_WIDTH as int)
                &&& height == scale.ceil_times(WINDOW_DEFAULT_HEIGHT as int)
            },
            Err(e) => !scale.is_valid() && e == ZoneError::InvalidArgument,
        },
{
    let width = match scale.times_ceil(WINDOW_DEFAULT_WIDTH) {
        Some(width) => width,
        None => {
            return Err(ZoneError::InvalidArgument);
        },
    };
    let height = match scale.times_ceil(WINDOW_DEFAULT_HEIGHT) {
        Some(height) => height,
        None => {
            return Err(ZoneError::InvalidArgument);
        },
    };
    proof {
        lemma_side_is_small(scale, WINDOW_DEFAULT_WIDTH as int);
        lemma_side_is_small(scale, WINDOW_DEFAULT_HEIGHT as int);
    }
    Ok((width as i32, height as i32))
}

/// A few pixels times a scale is far from the largest window side.
pub proof fn lemma_side_is_small(scale: Ratio, pixels: int)
    requires
        scale.is_valid(),
        0 <= pixels <= 80,
    ensures
        0 <= scale.ceil_times(pixels) <= 80 * 0xffff + 0xffff,
{
    let n = pixels * scale.numer + scale.denom - 1;
    assert(0 <= pixels * scale.numer <= 80 * 0xffff) by (nonlinear_arith)
        requires
            0 <= pixels <= 80,
            0 <= scale.numer <= 0xffff,
    ;
    crate::ratio::lemma_quotient_bounds(n, scale.denom as int);
}

/// `value`, or the nearest number that a coordinate can hold.
pub open spec fn clamped(value: int) -> int {
    if value < i32::MIN {
        i32::MIN as int
    } else if value > i32::MAX {
        i32::MAX as int
    } else {
        value
    }
}

/// A point on the screen, in whole pixels.
#[derive(Clone, Copy, Debug, PartialEq, Eq, Structural)]
pub struct Point {
    pub x: i32,
    pub y: i32,
}

/// Where the pointer is, in units of which [`POINTER_UNIT`] make a pixel.
#[derive(Clone, Copy, Debug, PartialEq, Eq, Structural)]
pub struct PointerPosition {
    pub x: i64,
    pub y: i64,
}

/// The whole pixel to which a window goes along one axis when the pointer is
/// at `root` on the screen and holds the window at `grip`: their difference,
/// rounded towards zero.
pub open spec fn dragged_coordinate(grip: int, root: int) -> int {
    clamped(toward_zero(root - grip, POINTER_UNIT as int))
}

/// Where the window goes when the pointer is at `root` on the screen and
/// holds the window at `grip`.
pub open spec fn dragged_origin(grip: PointerPosition, root: PointerPosition) -> Point {
    Point {
        x: dragged_coordinate(grip.x as int, root.x as int) as i32,
        y: dragged_coordinate(grip.y as int, root.y as int) as i32,
    }
}

fn drag_along(grip: i64, root: i64) -> (r: i32)
    ensures
        r == dragged_coordinate(grip as int, root as int),
{
    let pixels: i128 = (root as i128 - grip as i128) / (POINTER_UNIT as i128);
    if pixels < i32::MIN as i128 {
        i32::MIN
    } else if pixels > i32::MAX as i128 {
        i32::MAX
    } else {
        pixels as i32
    }
}

/// Follows a drag of the window by the primary button.
#[derive(Clone, Copy, Debug, PartialEq, Eq, Structural)]
pub struct WindowDrag {
    /// Where in the window the pointer was when the primary button went
    /// down last.
    pub grip: PointerPosition,
}

impl WindowDrag {
    /// No button has gone down yet: the grip is the window's origin.
    pub fn new() -> (drag: WindowDrag)
        ensures
            drag.grip == (PointerPosition { x: 0, y: 0 }),
    {
        WindowDrag { grip: PointerPosition { x: 0, y: 0 } }
    }

    /// A button went down at `position` in the window. The primary button
    /// takes hold of the window there; any other button changes nothing.
    pub fn press(&mut self, button: u32, position: PointerPosition)
        ensures
            final(self).grip == if button == PRIMARY_BUTTON {
                position
            } else {
                old(self).grip
            },
    {
        if button == PRIMARY_BUTTON {
            self.grip = position;
        }
    }

    /// The pointer moved to `root` on the screen with modifier state
    /// `modifiers`. While the primary button is held the window follows:
    /// the result is its new origin, in whole pixels. Otherwise the window
    /// stays.
    pub fn motion(&self, modifiers: u32, root: PointerPosition) -> (origin: Option<Point>)
        ensures
            origin == if modifiers & PRIMARY_BUTTON_HELD != 0 {
                Some(dragged_origin(self.grip, root))
            } else {
                None
            },
    {
        if modifiers & PRIMARY_BUTTON_HELD != 0 {
            Some(Point { x: drag_along(self.grip.x, root.x), y: drag_along(self.grip.y, root.y) })
        } else {
            None
        }
    }
}

} // verus!
